use highlight_extract::model::{ErrorKind, Highlight, Metadata, ParseError, Section, Timestamp};
use highlight_extract::parse_boox;
use highlight_extract::parse_boox_v1;

fn ts(year: u32, month: u32, day: u32, hour: u32, minute: u32) -> Timestamp {
    Timestamp { year, month, day, hour, minute }
}

#[test]
fn timestamp_test() {
    assert_eq!(
        parse_boox::parse_timestamp("2023-04-03 00:41"),
        Ok(("", ts(2023, 4, 3, 0, 41)))
    );

    assert_eq!(
        parse_boox::parse_timestamp("oh no 2023-04-03 00:41"),
        Err(ParseError { kind: ErrorKind::InvalidTimestamp, pos: 0 })
    );
}

#[test]
fn parse_boox_header_test() {
    assert_eq!(
        parse_boox::parse_header(
            "Reading Notes\u{a0}|\u{a0}<<Building a Second Brain -- A Proven Method>>Tiago Forte\n"
        ),
        Ok((
            "",
            Metadata {
                title: "Building a Second Brain -- A Proven Method".to_owned(),
                author: "Tiago Forte".to_owned()
            }
        ))
    );

    assert_eq!(
        parse_boox::parse_header("Reading Notes"),
        Err(ParseError { kind: ErrorKind::UnexpectedEnd, pos: 0 })
    );
}

#[test]
fn parse_boox_highlight_test() {
    assert_eq!(
        parse_boox::parse_highlight(
            "2023-04-03 01:21\u{a0}\u{a0}|\u{a0}\u{a0}Page No.: 32\nWe bookmark articles to read later\n【Note】There's too many\n-------------------\n"
        ),
        Ok((
            "",
            Highlight {
                timestamp: ts(2023, 4, 3, 1, 21),
                page: 32,
                highlight: "We bookmark articles to read later".to_owned(),
                note: Some("There's too many".to_owned())
            }
        ))
    );

    assert_eq!(
        parse_boox::parse_highlight(
            "2023-04-03 01:21\u{a0}\u{a0}|\u{a0}\u{a0}Page No.: 32\nWe bookmark articles to read later\n【Note】There's too many\n-------------------"
        ),
        Ok((
            "",
            Highlight {
                timestamp: ts(2023, 4, 3, 1, 21),
                page: 32,
                highlight: "We bookmark articles to read later".to_owned(),
                note: Some("There's too many".to_owned())
            }
        ))
    );

    assert_eq!(
        parse_boox::parse_highlight("Reading Notes"),
        Err(ParseError { kind: ErrorKind::InvalidTimestamp, pos: 0 })
    );

    assert_eq!(
        parse_boox::parse_highlight("Chapter 3: How a Second Brain Works"),
        Err(ParseError { kind: ErrorKind::InvalidTimestamp, pos: 0 })
    );
}

#[test]
fn parse_boox_section_test() {
    assert_eq!(
        parse_boox::parse_highlight_or_chapter(
            "2023-04-03 01:21\u{a0}\u{a0}|\u{a0}\u{a0}Page No.: 32\nWe bookmark articles to read later\n【Note】There's too many\n-------------------\n"
        ),
        Ok((
            "",
            Section::HL(Highlight {
                timestamp: ts(2023, 4, 3, 1, 21),
                page: 32,
                highlight: "We bookmark articles to read later".to_owned(),
                note: Some("There's too many".to_owned())
            })
        ))
    );

    assert_eq!(
        parse_boox::parse_highlight_or_chapter("Chapter 3: How a Second Brain Works\n"),
        Ok((
            "",
            Section::Chapter("Chapter 3: How a Second Brain Works".to_string())
        ))
    );
}

#[test]
fn parse_boox_v2_header_test() {
    assert_eq!(
        parse_boox::parse_header(
            "Reading Notes\u{a0}|\u{a0}<<Building a Second Brain -- A Proven Method>>Tiago Forte\n"
        ),
        Ok((
            "",
            Metadata {
                title: "Building a Second Brain -- A Proven Method".to_owned(),
                author: "Tiago Forte".to_owned()
            }
        ))
    );

    assert_eq!(
        parse_boox::parse_header("Reading Notes"),
        Err(ParseError { kind: ErrorKind::UnexpectedEnd, pos: 0 })
    );
}

#[test]
fn parse_boox_v2_highlight_test() {
    assert_eq!(
        parse_boox::parse_highlight(
            "2023-04-03 01:21\u{a0}\u{a0}|\u{a0}\u{a0}Page No.: 32\nWe bookmark articles to read later\n【Note】There's too many\n-------------------\n"
        ),
        Ok((
            "",
            Highlight {
                timestamp: ts(2023, 4, 3, 1, 21),
                page: 32,
                highlight: "We bookmark articles to read later".to_owned(),
                note: Some("There's too many".to_owned())
            }
        ))
    );

    assert_eq!(
        parse_boox::parse_highlight(
            "2023-04-03 01:21\u{a0}\u{a0}|\u{a0}\u{a0}Page No.: 32\nWe bookmark articles to read later\n【Note】There's too many\n-------------------"
        ),
        Ok((
            "",
            Highlight {
                timestamp: ts(2023, 4, 3, 1, 21),
                page: 32,
                highlight: "We bookmark articles to read later".to_owned(),
                note: Some("There's too many".to_owned())
            }
        ))
    );

    assert_eq!(
        parse_boox::parse_highlight("Reading Notes"),
        Err(ParseError { kind: ErrorKind::InvalidTimestamp, pos: 0 })
    );

    assert_eq!(
        parse_boox::parse_highlight("Chapter 3: How a Second Brain Works"),
        Err(ParseError { kind: ErrorKind::InvalidTimestamp, pos: 0 })
    );
}

#[test]
fn parse_boox_v2_section_test() {
    assert_eq!(
        parse_boox::parse_highlight_or_chapter(
            "2023-04-03 01:21\u{a0}\u{a0}|\u{a0}\u{a0}Page No.: 32\nWe bookmark articles to read later\n【Note】There's too many\n-------------------\n"
        ),
        Ok((
            "",
            Section::HL(Highlight {
                timestamp: ts(2023, 4, 3, 1, 21),
                page: 32,
                highlight: "We bookmark articles to read later".to_owned(),
                note: Some("There's too many".to_owned())
            })
        ))
    );

    assert_eq!(
        parse_boox::parse_highlight_or_chapter("Chapter 3: How a Second Brain Works\n"),
        Ok((
            "",
            Section::Chapter("Chapter 3: How a Second Brain Works".to_string())
        ))
    );
}

#[test]
fn parse_boox_v1_header_test() {
    assert_eq!(
        parse_boox_v1::parse_header("Reading Notes\u{a0}|\u{a0}<<One Up on Wall Street - Peter Lynch & John Rothchild (952)>>\nPeter Lynch; John Rothchild\n"),
        Ok((
            "",
            Metadata {
                title: "One Up on Wall Street - Peter Lynch & John Rothchild (952)".to_owned(),
                author: "Peter Lynch; John Rothchild".to_owned()
            }
        ))
    );

    assert_eq!(
        parse_boox_v1::parse_header("Reading Notes"),
        Err(ParseError { kind: ErrorKind::UnexpectedEnd, pos: 0 })
    );
}

#[test]
fn parse_boox_v1_highlight_test() {
    assert_eq!(
        parse_boox_v1::parse_highlight(
            "Time：2022-03-07 01:11\n【Original Text】tics to a degree\n【Annotations】some very good annotation\n【Page Number】13\n-------------------\n"
        ),
        Ok((
            "",
            Highlight {
                timestamp: ts(2022, 3, 7, 1, 11),
                page: 13,
                highlight: "tics to a degree".to_owned(),
                note: Some("some very good annotation".to_owned())
            }
        ))
    );

    assert_eq!(
        parse_boox_v1::parse_highlight("Reading Notes"),
        Err(ParseError { kind: ErrorKind::MalformedRecord, pos: 0 })
    );
}
