//! The shared grammar: the literal markers both export layouts use, the
//! fixed-width timestamp parser, and the v2 header, highlight and chapter
//! parsers, with `parse_boox` classifying the input and running the
//! matching pipeline.

use vstd::prelude::*;

use crate::model::{
    days_in_month, invalid_timestamp, malformed, sections_view, trailing_input, unexpected_end,
    BooxFile, ErrorKind, Highlight, Metadata, ParseError, Section, SpecBooxFile, SpecHighlight,
    SpecMetadata, SpecSection, Timestamp,
};
use crate::text::{
    digit_run_end, digit_val, digits_val, first_digit_at, is_digit_char, match_at, spec_find,
    spec_trim,
};
use crate::text::{
    digits_to_u32, find_from, is_match_at, scan_digit_run, scan_to_digit, seq_to_string,
    str_to_chars, trim_range,
};

pub use crate::text::is_digit;

verus! {

/// The separator between the export preamble and the title, a pipe
/// surrounded by no-break spaces.
pub open spec fn sep_marker() -> Seq<char> {
    seq!['\u{a0}', '|', '\u{a0}']
}

/// The opening delimiter of the title.
pub open spec fn title_open_marker() -> Seq<char> {
    seq!['<', '<']
}

/// The closing delimiter of the title.
pub open spec fn title_close_marker() -> Seq<char> {
    seq!['>', '>']
}

/// A line terminator.
pub open spec fn nl_marker() -> Seq<char> {
    seq!['\n']
}

/// The tag that introduces a reader's note in a v2 record.
pub open spec fn note_tag() -> Seq<char> {
    seq!['\u{3010}', 'N', 'o', 't', 'e', '\u{3011}']
}

/// The end-of-record marker, a run of nineteen dashes.
pub open spec fn end_marker() -> Seq<char> {
    seq![
        '-', '-', '-', '-', '-', '-', '-', '-', '-', '-', '-', '-', '-', '-', '-', '-', '-', '-',
        '-',
    ]
}

/// The separator marker as a vector of characters.
pub fn sep_chars() -> (v: Vec<char>)
    ensures
        v@ == sep_marker(),
{
    let mut v: Vec<char> = Vec::new();
    v.push('\u{a0}');
    v.push('|');
    v.push('\u{a0}');
    proof {
        assert(v@ =~= sep_marker());
    }
    v
}

/// The title-opening marker as a vector of characters.
pub fn title_open_chars() -> (v: Vec<char>)
    ensures
        v@ == title_open_marker(),
{
    let mut v: Vec<char> = Vec::new();
    v.push('<');
    v.push('<');
    proof {
        assert(v@ =~= title_open_marker());
    }
    v
}

/// The title-closing marker as a vector of characters.
pub fn title_close_chars() -> (v: Vec<char>)
    ensures
        v@ == title_close_marker(),
{
    let mut v: Vec<char> = Vec::new();
    v.push('>');
    v.push('>');
    proof {
        assert(v@ =~= title_close_marker());
    }
    v
}

/// The line terminator as a vector of characters.
pub fn nl_chars() -> (v: Vec<char>)
    ensures
        v@ == nl_marker(),
{
    let mut v: Vec<char> = Vec::new();
    v.push('\n');
    proof {
        assert(v@ =~= nl_marker());
    }
    v
}

/// The note tag as a vector of characters.
pub fn note_tag_chars() -> (v: Vec<char>)
    ensures
        v@ == note_tag(),
{
    let mut v: Vec<char> = Vec::new();
    v.push('\u{3010}');
    v.push('N');
    v.push('o');
    v.push('t');
    v.push('e');
    v.push('\u{3011}');
    proof {
        assert(v@ =~= note_tag());
    }
    v
}

/// The end-of-record marker as a vector of characters.
pub fn end_chars() -> (v: Vec<char>)
    ensures
        v@ == end_marker(),
{
    let mut v: Vec<char> = Vec::new();
    let mut i: usize = 0;
    while i < 19
        invariant
            i <= 19,
            v@.len() == i,
            forall|k: int| 0 <= k < i ==> v@[k] == '-',
        decreases 19 - i,
    {
        v.push('-');
        i = i + 1;
    }
    proof {
        assert(v@ =~= end_marker());
    }
    v
}

/// Whether the sixteen characters at `pos` have the fixed-width timestamp
/// shape: four digits, `-`, two digits, `-`, two digits, a space, two
/// digits, `:`, two digits.
pub open spec fn ts_shape_at(text: Seq<char>, pos: int) -> bool {
    &&& 0 <= pos
    &&& pos + 16 <= text.len()
    &&& is_digit_char(text[pos])
    &&& is_digit_char(text[pos + 1])
    &&& is_digit_char(text[pos + 2])
    &&& is_digit_char(text[pos + 3])
    &&& text[pos + 4] == '-'
    &&& is_digit_char(text[pos + 5])
    &&& is_digit_char(text[pos + 6])
    &&& text[pos + 7] == '-'
    &&& is_digit_char(text[pos + 8])
    &&& is_digit_char(text[pos + 9])
    &&& text[pos + 10] == ' '
    &&& is_digit_char(text[pos + 11])
    &&& is_digit_char(text[pos + 12])
    &&& text[pos + 13] == ':'
    &&& is_digit_char(text[pos + 14])
    &&& is_digit_char(text[pos + 15])
}

/// The value of the two-digit field at `i`.
pub open spec fn two_digit_val(text: Seq<char>, i: int) -> int {
    digit_val(text[i]) * 10 + digit_val(text[i + 1])
}

/// The value of the four-digit year field at `i`.
pub open spec fn four_digit_val(text: Seq<char>, i: int) -> int {
    ((digit_val(text[i]) * 10 + digit_val(text[i + 1])) * 10 + digit_val(text[i + 2])) * 10
        + digit_val(text[i + 3])
}

/// The timestamp value spelled by a well-shaped sixteen-character field
/// at `pos`.
pub open spec fn ts_at(text: Seq<char>, pos: int) -> Timestamp {
    Timestamp {
        year: four_digit_val(text, pos) as u32,
        month: two_digit_val(text, pos + 5) as u32,
        day: two_digit_val(text, pos + 8) as u32,
        hour: two_digit_val(text, pos + 11) as u32,
        minute: two_digit_val(text, pos + 14) as u32,
    }
}

/// Parses the fixed-width timestamp grammar at `pos`: every field must
/// have its exact width and the captured values must form a valid
/// calendar date and time, else the parse fails with `InvalidTimestamp`
/// at `pos`.
pub open spec fn spec_parse_timestamp(text: Seq<char>, pos: int) -> Result<
    (Timestamp, int),
    ParseError,
> {
    if ts_shape_at(text, pos) && ts_at(text, pos).wf() {
        Ok((ts_at(text, pos), pos + 16))
    } else {
        Err(invalid_timestamp(pos))
    }
}

/// Reads the two-digit field at `i`.
fn read_two_digits(text: &Vec<char>, i: usize) -> (r: u32)
    requires
        i + 2 <= text@.len(),
        is_digit_char(text@[i as int]),
        is_digit_char(text@[i + 1]),
    ensures
        r == two_digit_val(text@, i as int),
        r <= 99,
{
    let n: usize = text.len();
    let d1: u32 = text[i] as u32 - 48;
    let d0: u32 = text[i + 1] as u32 - 48;
    d1 * 10 + d0
}

/// Parses the shared timestamp grammar at position `pos` of `text`.
pub fn parse_timestamp_at(text: &Vec<char>, pos: usize) -> (r: Result<
    (Timestamp, usize),
    ParseError,
>)
    requires
        pos <= text@.len(),
    ensures
        match r {
            Ok((ts, p)) => spec_parse_timestamp(text@, pos as int) == Ok::<_, ParseError>(
                (ts, p as int),
            ) && p == pos + 16 && ts.wf(),
            Err(e) => spec_parse_timestamp(text@, pos as int) == Err::<(Timestamp, int), _>(e),
        },
{
    let n: usize = text.len();
    if n - pos < 16 {
        return Err(ParseError { kind: ErrorKind::InvalidTimestamp, pos });
    }
    let shape = is_digit(text[pos]) && is_digit(text[pos + 1]) && is_digit(text[pos + 2])
        && is_digit(text[pos + 3]) && text[pos + 4] == '-' && is_digit(text[pos + 5]) && is_digit(
        text[pos + 6],
    ) && text[pos + 7] == '-' && is_digit(text[pos + 8]) && is_digit(text[pos + 9]) && text[pos
        + 10] == ' ' && is_digit(text[pos + 11]) && is_digit(text[pos + 12]) && text[pos + 13]
        == ':' && is_digit(text[pos + 14]) && is_digit(text[pos + 15]);
    if !shape {
        return Err(ParseError { kind: ErrorKind::InvalidTimestamp, pos });
    }
    let y2: u32 = read_two_digits(text, pos);
    let y0: u32 = read_two_digits(text, pos + 2);
    let year: u32 = y2 * 100 + y0;
    let month: u32 = read_two_digits(text, pos + 5);
    let day: u32 = read_two_digits(text, pos + 8);
    let hour: u32 = read_two_digits(text, pos + 11);
    let minute: u32 = read_two_digits(text, pos + 14);
    let ts = Timestamp { year, month, day, hour, minute };
    proof {
        assert(ts == ts_at(text@, pos as int));
    }
    let month_ok = 1 <= month && month <= 12;
    let day_ok = month_ok && 1 <= day && day <= days_in_month_exec(year, month);
    let valid = day_ok && hour <= 23 && minute <= 59;
    if !valid {
        return Err(ParseError { kind: ErrorKind::InvalidTimestamp, pos });
    }
    Ok((ts, pos + 16))
}

/// Parses the v2 header at `pos`: skip to the separator, skip it, take the
/// title between `<<` and `>>`, then take the author as the rest of the
/// line, the line terminator being optional. Fails with `UnexpectedEnd`
/// when the separator or either title delimiter is missing.
pub open spec fn spec_parse_header_v2(text: Seq<char>, pos: int) -> Result<
    (SpecMetadata, int),
    ParseError,
> {
    match spec_find(text, sep_marker(), pos) {
        None => Err(unexpected_end(pos)),
        Some(s0) => {
            let p1 = s0 + sep_marker().len();
            if !match_at(text, title_open_marker(), p1) {
                Err(unexpected_end(p1))
            } else {
                let p2 = p1 + title_open_marker().len();
                match spec_find(text, title_close_marker(), p2) {
                    None => Err(unexpected_end(p2)),
                    Some(t1) => {
                        let title = text.subrange(p2, t1);
                        let p3 = t1 + title_close_marker().len();
                        match spec_find(text, nl_marker(), p3) {
                            Some(a1) => Ok(
                                (
                                    SpecMetadata { title, author: text.subrange(p3, a1) },
                                    a1 + nl_marker().len(),
                                ),
                            ),
                            None => Ok(
                                (
                                    SpecMetadata { title, author: text.subrange(p3, text.len() as int) },
                                    text.len() as int,
                                ),
                            ),
                        }
                    },
                }
            }
        },
    }
}

/// Parses the v2 header at position `pos` of `text`.
pub fn parse_header_v2_at(text: &Vec<char>, pos: usize) -> (r: Result<(Metadata, usize), ParseError>)
    requires
        pos <= text@.len(),
    ensures
        match r {
            Ok((md, p)) => spec_parse_header_v2(text@, pos as int) matches Ok(sp) && sp.0 == md@
                && sp.1 == p as int && pos <= p <= text@.len(),
            Err(e) => spec_parse_header_v2(text@, pos as int) == Err::<(SpecMetadata, int), _>(e),
        },
{
    let n: usize = text.len();
    let sep = sep_chars();
    let s0 = match find_from(text, &sep, pos) {
        Some(i) => i,
        None => {
            return Err(ParseError { kind: ErrorKind::UnexpectedEnd, pos });
        },
    };
    let p1 = s0 + sep.len();
    let topen = title_open_chars();
    if !is_match_at(text, &topen, p1) {
        return Err(ParseError { kind: ErrorKind::UnexpectedEnd, pos: p1 });
    }
    let p2 = p1 + topen.len();
    let tclose = title_close_chars();
    let t1 = match find_from(text, &tclose, p2) {
        Some(i) => i,
        None => {
            return Err(ParseError { kind: ErrorKind::UnexpectedEnd, pos: p2 });
        },
    };
    let title = seq_to_string(text, p2, t1);
    let p3 = t1 + tclose.len();
    let nl = nl_chars();
    match find_from(text, &nl, p3) {
        Some(a1) => {
            let author = seq_to_string(text, p3, a1);
            Ok((Metadata { title, author }, a1 + nl.len()))
        },
        None => {
            let author = seq_to_string(text, p3, n);
            Ok((Metadata { title, author }, n))
        },
    }
}

/// The note of a v2 record, read at the cut position `p3`: when the note
/// tag stands there and the end-of-record marker follows somewhere after,
/// the note is the trimmed text between them; otherwise there is no note
/// and the position is unchanged.
pub open spec fn spec_note_v2(text: Seq<char>, p3: int) -> (Option<Seq<char>>, int) {
    if match_at(text, note_tag(), p3) {
        let after = p3 + note_tag().len();
        match spec_find(text, end_marker(), after) {
            Some(e0) => (Some(spec_trim(text.subrange(after, e0))), e0),
            None => (None, p3),
        }
    } else {
        (None, p3)
    }
}

/// Parses a v2 highlight record at `pos`: a timestamp, then the page
/// number as the first digit run with the rest of its line skipped, then
/// the highlight text up to the earlier of the note tag and the
/// end-of-record marker, then an optional note, the end-of-record marker,
/// and an optional line terminator.
pub open spec fn spec_parse_highlight_v2(text: Seq<char>, pos: int) -> Result<
    (SpecHighlight, int),
    ParseError,
> {
    match spec_parse_timestamp(text, pos) {
        Err(e) => Err(e),
        Ok((ts, p1)) => {
            let dstart = first_digit_at(text, p1);
            let dend = digit_run_end(text, dstart);
            match spec_find(text, nl_marker(), dend) {
                None => Err(malformed(dend)),
                Some(n0) => {
                    if dstart == dend || digits_val(text.subrange(dstart, dend)) > u32::MAX as int {
                        Err(malformed(dstart))
                    } else {
                        let page = digits_val(text.subrange(dstart, dend)) as u32;
                        let p2 = n0 + nl_marker().len();
                        match crate::text::spec_cut(text, seq![note_tag(), end_marker()], p2) {
                            Err(e) => Err(e),
                            Ok((raw, p3)) => {
                                let np = spec_note_v2(text, p3);
                                if !match_at(text, end_marker(), np.1) {
                                    Err(malformed(np.1))
                                } else {
                                    let p5 = np.1 + end_marker().len();
                                    let p6 = if match_at(text, nl_marker(), p5) {
                                        p5 + nl_marker().len()
                                    } else {
                                        p5
                                    };
                                    Ok(
                                        (
                                            SpecHighlight {
                                                timestamp: ts,
                                                page,
                                                highlight: spec_trim(raw),
                                                note: np.0,
                                            },
                                            p6,
                                        ),
                                    )
                                }
                            },
                        }
                    }
                },
            }
        },
    }
}

/// Parses a v2 highlight record at position `pos` of `text`.
pub fn parse_highlight_v2_at(text: &Vec<char>, pos: usize) -> (r: Result<
    (Highlight, usize),
    ParseError,
>)
    requires
        pos <= text@.len(),
    ensures
        match r {
            Ok((h, p)) => spec_parse_highlight_v2(text@, pos as int) matches Ok(sp) && sp.0 == h@
                && sp.1 == p as int && pos < p <= text@.len(),
            Err(e) => spec_parse_highlight_v2(text@, pos as int) == Err::<(SpecHighlight, int), _>(
                e,
            ),
        },
{
    let n: usize = text.len();
    let (ts, p1) = match parse_timestamp_at(text, pos) {
        Ok(x) => x,
        Err(e) => {
            return Err(e);
        },
    };
    let dstart = scan_to_digit(text, p1);
    let dend = scan_digit_run(text, dstart);
    let nl = nl_chars();
    let n0 = match find_from(text, &nl, dend) {
        Some(i) => i,
        None => {
            return Err(ParseError { kind: ErrorKind::MalformedRecord, pos: dend });
        },
    };
    if dstart == dend {
        return Err(ParseError { kind: ErrorKind::MalformedRecord, pos: dstart });
    }
    let page = match digits_to_u32(text, dstart, dend) {
        Some(v) => v,
        None => {
            return Err(ParseError { kind: ErrorKind::MalformedRecord, pos: dstart });
        },
    };
    let p2 = n0 + nl.len();
    let tag = note_tag_chars();
    let endm = end_chars();
    let p3 = match crate::text::cut_two(text, &tag, &endm, p2) {
        Ok(c) => c,
        Err(e) => {
            return Err(e);
        },
    };
    let (a, b) = trim_range(text, p2, p3);
    let hl = seq_to_string(text, a, b);
    let has_tag = is_match_at(text, &tag, p3);
    let mut note: Option<String> = None;
    let mut p4: usize = p3;
    if has_tag {
        let after = p3 + tag.len();
        match find_from(text, &endm, after) {
            Some(e0) => {
                let (na, nb) = trim_range(text, after, e0);
                note = Some(seq_to_string(text, na, nb));
                p4 = e0;
            },
            None => {},
        }
    }
    proof {
        let np = spec_note_v2(text@, p3 as int);
        assert(np.1 == p4 as int);
        assert(np.0 == match note {
            Some(ref s) => Some(s@),
            None => None::<Seq<char>>,
        });
    }
    if !is_match_at(text, &endm, p4) {
        return Err(ParseError { kind: ErrorKind::MalformedRecord, pos: p4 });
    }
    let p5 = p4 + endm.len();
    let p6 = if is_match_at(text, &nl, p5) {
        p5 + nl.len()
    } else {
        p5
    };
    Ok((Highlight { timestamp: ts, page, highlight: hl, note }, p6))
}

/// Parses one v2 record at `pos`: the highlight grammar is tried first,
/// and on any failure the current line up to the next line terminator is
/// taken as a chapter heading instead. Fails with `UnexpectedEnd` only
/// when the highlight grammar fails and no line terminator remains.
pub open spec fn spec_parse_section_v2(text: Seq<char>, pos: int) -> Result<
    (SpecSection, int),
    ParseError,
> {
    match spec_parse_highlight_v2(text, pos) {
        Ok((h, p)) => Ok((SpecSection::HL(h), p)),
        Err(_) => match spec_find(text, nl_marker(), pos) {
            Some(c0) => Ok(
                (SpecSection::Chapter(text.subrange(pos, c0)), c0 + nl_marker().len()),
            ),
            None => Err(unexpected_end(pos)),
        },
    }
}

/// Parses one v2 record, highlight or chapter heading, at position `pos`.
pub fn parse_section_v2_at(text: &Vec<char>, pos: usize) -> (r: Result<(Section, usize), ParseError>)
    requires
        pos <= text@.len(),
    ensures
        match r {
            Ok((s, p)) => spec_parse_section_v2(text@, pos as int) matches Ok(sp) && sp.0 == s@
                && sp.1 == p as int && pos < p <= text@.len(),
            Err(e) => spec_parse_section_v2(text@, pos as int) == Err::<(SpecSection, int), _>(e),
        },
{
    let n: usize = text.len();
    match parse_highlight_v2_at(text, pos) {
        Ok((h, p)) => Ok((Section::HL(h), p)),
        Err(_) => {
            let nl = nl_chars();
            match find_from(text, &nl, pos) {
                Some(c0) => {
                    let heading = seq_to_string(text, pos, c0);
                    Ok((Section::Chapter(heading), c0 + nl.len()))
                },
                None => Err(ParseError { kind: ErrorKind::UnexpectedEnd, pos }),
            }
        },
    }
}

/// Parses v2 records from `pos` until one fails, collecting the sections
/// in source order and reporting the position after the last success.
pub open spec fn spec_sections_v2(text: Seq<char>, pos: int) -> (Seq<SpecSection>, int)
    decreases text.len() - pos,
{
    match spec_parse_section_v2(text, pos) {
        Ok((s, p)) => {
            if pos < p <= text.len() {
                let rest = spec_sections_v2(text, p);
                (seq![s] + rest.0, rest.1)
            } else {
                (seq![], pos)
            }
        },
        Err(_) => (seq![], pos),
    }
}

/// Parses v2 records from `pos` until one fails.
pub fn parse_sections_v2(text: &Vec<char>, pos: usize) -> (r: (Vec<Section>, usize))
    requires
        pos <= text@.len(),
    ensures
        sections_view(r.0@) == spec_sections_v2(text@, pos as int).0,
        r.1 as int == spec_sections_v2(text@, pos as int).1,
        pos <= r.1 <= text@.len(),
{
    let n: usize = text.len();
    let mut out: Vec<Section> = Vec::new();
    let mut cur: usize = pos;
    loop
        invariant
            n == text@.len(),
            pos <= cur <= n,
            spec_sections_v2(text@, pos as int).0 == sections_view(out@) + spec_sections_v2(
                text@,
                cur as int,
            ).0,
            spec_sections_v2(text@, pos as int).1 == spec_sections_v2(text@, cur as int).1,
        ensures
            n == text@.len(),
            pos <= cur <= n,
            spec_sections_v2(text@, pos as int).0 =~= sections_view(out@),
            spec_sections_v2(text@, pos as int).1 == cur as int,
        decreases n - cur,
    {
        match parse_section_v2_at(text, cur) {
            Ok((s, p)) => {
                proof {
                    let ghost prev = out@;
                    assert(spec_sections_v2(text@, cur as int).0 == seq![s@] + spec_sections_v2(
                        text@,
                        p as int,
                    ).0);
                    assert(sections_view(prev.push(s)) =~= sections_view(prev) + seq![s@]);
                    assert((sections_view(prev) + seq![s@]) + spec_sections_v2(text@, p as int).0
                        =~= sections_view(prev) + (seq![s@] + spec_sections_v2(text@, p as int).0));
                }
                out.push(s);
                cur = p;
            },
            Err(_) => {
                proof {
                    assert(spec_sections_v2(text@, cur as int).0 == Seq::<SpecSection>::empty());
                    assert(sections_view(out@) + Seq::<SpecSection>::empty() =~= sections_view(
                        out@,
                    ));
                }
                break;
            },
        }
    }
    (out, cur)
}

/// Parses a whole v2 document: the header, then records until the input
/// is exhausted. Unparsed trailing bytes after the last record fail the
/// whole parse with `TrailingInput` at the position where they begin.
pub open spec fn spec_parse_boox_v2(text: Seq<char>) -> Result<SpecBooxFile, ParseError> {
    match spec_parse_header_v2(text, 0) {
        Err(e) => Err(e),
        Ok((md, p)) => {
            let rest = spec_sections_v2(text, p);
            if rest.1 == text.len() {
                Ok(SpecBooxFile { metadata: md, sections: rest.0 })
            } else {
                Err(trailing_input(rest.1))
            }
        },
    }
}

/// Parses a whole v2 document held in `text`.
pub fn parse_boox_v2_chars(text: &Vec<char>) -> (r: Result<BooxFile, ParseError>)
    ensures
        match r {
            Ok(b) => spec_parse_boox_v2(text@) == Ok::<_, ParseError>(b@),
            Err(e) => spec_parse_boox_v2(text@) == Err::<SpecBooxFile, _>(e),
        },
{
    match parse_header_v2_at(text, 0) {
        Ok((md, p)) => {
            let (sections, q) = parse_sections_v2(text, p);
            if q != text.len() {
                Err(ParseError { kind: ErrorKind::TrailingInput, pos: q })
            } else {
                Ok(BooxFile { metadata: md, sections })
            }
        },
        Err(e) => Err(e),
    }
}

/// Parses the shared fixed-width timestamp grammar at the start of `i`,
/// returning the remainder of the input and the timestamp, whose seconds
/// are always zero.
pub fn parse_timestamp(i: &str) -> (r: Result<(&str, Timestamp), ParseError>)
    ensures
        match r {
            Ok((rest, ts)) => spec_parse_timestamp(i@, 0) matches Ok(sp) && sp.0 == ts && rest@
                == i@.subrange(sp.1, i@.len() as int),
            Err(e) => spec_parse_timestamp(i@, 0) == Err::<(Timestamp, int), _>(e),
        },
{
    let text = str_to_chars(i);
    match parse_timestamp_at(&text, 0) {
        Ok((ts, p)) => {
            let rest = i.substring_char(p, i.unicode_len());
            Ok((rest, ts))
        },
        Err(e) => Err(e),
    }
}

/// Parses the v2 header at the start of `i`, returning the remainder and
/// the metadata; the author's line terminator is optional.
pub fn parse_header(i: &str) -> (r: Result<(&str, Metadata), ParseError>)
    ensures
        match r {
            Ok((rest, md)) => spec_parse_header_v2(i@, 0) matches Ok(sp) && sp.0 == md@ && rest@
                == i@.subrange(sp.1, i@.len() as int),
            Err(e) => spec_parse_header_v2(i@, 0) == Err::<(SpecMetadata, int), _>(e),
        },
{
    let text = str_to_chars(i);
    match parse_header_v2_at(&text, 0) {
        Ok((md, p)) => {
            let rest = i.substring_char(p, i.unicode_len());
            Ok((rest, md))
        },
        Err(e) => Err(e),
    }
}

/// Parses a v2 highlight record at the start of `i`, returning the
/// remainder and the highlight.
pub fn parse_highlight(i: &str) -> (r: Result<(&str, Highlight), ParseError>)
    ensures
        match r {
            Ok((rest, h)) => spec_parse_highlight_v2(i@, 0) matches Ok(sp) && sp.0 == h@ && rest@
                == i@.subrange(sp.1, i@.len() as int),
            Err(e) => spec_parse_highlight_v2(i@, 0) == Err::<(SpecHighlight, int), _>(e),
        },
{
    let text = str_to_chars(i);
    match parse_highlight_v2_at(&text, 0) {
        Ok((h, p)) => {
            let rest = i.substring_char(p, i.unicode_len());
            Ok((rest, h))
        },
        Err(e) => Err(e),
    }
}

/// Parses one v2 record at the start of `i`: a highlight when the
/// highlight grammar matches, else the current line as a chapter heading.
pub fn parse_highlight_or_chapter(i: &str) -> (r: Result<(&str, Section), ParseError>)
    ensures
        match r {
            Ok((rest, s)) => spec_parse_section_v2(i@, 0) matches Ok(sp) && sp.0 == s@ && rest@
                == i@.subrange(sp.1, i@.len() as int),
            Err(e) => spec_parse_section_v2(i@, 0) == Err::<(SpecSection, int), _>(e),
        },
{
    let text = str_to_chars(i);
    match parse_section_v2_at(&text, 0) {
        Ok((s, p)) => {
            let rest = i.substring_char(p, i.unicode_len());
            Ok((rest, s))
        },
        Err(e) => Err(e),
    }
}

/// Parses a whole document: the input is classified as v1 exactly when
/// all five v1 markers occur in it, and the matching pipeline then parses
/// it completely.
pub open spec fn spec_parse_boox(text: Seq<char>) -> Result<SpecBooxFile, ParseError> {
    if crate::parse_boox_v1::spec_is_v1(text) {
        crate::parse_boox_v1::spec_parse_boox_v1(text)
    } else {
        spec_parse_boox_v2(text)
    }
}

/// Parses a whole export document held in `i`, selecting the v1 or v2
/// grammar by marker presence. On success the remainder is empty: a
/// document with unparsed trailing input fails with `TrailingInput`.
pub fn parse_boox(i: &str) -> (r: Result<(&str, BooxFile), ParseError>)
    ensures
        match r {
            Ok((rest, b)) => spec_parse_boox(i@) == Ok::<_, ParseError>(b@) && rest@
                == Seq::<char>::empty(),
            Err(e) => spec_parse_boox(i@) == Err::<SpecBooxFile, _>(e),
        },
{
    let text = str_to_chars(i);
    let res = if crate::parse_boox_v1::is_v1_chars(&text) {
        crate::parse_boox_v1::parse_boox_v1_chars(&text)
    } else {
        parse_boox_v2_chars(&text)
    };
    match res {
        Ok(b) => {
            let n: usize = i.unicode_len();
            let rest = i.substring_char(n, n);
            proof {
                assert(rest@ =~= Seq::<char>::empty());
            }
            Ok((rest, b))
        },
        Err(e) => Err(e),
    }
}

/// The number of days of month `m` in year `y`.
fn days_in_month_exec(y: u32, m: u32) -> (r: u32)
    ensures
        r == days_in_month(y as int, m as int),
{
    if m == 2 {
        if y % 4 == 0 && (y % 100 != 0 || y % 400 == 0) {
            29
        } else {
            28
        }
    } else if m == 4 || m == 6 || m == 9 || m == 11 {
        30
    } else {
        31
    }
}

} // verus!
