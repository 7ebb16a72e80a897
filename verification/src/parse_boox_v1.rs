//! The v1 grammar: format detection by marker presence, the v1 header
//! whose title line ends in a required line terminator, and v1 records
//! made of a discarded chapter-heading line followed by explicitly
//! marked timestamp, text, annotation and page-number fields.

use vstd::prelude::*;

use crate::model::{
    malformed, sections_view, trailing_input, unexpected_end, BooxFile, ErrorKind, Highlight,
    Metadata, ParseError, Section, SpecBooxFile, SpecHighlight, SpecMetadata, SpecSection,
};
use crate::parse_boox::{
    end_chars, end_marker, nl_chars, nl_marker, sep_chars, sep_marker, spec_parse_timestamp,
    parse_timestamp_at, title_close_chars, title_close_marker, title_open_chars,
    title_open_marker,
};
use crate::text::{
    all_digits, contains_marker, contains_pat, digits_to_u32, digits_val, find_from, is_digit_char,
    is_match_at, match_at, scan_digit_run, seq_to_string, spec_find, spec_trim, str_to_chars,
    trim_range,
};

verus! {

/// The marker that opens the timestamp field of a v1 record; its colon is
/// the full-width character.
pub open spec fn time_marker() -> Seq<char> {
    seq!['T', 'i', 'm', 'e', '\u{ff1a}']
}

/// The marker that opens the highlighted text field of a v1 record.
pub open spec fn v1_text_marker() -> Seq<char> {
    seq![
        '\u{3010}', 'O', 'r', 'i', 'g', 'i', 'n', 'a', 'l', ' ', 'T', 'e', 'x', 't', '\u{3011}',
    ]
}

/// The marker that opens the annotations field of a v1 record.
pub open spec fn v1_note_marker() -> Seq<char> {
    seq!['\u{3010}', 'A', 'n', 'n', 'o', 't', 'a', 't', 'i', 'o', 'n', 's', '\u{3011}']
}

/// The marker that opens the page-number field of a v1 record.
pub open spec fn v1_page_marker() -> Seq<char> {
    seq!['\u{3010}', 'P', 'a', 'g', 'e', ' ', 'N', 'u', 'm', 'b', 'e', 'r', '\u{3011}']
}

/// The time marker as a vector of characters.
pub fn time_chars() -> (v: Vec<char>)
    ensures
        v@ == time_marker(),
{
    let mut v: Vec<char> = Vec::new();
    v.push('T');
    v.push('i');
    v.push('m');
    v.push('e');
    v.push('\u{ff1a}');
    proof {
        assert(v@ =~= time_marker());
    }
    v
}

/// The original-text marker as a vector of characters.
pub fn v1_text_chars() -> (v: Vec<char>)
    ensures
        v@ == v1_text_marker(),
{
    let mut v: Vec<char> = Vec::new();
    v.push('\u{3010}');
    v.push('O');
    v.push('r');
    v.push('i');
    v.push('g');
    v.push('i');
    v.push('n');
    v.push('a');
    v.push('l');
    v.push(' ');
    v.push('T');
    v.push('e');
    v.push('x');
    v.push('t');
    v.push('\u{3011}');
    proof {
        assert(v@ =~= v1_text_marker());
    }
    v
}

/// The annotations marker as a vector of characters.
pub fn v1_note_chars() -> (v: Vec<char>)
    ensures
        v@ == v1_note_marker(),
{
    let mut v: Vec<char> = Vec::new();
    v.push('\u{3010}');
    v.push('A');
    v.push('n');
    v.push('n');
    v.push('o');
    v.push('t');
    v.push('a');
    v.push('t');
    v.push('i');
    v.push('o');
    v.push('n');
    v.push('s');
    v.push('\u{3011}');
    proof {
        assert(v@ =~= v1_note_marker());
    }
    v
}

/// The page-number marker as a vector of characters.
pub fn v1_page_chars() -> (v: Vec<char>)
    ensures
        v@ == v1_page_marker(),
{
    let mut v: Vec<char> = Vec::new();
    v.push('\u{3010}');
    v.push('P');
    v.push('a');
    v.push('g');
    v.push('e');
    v.push(' ');
    v.push('N');
    v.push('u');
    v.push('m');
    v.push('b');
    v.push('e');
    v.push('r');
    v.push('\u{3011}');
    proof {
        assert(v@ =~= v1_page_marker());
    }
    v
}

/// A document is in the v1 layout exactly when all five v1 markers occur
/// in it somewhere, as substrings.
pub open spec fn spec_is_v1(text: Seq<char>) -> bool {
    &&& contains_marker(text, time_marker())
    &&& contains_marker(text, v1_text_marker())
    &&& contains_marker(text, v1_note_marker())
    &&& contains_marker(text, v1_page_marker())
    &&& contains_marker(text, end_marker())
}

/// Whether `text` holds all five v1 markers.
pub fn is_v1_chars(text: &Vec<char>) -> (r: bool)
    ensures
        r == spec_is_v1(text@),
{
    let time = time_chars();
    let t = v1_text_chars();
    let nt = v1_note_chars();
    let pg = v1_page_chars();
    let endm = end_chars();
    contains_pat(text, &time) && contains_pat(text, &t) && contains_pat(text, &nt) && contains_pat(
        text,
        &pg,
    ) && contains_pat(text, &endm)
}

/// Whether the document held by `i` is in the v1 layout: true exactly
/// when all five v1 markers occur in it as substrings. This never fails,
/// and an input missing any marker is classified as v2.
pub fn is_v1(i: &str) -> (r: bool)
    ensures
        r == spec_is_v1(i@),
{
    let text = str_to_chars(i);
    is_v1_chars(&text)
}

/// Parses the v1 header at `pos`: skip to the separator, skip it, take
/// the title between `<<` and `>>` followed by a required line
/// terminator, then the author line, also with a required terminator.
/// Every missing token fails with `UnexpectedEnd`.
pub open spec fn spec_parse_header_v1(text: Seq<char>, pos: int) -> Result<
    (SpecMetadata, int),
    ParseError,
> {
    match spec_find(text, sep_marker(), pos) {
        None => Err(unexpected_end(pos)),
        Some(s0) => {
            let p1 = s0 + sep_marker().len();
            if !match_at(text, title_open_marker(), p1) {
                Err(unexpected_end(p1))
            } else {
                let p2 = p1 + title_open_marker().len();
                match spec_find(text, title_close_marker(), p2) {
                    None => Err(unexpected_end(p2)),
                    Some(t1) => {
                        let title = text.subrange(p2, t1);
                        let p3 = t1 + title_close_marker().len();
                        if !match_at(text, nl_marker(), p3) {
                            Err(unexpected_end(p3))
                        } else {
                            let p4 = p3 + nl_marker().len();
                            match spec_find(text, nl_marker(), p4) {
                                None => Err(unexpected_end(p4)),
                                Some(a1) => Ok(
                                    (
                                        SpecMetadata { title, author: text.subrange(p4, a1) },
                                        a1 + nl_marker().len(),
                                    ),
                                ),
                            }
                        }
                    },
                }
            }
        },
    }
}

/// Parses the v1 header at position `pos` of `text`.
pub fn parse_header_v1_at(text: &Vec<char>, pos: usize) -> (r: Result<(Metadata, usize), ParseError>)
    requires
        pos <= text@.len(),
    ensures
        match r {
            Ok((md, p)) => spec_parse_header_v1(text@, pos as int) matches Ok(sp) && sp.0 == md@
                && sp.1 == p as int && pos <= p <= text@.len(),
            Err(e) => spec_parse_header_v1(text@, pos as int) == Err::<(SpecMetadata, int), _>(e),
        },
{
    let n: usize = text.len();
    let sep = sep_chars();
    let s0 = match find_from(text, &sep, pos) {
        Some(i) => i,
        None => {
            return Err(ParseError { kind: ErrorKind::UnexpectedEnd, pos });
        },
    };
    let p1 = s0 + sep.len();
    let topen = title_open_chars();
    if !is_match_at(text, &topen, p1) {
        return Err(ParseError { kind: ErrorKind::UnexpectedEnd, pos: p1 });
    }
    let p2 = p1 + topen.len();
    let tclose = title_close_chars();
    let t1 = match find_from(text, &tclose, p2) {
        Some(i) => i,
        None => {
            return Err(ParseError { kind: ErrorKind::UnexpectedEnd, pos: p2 });
        },
    };
    let title = seq_to_string(text, p2, t1);
    let p3 = t1 + tclose.len();
    let nl = nl_chars();
    if !is_match_at(text, &nl, p3) {
        return Err(ParseError { kind: ErrorKind::UnexpectedEnd, pos: p3 });
    }
    let p4 = p3 + nl.len();
    match find_from(text, &nl, p4) {
        Some(a1) => {
            let author = seq_to_string(text, p4, a1);
            Ok((Metadata { title, author }, a1 + nl.len()))
        },
        None => Err(ParseError { kind: ErrorKind::UnexpectedEnd, pos: p4 }),
    }
}

/// Parses a v1 highlight record at `pos`: the time marker, a timestamp,
/// a skip to the original-text marker, the highlighted text up to the
/// annotations marker, the annotation up to the page-number marker, the
/// page digits up to the end-of-record marker, and a required line
/// terminator. A missing marker or a malformed page number fails with
/// `MalformedRecord`; an annotation that is empty after trimming means no
/// note.
pub open spec fn spec_parse_highlight_v1(text: Seq<char>, pos: int) -> Result<
    (SpecHighlight, int),
    ParseError,
> {
    if !match_at(text, time_marker(), pos) {
        Err(malformed(pos))
    } else {
        match spec_parse_timestamp(text, pos + time_marker().len()) {
            Err(e) => Err(e),
            Ok((ts, p1)) => match spec_find(text, v1_text_marker(), p1) {
                None => Err(malformed(p1)),
                Some(h0) => {
                    let p2 = h0 + v1_text_marker().len();
                    match spec_find(text, v1_note_marker(), p2) {
                        None => Err(malformed(p2)),
                        Some(n0) => {
                            let hl = spec_trim(text.subrange(p2, n0));
                            let p3 = n0 + v1_note_marker().len();
                            match spec_find(text, v1_page_marker(), p3) {
                                None => Err(malformed(p3)),
                                Some(g0) => {
                                    let note_raw = spec_trim(text.subrange(p3, g0));
                                    let p4 = g0 + v1_page_marker().len();
                                    match spec_find(text, end_marker(), p4) {
                                        None => Err(malformed(p4)),
                                        Some(e0) => {
                                            let pr = spec_trim(text.subrange(p4, e0));
                                            if pr.len() == 0 || !all_digits(pr) || digits_val(pr)
                                                > u32::MAX as int {
                                                Err(malformed(p4))
                                            } else {
                                                let p5 = e0 + end_marker().len();
                                                if !match_at(text, nl_marker(), p5) {
                                                    Err(malformed(p5))
                                                } else {
                                                    let note = if note_raw.len() == 0 {
                                                        None
                                                    } else {
                                                        Some(note_raw)
                                                    };
                                                    Ok(
                                                        (
                                                            SpecHighlight {
                                                                timestamp: ts,
                                                                page: digits_val(pr) as u32,
                                                                highlight: hl,
                                                                note,
                                                            },
                                                            p5 + nl_marker().len(),
                                                        ),
                                                    )
                                                }
                                            }
                                        },
                                    }
                                },
                            }
                        },
                    }
                },
            },
        }
    }
}

/// Parses a v1 highlight record at position `pos` of `text`.
pub fn parse_highlight_v1_at(text: &Vec<char>, pos: usize) -> (r: Result<
    (Highlight, usize),
    ParseError,
>)
    requires
        pos <= text@.len(),
    ensures
        match r {
            Ok((h, p)) => spec_parse_highlight_v1(text@, pos as int) matches Ok(sp) && sp.0 == h@
                && sp.1 == p as int && pos < p <= text@.len(),
            Err(e) => spec_parse_highlight_v1(text@, pos as int) == Err::<(SpecHighlight, int), _>(
                e,
            ),
        },
{
    let n: usize = text.len();
    let time = time_chars();
    if !is_match_at(text, &time, pos) {
        return Err(ParseError { kind: ErrorKind::MalformedRecord, pos });
    }
    let (ts, p1) = match parse_timestamp_at(text, pos + time.len()) {
        Ok(x) => x,
        Err(e) => {
            return Err(e);
        },
    };
    let tm = v1_text_chars();
    let h0 = match find_from(text, &tm, p1) {
        Some(i) => i,
        None => {
            return Err(ParseError { kind: ErrorKind::MalformedRecord, pos: p1 });
        },
    };
    let p2 = h0 + tm.len();
    let nm = v1_note_chars();
    let n0 = match find_from(text, &nm, p2) {
        Some(i) => i,
        None => {
            return Err(ParseError { kind: ErrorKind::MalformedRecord, pos: p2 });
        },
    };
    let (ha, hb) = trim_range(text, p2, n0);
    let hl = seq_to_string(text, ha, hb);
    let p3 = n0 + nm.len();
    let pm = v1_page_chars();
    let g0 = match find_from(text, &pm, p3) {
        Some(i) => i,
        None => {
            return Err(ParseError { kind: ErrorKind::MalformedRecord, pos: p3 });
        },
    };
    let (na, nb) = trim_range(text, p3, g0);
    let p4 = g0 + pm.len();
    let endm = end_chars();
    let e0 = match find_from(text, &endm, p4) {
        Some(i) => i,
        None => {
            return Err(ParseError { kind: ErrorKind::MalformedRecord, pos: p4 });
        },
    };
    let (pa, pb) = trim_range(text, p4, e0);
    let ghost pr = spec_trim(text@.subrange(p4 as int, e0 as int));
    let run_end = scan_digit_run(text, pa);
    if pa == pb || run_end < pb {
        proof {
            if run_end < pb {
                assert(!is_digit_char(pr[run_end - pa])) by {
                    assert(pr[run_end - pa] == text@[run_end as int]);
                }
            }
        }
        return Err(ParseError { kind: ErrorKind::MalformedRecord, pos: p4 });
    }
    proof {
        assert(all_digits(pr)) by {
            assert forall|k: int| 0 <= k < pr.len() implies is_digit_char(#[trigger] pr[k]) by {
                assert(pr[k] == text@[pa + k]);
            }
        }
    }
    let page = match digits_to_u32(text, pa, pb) {
        Some(v) => v,
        None => {
            return Err(ParseError { kind: ErrorKind::MalformedRecord, pos: p4 });
        },
    };
    let p5 = e0 + endm.len();
    let nl = nl_chars();
    if !is_match_at(text, &nl, p5) {
        return Err(ParseError { kind: ErrorKind::MalformedRecord, pos: p5 });
    }
    let note = if na == nb {
        None
    } else {
        Some(seq_to_string(text, na, nb))
    };
    Ok((Highlight { timestamp: ts, page, highlight: hl, note }, p5 + nl.len()))
}

/// Parses one v1 record at `pos`: a chapter-heading line, which is read
/// and then discarded from the output model, followed by a highlight.
pub open spec fn spec_parse_sectioned_v1(text: Seq<char>, pos: int) -> Result<
    ((Seq<char>, SpecHighlight), int),
    ParseError,
> {
    match spec_find(text, nl_marker(), pos) {
        None => Err(unexpected_end(pos)),
        Some(c0) => {
            let heading = text.subrange(pos, c0);
            match spec_parse_highlight_v1(text, c0 + nl_marker().len()) {
                Err(e) => Err(e),
                Ok((h, p)) => Ok(((heading, h), p)),
            }
        },
    }
}

/// Parses one v1 record, a chapter-heading line and its highlight, at
/// position `pos` of `text`.
pub fn parse_sectioned_v1_at(text: &Vec<char>, pos: usize) -> (r: Result<
    ((String, Highlight), usize),
    ParseError,
>)
    requires
        pos <= text@.len(),
    ensures
        match r {
            Ok((sh, p)) => spec_parse_sectioned_v1(text@, pos as int) matches Ok(sp) && sp.0.0
                == sh.0@ && sp.0.1 == sh.1@ && sp.1 == p as int && pos < p <= text@.len(),
            Err(e) => spec_parse_sectioned_v1(text@, pos as int) == Err::<
                ((Seq<char>, SpecHighlight), int),
                _,
            >(e),
        },
{
    let n: usize = text.len();
    let nl = nl_chars();
    let c0 = match find_from(text, &nl, pos) {
        Some(i) => i,
        None => {
            return Err(ParseError { kind: ErrorKind::UnexpectedEnd, pos });
        },
    };
    let heading = seq_to_string(text, pos, c0);
    match parse_highlight_v1_at(text, c0 + nl.len()) {
        Ok((h, p)) => Ok(((heading, h), p)),
        Err(e) => Err(e),
    }
}

/// Parses v1 records from `pos` until one fails, keeping each highlight,
/// in source order, as a section; the chapter-heading text of each record
/// is discarded.
pub open spec fn spec_sections_v1(text: Seq<char>, pos: int) -> (Seq<SpecSection>, int)
    decreases text.len() - pos,
{
    match spec_parse_sectioned_v1(text, pos) {
        Ok((sh, p)) => {
            if pos < p <= text.len() {
                let rest = spec_sections_v1(text, p);
                (seq![SpecSection::HL(sh.1)] + rest.0, rest.1)
            } else {
                (seq![], pos)
            }
        },
        Err(_) => (seq![], pos),
    }
}

/// Parses v1 records from `pos` until one fails.
pub fn parse_sections_v1(text: &Vec<char>, pos: usize) -> (r: (Vec<Section>, usize))
    requires
        pos <= text@.len(),
    ensures
        sections_view(r.0@) == spec_sections_v1(text@, pos as int).0,
        r.1 as int == spec_sections_v1(text@, pos as int).1,
        pos <= r.1 <= text@.len(),
{
    let n: usize = text.len();
    let mut out: Vec<Section> = Vec::new();
    let mut cur: usize = pos;
    loop
        invariant
            n == text@.len(),
            pos <= cur <= n,
            spec_sections_v1(text@, pos as int).0 == sections_view(out@) + spec_sections_v1(
                text@,
                cur as int,
            ).0,
            spec_sections_v1(text@, pos as int).1 == spec_sections_v1(text@, cur as int).1,
        ensures
            n == text@.len(),
            pos <= cur <= n,
            spec_sections_v1(text@, pos as int).0 =~= sections_view(out@),
            spec_sections_v1(text@, pos as int).1 == cur as int,
        decreases n - cur,
    {
        match parse_sectioned_v1_at(text, cur) {
            Ok((sh, p)) => {
                let (_, h) = sh;
                let s = Section::HL(h);
                proof {
                    let ghost prev = out@;
                    assert(spec_sections_v1(text@, cur as int).0 == seq![s@] + spec_sections_v1(
                        text@,
                        p as int,
                    ).0);
                    assert(sections_view(prev.push(s)) =~= sections_view(prev) + seq![s@]);
                    assert((sections_view(prev) + seq![s@]) + spec_sections_v1(text@, p as int).0
                        =~= sections_view(prev) + (seq![s@] + spec_sections_v1(text@, p as int).0));
                }
                out.push(s);
                cur = p;
            },
            Err(_) => {
                proof {
                    assert(spec_sections_v1(text@, cur as int).0 == Seq::<SpecSection>::empty());
                    assert(sections_view(out@) + Seq::<SpecSection>::empty() =~= sections_view(
                        out@,
                    ));
                }
                break;
            },
        }
    }
    (out, cur)
}

/// Parses a whole v1 document: the header, then records until the input
/// is exhausted. Unparsed trailing bytes after the last record fail the
/// whole parse with `TrailingInput` at the position where they begin.
pub open spec fn spec_parse_boox_v1(text: Seq<char>) -> Result<SpecBooxFile, ParseError> {
    match spec_parse_header_v1(text, 0) {
        Err(e) => Err(e),
        Ok((md, p)) => {
            let rest = spec_sections_v1(text, p);
            if rest.1 == text.len() {
                Ok(SpecBooxFile { metadata: md, sections: rest.0 })
            } else {
                Err(trailing_input(rest.1))
            }
        },
    }
}

/// Parses the v1 header at the start of `i`, returning the remainder and
/// the metadata; the title and author lines both need their terminators.
pub fn parse_header(i: &str) -> (r: Result<(&str, Metadata), ParseError>)
    ensures
        match r {
            Ok((rest, md)) => spec_parse_header_v1(i@, 0) matches Ok(sp) && sp.0 == md@ && rest@
                == i@.subrange(sp.1, i@.len() as int),
            Err(e) => spec_parse_header_v1(i@, 0) == Err::<(SpecMetadata, int), _>(e),
        },
{
    let text = str_to_chars(i);
    match parse_header_v1_at(&text, 0) {
        Ok((md, p)) => {
            let rest = i.substring_char(p, i.unicode_len());
            Ok((rest, md))
        },
        Err(e) => Err(e),
    }
}

/// Parses a v1 highlight record at the start of `i`, returning the
/// remainder and the highlight.
pub fn parse_highlight(i: &str) -> (r: Result<(&str, Highlight), ParseError>)
    ensures
        match r {
            Ok((rest, h)) => spec_parse_highlight_v1(i@, 0) matches Ok(sp) && sp.0 == h@ && rest@
                == i@.subrange(sp.1, i@.len() as int),
            Err(e) => spec_parse_highlight_v1(i@, 0) == Err::<(SpecHighlight, int), _>(e),
        },
{
    let text = str_to_chars(i);
    match parse_highlight_v1_at(&text, 0) {
        Ok((h, p)) => {
            let rest = i.substring_char(p, i.unicode_len());
            Ok((rest, h))
        },
        Err(e) => Err(e),
    }
}

/// Parses one v1 record at the start of `i`: a chapter-heading line
/// followed by a highlight, both returned.
pub fn parse_sectioned_highlight(i: &str) -> (r: Result<(&str, (String, Highlight)), ParseError>)
    ensures
        match r {
            Ok((rest, sh)) => spec_parse_sectioned_v1(i@, 0) matches Ok(sp) && sp.0.0 == sh.0@
                && sp.0.1 == sh.1@ && rest@ == i@.subrange(sp.1, i@.len() as int),
            Err(e) => spec_parse_sectioned_v1(i@, 0) == Err::<((Seq<char>, SpecHighlight), int), _>(
                e,
            ),
        },
{
    let text = str_to_chars(i);
    match parse_sectioned_v1_at(&text, 0) {
        Ok((sh, p)) => {
            let rest = i.substring_char(p, i.unicode_len());
            Ok((rest, sh))
        },
        Err(e) => Err(e),
    }
}

/// Parses a whole v1 document held in `i`. On success the remainder is
/// empty: unparsed trailing input fails with `TrailingInput`.
pub fn parse_boox_v1(i: &str) -> (r: Result<(&str, BooxFile), ParseError>)
    ensures
        match r {
            Ok((rest, b)) => spec_parse_boox_v1(i@) == Ok::<_, ParseError>(b@) && rest@
                == Seq::<char>::empty(),
            Err(e) => spec_parse_boox_v1(i@) == Err::<SpecBooxFile, _>(e),
        },
{
    let text = str_to_chars(i);
    match parse_boox_v1_chars(&text) {
        Ok(b) => {
            let n: usize = i.unicode_len();
            let rest = i.substring_char(n, n);
            proof {
                assert(rest@ =~= Seq::<char>::empty());
            }
            Ok((rest, b))
        },
        Err(e) => Err(e),
    }
}

/// Parses a whole v1 document held in `text`.
pub fn parse_boox_v1_chars(text: &Vec<char>) -> (r: Result<BooxFile, ParseError>)
    ensures
        match r {
            Ok(b) => spec_parse_boox_v1(text@) == Ok::<_, ParseError>(b@),
            Err(e) => spec_parse_boox_v1(text@) == Err::<SpecBooxFile, _>(e),
        },
{
    match parse_header_v1_at(text, 0) {
        Ok((md, p)) => {
            let (sections, q) = parse_sections_v1(text, p);
            if q != text.len() {
                Err(ParseError { kind: ErrorKind::TrailingInput, pos: q })
            } else {
                Ok(BooxFile { metadata: md, sections })
            }
        },
        Err(e) => Err(e),
    }
}

} // verus!
