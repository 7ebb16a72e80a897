//! The markdown renderer: a pure, total serializer from the document
//! model to a markdown string, specified character by character by
//! `spec_render`.

use vstd::prelude::*;
use vstd::string::StringExecFns;

use crate::model::{BooxFile, Section, SpecBooxFile, SpecSection, Timestamp};
use crate::text::str_to_chars;

verus! {

/// The single-character string for a decimal digit value; out-of-range
/// values fall back to `"0"`.
pub open spec fn digit_lit(d: int) -> Seq<char> {
    if d == 1 {
        "1"@
    } else if d == 2 {
        "2"@
    } else if d == 3 {
        "3"@
    } else if d == 4 {
        "4"@
    } else if d == 5 {
        "5"@
    } else if d == 6 {
        "6"@
    } else if d == 7 {
        "7"@
    } else if d == 8 {
        "8"@
    } else if d == 9 {
        "9"@
    } else {
        "0"@
    }
}

/// The decimal spelling of a non-negative number, most significant digit
/// first.
pub open spec fn dec_str(n: int) -> Seq<char>
    decreases n,
{
    if n < 10 {
        digit_lit(n)
    } else {
        dec_str(n / 10) + digit_lit(n % 10)
    }
}

/// The decimal spelling of `n`, zero-padded to at least two digits.
pub open spec fn pad2(n: int) -> Seq<char> {
    if n < 10 {
        "0"@ + dec_str(n)
    } else {
        dec_str(n)
    }
}

/// The decimal spelling of `n`, zero-padded to at least four digits.
pub open spec fn pad4(n: int) -> Seq<char> {
    if n < 10 {
        "000"@ + dec_str(n)
    } else if n < 100 {
        "00"@ + dec_str(n)
    } else if n < 1000 {
        "0"@ + dec_str(n)
    } else {
        dec_str(n)
    }
}

/// A timestamp rendered as `YYYY-MM-DD HH:MM:SS`; the seconds are always
/// zero.
pub open spec fn ts_str(t: Timestamp) -> Seq<char> {
    pad4(t.year as int) + "-"@ + pad2(t.month as int) + "-"@ + pad2(t.day as int) + " "@ + pad2(
        t.hour as int,
    ) + ":"@ + pad2(t.minute as int) + ":00"@
}

/// Index of the first line terminator in `s` at or after `from`, or the
/// length of `s` when there is none.
pub open spec fn line_end(s: Seq<char>, from: int) -> int
    decreases s.len() - from,
{
    if from < 0 || from >= s.len() {
        s.len() as int
    } else if s[from] == '\n' {
        from
    } else {
        line_end(s, from + 1)
    }
}

/// A line that ended in a line terminator, quoted: one trailing carriage
/// return is stripped, and the line is set between `"> "` and a line
/// terminator.
pub open spec fn quote_line(l: Seq<char>) -> Seq<char> {
    if l.len() > 0 && l[l.len() - 1] == '\r' {
        "> "@ + l.subrange(0, l.len() - 1) + "\n"@
    } else {
        "> "@ + l + "\n"@
    }
}

/// The lines of `s[from..]`, each quoted with a `"> "` prefix and a line
/// terminator; a final line without its own terminator keeps any carriage
/// return, and a terminator ending the text adds no empty final line.
pub open spec fn quoted_from(s: Seq<char>, from: int) -> Seq<char>
    decreases s.len() - from,
{
    if from < 0 || from >= s.len() {
        Seq::empty()
    } else {
        let e = line_end(s, from);
        if from <= e && e < s.len() {
            quote_line(s.subrange(from, e)) + quoted_from(s, e + 1)
        } else {
            "> "@ + s.subrange(from, s.len() as int) + "\n"@
        }
    }
}

/// One section rendered as markdown: a chapter heading as an `###` line,
/// a highlight as an `####` header naming page and timestamp, the quoted
/// highlight lines, and the raw note text when a note is present, each
/// part followed by a blank line.
pub open spec fn spec_render_section(s: SpecSection) -> Seq<char> {
    match s {
        SpecSection::Chapter(c) => "### "@ + c + "\n\n"@,
        SpecSection::HL(h) => "#### Highlight (Page "@ + dec_str(h.page as int) + ", "@ + ts_str(
            h.timestamp,
        ) + ")\n\n"@ + quoted_from(h.highlight, 0) + "\n"@ + (match h.note {
            Some(n) => n + "\n\n"@,
            None => Seq::empty(),
        }),
    }
}

/// The sections `ss[k..]` rendered in order.
pub open spec fn render_sections_from(ss: Seq<SpecSection>, k: int) -> Seq<char>
    decreases ss.len() - k,
{
    if k < 0 || k >= ss.len() {
        Seq::empty()
    } else {
        spec_render_section(ss[k]) + render_sections_from(ss, k + 1)
    }
}

/// A whole document rendered as markdown: the title as an `#` heading,
/// the author line, a rule, the `## Highlights` heading, then every
/// section in source order.
pub open spec fn spec_render(d: SpecBooxFile) -> Seq<char> {
    "# "@ + d.metadata.title + "\n\n**Author:** "@ + d.metadata.author
        + "\n\n---\n\n## Highlights\n\n"@ + render_sections_from(d.sections, 0)
}

/// The single-character string for the digit value `d`.
fn digit_str(d: u32) -> (r: &'static str)
    requires
        d <= 9,
    ensures
        r@ == digit_lit(d as int),
{
    if d == 1 {
        "1"
    } else if d == 2 {
        "2"
    } else if d == 3 {
        "3"
    } else if d == 4 {
        "4"
    } else if d == 5 {
        "5"
    } else if d == 6 {
        "6"
    } else if d == 7 {
        "7"
    } else if d == 8 {
        "8"
    } else if d == 9 {
        "9"
    } else {
        "0"
    }
}

/// Appends the decimal spelling of `n`.
fn push_u32(out: &mut String, n: u32)
    ensures
        final(out)@ == old(out)@ + dec_str(n as int),
    decreases n,
{
    if n >= 10 {
        push_u32(out, n / 10);
        out.append(digit_str(n % 10));
        proof {
            assert(final(out)@ =~= old(out)@ + dec_str(n as int));
        }
    } else {
        out.append(digit_str(n));
    }
}

/// Appends `n` zero-padded to at least two digits.
fn push_pad2(out: &mut String, n: u32)
    ensures
        final(out)@ == old(out)@ + pad2(n as int),
{
    if n < 10 {
        out.append("0");
        push_u32(out, n);
        proof {
            assert(final(out)@ =~= old(out)@ + pad2(n as int));
        }
    } else {
        push_u32(out, n);
    }
}

/// Appends `n` zero-padded to at least four digits.
fn push_pad4(out: &mut String, n: u32)
    ensures
        final(out)@ == old(out)@ + pad4(n as int),
{
    if n < 10 {
        out.append("000");
    } else if n < 100 {
        out.append("00");
    } else if n < 1000 {
        out.append("0");
    }
    push_u32(out, n);
    proof {
        assert(final(out)@ =~= old(out)@ + pad4(n as int));
    }
}

/// Appends a timestamp as `YYYY-MM-DD HH:MM:SS`.
fn push_ts(out: &mut String, t: &Timestamp)
    ensures
        final(out)@ == old(out)@ + ts_str(*t),
{
    push_pad4(out, t.year);
    out.append("-");
    push_pad2(out, t.month);
    out.append("-");
    push_pad2(out, t.day);
    out.append(" ");
    push_pad2(out, t.hour);
    out.append(":");
    push_pad2(out, t.minute);
    out.append(":00");
    proof {
        assert(final(out)@ =~= old(out)@ + ts_str(*t));
    }
}

/// Scans `text` from `from` to the next line terminator.
fn scan_nl(text: &Vec<char>, from: usize) -> (r: usize)
    requires
        from <= text@.len(),
    ensures
        r == line_end(text@, from as int),
        from <= r <= text@.len(),
{
    let n: usize = text.len();
    let mut i: usize = from;
    loop
        invariant
            n == text@.len(),
            from <= i <= n,
            line_end(text@, from as int) == line_end(text@, i as int),
        decreases n - i,
    {
        if i >= n {
            return i;
        }
        let c = text[i];
        if c == '\n' {
            return i;
        }
        i = i + 1;
    }
}

/// Appends every line of `text`, quoted with a `"> "` prefix.
fn push_quoted(out: &mut String, text: &str)
    ensures
        final(out)@ == old(out)@ + quoted_from(text@, 0),
{
    let chars = str_to_chars(text);
    let n: usize = text.unicode_len();
    let mut cur: usize = 0;
    loop
        invariant
            n == text@.len(),
            chars@ == text@,
            cur <= n,
            out@ + quoted_from(text@, cur as int) == old(out)@ + quoted_from(text@, 0),
        ensures
            out@ == old(out)@ + quoted_from(text@, 0),
        decreases n - cur,
    {
        if cur >= n {
            proof {
                assert(out@ + quoted_from(text@, cur as int) =~= out@);
            }
            break;
        }
        let e = scan_nl(&chars, cur);
        if e < n {
            let hi = if e > cur && chars[e - 1] == '\r' {
                e - 1
            } else {
                e
            };
            let ghost before = out@;
            out.append("> ");
            out.append(text.substring_char(cur, hi));
            out.append("\n");
            proof {
                let l = text@.subrange(cur as int, e as int);
                if hi < e {
                    assert(l.subrange(0, l.len() - 1) =~= text@.subrange(cur as int, hi as int));
                }
                assert(quote_line(l) =~= "> "@ + text@.subrange(cur as int, hi as int) + "\n"@);
                assert(out@ + quoted_from(text@, e + 1) =~= before + quoted_from(
                    text@,
                    cur as int,
                ));
            }
            cur = e + 1;
        } else {
            let ghost before = out@;
            out.append("> ");
            out.append(text.substring_char(cur, n));
            out.append("\n");
            proof {
                assert(quoted_from(text@, cur as int) == "> "@ + text@.subrange(
                    cur as int,
                    n as int,
                ) + "\n"@);
                assert(out@ + quoted_from(text@, n as int) =~= before + quoted_from(
                    text@,
                    cur as int,
                ));
            }
            cur = n;
        }
    }
}

/// Appends one rendered section.
fn push_section(out: &mut String, s: &Section)
    ensures
        final(out)@ == old(out)@ + spec_render_section(s@),
{
    match s {
        Section::Chapter(c) => {
            out.append("### ");
            out.append(c.as_str());
            out.append("\n\n");
            proof {
                assert(final(out)@ =~= old(out)@ + spec_render_section(s@));
            }
        },
        Section::HL(h) => {
            out.append("#### Highlight (Page ");
            push_u32(out, h.page);
            out.append(", ");
            push_ts(out, &h.timestamp);
            out.append(")\n\n");
            push_quoted(out, h.highlight.as_str());
            out.append("\n");
            match &h.note {
                Some(nt) => {
                    out.append(nt.as_str());
                    out.append("\n\n");
                },
                None => {},
            }
            proof {
                assert(final(out)@ =~= old(out)@ + spec_render_section(s@));
            }
        },
    }
}

/// A value that can be rendered as a markdown string.
pub trait AsMarkdown {
    /// The markdown rendering this value serializes to.
    spec fn spec_markdown(&self) -> Seq<char>;

    /// Renders the value as markdown.
    fn fmt_markdown(&self) -> (r: String)
        ensures
            r@ == self.spec_markdown(),
    ;
}

impl AsMarkdown for BooxFile {
    /// The markdown rendering of a document.
    open spec fn spec_markdown(&self) -> Seq<char> {
        spec_render(self@)
    }

    /// Renders the document as markdown. This never fails and is total
    /// over any document value.
    fn fmt_markdown(&self) -> (r: String) {
        let mut out = String::new();
        out.append("# ");
        out.append(self.metadata.title.as_str());
        out.append("\n\n**Author:** ");
        out.append(self.metadata.author.as_str());
        out.append("\n\n---\n\n## Highlights\n\n");
        let m: usize = self.sections.len();
        let mut k: usize = 0;
        while k < m
            invariant
                m == self.sections@.len(),
                k <= m,
                out@ + render_sections_from(crate::model::sections_view(self.sections@), k as int)
                    == spec_render(self@),
            decreases m - k,
        {
            let ghost before = out@;
            push_section(&mut out, &self.sections[k]);
            proof {
                let sv = crate::model::sections_view(self.sections@);
                assert(sv[k as int] == self.sections@[k as int]@);
                assert(out@ + render_sections_from(sv, k + 1) =~= before + render_sections_from(
                    sv,
                    k as int,
                ));
            }
            k = k + 1;
        }
        proof {
            assert(out@ + render_sections_from(
                crate::model::sections_view(self.sections@),
                m as int,
            ) =~= out@);
        }
        out
    }
}

} // verus!
