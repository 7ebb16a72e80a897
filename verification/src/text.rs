//! Character-level scanning primitives shared by every parser in the crate:
//! substring search, whitespace trimming, and decimal digit runs, together
//! with the spec functions that describe them over `Seq<char>`.

use vstd::prelude::*;

use crate::model::{no_marker_found, ParseError};

verus! {

/// True when `pat` occurs in `text` starting exactly at index `i`.
pub open spec fn match_at(text: Seq<char>, pat: Seq<char>, i: int) -> bool {
    &&& 0 <= i
    &&& i + pat.len() <= text.len()
    &&& text.subrange(i, i + pat.len()) == pat
}

/// Index of the first occurrence of `pat` in `text` at or after `from`,
/// or `None` when `pat` does not occur there.
pub open spec fn spec_find(text: Seq<char>, pat: Seq<char>, from: int) -> Option<int>
    decreases text.len() + 1 - from,
{
    if from < 0 || from + pat.len() > text.len() {
        None
    } else if match_at(text, pat, from) {
        Some(from)
    } else {
        spec_find(text, pat, from + 1)
    }
}

/// True when `pat` occurs somewhere in `text`.
pub open spec fn contains_marker(text: Seq<char>, pat: Seq<char>) -> bool {
    exists|i: int| match_at(text, pat, i)
}

/// A successful find is the first match, and a failed find means no match.
pub proof fn lemma_find_none(text: Seq<char>, pat: Seq<char>, from: int)
    requires
        0 <= from,
        spec_find(text, pat, from) is None,
    ensures
        forall|j: int| from <= j ==> !match_at(text, pat, j),
    decreases text.len() - from,
{
    if from + pat.len() <= text.len() {
        assert(pat.len() > 0) by {
            if pat.len() == 0 {
                assert(text.subrange(from, from) =~= pat);
            }
        }
        lemma_find_none(text, pat, from + 1);
        assert forall|j: int| from <= j implies !match_at(text, pat, j) by {
            if j > from {
                assert(!match_at(text, pat, j));
            }
        }
    } else {
        assert forall|j: int| from <= j implies !match_at(text, pat, j) by {
            assert(j + pat.len() > text.len());
        }
    }
}

/// A found position carries a witness that the pattern occurs in the text.
pub proof fn lemma_find_some(text: Seq<char>, pat: Seq<char>, from: int)
    requires
        0 <= from,
        spec_find(text, pat, from) is Some,
    ensures
        contains_marker(text, pat),
        match_at(text, pat, spec_find(text, pat, from)->Some_0),
        from <= spec_find(text, pat, from)->Some_0,
    decreases text.len() - from,
{
    if !(from + pat.len() > text.len()) && !match_at(text, pat, from) {
        assert(pat.len() > 0) by {
            if pat.len() == 0 {
                assert(text.subrange(from, from) =~= pat);
            }
        }
        lemma_find_some(text, pat, from + 1);
    }
}

/// A pattern that occurs anywhere in the text is found by a search from 0.
pub proof fn lemma_contains_found(text: Seq<char>, pat: Seq<char>)
    ensures
        contains_marker(text, pat) <==> spec_find(text, pat, 0) is Some,
{
    if spec_find(text, pat, 0) is Some {
        lemma_find_some(text, pat, 0);
    }
    if spec_find(text, pat, 0) is None {
        lemma_find_none(text, pat, 0);
        assert forall|i: int| !match_at(text, pat, i) by {
            if i < 0 {
                assert(!match_at(text, pat, i));
            }
        }
    }
}

/// Whether `pat` occurs in `text` starting exactly at `i`.
pub fn is_match_at(text: &Vec<char>, pat: &Vec<char>, i: usize) -> (r: bool)
    requires
        i <= text@.len(),
    ensures
        r == match_at(text@, pat@, i as int),
{
    let n: usize = text.len();
    if n - i < pat.len() {
        return false;
    }
    let mut j: usize = 0;
    while j < pat.len()
        invariant
            j <= pat@.len(),
            n == text@.len(),
            i + pat@.len() <= n,
            forall|k: int| 0 <= k < j ==> text@[i + k] == pat@[k],
        decreases pat@.len() - j,
    {
        if text[i + j] != pat[j] {
            proof {
                if match_at(text@, pat@, i as int) {
                    assert(text@.subrange(i as int, i + pat@.len())[j as int] == pat@[j as int]);
                }
            }
            return false;
        }
        j = j + 1;
    }
    proof {
        assert(text@.subrange(i as int, i + pat@.len()) =~= pat@);
    }
    true
}

/// Position of the first occurrence of `pat` in `text` at or after `from`.
pub fn find_from(text: &Vec<char>, pat: &Vec<char>, from: usize) -> (r: Option<usize>)
    requires
        from <= text@.len(),
    ensures
        match r {
            Some(i) => {
                &&& spec_find(text@, pat@, from as int) == Some(i as int)
                &&& from <= i
                &&& i + pat@.len() <= text@.len()
                &&& match_at(text@, pat@, i as int)
            },
            None => spec_find(text@, pat@, from as int) is None,
        },
{
    let n: usize = text.len();
    let mut i: usize = from;
    loop
        invariant
            n == text@.len(),
            from <= i <= n,
            spec_find(text@, pat@, from as int) == spec_find(text@, pat@, i as int),
        decreases text@.len() - i,
    {
        if n - i < pat.len() {
            return None;
        }
        if is_match_at(text, pat, i) {
            return Some(i);
        }
        proof {
            if pat@.len() == 0 {
                assert(text@.subrange(i as int, i as int) =~= pat@);
            }
        }
        i = i + 1;
    }
}

/// Appends a character to a string.
///
/// Relies on `String::push`: pushes the given `char` onto the end of the
/// string, so the new view is the old view extended by that character.
#[verifier::external_body]
pub fn push_char(s: &mut String, c: char)
    ensures
        final(s)@ == old(s)@.push(c),
{
    s.push(c);
}

/// The characters of `s`, in order, as a vector.
pub fn str_to_chars(s: &str) -> (v: Vec<char>)
    ensures
        v@ == s@,
{
    let n: usize = s.unicode_len();
    let mut v: Vec<char> = Vec::new();
    let mut i: usize = 0;
    while i < n
        invariant
            i <= n,
            n == s@.len(),
            v@ == s@.subrange(0, i as int),
        decreases n - i,
    {
        v.push(s.get_char(i));
        i = i + 1;
        proof {
            assert(v@ =~= s@.subrange(0, i as int));
        }
    }
    proof {
        assert(v@ =~= s@);
    }
    v
}

/// The characters `text[lo..hi]` collected into a fresh string.
pub fn seq_to_string(text: &Vec<char>, lo: usize, hi: usize) -> (r: String)
    requires
        lo <= hi <= text@.len(),
    ensures
        r@ == text@.subrange(lo as int, hi as int),
{
    let mut r = String::new();
    let mut i: usize = lo;
    while i < hi
        invariant
            lo <= i <= hi <= text@.len(),
            r@ == text@.subrange(lo as int, i as int),
        decreases hi - i,
    {
        push_char(&mut r, text[i]);
        i = i + 1;
        proof {
            assert(r@ =~= text@.subrange(lo as int, i as int));
        }
    }
    r
}

/// The Unicode white-space characters, exactly the set that `str::trim`
/// removes from the ends of a string.
pub open spec fn is_space(c: char) -> bool {
    ||| c == ' '
    ||| c == '\t'
    ||| c == '\n'
    ||| c == '\u{b}'
    ||| c == '\u{c}'
    ||| c == '\r'
    ||| c == '\u{85}'
    ||| c == '\u{a0}'
    ||| c == '\u{1680}'
    ||| c == '\u{2000}'
    ||| c == '\u{2001}'
    ||| c == '\u{2002}'
    ||| c == '\u{2003}'
    ||| c == '\u{2004}'
    ||| c == '\u{2005}'
    ||| c == '\u{2006}'
    ||| c == '\u{2007}'
    ||| c == '\u{2008}'
    ||| c == '\u{2009}'
    ||| c == '\u{200a}'
    ||| c == '\u{2028}'
    ||| c == '\u{2029}'
    ||| c == '\u{202f}'
    ||| c == '\u{205f}'
    ||| c == '\u{3000}'
}

/// Whether `c` is a Unicode white-space character.
pub fn is_space_char(c: char) -> (r: bool)
    ensures
        r == is_space(c),
{
    c == ' ' || c == '\t' || c == '\n' || c == '\u{b}' || c == '\u{c}' || c == '\r'
        || c == '\u{85}' || c == '\u{a0}' || c == '\u{1680}' || c == '\u{2000}' || c == '\u{2001}'
        || c == '\u{2002}' || c == '\u{2003}' || c == '\u{2004}' || c == '\u{2005}'
        || c == '\u{2006}' || c == '\u{2007}' || c == '\u{2008}' || c == '\u{2009}'
        || c == '\u{200a}' || c == '\u{2028}' || c == '\u{2029}' || c == '\u{202f}'
        || c == '\u{205f}' || c == '\u{3000}'
}

/// `s` with white space removed from both ends, as `str::trim` does.
pub open spec fn spec_trim(s: Seq<char>) -> Seq<char>
    decreases s.len(),
{
    if s.len() == 0 {
        s
    } else if is_space(s[0]) {
        spec_trim(s.subrange(1, s.len() as int))
    } else if is_space(s[s.len() - 1]) {
        spec_trim(s.subrange(0, s.len() - 1))
    } else {
        s
    }
}

/// The bounds of `text[lo..hi]` with white space removed from both ends.
pub fn trim_range(text: &Vec<char>, lo: usize, hi: usize) -> (r: (usize, usize))
    requires
        lo <= hi <= text@.len(),
    ensures
        lo <= r.0 <= r.1 <= hi,
        text@.subrange(r.0 as int, r.1 as int) == spec_trim(text@.subrange(lo as int, hi as int)),
{
    let mut a: usize = lo;
    let mut b: usize = hi;
    while a < b && is_space_char(text[a])
        invariant
            lo <= a <= b <= hi <= text@.len(),
            spec_trim(text@.subrange(lo as int, hi as int)) == spec_trim(
                text@.subrange(a as int, b as int),
            ),
        decreases b - a,
    {
        proof {
            let s = text@.subrange(a as int, b as int);
            assert(s.subrange(1, s.len() as int) =~= text@.subrange(a + 1, b as int));
        }
        a = a + 1;
    }
    while b > a && is_space_char(text[b - 1])
        invariant
            lo <= a <= b <= hi <= text@.len(),
            a < b ==> !is_space(text@[a as int]),
            spec_trim(text@.subrange(lo as int, hi as int)) == spec_trim(
                text@.subrange(a as int, b as int),
            ),
        decreases b - a,
    {
        proof {
            let s = text@.subrange(a as int, b as int);
            assert(s.subrange(0, s.len() - 1) =~= text@.subrange(a as int, b - 1));
        }
        b = b - 1;
    }
    (a, b)
}

/// Whether `c` is a decimal digit.
pub open spec fn is_digit_char(c: char) -> bool {
    48 <= c as u32 <= 57
}

/// The value 0 through 9 of a decimal digit character.
pub open spec fn digit_val(c: char) -> int {
    c as u32 - 48
}

/// The numeric value of a run of decimal digit characters, most
/// significant digit first.
pub open spec fn digits_val(s: Seq<char>) -> int
    decreases s.len(),
{
    if s.len() == 0 {
        0
    } else {
        digits_val(s.subrange(0, s.len() - 1)) * 10 + digit_val(s[s.len() - 1])
    }
}

/// Whether every character of `s` is a decimal digit.
pub open spec fn all_digits(s: Seq<char>) -> bool {
    forall|k: int| 0 <= k < s.len() ==> is_digit_char(#[trigger] s[k])
}

/// Index of the first decimal digit in `text` at or after `from`, or the
/// length of `text` when there is none.
pub open spec fn first_digit_at(text: Seq<char>, from: int) -> int
    decreases text.len() - from,
{
    if from < 0 || from >= text.len() {
        text.len() as int
    } else if is_digit_char(text[from]) {
        from
    } else {
        first_digit_at(text, from + 1)
    }
}

/// Index of the first character at or after `from` that is not a decimal
/// digit, or the length of `text` when the digits run to the end.
pub open spec fn digit_run_end(text: Seq<char>, from: int) -> int
    decreases text.len() - from,
{
    if from < 0 || from >= text.len() {
        text.len() as int
    } else if !is_digit_char(text[from]) {
        from
    } else {
        digit_run_end(text, from + 1)
    }
}

/// Scans forward from `from` to the first decimal digit.
pub fn scan_to_digit(text: &Vec<char>, from: usize) -> (r: usize)
    requires
        from <= text@.len(),
    ensures
        r == first_digit_at(text@, from as int),
        from <= r <= text@.len(),
{
    let n: usize = text.len();
    let mut i: usize = from;
    loop
        invariant
            n == text@.len(),
            from <= i <= n,
            first_digit_at(text@, from as int) == first_digit_at(text@, i as int),
        decreases n - i,
    {
        if i >= n {
            return i;
        }
        let c = text[i];
        if is_digit(c) {
            return i;
        }
        i = i + 1;
    }
}

/// Scans forward from `from` to the end of the run of decimal digits.
pub fn scan_digit_run(text: &Vec<char>, from: usize) -> (r: usize)
    requires
        from <= text@.len(),
    ensures
        r == digit_run_end(text@, from as int),
        from <= r <= text@.len(),
        forall|k: int| from <= k < r ==> is_digit_char(#[trigger] text@[k]),
        r < text@.len() ==> !is_digit_char(text@[r as int]),
    decreases text@.len() - from,
{
    let n: usize = text.len();
    let mut i: usize = from;
    loop
        invariant
            n == text@.len(),
            from <= i <= n,
            digit_run_end(text@, from as int) == digit_run_end(text@, i as int),
            forall|k: int| from <= k < i ==> is_digit_char(#[trigger] text@[k]),
        decreases n - i,
    {
        if i >= n {
            return i;
        }
        let c = text[i];
        if !is_digit(c) {
            return i;
        }
        i = i + 1;
    }
}

/// Whether `pat` occurs anywhere in `text`.
pub fn contains_pat(text: &Vec<char>, pat: &Vec<char>) -> (r: bool)
    ensures
        r == contains_marker(text@, pat@),
{
    proof {
        lemma_contains_found(text@, pat@);
    }
    match find_from(text, pat, 0) {
        Some(_) => true,
        None => false,
    }
}

/// Whether `c` is a decimal digit, `'0'` through `'9'`.
pub fn is_digit(c: char) -> (r: bool)
    ensures
        r == is_digit_char(c),
{
    let u: u32 = c as u32;
    48 <= u && u <= 57
}

/// Extending a digit run by one character multiplies its value by ten and
/// adds the new digit.
proof fn lemma_digits_val_step(text: Seq<char>, lo: int, i: int)
    requires
        0 <= lo <= i < text.len(),
    ensures
        digits_val(text.subrange(lo, i + 1)) == digits_val(text.subrange(lo, i)) * 10 + digit_val(
            text[i],
        ),
{
    let s = text.subrange(lo, i + 1);
    assert(s.subrange(0, s.len() - 1) =~= text.subrange(lo, i));
}

/// The value of a digit run is never negative.
proof fn lemma_digits_val_nonneg(s: Seq<char>)
    requires
        all_digits(s),
    ensures
        digits_val(s) >= 0,
    decreases s.len(),
{
    if s.len() > 0 {
        let p = s.subrange(0, s.len() - 1);
        assert(all_digits(p));
        lemma_digits_val_nonneg(p);
    }
}

/// Extending a digit run never lowers its value.
proof fn lemma_digits_val_grows(text: Seq<char>, lo: int, m: int, hi: int)
    requires
        0 <= lo <= m <= hi <= text.len(),
        all_digits(text.subrange(lo, hi)),
    ensures
        digits_val(text.subrange(lo, m)) <= digits_val(text.subrange(lo, hi)),
    decreases hi - m,
{
    if m < hi {
        lemma_digits_val_grows(text, lo, m + 1, hi);
        lemma_digits_val_step(text, lo, m);
        assert(all_digits(text.subrange(lo, m))) by {
            assert forall|k: int| 0 <= k < m - lo implies is_digit_char(
                #[trigger] text.subrange(lo, m)[k],
            ) by {
                assert(text.subrange(lo, hi)[k] == text.subrange(lo, m)[k]);
            }
        }
        lemma_digits_val_nonneg(text.subrange(lo, m));
        assert(is_digit_char(text[m])) by {
            assert(text.subrange(lo, hi)[m - lo] == text[m]);
        }
    }
}

/// The numeric value of the digit run `text[lo..hi]`, or `None` when the
/// value does not fit in a `u32`.
pub fn digits_to_u32(text: &Vec<char>, lo: usize, hi: usize) -> (r: Option<u32>)
    requires
        lo <= hi <= text@.len(),
        forall|k: int| lo <= k < hi ==> is_digit_char(#[trigger] text@[k]),
    ensures
        match r {
            Some(v) => v as int == digits_val(text@.subrange(lo as int, hi as int)),
            None => digits_val(text@.subrange(lo as int, hi as int)) > u32::MAX as int,
        },
{
    proof {
        assert(all_digits(text@.subrange(lo as int, hi as int))) by {
            assert forall|k: int| 0 <= k < hi - lo implies is_digit_char(
                #[trigger] text@.subrange(lo as int, hi as int)[k],
            ) by {
                assert(text@.subrange(lo as int, hi as int)[k] == text@[lo + k]);
            }
        }
    }
    let mut v: u32 = 0;
    let mut i: usize = lo;
    while i < hi
        invariant
            lo <= i <= hi <= text@.len(),
            forall|k: int| lo <= k < hi ==> is_digit_char(#[trigger] text@[k]),
            all_digits(text@.subrange(lo as int, hi as int)),
            v as int == digits_val(text@.subrange(lo as int, i as int)),
        decreases hi - i,
    {
        let c = text[i];
        assert(is_digit_char(c));
        let d: u32 = c as u32 - 48;
        let wide: u64 = v as u64 * 10 + d as u64;
        proof {
            lemma_digits_val_step(text@, lo as int, i as int);
        }
        if wide > u32::MAX as u64 {
            proof {
                lemma_digits_val_grows(text@, lo as int, i + 1, hi as int);
            }
            return None;
        }
        v = wide as u32;
        i = i + 1;
    }
    Some(v)
}

/// The smaller of two optional positions, treating `None` as absent.
pub open spec fn opt_min(a: Option<int>, b: Option<int>) -> Option<int> {
    match (a, b) {
        (None, _) => b,
        (_, None) => a,
        (Some(x), Some(y)) => if x <= y {
            Some(x)
        } else {
            Some(y)
        },
    }
}

/// The earliest first occurrence, over the patterns `pats[k..]`, in `text`
/// at or after `from`.
pub open spec fn min_find_from(text: Seq<char>, pats: Seq<Seq<char>>, k: int, from: int) -> Option<
    int,
>
    decreases pats.len() - k,
{
    if k < 0 || k >= pats.len() {
        None
    } else {
        opt_min(spec_find(text, pats[k], from), min_find_from(text, pats, k + 1, from))
    }
}

/// The earliest first occurrence of any pattern of `pats` in `text` at or
/// after `from`.
pub open spec fn spec_min_find(text: Seq<char>, pats: Seq<Seq<char>>, from: int) -> Option<int> {
    min_find_from(text, pats, 0, from)
}

/// The multi-marker cut: each candidate pattern is searched for
/// independently from `from`, and the text is cut just before the earliest
/// first occurrence found. An absent candidate is simply not a bound; only
/// when every candidate is absent does the cut fail, with `NoMarkerFound`
/// at `from`.
pub open spec fn spec_cut(text: Seq<char>, pats: Seq<Seq<char>>, from: int) -> Result<
    (Seq<char>, int),
    ParseError,
> {
    match spec_min_find(text, pats, from) {
        Some(c) => Ok((text.subrange(from, c), c)),
        None => Err(no_marker_found(from)),
    }
}

/// The smaller of two optional found positions.
fn opt_min_exec(a: Option<usize>, b: Option<usize>) -> (r: Option<usize>)
    ensures
        match r {
            Some(v) => opt_min(
                match a {
                    Some(x) => Some(x as int),
                    None => None,
                },
                match b {
                    Some(y) => Some(y as int),
                    None => None,
                },
            ) == Some(v as int),
            None => a is None && b is None,
        },
{
    match (a, b) {
        (None, _) => b,
        (Some(x), None) => Some(x),
        (Some(x), Some(y)) => if x <= y {
            Some(x)
        } else {
            Some(y)
        },
    }
}

/// Cuts `text` at the earlier of the first occurrences of `pat1` and
/// `pat2` at or after `from`, returning the cut position.
pub fn cut_two(text: &Vec<char>, pat1: &Vec<char>, pat2: &Vec<char>, from: usize) -> (r: Result<
    usize,
    ParseError,
>)
    requires
        from <= text@.len(),
    ensures
        match r {
            Ok(c) => spec_cut(text@, seq![pat1@, pat2@], from as int) == Ok::<_, ParseError>(
                (text@.subrange(from as int, c as int), c as int),
            ) && from <= c <= text@.len(),
            Err(e) => spec_cut(text@, seq![pat1@, pat2@], from as int) == Err::<
                (Seq<char>, int),
                _,
            >(e),
        },
{
    let f1 = find_from(text, pat1, from);
    let f2 = find_from(text, pat2, from);
    proof {
        let pats = seq![pat1@, pat2@];
        assert(min_find_from(text@, pats, 2, from as int) is None);
        assert(min_find_from(text@, pats, 1, from as int) == opt_min(
            spec_find(text@, pats[1], from as int),
            min_find_from(text@, pats, 2, from as int),
        ));
        assert(min_find_from(text@, pats, 0, from as int) == opt_min(
            spec_find(text@, pats[0], from as int),
            min_find_from(text@, pats, 1, from as int),
        ));
    }
    match opt_min_exec(f1, f2) {
        Some(c) => Ok(c),
        None => Err(ParseError { kind: crate::model::ErrorKind::NoMarkerFound, pos: from }),
    }
}

/// The views of a sequence of string slices.
pub open spec fn pat_views(ms: Seq<&str>) -> Seq<Seq<char>> {
    Seq::new(ms.len(), |k: int| ms[k]@)
}

/// Takes the input up to the earliest first occurrence of any of the
/// given markers, returning the remainder, which begins at that marker,
/// and the text consumed before it. A marker that is absent places no
/// bound; when every marker is absent the cut fails with `NoMarkerFound`.
pub fn take_until_multiple<'a>(i: &'a str, markers: &[&str]) -> (r: Result<
    (&'a str, &'a str),
    ParseError,
>)
    requires
        markers@.len() > 0,
    ensures
        match r {
            Ok((rest, taken)) => spec_cut(i@, pat_views(markers@), 0) matches Ok(sp) && taken@
                == sp.0 && rest@ == i@.subrange(sp.1, i@.len() as int),
            Err(e) => spec_cut(i@, pat_views(markers@), 0) == Err::<(Seq<char>, int), _>(e),
        },
{
    let text = str_to_chars(i);
    let m: usize = markers.len();
    let mut k: usize = m;
    let mut best: Option<usize> = None;
    while k > 0
        invariant
            k <= m == markers@.len(),
            text@ == i@,
            match best {
                Some(v) => min_find_from(i@, pat_views(markers@), k as int, 0) == Some(v as int)
                    && v <= i@.len(),
                None => min_find_from(i@, pat_views(markers@), k as int, 0) is None,
            },
        decreases k,
    {
        k = k - 1;
        let pat = str_to_chars(markers[k]);
        proof {
            assert(pat_views(markers@)[k as int] == markers@[k as int]@);
        }
        let f = find_from(&text, &pat, 0);
        best = opt_min_exec(f, best);
    }
    match best {
        Some(c) => {
            let n: usize = i.unicode_len();
            let taken = i.substring_char(0, c);
            let rest = i.substring_char(c, n);
            Ok((rest, taken))
        },
        None => Err(ParseError { kind: crate::model::ErrorKind::NoMarkerFound, pos: 0 }),
    }
}

} // verus!
