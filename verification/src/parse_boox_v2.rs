//! The v2 pipeline as a whole: the v2 header and record grammars live in
//! `parse_boox`, shared with the dispatching entry point; this module
//! offers the complete v2 document parse.

use vstd::prelude::*;

use crate::model::{BooxFile, ParseError, SpecBooxFile};
use crate::parse_boox::{parse_boox_v2_chars, spec_parse_boox_v2};
use crate::text::str_to_chars;

verus! {

/// Parses a whole v2 document held in `i`: the header, then highlight and
/// chapter records until the input is exhausted. On success the remainder
/// is empty: unparsed trailing input fails with `TrailingInput`.
pub fn parse_boox_v2(i: &str) -> (r: Result<(&str, BooxFile), ParseError>)
    ensures
        match r {
            Ok((rest, b)) => spec_parse_boox_v2(i@) == Ok::<_, ParseError>(b@) && rest@
                == Seq::<char>::empty(),
            Err(e) => spec_parse_boox_v2(i@) == Err::<SpecBooxFile, _>(e),
        },
{
    let text = str_to_chars(i);
    match parse_boox_v2_chars(&text) {
        Ok(b) => {
            let n: usize = i.unicode_len();
            let rest = i.substring_char(n, n);
            proof {
                assert(rest@ =~= Seq::<char>::empty());
            }
            Ok((rest, b))
        },
        Err(e) => Err(e),
    }
}

} // verus!
