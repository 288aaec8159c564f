//! The index-list parser: a selector string such as `"1,3"`, `"2-4"` or
//! `"5"` names one-based positions; parsing yields the zero-based ones.

use vstd::prelude::*;
use crate::errors::FormatError;
use crate::numbers::parse_usize;
use crate::text::digits_val;
use crate::text::find_char;
use crate::text::is_number_text;
use crate::text::split_on;
use crate::text::split_fields;
use crate::text::str_contains_char;

verus! {

/// Does `s` contain the character `c`?
pub open spec fn has_char(s: Seq<char>, c: char) -> bool {
    find_char(s, c) < s.len()
}

/// A selector token must be a decimal number with value at least one
/// (and it must fit in a `usize`).
pub open spec fn token_ok(t: Seq<char>) -> bool {
    is_number_text(t) && 1 <= digits_val(t) <= usize::MAX
}

/// Is `s` a well-formed selector? Checked in priority order: a string with
/// a comma is a comma list, else one with a dash is a two-ended range, else
/// it must be a single number. Every token must be a positive integer.
pub open spec fn valid_selector(s: Seq<char>) -> bool {
    if has_char(s, ',') {
        forall|k: int|
            0 <= k < split_on(s, ',').len() ==> token_ok(#[trigger] split_on(s, ',')[k])
    } else if has_char(s, '-') {
        &&& split_on(s, '-').len() == 2
        &&& token_ok(split_on(s, '-')[0])
        &&& token_ok(split_on(s, '-')[1])
    } else {
        token_ok(s)
    }
}

/// The zero-based indices a valid selector stands for: each one-based
/// token decremented, in the order written (duplicates kept); a range
/// `a-b` spelled out ascending, empty when `a > b`.
pub open spec fn selector_indices(s: Seq<char>) -> Seq<int> {
    if has_char(s, ',') {
        split_on(s, ',').map_values(|t: Seq<char>| digits_val(t) - 1)
    } else if has_char(s, '-') {
        let a = digits_val(split_on(s, '-')[0]) as int;
        let b = digits_val(split_on(s, '-')[1]) as int;
        if a <= b {
            Seq::new((b - a + 1) as nat, |i: int| a - 1 + i)
        } else {
            Seq::empty()
        }
    } else {
        seq![digits_val(s) - 1]
    }
}

/// Parse a selector string into the zero-based indices it names, or fail
/// naming the token that is not a positive integer.
pub fn parse_selector(list: &str) -> (r: Result<Vec<usize>, FormatError>)
    ensures
        r is Ok <==> valid_selector(list@),
        r matches Ok(v) ==> v@.map_values(|x: usize| x as int) == selector_indices(list@),
{
    if str_contains_char(list, ',') {
        let toks = split_fields(list, ',');
        let ghost pieces = split_on(list@, ',');
        let mut out: Vec<usize> = Vec::new();
        let mut k: usize = 0;
        while k < toks.len()
            invariant
                toks@.map_values(|t: String| t@) == pieces,
                has_char(list@, ','),
                pieces == split_on(list@, ','),
                k <= toks@.len(),
                out@.len() == k,
                forall|j: int| 0 <= j < k ==> token_ok(#[trigger] pieces[j]),
                forall|j: int|
                    0 <= j < k ==> (#[trigger] out@[j]) as int == digits_val(pieces[j]) - 1,
            decreases toks@.len() - k,
        {
            proof {
                assert(toks@[k as int]@ == pieces[k as int]);
            }
            match parse_usize(toks[k].as_str()) {
                Ok(v) => {
                    out.push(v - 1);
                },
                Err(e) => {
                    return Err(e);
                },
            }
            k += 1;
        }
        proof {
            assert(out@.map_values(|x: usize| x as int) =~= selector_indices(list@));
        }
        Ok(out)
    } else if str_contains_char(list, '-') {
        let toks = split_fields(list, '-');
        let ghost pieces = split_on(list@, '-');
        if toks.len() != 2 {
            return Err(FormatError::new(list, "a range has exactly one dash"));
        }
        proof {
            assert(toks@[0]@ == pieces[0]);
            assert(toks@[1]@ == pieces[1]);
        }
        let a = match parse_usize(toks[0].as_str()) {
            Ok(v) => v,
            Err(e) => {
                return Err(e);
            },
        };
        let b = match parse_usize(toks[1].as_str()) {
            Ok(v) => v,
            Err(e) => {
                return Err(e);
            },
        };
        let mut out: Vec<usize> = Vec::new();
        if a <= b {
            let count: usize = b - a + 1;
            let mut j: usize = 0;
            while j < count
                invariant
                    1 <= a <= b,
                    count == b - a + 1,
                    j <= count,
                    out@.len() == j,
                    forall|i: int| 0 <= i < j ==> (#[trigger] out@[i]) as int == a - 1 + i,
                decreases count - j,
            {
                out.push(a - 1 + j);
                j += 1;
            }
        }
        proof {
            assert(out@.map_values(|x: usize| x as int) =~= selector_indices(list@));
        }
        Ok(out)
    } else {
        match parse_usize(list) {
            Ok(v) => {
                let out = vec![v - 1];
                proof {
                    assert(out@.map_values(|x: usize| x as int) =~= selector_indices(list@));
                }
                Ok(out)
            },
            Err(e) => Err(e),
        }
    }
}

} // verus!
