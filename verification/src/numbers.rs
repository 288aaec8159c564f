//! Verified decimal parsing, and the small positive-integer parsers the
//! tools build on.

use vstd::prelude::*;
use vstd::string::StrSliceExecFns;
use crate::errors::FormatError;
use crate::text::all_digits;
use crate::text::digit_val;
use crate::text::digits_val;
use crate::text::is_digit_char;
use crate::text::is_number_text;
use crate::text::lemma_digits_val_append;
use crate::text::lemma_digits_val_push;

verus! {

/// Parse a non-empty all-digit string as a `usize`. `None` when some
/// character is not a digit or the value does not fit in a `usize`.
pub fn parse_decimal(s: &str) -> (r: Option<usize>)
    ensures
        r is Some <==> is_number_text(s@) && digits_val(s@) <= usize::MAX,
        r matches Some(v) ==> v == digits_val(s@),
{
    let n = s.unicode_len();
    if n == 0 {
        return None;
    }
    let mut acc: usize = 0;
    let mut i: usize = 0;
    proof {
        assert(s@.take(0) =~= Seq::<char>::empty());
    }
    while i < n
        invariant
            n == s@.len(),
            i <= n,
            all_digits(s@.take(i as int)),
            acc == digits_val(s@.take(i as int)),
        decreases n - i,
    {
        let c = s.get_char(i);
        let u = c as u32;
        if u < '0' as u32 || u > '9' as u32 {
            proof {
                assert(!is_digit_char(s@[i as int]));
            }
            return None;
        }
        let d = (u - '0' as u32) as usize;
        proof {
            assert(d == digit_val(s@[i as int]));
            assert(s@.take(i as int + 1) =~= s@.take(i as int).push(s@[i as int]));
            lemma_digits_val_push(s@.take(i as int), s@[i as int]);
        }
        if acc > (usize::MAX - d) / 10 {
            proof {
                let m = usize::MAX as int;
                let a = acc as int;
                let dd = d as int;
                let q = (m - dd) / 10;
                vstd::arithmetic::div_mod::lemma_fundamental_div_mod(m - dd, 10);
                vstd::arithmetic::div_mod::lemma_mod_bound(m - dd, 10);
                assert(a * 10 >= (q + 1) * 10);
                assert(a * 10 + dd > m);
                assert(digits_val(s@.take(i as int + 1)) > usize::MAX);
                assert(s@ =~= s@.take(i as int + 1) + s@.skip(i as int + 1));
                lemma_digits_val_append(s@.take(i as int + 1), s@.skip(i as int + 1));
            }
            return None;
        }
        proof {
            let m = usize::MAX as int;
            let a = acc as int;
            let dd = d as int;
            let q = (m - dd) / 10;
            vstd::arithmetic::div_mod::lemma_fundamental_div_mod(m - dd, 10);
            vstd::arithmetic::div_mod::lemma_mod_bound(m - dd, 10);
            assert(a * 10 <= q * 10);
            assert(a * 10 + dd <= m);
        }
        acc = acc * 10 + d;
        i += 1;
    }
    proof {
        assert(s@.take(n as int) =~= s@);
    }
    Some(acc)
}

/// A strictly positive integer, or an error naming the text that failed.
pub fn parse_usize(num: &str) -> (r: Result<usize, FormatError>)
    ensures
        r is Ok <==> is_number_text(num@) && 1 <= digits_val(num@) <= usize::MAX,
        r matches Ok(v) ==> v == digits_val(num@),
        r matches Err(e) ==> e.token@ == num@,
{
    match parse_decimal(num) {
        Some(v) => {
            if v > 0 {
                Ok(v)
            } else {
                Err(FormatError::new(num, "expected a positive number"))
            }
        },
        None => Err(FormatError::new(num, "expected a positive number")),
    }
}

/// A strictly positive integer, or an error naming the text that failed;
/// the same reading as `parse_usize`, under the name the line-oriented
/// tools use for it.
pub fn parse_positive_int(x: &str) -> (r: Result<usize, FormatError>)
    ensures
        r is Ok <==> is_number_text(x@) && 1 <= digits_val(x@) <= usize::MAX,
        r matches Ok(v) ==> v == digits_val(x@),
        r matches Err(e) ==> e.token@ == x@,
{
    parse_usize(x)
}

/// A positive integer no greater than `max`, or an error naming the text.
pub fn parse(input: &str, max: usize) -> (r: Result<usize, FormatError>)
    ensures
        r is Ok <==> is_number_text(input@) && 1 <= digits_val(input@) <= max,
        r matches Ok(v) ==> v == digits_val(input@),
        r matches Err(e) ==> e.token@ == input@,
{
    match parse_decimal(input) {
        Some(v) => {
            if 1 <= v && v <= max {
                Ok(v)
            } else {
                Err(FormatError::new(input, "number out of range"))
            }
        },
        None => Err(FormatError::new(input, "not a number")),
    }
}

} // verus!
