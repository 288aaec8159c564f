//! Offsets into a stream of records: a magnitude paired with a mode that
//! says whether the magnitude counts from the start or from the end.

use vstd::prelude::*;
use vstd::string::StrSliceExecFns;
use crate::errors::FormatError;
use crate::numbers::parse_decimal;
use crate::text::digits_val;
use crate::text::is_number_text;

verus! {

/// A count paired with a mode. `Usize(n)` asks for the last `n` records
/// (absolute mode, the default). `PlusUsize(n)` asks for every record from
/// position `n` on (relative-from-start mode, written with a leading `+`).
#[derive(Debug, Clone, Copy, PartialEq, Eq, Structural)]
pub enum PlusUsize {
    Usize(usize),
    PlusUsize(usize),
}

/// Does the offset text carry the leading `+` that marks relative mode?
pub open spec fn offset_is_relative(s: Seq<char>) -> bool {
    s.len() > 0 && s[0] == '+'
}

/// The digits of the offset text: everything after the `+` marker if it is
/// there, the whole text otherwise.
pub open spec fn offset_digits(s: Seq<char>) -> Seq<char> {
    if offset_is_relative(s) {
        s.drop_first()
    } else {
        s
    }
}

/// An offset text is valid when its digits form a non-empty decimal number
/// that fits in a `usize`.
pub open spec fn valid_offset_text(s: Seq<char>) -> bool {
    is_number_text(offset_digits(s)) && digits_val(offset_digits(s)) <= usize::MAX
}

/// Read an offset: an optional leading `+` (relative-from-start mode) and a
/// non-negative decimal count (absolute, "last n", mode without the `+`).
pub fn parse_plus_usize(input: &str) -> (r: Result<PlusUsize, FormatError>)
    ensures
        r is Ok <==> valid_offset_text(input@),
        r matches Ok(o) ==> o == if offset_is_relative(input@) {
            PlusUsize::PlusUsize(digits_val(offset_digits(input@)) as usize)
        } else {
            PlusUsize::Usize(digits_val(offset_digits(input@)) as usize)
        },
        r matches Err(e) ==> e.token@ == input@,
{
    let n = input.unicode_len();
    let relative = n > 0 && input.get_char(0) == '+';
    let digits = if relative {
        input.substring_char(1, n)
    } else {
        input
    };
    proof {
        if relative {
            assert(digits@ =~= input@.drop_first());
        }
    }
    match parse_decimal(digits) {
        Some(v) => {
            if relative {
                Ok(PlusUsize::PlusUsize(v))
            } else {
                Ok(PlusUsize::Usize(v))
            }
        },
        None => Err(FormatError::new(input, "expected a count, optionally after a plus sign")),
    }
}

/// Given `total` records and a resolved offset, the half-open window
/// `[start, end)` of record positions to emit.
///
/// Relative mode keeps `[n, total)`, or nothing when `n >= total`.
/// Absolute mode keeps the last `n` positions: `[total - n, total)`,
/// everything when `n >= total`, nothing when `n == 0`.
pub fn select_window(total: usize, offset: PlusUsize) -> (r: (usize, usize))
    ensures
        r.1 == total,
        offset matches PlusUsize::PlusUsize(n) ==> r.0 == if n <= total {
            n as int
        } else {
            total as int
        },
        offset matches PlusUsize::Usize(n) ==> r.0 == if n <= total {
            total - n
        } else {
            0int
        },
{
    match offset {
        PlusUsize::PlusUsize(n) => {
            let start = if n <= total {
                n
            } else {
                total
            };
            (start, total)
        },
        PlusUsize::Usize(n) => {
            let start = if n <= total {
                total - n
            } else {
                0
            };
            (start, total)
        },
    }
}

} // verus!
