//! Reading a decimal operand string into an engine type, with the exact
//! acceptance rule of `model::parse_int`: an optional sign, at least one
//! digit, and a value within the type's range.
use vstd::prelude::*;

verus! {

use vstd::string::StrSliceExecFns;
use vstd::arithmetic::power2::pow2;
use crate::model::all_dec_digits;
use crate::model::digits_val;
use crate::model::is_dec_digit;
use crate::model::lemma_digits_val_nonneg;
use crate::model::lemma_digits_val_prefix;
use crate::model::lemma_pow2_widths;
use crate::model::parse_int;
use crate::traits::IntegerOps;

/// Accumulates the decimal digits of `s` from position `start` on into an
/// unsigned magnitude, rejecting the run if it is empty, holds a non-digit,
/// or does not fit in 128 bits.
fn parse_magnitude(s: &str, start: usize) -> (r: Option<u128>)
    requires
        start as int <= s@.len(),
    ensures
        ({
            let ds = s@.subrange(start as int, s@.len() as int);
            match r {
                Some(m) => ds.len() > 0 && all_dec_digits(ds) && m as int == digits_val(ds),
                None => !(ds.len() > 0 && all_dec_digits(ds) && digits_val(ds)
                    <= u128::MAX as int),
            }
        }),
{
    let ghost ds = s@.subrange(start as int, s@.len() as int);
    let n = s.unicode_len();
    if start >= n {
        return None;
    }
    let mut acc: u128 = 0;
    let mut i: usize = start;
    while i < n
        invariant
            start as int <= i as int <= n as int,
            n as int == s@.len(),
            all_dec_digits(s@.subrange(start as int, i as int)),
            acc as int == digits_val(s@.subrange(start as int, i as int)),
            ds == s@.subrange(start as int, s@.len() as int),
        decreases n - i,
    {
        let c = s.get_char(i);
        let u = c as u32;
        if !(48 <= u && u <= 57) {
            proof {
                assert(!is_dec_digit(ds[i - start]));
            }
            return None;
        }
        let d = (u - 48) as u8;
        let ghost pre = s@.subrange(start as int, i as int);
        let ghost ext = s@.subrange(start as int, i as int + 1);
        proof {
            assert(ext.drop_last() =~= pre);
            assert(ext.last() == s@[i as int]);
            assert(forall|j: int| 0 <= j < ext.len() ==> is_dec_digit(#[trigger] ext[j]));
        }
        let acc10 = match acc.checked_mul(10) {
            Some(v) => v,
            None => {
                proof {
                    lemma_overwide(s@, start as int, i as int + 1, acc as int * 10);
                }
                return None;
            },
        };
        let acc2 = match acc10.checked_add(d as u128) {
            Some(v) => v,
            None => {
                proof {
                    lemma_overwide(s@, start as int, i as int + 1, acc10 as int + d);
                }
                return None;
            },
        };
        acc = acc2;
        i += 1;
    }
    proof {
        assert(s@.subrange(start as int, i as int) =~= ds);
    }
    Some(acc)
}

/// If some extension of the digits read so far is already past `u128::MAX`,
/// the full run (if it is all digits) is past it too.
proof fn lemma_overwide(s: Seq<char>, start: int, upto: int, lower: int)
    requires
        0 <= start <= upto <= s.len(),
        digits_val(s.subrange(start, upto)) >= lower,
        lower > u128::MAX as int,
    ensures
        !(all_dec_digits(s.subrange(start, s.len() as int)) && digits_val(
            s.subrange(start, s.len() as int),
        ) <= u128::MAX as int),
{
    let ds = s.subrange(start, s.len() as int);
    if all_dec_digits(ds) {
        assert(ds.subrange(0, upto - start) =~= s.subrange(start, upto));
        lemma_digits_val_prefix(ds, upto - start);
    }
}

/// Reads one operand for the type `T`, exactly as `model::parse_int`
/// prescribes for `T`'s signedness and range.
pub fn parse_value<T: IntegerOps>(s: &str) -> (r: Option<T>)
    ensures
        match r {
            Some(v) => parse_int(s@, T::signed(), T::min_val(), T::max_val()) == Some(v.as_int()),
            None => parse_int(s@, T::signed(), T::min_val(), T::max_val()) == None::<int>,
        },
{
    proof {
        T::lemma_type_shape();
        lemma_pow2_widths();
        if T::signed() {
            vstd::arithmetic::power2::lemma_pow2_strictly_increases(
                (T::bits() - 1) as nat,
                T::bits(),
            );
        }
        vstd::arithmetic::power2::lemma_pow2_pos((T::bits() - 1) as nat);
    }
    let n = s.unicode_len();
    if n == 0 {
        return None;
    }
    let first = s.get_char(0);
    let neg = first == '-';
    let has_sign = first == '-' || first == '+';
    if neg && !T::is_signed() {
        return None;
    }
    let start: usize = if has_sign {
        1
    } else {
        0
    };
    let ghost ds = if has_sign {
        s@.drop_first()
    } else {
        s@
    };
    proof {
        if has_sign {
            assert(s@.subrange(1, s@.len() as int) =~= ds);
        } else {
            assert(s@.subrange(0, s@.len() as int) =~= ds);
        }
    }
    let m = match parse_magnitude(s, start) {
        Some(m) => m,
        None => {
            proof {
                if ds.len() > 0 && all_dec_digits(ds) {
                    lemma_digits_val_nonneg(ds);
                }
            }
            return None;
        },
    };
    if neg {
        if m <= T::neg_limit() {
            Some(T::from_sign_magnitude(true, m))
        } else {
            None
        }
    } else {
        if m <= T::pos_limit() {
            Some(T::from_sign_magnitude(false, m))
        } else {
            None
        }
    }
}

} // verus!
