//! Executable rendering of numbers: decimal digits, fixed-width upper-case
//! hexadecimal, and the grouped binary form used by the report.
use vstd::prelude::*;

verus! {

use vstd::arithmetic::power2::pow2;
use crate::model::bin_groups;
use crate::model::bin_str;
use crate::model::dec_digits;
use crate::model::digit_char;
use crate::model::hex_digits;
use crate::model::hex_str;
use crate::model::nibble_chars;

/// Appends the character of a single digit value below sixteen.
fn push_digit(s: &mut String, d: u8)
    requires
        d < 16,
    ensures
        final(s)@ == old(s)@ + seq![digit_char(d as nat)],
{
    if d == 0 {
        proof {
            reveal_strlit("0");
        }
        s.append("0");
    } else if d == 1 {
        proof {
            reveal_strlit("1");
        }
        s.append("1");
    } else if d == 2 {
        proof {
            reveal_strlit("2");
        }
        s.append("2");
    } else if d == 3 {
        proof {
            reveal_strlit("3");
        }
        s.append("3");
    } else if d == 4 {
        proof {
            reveal_strlit("4");
        }
        s.append("4");
    } else if d == 5 {
        proof {
            reveal_strlit("5");
        }
        s.append("5");
    } else if d == 6 {
        proof {
            reveal_strlit("6");
        }
        s.append("6");
    } else if d == 7 {
        proof {
            reveal_strlit("7");
        }
        s.append("7");
    } else if d == 8 {
        proof {
            reveal_strlit("8");
        }
        s.append("8");
    } else if d == 9 {
        proof {
            reveal_strlit("9");
        }
        s.append("9");
    } else if d == 10 {
        proof {
            reveal_strlit("A");
        }
        s.append("A");
    } else if d == 11 {
        proof {
            reveal_strlit("B");
        }
        s.append("B");
    } else if d == 12 {
        proof {
            reveal_strlit("C");
        }
        s.append("C");
    } else if d == 13 {
        proof {
            reveal_strlit("D");
        }
        s.append("D");
    } else if d == 14 {
        proof {
            reveal_strlit("E");
        }
        s.append("E");
    } else {
        proof {
            reveal_strlit("F");
        }
        s.append("F");
    }
    assert(s@ =~= old(s)@ + seq![digit_char(d as nat)]);
}

/// Appends the standard decimal digits of `n`.
pub(crate) fn push_dec_digits(s: &mut String, n: u128)
    ensures
        final(s)@ == old(s)@ + dec_digits(n as nat),
    decreases n,
{
    if n < 10 {
        push_digit(s, n as u8);
    } else {
        push_dec_digits(s, n / 10);
        push_digit(s, (n % 10) as u8);
        assert(s@ =~= old(s)@ + dec_digits(n as nat));
    }
}

/// Appends exactly `d` hexadecimal digits of `u`, zero padded.
fn push_hex_digits(s: &mut String, u: u128, d: usize)
    ensures
        final(s)@ == old(s)@ + hex_digits(u as nat, d as nat),
    decreases d,
{
    if d == 0 {
        assert(s@ =~= old(s)@ + hex_digits(u as nat, 0));
    } else {
        push_hex_digits(s, u / 16, d - 1);
        push_digit(s, (u % 16) as u8);
        assert(s@ =~= old(s)@ + hex_digits(u as nat, d as nat));
    }
}

/// Appends the full hexadecimal column: `0x` and `d` digits of `u`.
pub(crate) fn push_hex_str(s: &mut String, u: u128, d: usize)
    ensures
        final(s)@ == old(s)@ + hex_str(u as nat, d as nat),
{
    s.append("0x");
    push_hex_digits(s, u, d);
    assert(s@ =~= old(s)@ + hex_str(u as nat, d as nat));
}

/// Appends one binary group: a space and the four bits of `d`.
fn push_nibble(s: &mut String, d: u8)
    requires
        d < 16,
    ensures
        final(s)@ == old(s)@ + nibble_chars(d as nat),
{
    if d == 0 {
        proof {
            reveal_strlit(" 0000");
        }
        s.append(" 0000");
    } else if d == 1 {
        proof {
            reveal_strlit(" 0001");
        }
        s.append(" 0001");
    } else if d == 2 {
        proof {
            reveal_strlit(" 0010");
        }
        s.append(" 0010");
    } else if d == 3 {
        proof {
            reveal_strlit(" 0011");
        }
        s.append(" 0011");
    } else if d == 4 {
        proof {
            reveal_strlit(" 0100");
        }
        s.append(" 0100");
    } else if d == 5 {
        proof {
            reveal_strlit(" 0101");
        }
        s.append(" 0101");
    } else if d == 6 {
        proof {
            reveal_strlit(" 0110");
        }
        s.append(" 0110");
    } else if d == 7 {
        proof {
            reveal_strlit(" 0111");
        }
        s.append(" 0111");
    } else if d == 8 {
        proof {
            reveal_strlit(" 1000");
        }
        s.append(" 1000");
    } else if d == 9 {
        proof {
            reveal_strlit(" 1001");
        }
        s.append(" 1001");
    } else if d == 10 {
        proof {
            reveal_strlit(" 1010");
        }
        s.append(" 1010");
    } else if d == 11 {
        proof {
            reveal_strlit(" 1011");
        }
        s.append(" 1011");
    } else if d == 12 {
        proof {
            reveal_strlit(" 1100");
        }
        s.append(" 1100");
    } else if d == 13 {
        proof {
            reveal_strlit(" 1101");
        }
        s.append(" 1101");
    } else if d == 14 {
        proof {
            reveal_strlit(" 1110");
        }
        s.append(" 1110");
    } else {
        proof {
            reveal_strlit(" 1111");
        }
        s.append(" 1111");
    }
    assert(s@ =~= old(s)@ + nibble_chars(d as nat));
}

/// Appends `g` binary groups of `u`, most significant first.
fn push_bin_groups(s: &mut String, u: u128, g: usize)
    ensures
        final(s)@ == old(s)@ + bin_groups(u as nat, g as nat),
    decreases g,
{
    if g == 0 {
        assert(s@ =~= old(s)@ + bin_groups(u as nat, 0));
    } else {
        push_bin_groups(s, u / 16, g - 1);
        push_nibble(s, (u % 16) as u8);
        assert(s@ =~= old(s)@ + bin_groups(u as nat, g as nat));
    }
}

/// Renders the two's-complement pattern `val` of a `bits`-wide value as
/// `0b` followed by `bits / 4` groups, each a space and four binary digits.
pub fn format_binary(val: u128, bits: usize) -> (s: String)
    requires
        bits == 8 || bits == 16 || bits == 32 || bits == 64 || bits == 128,
        (val as nat) < pow2(bits as nat),
    ensures
        s@ == bin_str(val as nat, (bits / 4) as nat),
{
    let mut s = String::from_str("0b");
    push_bin_groups(&mut s, val, bits / 4);
    assert(s@ =~= bin_str(val as nat, (bits / 4) as nat));
    s
}

} // verus!
