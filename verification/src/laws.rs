//! The laws of the calculator, stated once over every type and proved from
//! the contracts of the model: evaluation succeeds on every in-range pair,
//! the binary column is exactly the two's-complement pattern, the bitwise
//! blocks never show the undefined marker, division is undefined exactly
//! where the rules say, and both bit-level columns read back to the value
//! they render.
use vstd::prelude::*;

verus! {

use vstd::arithmetic::power2::pow2;
use crate::calculator::arith_line;
use crate::calculator::bit_block;
use crate::calculator::div_line;
use crate::calculator::eval_spec;
use crate::calculator::value_triplet;
use crate::model::bin_groups;
use crate::model::bin_str;
use crate::model::bits_of;
use crate::model::bits_val;
use crate::model::dec_int;
use crate::model::digit_char;
use crate::model::div_spec;
use crate::model::hex_digits;
use crate::model::hex_val;
use crate::model::is_dec_digit;
use crate::model::is_hex_digit;
use crate::model::lemma_bin_groups_chars;
use crate::model::lemma_bin_groups_len;
use crate::model::lemma_bin_groups_shape;
use crate::model::lemma_bin_groups_strip;
use crate::model::lemma_bits_of_index;
use crate::model::lemma_bits_of_len;
use crate::model::lemma_bits_round_trip;
use crate::model::lemma_dec_digits_chars;
use crate::model::lemma_hex_digits_chars;
use crate::model::lemma_hex_round_trip;
use crate::model::nibble_of;
use crate::model::parse_int;
use crate::model::strip_spaces;
use crate::model::tdiv;
use crate::traits::IntegerOps;
use crate::types::CalculatorType;
use crate::types::spec_tag_of;

/// The signedness a tag selects.
pub open spec fn tag_signed(t: CalculatorType) -> bool {
    match t {
        CalculatorType::I8 => true,
        CalculatorType::I16 => true,
        CalculatorType::I32 => true,
        CalculatorType::I64 => true,
        CalculatorType::I128 => true,
        CalculatorType::U8 => false,
        CalculatorType::U16 => false,
        CalculatorType::U32 => false,
        CalculatorType::U64 => false,
        CalculatorType::U128 => false,
    }
}

/// The smallest value of the type a tag selects.
pub open spec fn tag_min(t: CalculatorType) -> int {
    match t {
        CalculatorType::I8 => <i8 as IntegerOps>::min_val(),
        CalculatorType::I16 => <i16 as IntegerOps>::min_val(),
        CalculatorType::I32 => <i32 as IntegerOps>::min_val(),
        CalculatorType::I64 => <i64 as IntegerOps>::min_val(),
        CalculatorType::I128 => <i128 as IntegerOps>::min_val(),
        CalculatorType::U8 => <u8 as IntegerOps>::min_val(),
        CalculatorType::U16 => <u16 as IntegerOps>::min_val(),
        CalculatorType::U32 => <u32 as IntegerOps>::min_val(),
        CalculatorType::U64 => <u64 as IntegerOps>::min_val(),
        CalculatorType::U128 => <u128 as IntegerOps>::min_val(),
    }
}

/// The largest value of the type a tag selects.
pub open spec fn tag_max(t: CalculatorType) -> int {
    match t {
        CalculatorType::I8 => <i8 as IntegerOps>::max_val(),
        CalculatorType::I16 => <i16 as IntegerOps>::max_val(),
        CalculatorType::I32 => <i32 as IntegerOps>::max_val(),
        CalculatorType::I64 => <i64 as IntegerOps>::max_val(),
        CalculatorType::I128 => <i128 as IntegerOps>::max_val(),
        CalculatorType::U8 => <u8 as IntegerOps>::max_val(),
        CalculatorType::U16 => <u16 as IntegerOps>::max_val(),
        CalculatorType::U32 => <u32 as IntegerOps>::max_val(),
        CalculatorType::U64 => <u64 as IntegerOps>::max_val(),
        CalculatorType::U128 => <u128 as IntegerOps>::max_val(),
    }
}

/// For every known tag and every pair of operand strings its type can
/// hold, evaluation succeeds.
pub proof fn lemma_evaluate_total(t: CalculatorType, tag: Seq<char>, a: Seq<char>, b: Seq<char>)
    requires
        spec_tag_of(tag) == Some(t),
        parse_int(a, tag_signed(t), tag_min(t), tag_max(t)) is Some,
        parse_int(b, tag_signed(t), tag_min(t), tag_max(t)) is Some,
    ensures
        eval_spec(tag, a, b) is Ok,
{
    match t {
        CalculatorType::I8 => assert(eval_spec(tag, a, b) is Ok),
        CalculatorType::I16 => assert(eval_spec(tag, a, b) is Ok),
        CalculatorType::I32 => assert(eval_spec(tag, a, b) is Ok),
        CalculatorType::I64 => assert(eval_spec(tag, a, b) is Ok),
        CalculatorType::I128 => assert(eval_spec(tag, a, b) is Ok),
        CalculatorType::U8 => assert(eval_spec(tag, a, b) is Ok),
        CalculatorType::U16 => assert(eval_spec(tag, a, b) is Ok),
        CalculatorType::U32 => assert(eval_spec(tag, a, b) is Ok),
        CalculatorType::U64 => assert(eval_spec(tag, a, b) is Ok),
        CalculatorType::U128 => assert(eval_spec(tag, a, b) is Ok),
    }
}

/// An unknown tag answers exactly the unknown-type message.
pub proof fn lemma_unknown_tag(tag: Seq<char>, a: Seq<char>, b: Seq<char>)
    requires
        spec_tag_of(tag) is None,
    ensures
        eval_spec(tag, a, b) == Err::<Seq<char>, Seq<char>>("Unknown type: "@ + tag),
{
}

/// The shape of the binary column of a `w`-bit value: `0b`, then `w / 4`
/// groups of a space and four binary digits, whose concatenation is the
/// two's-complement pattern of the value, most significant bit first.
pub proof fn lemma_binary_format_shape(u: nat, w: nat)
    requires
        w == 8 || w == 16 || w == 32 || w == 64 || w == 128,
        u < pow2(w),
    ensures
        bin_str(u, w / 4).len() == 2 + 5 * (w / 4),
        bin_str(u, w / 4)[0] == '0',
        bin_str(u, w / 4)[1] == 'b',
        forall|i: int|
            2 <= i < 2 + 5 * (w / 4) && (i - 2) % 5 == 0 ==> #[trigger] bin_str(u, w / 4)[i]
                == ' ',
        forall|i: int|
            2 <= i < 2 + 5 * (w / 4) && (i - 2) % 5 != 0 ==> (#[trigger] bin_str(u, w / 4)[i]
                == '0' || bin_str(u, w / 4)[i] == '1'),
        strip_spaces(bin_groups(u, w / 4)) == bits_of(u, w),
        bits_of(u, w).len() == w,
        forall|i: int| 0 <= i < w ==> #[trigger] bits_of(u, w)[i] == digit_char(
            (u / pow2((w - 1 - i) as nat)) % 2,
        ),
{
    reveal_strlit("0b");
    let g = w / 4;
    lemma_bin_groups_len(u, g);
    lemma_bin_groups_shape(u, g);
    lemma_bin_groups_strip(u, g);
    lemma_bits_of_len(u, w);
    lemma_bits_of_index(u, w);
    assert forall|i: int| 2 <= i < 2 + 5 * g && (i - 2) % 5 == 0 implies #[trigger] bin_str(
        u,
        g,
    )[i] == ' ' by {
        let j = (i - 2) / 5;
        vstd::arithmetic::div_mod::lemma_fundamental_div_mod(i - 2, 5);
        assert(i - 2 == 5 * j);
        assert(0 <= j < g) by (nonlinear_arith)
            requires
                i - 2 == 5 * j && 0 <= i - 2 < 5 * g,
        ;
        assert(bin_str(u, g)[i] == bin_groups(u, g)[5 * j + 0]);
    }
    assert forall|i: int| 2 <= i < 2 + 5 * g && (i - 2) % 5 != 0 implies (#[trigger] bin_str(
        u,
        g,
    )[i] == '0' || bin_str(u, g)[i] == '1') by {
        let j = (i - 2) / 5;
        let k = (i - 2) % 5;
        vstd::arithmetic::div_mod::lemma_fundamental_div_mod(i - 2, 5);
        assert(i - 2 == 5 * j + k);
        assert(0 <= j < g) by (nonlinear_arith)
            requires
                i - 2 == 5 * j + k && 0 <= k < 5 && 0 <= i - 2 < 5 * g,
        ;
        assert(bin_str(u, g)[i] == bin_groups(u, g)[5 * j + k]);
        assert(bin_groups(u, g)[5 * j + k] == digit_char(nibble_of(u, g, j, k)));
        assert(nibble_of(u, g, j, k) < 2) by {
            lemma_nibble_of_bit(u, g, j, k);
        }
    }
}

/// Every digit a group shows is a single bit.
proof fn lemma_nibble_of_bit(u: nat, g: nat, j: int, k: int)
    ensures
        nibble_of(u, g, j, k) < 2,
    decreases g,
{
    if g != 0 && j >= 0 && j != g - 1 {
        lemma_nibble_of_bit(u / 16, (g - 1) as nat, j, k);
    }
}

/// No character of `s` begins the undefined marker.
pub open spec fn marker_free(s: Seq<char>) -> bool {
    forall|i: int| 0 <= i < s.len() ==> s[i] != 'N'
}

proof fn lemma_marker_free_concat(a: Seq<char>, b: Seq<char>)
    requires
        marker_free(a),
        marker_free(b),
    ensures
        marker_free(a + b),
{
    assert forall|i: int| 0 <= i < (a + b).len() implies (a + b)[i] != 'N' by {
        if i < a.len() {
            assert((a + b)[i] == a[i]);
        } else {
            assert((a + b)[i] == b[i - a.len()]);
        }
    }
}

proof fn lemma_dec_int_marker_free(v: int)
    ensures
        marker_free(dec_int(v)),
{
    reveal_strlit("-");
    lemma_dec_digits_chars(if v < 0 {
        (-v) as nat
    } else {
        v as nat
    });
    assert forall|i: int| 0 <= i < dec_int(v).len() implies dec_int(v)[i] != 'N' by {
        if v < 0 {
            if i == 0 {
                assert(dec_int(v)[0] == '-');
            } else {
                assert(dec_int(v)[i] == dec_digits_of(v)[i - 1]);
                assert(is_dec_digit(dec_int(v)[i]));
            }
        } else {
            assert(is_dec_digit(dec_int(v)[i]));
        }
    }
}

/// The digit run of the decimal rendering of `v`.
spec fn dec_digits_of(v: int) -> Seq<char> {
    crate::model::dec_digits(if v < 0 {
        (-v) as nat
    } else {
        v as nat
    })
}

proof fn lemma_triplet_marker_free<T: IntegerOps>(x: T)
    ensures
        marker_free(value_triplet(x)),
{
    reveal_strlit("0b");
    reveal_strlit("0x");
    reveal_strlit(" (");
    reveal_strlit(") (");
    reveal_strlit(")");
    let g = T::bits() / 4;
    lemma_bin_groups_chars(x.image(), g);
    lemma_hex_digits_chars(x.image(), g);
    lemma_dec_int_marker_free(x.as_int());
    assert(marker_free(bin_str(x.image(), g))) by {
        assert forall|i: int| 0 <= i < bin_str(x.image(), g).len() implies bin_str(x.image(), g)[i]
            != 'N' by {
            if i >= 2 {
                assert(bin_str(x.image(), g)[i] == bin_groups(x.image(), g)[i - 2]);
            }
        }
    }
    assert(marker_free(hex_str_of(x))) by {
        assert forall|i: int| 0 <= i < hex_str_of(x).len() implies hex_str_of(x)[i] != 'N' by {
            if i >= 2 {
                assert(hex_str_of(x)[i] == hex_digits(x.image(), g)[i - 2]);
                assert(is_hex_digit(hex_str_of(x)[i]));
            }
        }
    }
    assert(marker_free(" ("@));
    assert(marker_free(") ("@));
    assert(marker_free(")"@));
    lemma_marker_free_concat(bin_str(x.image(), g), " ("@);
    lemma_marker_free_concat(bin_str(x.image(), g) + " ("@, hex_str_of(x));
    lemma_marker_free_concat(bin_str(x.image(), g) + " ("@ + hex_str_of(x), ") ("@);
    lemma_marker_free_concat(
        bin_str(x.image(), g) + " ("@ + hex_str_of(x) + ") ("@,
        dec_int(x.as_int()),
    );
    lemma_marker_free_concat(
        bin_str(x.image(), g) + " ("@ + hex_str_of(x) + ") ("@ + dec_int(x.as_int()),
        ")"@,
    );
}

/// The hexadecimal column of a value, as the triplet shows it.
spec fn hex_str_of<T: IntegerOps>(x: T) -> Seq<char> {
    crate::model::hex_str(x.image(), T::bits() / 4)
}

/// A bitwise block never shows the undefined marker: none of its
/// characters is the marker's first letter, so the marker appears nowhere
/// in it.
pub proof fn lemma_bitwise_never_undefined<T: IntegerOps>(x: T, y: T, sym: Seq<char>, r: T)
    requires
        sym == "&"@ || sym == "|"@ || sym == "^"@,
    ensures
        marker_free(bit_block(x, y, sym, r)),
        forall|j: int, e: int|
            0 <= j && e == j + 4 && e <= bit_block(x, y, sym, r).len() ==> #[trigger] bit_block(
                x,
                y,
                sym,
                r,
            ).subrange(j, e) != "None"@,
{
    reveal_strlit("&");
    reveal_strlit("|");
    reveal_strlit("^");
    reveal_strlit("\n  ");
    reveal_strlit("\n");
    reveal_strlit(" ");
    reveal_strlit("\n= ");
    reveal_strlit("None");
    lemma_triplet_marker_free(x);
    lemma_triplet_marker_free(y);
    lemma_triplet_marker_free(r);
    assert(marker_free(sym));
    lemma_marker_free_concat("\n  "@, value_triplet(x));
    lemma_marker_free_concat("\n  "@ + value_triplet(x), "\n"@);
    lemma_marker_free_concat("\n  "@ + value_triplet(x) + "\n"@, sym);
    lemma_marker_free_concat("\n  "@ + value_triplet(x) + "\n"@ + sym, " "@);
    lemma_marker_free_concat("\n  "@ + value_triplet(x) + "\n"@ + sym + " "@, value_triplet(y));
    lemma_marker_free_concat(
        "\n  "@ + value_triplet(x) + "\n"@ + sym + " "@ + value_triplet(y),
        "\n= "@,
    );
    lemma_marker_free_concat(
        "\n  "@ + value_triplet(x) + "\n"@ + sym + " "@ + value_triplet(y) + "\n= "@,
        value_triplet(r),
    );
    lemma_marker_free_concat(
        "\n  "@ + value_triplet(x) + "\n"@ + sym + " "@ + value_triplet(y) + "\n= "@
            + value_triplet(r),
        "\n"@,
    );
    let bb = bit_block(x, y, sym, r);
    assert forall|j: int, e: int| 0 <= j && e == j + 4 && e <= bb.len() implies #[trigger] bb
        .subrange(j, e) != "None"@ by {
        assert(bb.subrange(j, e)[0] == bb[j]);
        assert(bb[j] != 'N');
        assert("None"@[0] == 'N');
    }
}

/// On a signed type, dividing the smallest value by minus one is
/// undefined, and the division line shows the marker.
pub proof fn lemma_signed_min_div_undefined<T: IntegerOps>(x: T, y: T)
    requires
        T::signed(),
        x.as_int() == T::min_val(),
        y.as_int() == -1,
    ensures
        div_spec(x.as_int(), y.as_int(), T::min_val(), T::max_val()) is None,
        div_line(x, y) == arith_line(T::min_val(), -1, "/"@, None::<int>),
{
    T::lemma_type_shape();
    vstd::arithmetic::power2::lemma_pow2_pos((T::bits() - 1) as nat);
    let p = pow2((T::bits() - 1) as nat) as int;
    assert(tdiv(x.as_int(), y.as_int()) == p) by {
        vstd::arithmetic::div_mod::lemma_div_basics(p);
    }
}

/// Dividing anything by zero is undefined, and the division line shows the
/// marker.
pub proof fn lemma_div_by_zero_undefined<T: IntegerOps>(x: T, y: T)
    requires
        y.as_int() == 0,
    ensures
        div_spec(x.as_int(), y.as_int(), T::min_val(), T::max_val()) is None,
        div_line(x, y) == arith_line(x.as_int(), 0, "/"@, None::<int>),
{
}

/// Both bit-level columns of a triplet read back to the two's-complement
/// image of the value they render.
pub proof fn lemma_report_round_trip<T: IntegerOps>(x: T)
    ensures
        hex_digits(x.image(), T::bits() / 4).len() == T::bits() / 4,
        hex_val(hex_digits(x.image(), T::bits() / 4)) == x.image(),
        bits_val(strip_spaces(bin_groups(x.image(), T::bits() / 4))) == x.image(),
        x.image() == if x.as_int() >= 0 {
            x.as_int() as nat
        } else {
            (x.as_int() + pow2(T::bits())) as nat
        },
{
    T::lemma_type_shape();
    x.lemma_value_model();
    let b = T::bits();
    assert(4 * (b / 4) == b);
    crate::model::lemma_hex_digits_len(x.image(), b / 4);
    lemma_hex_round_trip(x.image(), b / 4);
    lemma_bin_groups_strip(x.image(), b / 4);
    lemma_bits_round_trip(x.image(), b);
}

} // verus!
