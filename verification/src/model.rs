//! The mathematical model of the calculator: how numbers are written in
//! decimal, hexadecimal and grouped binary, how decimal operand text is read
//! back into an integer, and the overflow and division rules shared by all
//! ten integer widths.
use vstd::prelude::*;

verus! {

use vstd::arithmetic::power2::pow2;
use vstd::arithmetic::power2::lemma2_to64;
use vstd::arithmetic::power2::lemma2_to64_rest;
use vstd::arithmetic::power2::lemma_pow2_adds;

/// The character for a single digit value below sixteen, as it appears in
/// decimal, binary and upper-case hexadecimal renderings alike.
pub open spec fn digit_char(d: nat) -> char {
    if d == 0 {
        '0'
    } else if d == 1 {
        '1'
    } else if d == 2 {
        '2'
    } else if d == 3 {
        '3'
    } else if d == 4 {
        '4'
    } else if d == 5 {
        '5'
    } else if d == 6 {
        '6'
    } else if d == 7 {
        '7'
    } else if d == 8 {
        '8'
    } else if d == 9 {
        '9'
    } else if d == 10 {
        'A'
    } else if d == 11 {
        'B'
    } else if d == 12 {
        'C'
    } else if d == 13 {
        'D'
    } else if d == 14 {
        'E'
    } else {
        'F'
    }
}

pub open spec fn is_dec_digit(c: char) -> bool {
    48 <= c as int <= 57
}

pub open spec fn dec_digit_val(c: char) -> int {
    c as int - 48
}

pub open spec fn is_hex_digit(c: char) -> bool {
    is_dec_digit(c) || 65 <= c as int <= 70
}

pub open spec fn hex_digit_val(c: char) -> int {
    if is_dec_digit(c) {
        c as int - 48
    } else {
        c as int - 55
    }
}

/// Standard decimal digits of `n`, most significant first, with no sign and
/// no leading zero (except for `n == 0` itself).
pub open spec fn dec_digits(n: nat) -> Seq<char>
    decreases n,
{
    if n < 10 {
        seq![digit_char(n)]
    } else {
        dec_digits(n / 10) + seq![digit_char(n % 10)]
    }
}

/// Standard signed decimal rendering of a mathematical integer.
pub open spec fn dec_int(v: int) -> Seq<char> {
    if v < 0 {
        "-"@ + dec_digits((-v) as nat)
    } else {
        dec_digits(v as nat)
    }
}

/// Exactly `d` upper-case hexadecimal digits of `u`, most significant first,
/// zero padded on the left.
pub open spec fn hex_digits(u: nat, d: nat) -> Seq<char>
    decreases d,
{
    if d == 0 {
        Seq::empty()
    } else {
        hex_digits(u / 16, (d - 1) as nat) + seq![digit_char(u % 16)]
    }
}

/// The hexadecimal column of the report: `0x` and then exactly `d` digits.
pub open spec fn hex_str(u: nat, d: nat) -> Seq<char> {
    "0x"@ + hex_digits(u, d)
}

/// One binary group: a space and then the four bits of a digit value below
/// sixteen, most significant first.
pub open spec fn nibble_chars(d: nat) -> Seq<char> {
    seq![
        ' ',
        digit_char(d / 8 % 2),
        digit_char(d / 4 % 2),
        digit_char(d / 2 % 2),
        digit_char(d % 2),
    ]
}

/// `g` binary groups of `u`, most significant first.
pub open spec fn bin_groups(u: nat, g: nat) -> Seq<char>
    decreases g,
{
    if g == 0 {
        Seq::empty()
    } else {
        bin_groups(u / 16, (g - 1) as nat) + nibble_chars(u % 16)
    }
}

/// The binary column of the report: `0b` and then `g` space-led groups.
pub open spec fn bin_str(u: nat, g: nat) -> Seq<char> {
    "0b"@ + bin_groups(u, g)
}

/// The plain `w`-bit two's-complement pattern of `u`, most significant first.
pub open spec fn bits_of(u: nat, w: nat) -> Seq<char>
    decreases w,
{
    if w == 0 {
        Seq::empty()
    } else {
        bits_of(u / 2, (w - 1) as nat) + seq![digit_char(u % 2)]
    }
}

/// Drops every space, keeping all other characters in order.
pub open spec fn strip_spaces(s: Seq<char>) -> Seq<char>
    decreases s.len(),
{
    if s.len() == 0 {
        Seq::empty()
    } else if s.last() == ' ' {
        strip_spaces(s.drop_last())
    } else {
        strip_spaces(s.drop_last()) + seq![s.last()]
    }
}

/// The unsigned value read back from a sequence of hexadecimal digits.
pub open spec fn hex_val(s: Seq<char>) -> int
    decreases s.len(),
{
    if s.len() == 0 {
        0
    } else {
        hex_val(s.drop_last()) * 16 + hex_digit_val(s.last())
    }
}

/// The unsigned value read back from a sequence of binary digits.
pub open spec fn bits_val(s: Seq<char>) -> int
    decreases s.len(),
{
    if s.len() == 0 {
        0
    } else {
        bits_val(s.drop_last()) * 2 + dec_digit_val(s.last())
    }
}

pub open spec fn all_dec_digits(s: Seq<char>) -> bool {
    forall|i: int| 0 <= i < s.len() ==> is_dec_digit(s[i])
}

/// The unsigned value of a sequence of decimal digits.
pub open spec fn digits_val(s: Seq<char>) -> int
    decreases s.len(),
{
    if s.len() == 0 {
        0
    } else {
        digits_val(s.drop_last()) * 10 + dec_digit_val(s.last())
    }
}

/// What a decimal operand string means for a type whose values span
/// `[lo, hi]`: an optional sign (a minus only on a signed type), then at
/// least one decimal digit, and a value within the range. Anything else is
/// rejected.
pub open spec fn parse_int(s: Seq<char>, signed: bool, lo: int, hi: int) -> Option<int> {
    if s.len() == 0 {
        None
    } else {
        let neg = s[0] == '-';
        let has_sign = s[0] == '-' || s[0] == '+';
        let ds = if has_sign {
            s.drop_first()
        } else {
            s
        };
        if neg && !signed {
            None
        } else if ds.len() == 0 || !all_dec_digits(ds) {
            None
        } else {
            let v = if neg {
                -digits_val(ds)
            } else {
                digits_val(ds)
            };
            if lo <= v <= hi {
                Some(v)
            } else {
                None
            }
        }
    }
}

/// Integer division truncated toward zero, as the `/` of every fixed-width
/// integer type behaves.
pub open spec fn tdiv(x: int, d: int) -> int {
    if x == 0 {
        0
    } else if x > 0 && d > 0 {
        x / d
    } else if x < 0 && d < 0 {
        (x * -1) / (d * -1)
    } else if x < 0 {
        ((x * -1) / d) * -1
    } else {
        (x / (d * -1)) * -1
    }
}

pub open spec fn add_spec(x: int, y: int, lo: int, hi: int) -> Option<int> {
    if lo <= x + y <= hi {
        Some(x + y)
    } else {
        None
    }
}

pub open spec fn sub_spec(x: int, y: int, lo: int, hi: int) -> Option<int> {
    if lo <= x - y <= hi {
        Some(x - y)
    } else {
        None
    }
}

pub open spec fn mul_spec(x: int, y: int, lo: int, hi: int) -> Option<int> {
    if lo <= x * y <= hi {
        Some(x * y)
    } else {
        None
    }
}

/// Division is undefined on a zero divisor and whenever the truncated
/// quotient leaves the range; on a signed type the latter happens exactly
/// for the smallest value divided by minus one.
pub open spec fn div_spec(x: int, y: int, lo: int, hi: int) -> Option<int> {
    if y == 0 {
        None
    } else if lo <= tdiv(x, y) <= hi {
        Some(tdiv(x, y))
    } else {
        None
    }
}

/// A `Result` of strings, seen as a `Result` of character sequences.
pub open spec fn result_view(r: Result<String, String>) -> Result<Seq<char>, Seq<char>> {
    match r {
        Ok(s) => Ok(s@),
        Err(e) => Err(e@),
    }
}

/// The digit characters carry their values, in decimal (below ten) and in
/// hexadecimal (below sixteen), and none of them is a space.
pub proof fn lemma_digit_char_val(m: nat)
    requires
        m < 16,
    ensures
        is_hex_digit(digit_char(m)),
        hex_digit_val(digit_char(m)) == m,
        m < 10 ==> is_dec_digit(digit_char(m)) && dec_digit_val(digit_char(m)) == m,
        digit_char(m) != ' ',
{
}

pub proof fn lemma_dec_digits_chars(n: nat)
    ensures
        forall|i: int| 0 <= i < dec_digits(n).len() ==> is_dec_digit(#[trigger] dec_digits(n)[i]),
    decreases n,
{
    if n < 10 {
        lemma_digit_char_val(n);
    } else {
        lemma_dec_digits_chars(n / 10);
        lemma_digit_char_val(n % 10);
        let pre = dec_digits(n / 10);
        assert forall|i: int| 0 <= i < dec_digits(n).len() implies is_dec_digit(
            #[trigger] dec_digits(n)[i],
        ) by {
            if i < pre.len() {
                assert(dec_digits(n)[i] == pre[i]);
            } else {
                assert(dec_digits(n)[i] == digit_char(n % 10));
            }
        }
    }
}

pub proof fn lemma_hex_digits_chars(u: nat, d: nat)
    ensures
        forall|i: int| 0 <= i < hex_digits(u, d).len() ==> is_hex_digit(
            #[trigger] hex_digits(u, d)[i],
        ),
    decreases d,
{
    if d > 0 {
        lemma_hex_digits_chars(u / 16, (d - 1) as nat);
        lemma_digit_char_val(u % 16);
        let pre = hex_digits(u / 16, (d - 1) as nat);
        assert forall|i: int| 0 <= i < hex_digits(u, d).len() implies is_hex_digit(
            #[trigger] hex_digits(u, d)[i],
        ) by {
            if i < pre.len() {
                assert(hex_digits(u, d)[i] == pre[i]);
            } else {
                assert(hex_digits(u, d)[i] == digit_char(u % 16));
            }
        }
    }
}

pub proof fn lemma_bin_groups_chars(u: nat, g: nat)
    ensures
        forall|i: int| 0 <= i < bin_groups(u, g).len() ==> (#[trigger] bin_groups(u, g)[i] == ' '
            || bin_groups(u, g)[i] == '0' || bin_groups(u, g)[i] == '1'),
    decreases g,
{
    if g > 0 {
        lemma_bin_groups_chars(u / 16, (g - 1) as nat);
        let pre = bin_groups(u / 16, (g - 1) as nat);
        let m = u % 16;
        lemma_digit_char_val(m / 8 % 2);
        lemma_digit_char_val(m / 4 % 2);
        lemma_digit_char_val(m / 2 % 2);
        lemma_digit_char_val(m % 2);
        assert forall|i: int| 0 <= i < bin_groups(u, g).len() implies (#[trigger] bin_groups(
            u,
            g,
        )[i] == ' ' || bin_groups(u, g)[i] == '0' || bin_groups(u, g)[i] == '1') by {
            if i < pre.len() {
                assert(bin_groups(u, g)[i] == pre[i]);
            } else {
                assert(bin_groups(u, g)[i] == nibble_chars(m)[i - pre.len()]);
            }
        }
    }
}

pub proof fn lemma_hex_digits_len(u: nat, d: nat)
    ensures
        hex_digits(u, d).len() == d,
    decreases d,
{
    if d > 0 {
        lemma_hex_digits_len(u / 16, (d - 1) as nat);
    }
}

pub proof fn lemma_bin_groups_len(u: nat, g: nat)
    ensures
        bin_groups(u, g).len() == 5 * g,
    decreases g,
{
    if g > 0 {
        lemma_bin_groups_len(u / 16, (g - 1) as nat);
    }
}

pub proof fn lemma_bits_of_len(u: nat, w: nat)
    ensures
        bits_of(u, w).len() == w,
    decreases w,
{
    if w > 0 {
        lemma_bits_of_len(u / 2, (w - 1) as nat);
    }
}

/// Every group starts with its space and carries four binary digits.
pub proof fn lemma_bin_groups_shape(u: nat, g: nat)
    ensures
        forall|j: int, k: int|
            0 <= j < g && 0 <= k < 5 ==> (#[trigger] bin_groups(u, g)[5 * j + k] == if k == 0 {
                ' '
            } else {
                digit_char(nibble_of(u, g, j, k))
            }),
    decreases g,
{
    lemma_bin_groups_len(u, g);
    if g > 0 {
        lemma_bin_groups_len(u / 16, (g - 1) as nat);
        lemma_bin_groups_shape(u / 16, (g - 1) as nat);
        assert forall|j: int, k: int| 0 <= j < g && 0 <= k < 5 implies (#[trigger] bin_groups(
            u,
            g,
        )[5 * j + k] == if k == 0 {
            ' '
        } else {
            digit_char(nibble_of(u, g, j, k))
        }) by {
            if j < g - 1 {
                assert(bin_groups(u, g)[5 * j + k] == bin_groups(u / 16, (g - 1) as nat)[5 * j
                    + k]);
            } else {
                assert(bin_groups(u, g)[5 * j + k] == nibble_chars(u % 16)[k]);
            }
        }
    }
}

/// The digit value shown at position `k` of group `j` (counted inside the
/// group, `k` from one to four).
pub open spec fn nibble_of(u: nat, g: nat, j: int, k: int) -> nat
    decreases g,
{
    if g == 0 || j < 0 {
        0
    } else if j == g - 1 {
        if k == 1 {
            u % 16 / 8 % 2
        } else if k == 2 {
            u % 16 / 4 % 2
        } else if k == 3 {
            u % 16 / 2 % 2
        } else {
            u % 16 % 2
        }
    } else {
        nibble_of(u / 16, (g - 1) as nat, j, k)
    }
}

/// Dropping spaces distributes over concatenation.
pub proof fn lemma_strip_concat(a: Seq<char>, b: Seq<char>)
    ensures
        strip_spaces(a + b) == strip_spaces(a) + strip_spaces(b),
    decreases b.len(),
{
    if b.len() == 0 {
        assert(a + b =~= a);
        assert(strip_spaces(a) + strip_spaces(b) =~= strip_spaces(a));
    } else {
        assert((a + b).drop_last() =~= a + b.drop_last());
        assert((a + b).last() == b.last());
        lemma_strip_concat(a, b.drop_last());
        if b.last() != ' ' {
            assert(strip_spaces(a) + strip_spaces(b) =~= strip_spaces(a) + strip_spaces(
                b.drop_last(),
            ) + seq![b.last()]);
        }
    }
}

/// Taking the remainder by an even modulus changes neither the lowest bit
/// nor the shifted remainder.
pub proof fn lemma_mod_div_pair(u: nat, m: nat)
    requires
        m > 0,
    ensures
        (u % (2 * m)) % 2 == u % 2,
        (u % (2 * m)) / 2 == (u / 2) % m,
{
    let ui = u as int;
    let mi = m as int;
    let q = ui / (2 * mi);
    let r = ui % (2 * mi);
    vstd::arithmetic::div_mod::lemma_fundamental_div_mod(ui, 2 * mi);
    vstd::arithmetic::div_mod::lemma_fundamental_div_mod(r, 2);
    assert((2 * mi) * q == 2 * (mi * q)) by (nonlinear_arith);
    vstd::arithmetic::div_mod::lemma_fundamental_div_mod_converse(
        ui,
        2,
        mi * q + r / 2,
        r % 2,
    );
    vstd::arithmetic::div_mod::lemma_multiply_divide_lt(r, 2, mi);
    vstd::arithmetic::div_mod::lemma_mod_multiples_vanish(q, r / 2, mi);
    vstd::arithmetic::div_mod::lemma_small_mod((r / 2) as nat, m);
}

/// The bit pattern splits at any point into the pattern of the high part
/// and the pattern of the low part.
pub proof fn lemma_bits_of_split(u: nat, w: nat, k: nat)
    requires
        k <= w,
    ensures
        bits_of(u, w) == bits_of(u / pow2(k), (w - k) as nat) + bits_of(u % pow2(k), k),
    decreases k,
{
    if k == 0 {
        assert(pow2(0) == 1) by {
            lemma2_to64();
        }
        vstd::arithmetic::div_mod::lemma_div_basics(u as int);
        vstd::arithmetic::div_mod::lemma_mod_bound(u as int, 1);
        assert(u / pow2(0) == u);
        assert(u % pow2(0) == 0);
        assert(bits_of(u / pow2(0), w) + bits_of(u % pow2(0), 0) =~= bits_of(u, w));
    } else {
        lemma_pow2_adds(1, (k - 1) as nat);
        lemma2_to64();
        vstd::arithmetic::power2::lemma_pow2_pos((k - 1) as nat);
        lemma_bits_of_split(u / 2, (w - 1) as nat, (k - 1) as nat);
        vstd::arithmetic::div_mod::lemma_div_denominator(u as int, 2, pow2((k - 1) as nat) as int);
        lemma_mod_div_pair(u, pow2((k - 1) as nat));
        assert(bits_of(u % pow2(k), k) == bits_of((u % pow2(k)) / 2, (k - 1) as nat) + seq![
            digit_char((u % pow2(k)) % 2),
        ]);
        assert(bits_of(u, w) =~= bits_of(u / pow2(k), (w - k) as nat) + bits_of(u % pow2(k), k));
    }
}

/// One group, stripped of its space, is the bit pattern of its digit value.
pub proof fn lemma_nibble_strip(m: nat)
    requires
        m < 16,
    ensures
        strip_spaces(nibble_chars(m)) == bits_of(m, 4),
{
    let nc = nibble_chars(m);
    let c1 = digit_char(m / 8 % 2);
    let c2 = digit_char(m / 4 % 2);
    let c3 = digit_char(m / 2 % 2);
    let c4 = digit_char(m % 2);
    lemma_digit_char_val(m / 8 % 2);
    lemma_digit_char_val(m / 4 % 2);
    lemma_digit_char_val(m / 2 % 2);
    lemma_digit_char_val(m % 2);
    let s0 = seq![' '];
    let s1 = seq![' ', c1];
    let s2 = seq![' ', c1, c2];
    let s3 = seq![' ', c1, c2, c3];
    assert(s0.drop_last() =~= Seq::<char>::empty());
    assert(s1.drop_last() =~= s0);
    assert(s2.drop_last() =~= s1);
    assert(s3.drop_last() =~= s2);
    assert(nc.drop_last() =~= s3);
    assert(strip_spaces(Seq::<char>::empty()) == Seq::<char>::empty());
    assert(strip_spaces(s0) == strip_spaces(Seq::<char>::empty()));
    assert(strip_spaces(s1) == strip_spaces(s0) + seq![c1]);
    assert(strip_spaces(s2) == strip_spaces(s1) + seq![c2]);
    assert(strip_spaces(s3) == strip_spaces(s2) + seq![c3]);
    assert(strip_spaces(nc) == strip_spaces(s3) + seq![c4]);
    assert(strip_spaces(nc) =~= seq![c1, c2, c3, c4]);
    vstd::arithmetic::div_mod::lemma_div_denominator(m as int, 2, 2);
    vstd::arithmetic::div_mod::lemma_div_denominator(m as int, 4, 2);
    vstd::arithmetic::div_mod::lemma_div_denominator(m as int, 8, 2);
    assert(bits_of(m, 4) == bits_of(m / 2, 3) + seq![digit_char(m % 2)]);
    assert(bits_of(m / 2, 3) == bits_of(m / 4, 2) + seq![digit_char(m / 2 % 2)]);
    assert(bits_of(m / 4, 2) == bits_of(m / 8, 1) + seq![digit_char(m / 4 % 2)]);
    assert(bits_of(m / 8, 1) == bits_of(m / 16, 0) + seq![digit_char(m / 8 % 2)]);
    assert(m / 16 == 0);
    assert(bits_of(m, 4) =~= strip_spaces(nc));
}

/// The binary column carries exactly the bit pattern: stripping its spaces
/// leaves the `4 * g` bits of the value.
pub proof fn lemma_bin_groups_strip(u: nat, g: nat)
    ensures
        strip_spaces(bin_groups(u, g)) == bits_of(u, 4 * g),
    decreases g,
{
    if g == 0 {
        assert(strip_spaces(bin_groups(u, 0)) =~= bits_of(u, 0));
    } else {
        lemma_bin_groups_strip(u / 16, (g - 1) as nat);
        lemma_strip_concat(bin_groups(u / 16, (g - 1) as nat), nibble_chars(u % 16));
        lemma_nibble_strip(u % 16);
        lemma_bits_of_split(u, 4 * g, 4);
        assert(pow2(4) == 16) by {
            lemma2_to64();
        }
        assert(strip_spaces(bin_groups(u, g)) =~= bits_of(u, 4 * g));
    }
}

/// Bit `i` of the pattern (most significant first) is the matching binary
/// digit of the value.
pub proof fn lemma_bits_of_index(u: nat, w: nat)
    ensures
        forall|i: int| 0 <= i < w ==> #[trigger] bits_of(u, w)[i] == digit_char(
            (u / pow2((w - 1 - i) as nat)) % 2,
        ),
    decreases w,
{
    lemma_bits_of_len(u, w);
    if w > 0 {
        lemma_bits_of_len(u / 2, (w - 1) as nat);
        lemma_bits_of_index(u / 2, (w - 1) as nat);
        assert forall|i: int| 0 <= i < w implies #[trigger] bits_of(u, w)[i] == digit_char(
            (u / pow2((w - 1 - i) as nat)) % 2,
        ) by {
            if i < w - 1 {
                assert(bits_of(u, w)[i] == bits_of(u / 2, (w - 1) as nat)[i]);
                lemma_pow2_adds(1, (w - 2 - i) as nat);
                lemma2_to64();
                vstd::arithmetic::power2::lemma_pow2_pos((w - 2 - i) as nat);
                vstd::arithmetic::div_mod::lemma_div_denominator(
                    u as int,
                    2,
                    pow2((w - 2 - i) as nat) as int,
                );
            } else {
                assert(bits_of(u, w)[i] == digit_char(u % 2));
                assert(pow2(0) == 1) by {
                    lemma2_to64();
                }
                vstd::arithmetic::div_mod::lemma_div_basics(u as int);
                assert(u / pow2(0) == u);
            }
        }
    }
}

/// Reading the `w`-bit pattern of a `w`-bit value back yields the value.
pub proof fn lemma_bits_round_trip(u: nat, w: nat)
    requires
        u < pow2(w),
    ensures
        bits_val(bits_of(u, w)) == u,
    decreases w,
{
    if w == 0 {
        assert(pow2(0) == 1) by {
            lemma2_to64();
        }
    } else {
        lemma_pow2_adds(1, (w - 1) as nat);
        lemma2_to64();
        vstd::arithmetic::div_mod::lemma_multiply_divide_lt(u as int, 2, pow2((w - 1) as nat) as int);
        lemma_bits_round_trip(u / 2, (w - 1) as nat);
        lemma_digit_char_val(u % 2);
        let tail = seq![digit_char(u % 2)];
        assert((bits_of(u / 2, (w - 1) as nat) + tail).drop_last() =~= bits_of(
            u / 2,
            (w - 1) as nat,
        ));
        vstd::arithmetic::div_mod::lemma_fundamental_div_mod(u as int, 2);
    }
}

/// Reading the `d`-digit hexadecimal column of a `4 * d`-bit value back
/// yields the value.
pub proof fn lemma_hex_round_trip(u: nat, d: nat)
    requires
        u < pow2(4 * d),
    ensures
        hex_val(hex_digits(u, d)) == u,
    decreases d,
{
    if d == 0 {
        assert(pow2(0) == 1) by {
            lemma2_to64();
        }
    } else {
        lemma_pow2_adds(4, (4 * d - 4) as nat);
        lemma2_to64();
        vstd::arithmetic::power2::lemma_pow2_pos((4 * d - 4) as nat);
        vstd::arithmetic::div_mod::lemma_multiply_divide_lt(
            u as int,
            16,
            pow2((4 * d - 4) as nat) as int,
        );
        lemma_hex_round_trip(u / 16, (d - 1) as nat);
        lemma_digit_char_val(u % 16);
        let tail = seq![digit_char(u % 16)];
        assert((hex_digits(u / 16, (d - 1) as nat) + tail).drop_last() =~= hex_digits(
            u / 16,
            (d - 1) as nat,
        ));
        vstd::arithmetic::div_mod::lemma_fundamental_div_mod(u as int, 16);
    }
}

pub proof fn lemma_digits_val_nonneg(s: Seq<char>)
    requires
        all_dec_digits(s),
    ensures
        digits_val(s) >= 0,
    decreases s.len(),
{
    if s.len() > 0 {
        assert(is_dec_digit(s.last()));
        lemma_digits_val_nonneg(s.drop_last());
    }
}

/// Reading more digits never shrinks the value: a prefix of a digit string
/// is worth at most the whole string.
pub proof fn lemma_digits_val_prefix(s: Seq<char>, k: int)
    requires
        all_dec_digits(s),
        0 <= k <= s.len(),
    ensures
        digits_val(s.subrange(0, k)) <= digits_val(s),
    decreases s.len(),
{
    if k == s.len() {
        assert(s.subrange(0, k) =~= s);
    } else {
        let dl = s.drop_last();
        assert(dl.subrange(0, k) =~= s.subrange(0, k));
        lemma_digits_val_prefix(dl, k);
        lemma_digits_val_nonneg(dl);
        assert(is_dec_digit(s.last()));
    }
}

/// The concrete powers of two at the boundaries of the ten supported widths.
pub proof fn lemma_pow2_widths()
    ensures
        pow2(7) == 0x80,
        pow2(8) == 0x100,
        pow2(15) == 0x8000,
        pow2(16) == 0x10000,
        pow2(31) == 0x8000_0000,
        pow2(32) == 0x1_0000_0000,
        pow2(63) == 0x8000_0000_0000_0000,
        pow2(64) == 0x1_0000_0000_0000_0000,
        pow2(127) == 0x8000_0000_0000_0000_0000_0000_0000_0000,
        pow2(128) == 0x1_0000_0000_0000_0000_0000_0000_0000_0000,
{
    lemma2_to64();
    lemma2_to64_rest();
    lemma_pow2_adds(64, 63);
    lemma_pow2_adds(64, 64);
}

} // verus!
