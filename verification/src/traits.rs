//! The capability every engine type must offer: checked arithmetic, bitwise
//! operations on the two's-complement pattern, and the conversions the
//! parser and the formatter need. Implemented for the ten fixed-width
//! integer types, signed and unsigned, 8 through 128 bits.
use vstd::prelude::*;

verus! {

use vstd::arithmetic::power2::pow2;
use crate::model::lemma_pow2_widths;
use crate::model::tdiv;

/// What the calculator requires of an integer type.
///
/// `as_int` is the mathematical value; `image` is the `bits()`-wide
/// two's-complement pattern of that value, read as an unsigned number.
pub trait IntegerOps: Sized + Copy {
    spec fn bits() -> nat;

    spec fn signed() -> bool;

    spec fn min_val() -> int;

    spec fn max_val() -> int;

    /// The canonical lowercase tag of the type, `i8` through `u128`.
    spec fn tag() -> Seq<char>;

    spec fn as_int(self) -> int;

    spec fn image(self) -> nat;

    spec fn from_int(v: int) -> Self;

    spec fn spec_and(self, other: Self) -> Self;

    spec fn spec_or(self, other: Self) -> Self;

    spec fn spec_xor(self, other: Self) -> Self;

    /// The width is one of the five supported ones and the range is the
    /// full two's-complement range of that width.
    proof fn lemma_type_shape()
        ensures
            Self::bits() == 8 || Self::bits() == 16 || Self::bits() == 32 || Self::bits() == 64
                || Self::bits() == 128,
            Self::min_val() == if Self::signed() {
                -(pow2((Self::bits() - 1) as nat) as int)
            } else {
                0
            },
            Self::max_val() == if Self::signed() {
                pow2((Self::bits() - 1) as nat) - 1
            } else {
                pow2(Self::bits()) - 1
            },
    ;

    /// Every value lies in the range, its pattern is the unsigned value of
    /// its two's-complement bits, and it is determined by its value.
    proof fn lemma_value_model(self)
        ensures
            Self::min_val() <= self.as_int() <= Self::max_val(),
            self.image() == if self.as_int() >= 0 {
                self.as_int() as nat
            } else {
                (self.as_int() + pow2(Self::bits())) as nat
            },
            self.image() < pow2(Self::bits()),
            Self::from_int(self.as_int()) == self,
    ;

    proof fn lemma_from_int(v: int)
        requires
            Self::min_val() <= v <= Self::max_val(),
        ensures
            Self::from_int(v).as_int() == v,
    ;

    fn tag_name() -> (r: &'static str)
        ensures
            r@ == Self::tag(),
    ;

    fn bit_width() -> (w: usize)
        ensures
            w as nat == Self::bits(),
    ;

    fn is_signed() -> (b: bool)
        ensures
            b == Self::signed(),
    ;

    /// The largest value, as a magnitude; it fits in 128 unsigned bits for
    /// every supported type.
    fn pos_limit() -> (m: u128)
        ensures
            m as int == Self::max_val(),
    ;

    /// The magnitude of the smallest value: zero on an unsigned type.
    fn neg_limit() -> (m: u128)
        ensures
            m as int == -Self::min_val(),
    ;

    fn from_sign_magnitude(neg: bool, m: u128) -> (r: Self)
        requires
            if neg {
                m as int <= -Self::min_val()
            } else {
                m as int <= Self::max_val()
            },
        ensures
            r.as_int() == if neg {
                -(m as int)
            } else {
                m as int
            },
    ;

    fn checked_add(self, other: Self) -> (r: Option<Self>)
        ensures
            match r {
                Some(v) => Self::min_val() <= self.as_int() + other.as_int() <= Self::max_val()
                    && v.as_int() == self.as_int() + other.as_int(),
                None => !(Self::min_val() <= self.as_int() + other.as_int() <= Self::max_val()),
            },
    ;

    fn checked_sub(self, other: Self) -> (r: Option<Self>)
        ensures
            match r {
                Some(v) => Self::min_val() <= self.as_int() - other.as_int() <= Self::max_val()
                    && v.as_int() == self.as_int() - other.as_int(),
                None => !(Self::min_val() <= self.as_int() - other.as_int() <= Self::max_val()),
            },
    ;

    fn checked_mul(self, other: Self) -> (r: Option<Self>)
        ensures
            match r {
                Some(v) => Self::min_val() <= self.as_int() * other.as_int() <= Self::max_val()
                    && v.as_int() == self.as_int() * other.as_int(),
                None => !(Self::min_val() <= self.as_int() * other.as_int() <= Self::max_val()),
            },
    ;

    fn checked_div(self, other: Self) -> (r: Option<Self>)
        ensures
            match r {
                Some(v) => other.as_int() != 0 && Self::min_val() <= tdiv(
                    self.as_int(),
                    other.as_int(),
                ) <= Self::max_val() && v.as_int() == tdiv(self.as_int(), other.as_int()),
                None => other.as_int() == 0 || !(Self::min_val() <= tdiv(
                    self.as_int(),
                    other.as_int(),
                ) <= Self::max_val()),
            },
    ;

    fn and(self, other: Self) -> (r: Self)
        ensures
            r == self.spec_and(other),
    ;

    fn or(self, other: Self) -> (r: Self)
        ensures
            r == self.spec_or(other),
    ;

    fn xor(self, other: Self) -> (r: Self)
        ensures
            r == self.spec_xor(other),
    ;

    /// The sign and the magnitude of the value, for decimal rendering.
    fn to_parts(self) -> (r: (bool, u128))
        ensures
            r.0 == (self.as_int() < 0),
            r.1 as int == if self.as_int() < 0 {
                -self.as_int()
            } else {
                self.as_int()
            },
    ;

    /// The two's-complement pattern, for hexadecimal and binary rendering.
    fn to_image(self) -> (r: u128)
        ensures
            r as nat == self.image(),
    ;
}

impl IntegerOps for i8 {
    open spec fn bits() -> nat {
        8
    }

    open spec fn signed() -> bool {
        true
    }

    open spec fn min_val() -> int {
        i8::MIN as int
    }

    open spec fn max_val() -> int {
        i8::MAX as int
    }

    open spec fn tag() -> Seq<char> {
        "i8"@
    }

    open spec fn as_int(self) -> int {
        self as int
    }

    open spec fn image(self) -> nat {
        if self >= 0 {
            self as nat
        } else {
            (self + 0x100) as nat
        }
    }

    open spec fn from_int(v: int) -> Self {
        v as i8
    }

    open spec fn spec_and(self, other: Self) -> Self {
        self & other
    }

    open spec fn spec_or(self, other: Self) -> Self {
        self | other
    }

    open spec fn spec_xor(self, other: Self) -> Self {
        self ^ other
    }

    proof fn lemma_type_shape() {
        lemma_pow2_widths();
    }

    proof fn lemma_value_model(self) {
        lemma_pow2_widths();
    }

    proof fn lemma_from_int(v: int) {
    }

    fn tag_name() -> (r: &'static str) {
        "i8"
    }

    fn bit_width() -> (w: usize) {
        8
    }

    fn is_signed() -> (b: bool) {
        true
    }

    fn pos_limit() -> (m: u128) {
        127
    }

    fn neg_limit() -> (m: u128) {
        128
    }

    fn from_sign_magnitude(neg: bool, m: u128) -> (r: Self) {
        if neg {
            if m == 128 {
                i8::MIN
            } else {
                -(m as i8)
            }
        } else {
            m as i8
        }
    }

    fn checked_add(self, other: Self) -> (r: Option<Self>) {
        i8::checked_add(self, other)
    }

    fn checked_sub(self, other: Self) -> (r: Option<Self>) {
        i8::checked_sub(self, other)
    }

    fn checked_mul(self, other: Self) -> (r: Option<Self>) {
        i8::checked_mul(self, other)
    }

    fn checked_div(self, other: Self) -> (r: Option<Self>) {
        i8::checked_div(self, other)
    }

    fn and(self, other: Self) -> (r: Self) {
        self & other
    }

    fn or(self, other: Self) -> (r: Self) {
        self | other
    }

    fn xor(self, other: Self) -> (r: Self) {
        self ^ other
    }

    fn to_parts(self) -> (r: (bool, u128)) {
        if self < 0 {
            if self == i8::MIN {
                (true, 128)
            } else {
                (true, (-self) as u128)
            }
        } else {
            (false, self as u128)
        }
    }

    fn to_image(self) -> (r: u128) {
        if self >= 0 {
            self as u128
        } else {
            ((self as i32) + 0x100) as u128
        }
    }
}

impl IntegerOps for u8 {
    open spec fn bits() -> nat {
        8
    }

    open spec fn signed() -> bool {
        false
    }

    open spec fn min_val() -> int {
        0
    }

    open spec fn max_val() -> int {
        u8::MAX as int
    }

    open spec fn tag() -> Seq<char> {
        "u8"@
    }

    open spec fn as_int(self) -> int {
        self as int
    }

    open spec fn image(self) -> nat {
        self as nat
    }

    open spec fn from_int(v: int) -> Self {
        v as u8
    }

    open spec fn spec_and(self, other: Self) -> Self {
        self & other
    }

    open spec fn spec_or(self, other: Self) -> Self {
        self | other
    }

    open spec fn spec_xor(self, other: Self) -> Self {
        self ^ other
    }

    proof fn lemma_type_shape() {
        lemma_pow2_widths();
    }

    proof fn lemma_value_model(self) {
        lemma_pow2_widths();
    }

    proof fn lemma_from_int(v: int) {
    }

    fn tag_name() -> (r: &'static str) {
        "u8"
    }

    fn bit_width() -> (w: usize) {
        8
    }

    fn is_signed() -> (b: bool) {
        false
    }

    fn pos_limit() -> (m: u128) {
        255
    }

    fn neg_limit() -> (m: u128) {
        0
    }

    fn from_sign_magnitude(neg: bool, m: u128) -> (r: Self) {
        let _ = neg;
        m as u8
    }

    fn checked_add(self, other: Self) -> (r: Option<Self>) {
        u8::checked_add(self, other)
    }

    fn checked_sub(self, other: Self) -> (r: Option<Self>) {
        u8::checked_sub(self, other)
    }

    fn checked_mul(self, other: Self) -> (r: Option<Self>) {
        u8::checked_mul(self, other)
    }

    fn checked_div(self, other: Self) -> (r: Option<Self>) {
        u8::checked_div(self, other)
    }

    fn and(self, other: Self) -> (r: Self) {
        self & other
    }

    fn or(self, other: Self) -> (r: Self) {
        self | other
    }

    fn xor(self, other: Self) -> (r: Self) {
        self ^ other
    }

    fn to_parts(self) -> (r: (bool, u128)) {
        (false, self as u128)
    }

    fn to_image(self) -> (r: u128) {
        self as u128
    }
}


impl IntegerOps for i16 {
    open spec fn bits() -> nat {
        16
    }

    open spec fn signed() -> bool {
        true
    }

    open spec fn min_val() -> int {
        i16::MIN as int
    }

    open spec fn max_val() -> int {
        i16::MAX as int
    }

    open spec fn tag() -> Seq<char> {
        "i16"@
    }

    open spec fn as_int(self) -> int {
        self as int
    }

    open spec fn image(self) -> nat {
        if self >= 0 {
            self as nat
        } else {
            (self + 0x10000) as nat
        }
    }

    open spec fn from_int(v: int) -> Self {
        v as i16
    }

    open spec fn spec_and(self, other: Self) -> Self {
        self & other
    }

    open spec fn spec_or(self, other: Self) -> Self {
        self | other
    }

    open spec fn spec_xor(self, other: Self) -> Self {
        self ^ other
    }

    proof fn lemma_type_shape() {
        lemma_pow2_widths();
    }

    proof fn lemma_value_model(self) {
        lemma_pow2_widths();
    }

    proof fn lemma_from_int(v: int) {
    }

    fn tag_name() -> (r: &'static str) {
        "i16"
    }

    fn bit_width() -> (w: usize) {
        16
    }

    fn is_signed() -> (b: bool) {
        true
    }

    fn pos_limit() -> (m: u128) {
        0x7FFF
    }

    fn neg_limit() -> (m: u128) {
        0x8000
    }

    fn from_sign_magnitude(neg: bool, m: u128) -> (r: Self) {
        if neg {
            if m == 0x8000 {
                i16::MIN
            } else {
                -(m as i16)
            }
        } else {
            m as i16
        }
    }

    fn checked_add(self, other: Self) -> (r: Option<Self>) {
        i16::checked_add(self, other)
    }

    fn checked_sub(self, other: Self) -> (r: Option<Self>) {
        i16::checked_sub(self, other)
    }

    fn checked_mul(self, other: Self) -> (r: Option<Self>) {
        i16::checked_mul(self, other)
    }

    fn checked_div(self, other: Self) -> (r: Option<Self>) {
        i16::checked_div(self, other)
    }

    fn and(self, other: Self) -> (r: Self) {
        self & other
    }

    fn or(self, other: Self) -> (r: Self) {
        self | other
    }

    fn xor(self, other: Self) -> (r: Self) {
        self ^ other
    }

    fn to_parts(self) -> (r: (bool, u128)) {
        if self < 0 {
            if self == i16::MIN {
                (true, 0x8000)
            } else {
                (true, (-self) as u128)
            }
        } else {
            (false, self as u128)
        }
    }

    fn to_image(self) -> (r: u128) {
        if self >= 0 {
            self as u128
        } else {
            ((self as i32) + 0x10000) as u128
        }
    }
}

impl IntegerOps for i32 {
    open spec fn bits() -> nat {
        32
    }

    open spec fn signed() -> bool {
        true
    }

    open spec fn min_val() -> int {
        i32::MIN as int
    }

    open spec fn max_val() -> int {
        i32::MAX as int
    }

    open spec fn tag() -> Seq<char> {
        "i32"@
    }

    open spec fn as_int(self) -> int {
        self as int
    }

    open spec fn image(self) -> nat {
        if self >= 0 {
            self as nat
        } else {
            (self + 0x1_0000_0000) as nat
        }
    }

    open spec fn from_int(v: int) -> Self {
        v as i32
    }

    open spec fn spec_and(self, other: Self) -> Self {
        self & other
    }

    open spec fn spec_or(self, other: Self) -> Self {
        self | other
    }

    open spec fn spec_xor(self, other: Self) -> Self {
        self ^ other
    }

    proof fn lemma_type_shape() {
        lemma_pow2_widths();
    }

    proof fn lemma_value_model(self) {
        lemma_pow2_widths();
    }

    proof fn lemma_from_int(v: int) {
    }

    fn tag_name() -> (r: &'static str) {
        "i32"
    }

    fn bit_width() -> (w: usize) {
        32
    }

    fn is_signed() -> (b: bool) {
        true
    }

    fn pos_limit() -> (m: u128) {
        0x7FFF_FFFF
    }

    fn neg_limit() -> (m: u128) {
        0x8000_0000
    }

    fn from_sign_magnitude(neg: bool, m: u128) -> (r: Self) {
        if neg {
            if m == 0x8000_0000 {
                i32::MIN
            } else {
                -(m as i32)
            }
        } else {
            m as i32
        }
    }

    fn checked_add(self, other: Self) -> (r: Option<Self>) {
        i32::checked_add(self, other)
    }

    fn checked_sub(self, other: Self) -> (r: Option<Self>) {
        i32::checked_sub(self, other)
    }

    fn checked_mul(self, other: Self) -> (r: Option<Self>) {
        i32::checked_mul(self, other)
    }

    fn checked_div(self, other: Self) -> (r: Option<Self>) {
        i32::checked_div(self, other)
    }

    fn and(self, other: Self) -> (r: Self) {
        self & other
    }

    fn or(self, other: Self) -> (r: Self) {
        self | other
    }

    fn xor(self, other: Self) -> (r: Self) {
        self ^ other
    }

    fn to_parts(self) -> (r: (bool, u128)) {
        if self < 0 {
            if self == i32::MIN {
                (true, 0x8000_0000)
            } else {
                (true, (-self) as u128)
            }
        } else {
            (false, self as u128)
        }
    }

    fn to_image(self) -> (r: u128) {
        if self >= 0 {
            self as u128
        } else {
            ((self as i64) + 0x1_0000_0000) as u128
        }
    }
}

impl IntegerOps for i64 {
    open spec fn bits() -> nat {
        64
    }

    open spec fn signed() -> bool {
        true
    }

    open spec fn min_val() -> int {
        i64::MIN as int
    }

    open spec fn max_val() -> int {
        i64::MAX as int
    }

    open spec fn tag() -> Seq<char> {
        "i64"@
    }

    open spec fn as_int(self) -> int {
        self as int
    }

    open spec fn image(self) -> nat {
        if self >= 0 {
            self as nat
        } else {
            (self + 0x1_0000_0000_0000_0000) as nat
        }
    }

    open spec fn from_int(v: int) -> Self {
        v as i64
    }

    open spec fn spec_and(self, other: Self) -> Self {
        self & other
    }

    open spec fn spec_or(self, other: Self) -> Self {
        self | other
    }

    open spec fn spec_xor(self, other: Self) -> Self {
        self ^ other
    }

    proof fn lemma_type_shape() {
        lemma_pow2_widths();
    }

    proof fn lemma_value_model(self) {
        lemma_pow2_widths();
    }

    proof fn lemma_from_int(v: int) {
    }

    fn tag_name() -> (r: &'static str) {
        "i64"
    }

    fn bit_width() -> (w: usize) {
        64
    }

    fn is_signed() -> (b: bool) {
        true
    }

    fn pos_limit() -> (m: u128) {
        0x7FFF_FFFF_FFFF_FFFF
    }

    fn neg_limit() -> (m: u128) {
        0x8000_0000_0000_0000
    }

    fn from_sign_magnitude(neg: bool, m: u128) -> (r: Self) {
        if neg {
            if m == 0x8000_0000_0000_0000 {
                i64::MIN
            } else {
                -(m as i64)
            }
        } else {
            m as i64
        }
    }

    fn checked_add(self, other: Self) -> (r: Option<Self>) {
        i64::checked_add(self, other)
    }

    fn checked_sub(self, other: Self) -> (r: Option<Self>) {
        i64::checked_sub(self, other)
    }

    fn checked_mul(self, other: Self) -> (r: Option<Self>) {
        i64::checked_mul(self, other)
    }

    fn checked_div(self, other: Self) -> (r: Option<Self>) {
        i64::checked_div(self, other)
    }

    fn and(self, other: Self) -> (r: Self) {
        self & other
    }

    fn or(self, other: Self) -> (r: Self) {
        self | other
    }

    fn xor(self, other: Self) -> (r: Self) {
        self ^ other
    }

    fn to_parts(self) -> (r: (bool, u128)) {
        if self < 0 {
            if self == i64::MIN {
                (true, 0x8000_0000_0000_0000)
            } else {
                (true, (-self) as u128)
            }
        } else {
            (false, self as u128)
        }
    }

    fn to_image(self) -> (r: u128) {
        if self >= 0 {
            self as u128
        } else {
            ((self as i128) + 0x1_0000_0000_0000_0000) as u128
        }
    }
}

impl IntegerOps for i128 {
    open spec fn bits() -> nat {
        128
    }

    open spec fn signed() -> bool {
        true
    }

    open spec fn min_val() -> int {
        i128::MIN as int
    }

    open spec fn max_val() -> int {
        i128::MAX as int
    }

    open spec fn tag() -> Seq<char> {
        "i128"@
    }

    open spec fn as_int(self) -> int {
        self as int
    }

    open spec fn image(self) -> nat {
        if self >= 0 {
            self as nat
        } else {
            (self + 0x1_0000_0000_0000_0000_0000_0000_0000_0000) as nat
        }
    }

    open spec fn from_int(v: int) -> Self {
        v as i128
    }

    open spec fn spec_and(self, other: Self) -> Self {
        self & other
    }

    open spec fn spec_or(self, other: Self) -> Self {
        self | other
    }

    open spec fn spec_xor(self, other: Self) -> Self {
        self ^ other
    }

    proof fn lemma_type_shape() {
        lemma_pow2_widths();
    }

    proof fn lemma_value_model(self) {
        lemma_pow2_widths();
    }

    proof fn lemma_from_int(v: int) {
    }

    fn tag_name() -> (r: &'static str) {
        "i128"
    }

    fn bit_width() -> (w: usize) {
        128
    }

    fn is_signed() -> (b: bool) {
        true
    }

    fn pos_limit() -> (m: u128) {
        0x7FFF_FFFF_FFFF_FFFF_FFFF_FFFF_FFFF_FFFF
    }

    fn neg_limit() -> (m: u128) {
        0x8000_0000_0000_0000_0000_0000_0000_0000
    }

    fn from_sign_magnitude(neg: bool, m: u128) -> (r: Self) {
        if neg {
            if m == 0x8000_0000_0000_0000_0000_0000_0000_0000 {
                i128::MIN
            } else {
                -(m as i128)
            }
        } else {
            m as i128
        }
    }

    fn checked_add(self, other: Self) -> (r: Option<Self>) {
        i128::checked_add(self, other)
    }

    fn checked_sub(self, other: Self) -> (r: Option<Self>) {
        i128::checked_sub(self, other)
    }

    fn checked_mul(self, other: Self) -> (r: Option<Self>) {
        i128::checked_mul(self, other)
    }

    fn checked_div(self, other: Self) -> (r: Option<Self>) {
        i128::checked_div(self, other)
    }

    fn and(self, other: Self) -> (r: Self) {
        self & other
    }

    fn or(self, other: Self) -> (r: Self) {
        self | other
    }

    fn xor(self, other: Self) -> (r: Self) {
        self ^ other
    }

    fn to_parts(self) -> (r: (bool, u128)) {
        if self < 0 {
            if self == i128::MIN {
                (true, 0x8000_0000_0000_0000_0000_0000_0000_0000)
            } else {
                (true, (-self) as u128)
            }
        } else {
            (false, self as u128)
        }
    }

    fn to_image(self) -> (r: u128) {
        if self >= 0 {
            self as u128
        } else if self == i128::MIN {
            0x8000_0000_0000_0000_0000_0000_0000_0000
        } else {
            u128::MAX - ((-self) as u128) + 1
        }
    }
}

impl IntegerOps for u16 {
    open spec fn bits() -> nat {
        16
    }

    open spec fn signed() -> bool {
        false
    }

    open spec fn min_val() -> int {
        0
    }

    open spec fn max_val() -> int {
        u16::MAX as int
    }

    open spec fn tag() -> Seq<char> {
        "u16"@
    }

    open spec fn as_int(self) -> int {
        self as int
    }

    open spec fn image(self) -> nat {
        self as nat
    }

    open spec fn from_int(v: int) -> Self {
        v as u16
    }

    open spec fn spec_and(self, other: Self) -> Self {
        self & other
    }

    open spec fn spec_or(self, other: Self) -> Self {
        self | other
    }

    open spec fn spec_xor(self, other: Self) -> Self {
        self ^ other
    }

    proof fn lemma_type_shape() {
        lemma_pow2_widths();
    }

    proof fn lemma_value_model(self) {
        lemma_pow2_widths();
    }

    proof fn lemma_from_int(v: int) {
    }

    fn tag_name() -> (r: &'static str) {
        "u16"
    }

    fn bit_width() -> (w: usize) {
        16
    }

    fn is_signed() -> (b: bool) {
        false
    }

    fn pos_limit() -> (m: u128) {
        0xFFFF
    }

    fn neg_limit() -> (m: u128) {
        0
    }

    fn from_sign_magnitude(_neg: bool, m: u128) -> (r: Self) {
        m as u16
    }

    fn checked_add(self, other: Self) -> (r: Option<Self>) {
        u16::checked_add(self, other)
    }

    fn checked_sub(self, other: Self) -> (r: Option<Self>) {
        u16::checked_sub(self, other)
    }

    fn checked_mul(self, other: Self) -> (r: Option<Self>) {
        u16::checked_mul(self, other)
    }

    fn checked_div(self, other: Self) -> (r: Option<Self>) {
        u16::checked_div(self, other)
    }

    fn and(self, other: Self) -> (r: Self) {
        self & other
    }

    fn or(self, other: Self) -> (r: Self) {
        self | other
    }

    fn xor(self, other: Self) -> (r: Self) {
        self ^ other
    }

    fn to_parts(self) -> (r: (bool, u128)) {
        (false, self as u128)
    }

    fn to_image(self) -> (r: u128) {
        self as u128
    }
}

impl IntegerOps for u32 {
    open spec fn bits() -> nat {
        32
    }

    open spec fn signed() -> bool {
        false
    }

    open spec fn min_val() -> int {
        0
    }

    open spec fn max_val() -> int {
        u32::MAX as int
    }

    open spec fn tag() -> Seq<char> {
        "u32"@
    }

    open spec fn as_int(self) -> int {
        self as int
    }

    open spec fn image(self) -> nat {
        self as nat
    }

    open spec fn from_int(v: int) -> Self {
        v as u32
    }

    open spec fn spec_and(self, other: Self) -> Self {
        self & other
    }

    open spec fn spec_or(self, other: Self) -> Self {
        self | other
    }

    open spec fn spec_xor(self, other: Self) -> Self {
        self ^ other
    }

    proof fn lemma_type_shape() {
        lemma_pow2_widths();
    }

    proof fn lemma_value_model(self) {
        lemma_pow2_widths();
    }

    proof fn lemma_from_int(v: int) {
    }

    fn tag_name() -> (r: &'static str) {
        "u32"
    }

    fn bit_width() -> (w: usize) {
        32
    }

    fn is_signed() -> (b: bool) {
        false
    }

    fn pos_limit() -> (m: u128) {
        0xFFFF_FFFF
    }

    fn neg_limit() -> (m: u128) {
        0
    }

    fn from_sign_magnitude(_neg: bool, m: u128) -> (r: Self) {
        m as u32
    }

    fn checked_add(self, other: Self) -> (r: Option<Self>) {
        u32::checked_add(self, other)
    }

    fn checked_sub(self, other: Self) -> (r: Option<Self>) {
        u32::checked_sub(self, other)
    }

    fn checked_mul(self, other: Self) -> (r: Option<Self>) {
        u32::checked_mul(self, other)
    }

    fn checked_div(self, other: Self) -> (r: Option<Self>) {
        u32::checked_div(self, other)
    }

    fn and(self, other: Self) -> (r: Self) {
        self & other
    }

    fn or(self, other: Self) -> (r: Self) {
        self | other
    }

    fn xor(self, other: Self) -> (r: Self) {
        self ^ other
    }

    fn to_parts(self) -> (r: (bool, u128)) {
        (false, self as u128)
    }

    fn to_image(self) -> (r: u128) {
        self as u128
    }
}

impl IntegerOps for u64 {
    open spec fn bits() -> nat {
        64
    }

    open spec fn signed() -> bool {
        false
    }

    open spec fn min_val() -> int {
        0
    }

    open spec fn max_val() -> int {
        u64::MAX as int
    }

    open spec fn tag() -> Seq<char> {
        "u64"@
    }

    open spec fn as_int(self) -> int {
        self as int
    }

    open spec fn image(self) -> nat {
        self as nat
    }

    open spec fn from_int(v: int) -> Self {
        v as u64
    }

    open spec fn spec_and(self, other: Self) -> Self {
        self & other
    }

    open spec fn spec_or(self, other: Self) -> Self {
        self | other
    }

    open spec fn spec_xor(self, other: Self) -> Self {
        self ^ other
    }

    proof fn lemma_type_shape() {
        lemma_pow2_widths();
    }

    proof fn lemma_value_model(self) {
        lemma_pow2_widths();
    }

    proof fn lemma_from_int(v: int) {
    }

    fn tag_name() -> (r: &'static str) {
        "u64"
    }

    fn bit_width() -> (w: usize) {
        64
    }

    fn is_signed() -> (b: bool) {
        false
    }

    fn pos_limit() -> (m: u128) {
        0xFFFF_FFFF_FFFF_FFFF
    }

    fn neg_limit() -> (m: u128) {
        0
    }

    fn from_sign_magnitude(_neg: bool, m: u128) -> (r: Self) {
        m as u64
    }

    fn checked_add(self, other: Self) -> (r: Option<Self>) {
        u64::checked_add(self, other)
    }

    fn checked_sub(self, other: Self) -> (r: Option<Self>) {
        u64::checked_sub(self, other)
    }

    fn checked_mul(self, other: Self) -> (r: Option<Self>) {
        u64::checked_mul(self, other)
    }

    fn checked_div(self, other: Self) -> (r: Option<Self>) {
        u64::checked_div(self, other)
    }

    fn and(self, other: Self) -> (r: Self) {
        self & other
    }

    fn or(self, other: Self) -> (r: Self) {
        self | other
    }

    fn xor(self, other: Self) -> (r: Self) {
        self ^ other
    }

    fn to_parts(self) -> (r: (bool, u128)) {
        (false, self as u128)
    }

    fn to_image(self) -> (r: u128) {
        self as u128
    }
}

impl IntegerOps for u128 {
    open spec fn bits() -> nat {
        128
    }

    open spec fn signed() -> bool {
        false
    }

    open spec fn min_val() -> int {
        0
    }

    open spec fn max_val() -> int {
        u128::MAX as int
    }

    open spec fn tag() -> Seq<char> {
        "u128"@
    }

    open spec fn as_int(self) -> int {
        self as int
    }

    open spec fn image(self) -> nat {
        self as nat
    }

    open spec fn from_int(v: int) -> Self {
        v as u128
    }

    open spec fn spec_and(self, other: Self) -> Self {
        self & other
    }

    open spec fn spec_or(self, other: Self) -> Self {
        self | other
    }

    open spec fn spec_xor(self, other: Self) -> Self {
        self ^ other
    }

    proof fn lemma_type_shape() {
        lemma_pow2_widths();
    }

    proof fn lemma_value_model(self) {
        lemma_pow2_widths();
    }

    proof fn lemma_from_int(v: int) {
    }

    fn tag_name() -> (r: &'static str) {
        "u128"
    }

    fn bit_width() -> (w: usize) {
        128
    }

    fn is_signed() -> (b: bool) {
        false
    }

    fn pos_limit() -> (m: u128) {
        u128::MAX
    }

    fn neg_limit() -> (m: u128) {
        0
    }

    fn from_sign_magnitude(_neg: bool, m: u128) -> (r: Self) {
        m
    }

    fn checked_add(self, other: Self) -> (r: Option<Self>) {
        u128::checked_add(self, other)
    }

    fn checked_sub(self, other: Self) -> (r: Option<Self>) {
        u128::checked_sub(self, other)
    }

    fn checked_mul(self, other: Self) -> (r: Option<Self>) {
        u128::checked_mul(self, other)
    }

    fn checked_div(self, other: Self) -> (r: Option<Self>) {
        u128::checked_div(self, other)
    }

    fn and(self, other: Self) -> (r: Self) {
        self & other
    }

    fn or(self, other: Self) -> (r: Self) {
        self | other
    }

    fn xor(self, other: Self) -> (r: Self) {
        self ^ other
    }

    fn to_parts(self) -> (r: (bool, u128)) {
        (false, self)
    }

    fn to_image(self) -> (r: u128) {
        self
    }
}

} // verus!
