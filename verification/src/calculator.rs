//! The calculator itself: a pair of operands of one engine type, the seven
//! operations, the full-report formatter, and the dispatch from a textual
//! type tag to the engine specialized for it.
use vstd::prelude::*;

verus! {

use vstd::string::StringExecFns;
use crate::format::format_binary;
use crate::format::push_dec_digits;
use crate::format::push_hex_str;
use crate::model::add_spec;
use crate::model::bin_str;
use crate::model::dec_int;
use crate::model::div_spec;
use crate::model::hex_str;
use crate::model::mul_spec;
use crate::model::parse_int;
use crate::model::result_view;
use crate::model::sub_spec;
use crate::parse::parse_value;
use crate::traits::IntegerOps;
use crate::types::CalculatorType;
use crate::types::spec_tag_of;

/// A pair of operands of the same engine type; every operation and the
/// report read both.
#[derive(Debug)]
pub struct Calculator<T> {
    pub op1: T,
    pub op2: T,
}

/// The mathematical value of an optional engine value.
pub open spec fn opt_val<T: IntegerOps>(r: Option<T>) -> Option<int> {
    match r {
        Some(v) => Some(v.as_int()),
        None => None,
    }
}

/// How an arithmetic result is shown: the decimal value inside `Some(..)`,
/// or the undefined marker `None`.
pub open spec fn opt_dec(r: Option<int>) -> Seq<char> {
    match r {
        Some(v) => "Some("@ + dec_int(v) + ")"@,
        None => "None"@,
    }
}

/// One arithmetic line of the report.
pub open spec fn arith_line(x: int, y: int, sym: Seq<char>, r: Option<int>) -> Seq<char> {
    dec_int(x) + " "@ + sym + " "@ + dec_int(y) + " = "@ + opt_dec(r) + "\n"@
}

/// The division line of the report for the operand pair `(x, y)`.
pub open spec fn div_line<T: IntegerOps>(x: T, y: T) -> Seq<char> {
    arith_line(
        x.as_int(),
        y.as_int(),
        "/"@,
        div_spec(x.as_int(), y.as_int(), T::min_val(), T::max_val()),
    )
}

/// One value of a bitwise block: grouped binary, then the fixed-width
/// hexadecimal and the decimal renderings in parentheses.
pub open spec fn value_triplet<T: IntegerOps>(x: T) -> Seq<char> {
    bin_str(x.image(), T::bits() / 4) + " ("@ + hex_str(x.image(), T::bits() / 4) + ") ("@
        + dec_int(x.as_int()) + ")"@
}

/// One bitwise block: a blank separator line, then the two operands and the
/// result, each as a triplet.
pub open spec fn bit_block<T: IntegerOps>(x: T, y: T, sym: Seq<char>, r: T) -> Seq<char> {
    "\n  "@ + value_triplet(x) + "\n"@ + sym + " "@ + value_triplet(y) + "\n= "@ + value_triplet(r)
        + "\n"@
}

/// The whole report: four arithmetic lines in the order `+ - * /`, then the
/// three bitwise blocks in the order `& | ^`.
pub open spec fn report_spec<T: IntegerOps>(x: T, y: T) -> Seq<char> {
    arith_line(
        x.as_int(),
        y.as_int(),
        "+"@,
        add_spec(x.as_int(), y.as_int(), T::min_val(), T::max_val()),
    ) + arith_line(
        x.as_int(),
        y.as_int(),
        "-"@,
        sub_spec(x.as_int(), y.as_int(), T::min_val(), T::max_val()),
    ) + arith_line(
        x.as_int(),
        y.as_int(),
        "*"@,
        mul_spec(x.as_int(), y.as_int(), T::min_val(), T::max_val()),
    ) + div_line(x, y) + bit_block(x, y, "&"@, x.spec_and(y)) + bit_block(
        x,
        y,
        "|"@,
        x.spec_or(y),
    ) + bit_block(x, y, "^"@, x.spec_xor(y))
}

/// What one dispatch entry answers on two operand strings: the report on
/// success, or the canonical message naming the first operand the type
/// cannot hold.
pub open spec fn eval_for<T: IntegerOps>(a: Seq<char>, b: Seq<char>) -> Result<
    Seq<char>,
    Seq<char>,
> {
    match (
        parse_int(a, T::signed(), T::min_val(), T::max_val()),
        parse_int(b, T::signed(), T::min_val(), T::max_val()),
    ) {
        (Some(x), Some(y)) => Ok(report_spec(T::from_int(x), T::from_int(y))),
        (None, _) => Err(T::tag() + " cannot hold "@ + a),
        (_, None) => Err(T::tag() + " cannot hold "@ + b),
    }
}

/// What `evaluate` answers: the dispatch entry of the tag, or the
/// unknown-type message.
pub open spec fn eval_spec(tag: Seq<char>, a: Seq<char>, b: Seq<char>) -> Result<
    Seq<char>,
    Seq<char>,
> {
    match spec_tag_of(tag) {
        Some(CalculatorType::I8) => eval_for::<i8>(a, b),
        Some(CalculatorType::I16) => eval_for::<i16>(a, b),
        Some(CalculatorType::I32) => eval_for::<i32>(a, b),
        Some(CalculatorType::I64) => eval_for::<i64>(a, b),
        Some(CalculatorType::I128) => eval_for::<i128>(a, b),
        Some(CalculatorType::U8) => eval_for::<u8>(a, b),
        Some(CalculatorType::U16) => eval_for::<u16>(a, b),
        Some(CalculatorType::U32) => eval_for::<u32>(a, b),
        Some(CalculatorType::U64) => eval_for::<u64>(a, b),
        Some(CalculatorType::U128) => eval_for::<u128>(a, b),
        None => Err("Unknown type: "@ + tag),
    }
}

/// Appends the signed decimal rendering of a value.
fn push_dec_value<T: IntegerOps>(s: &mut String, x: T)
    ensures
        final(s)@ == old(s)@ + dec_int(x.as_int()),
{
    let (neg, m) = x.to_parts();
    if neg {
        s.append("-");
    }
    push_dec_digits(s, m);
    assert(final(s)@ =~= old(s)@ + dec_int(x.as_int()));
}

/// Appends an arithmetic result: `Some(..)` around the decimal value, or
/// the undefined marker.
fn push_opt_dec<T: IntegerOps>(s: &mut String, r: Option<T>)
    ensures
        final(s)@ == old(s)@ + opt_dec(opt_val(r)),
{
    match r {
        Some(v) => {
            s.append("Some(");
            push_dec_value(s, v);
            s.append(")");
            assert(final(s)@ =~= old(s)@ + opt_dec(opt_val(r)));
        },
        None => {
            s.append("None");
        },
    }
}

/// Appends one arithmetic line.
fn push_arith_line<T: IntegerOps>(s: &mut String, x: T, y: T, sym: &str, r: Option<T>)
    ensures
        final(s)@ == old(s)@ + arith_line(x.as_int(), y.as_int(), sym@, opt_val(r)),
{
    push_dec_value(s, x);
    s.append(" ");
    s.append(sym);
    s.append(" ");
    push_dec_value(s, y);
    s.append(" = ");
    push_opt_dec(s, r);
    s.append("\n");
    assert(final(s)@ =~= old(s)@ + arith_line(x.as_int(), y.as_int(), sym@, opt_val(r)));
}

/// Appends one value triplet of a bitwise block.
fn push_triplet<T: IntegerOps>(s: &mut String, x: T)
    ensures
        final(s)@ == old(s)@ + value_triplet(x),
{
    proof {
        T::lemma_type_shape();
        x.lemma_value_model();
    }
    let w = T::bit_width();
    let img = x.to_image();
    let bin = format_binary(img, w);
    s.append(bin.as_str());
    s.append(" (");
    push_hex_str(s, img, w / 4);
    s.append(") (");
    push_dec_value(s, x);
    s.append(")");
    assert(final(s)@ =~= old(s)@ + value_triplet(x));
}

/// Appends one bitwise block.
fn push_bit_block<T: IntegerOps>(s: &mut String, x: T, y: T, sym: &str, r: T)
    ensures
        final(s)@ == old(s)@ + bit_block(x, y, sym@, r),
{
    s.append("\n  ");
    push_triplet(s, x);
    s.append("\n");
    s.append(sym);
    s.append(" ");
    push_triplet(s, y);
    s.append("\n= ");
    push_triplet(s, r);
    s.append("\n");
    assert(final(s)@ =~= old(s)@ + bit_block(x, y, sym@, r));
}

impl<T: IntegerOps> Calculator<T> {
    /// Parses the two operand strings, or names the first one the type
    /// cannot hold.
    pub fn parse(a: &str, b: &str) -> (r: Result<Self, String>)
        ensures
            match r {
                Ok(c) => parse_int(a@, T::signed(), T::min_val(), T::max_val()) == Some(
                    c.op1.as_int(),
                ) && parse_int(b@, T::signed(), T::min_val(), T::max_val()) == Some(
                    c.op2.as_int(),
                ),
                Err(e) => if parse_int(a@, T::signed(), T::min_val(), T::max_val())
                    == None::<int> {
                    e@ == T::tag() + " cannot hold "@ + a@
                } else {
                    parse_int(b@, T::signed(), T::min_val(), T::max_val()) == None::<int> && e@
                        == T::tag() + " cannot hold "@ + b@
                },
            },
    {
        let op1 = match parse_value::<T>(a) {
            Some(v) => v,
            None => {
                return Err(Self::cannot_hold(a));
            },
        };
        let op2 = match parse_value::<T>(b) {
            Some(v) => v,
            None => {
                return Err(Self::cannot_hold(b));
            },
        };
        Ok(Calculator { op1, op2 })
    }

    /// The canonical parse-failure message for the operand `t`.
    fn cannot_hold(t: &str) -> (e: String)
        ensures
            e@ == T::tag() + " cannot hold "@ + t@,
    {
        let mut e = String::from_str(T::tag_name());
        e.append(" cannot hold ");
        e.append(t);
        assert(e@ =~= T::tag() + " cannot hold "@ + t@);
        e
    }

    pub fn add(&self) -> (r: Option<T>)
        ensures
            opt_val(r) == add_spec(
                self.op1.as_int(),
                self.op2.as_int(),
                T::min_val(),
                T::max_val(),
            ),
    {
        self.op1.checked_add(self.op2)
    }

    pub fn sub(&self) -> (r: Option<T>)
        ensures
            opt_val(r) == sub_spec(
                self.op1.as_int(),
                self.op2.as_int(),
                T::min_val(),
                T::max_val(),
            ),
    {
        self.op1.checked_sub(self.op2)
    }

    pub fn mul(&self) -> (r: Option<T>)
        ensures
            opt_val(r) == mul_spec(
                self.op1.as_int(),
                self.op2.as_int(),
                T::min_val(),
                T::max_val(),
            ),
    {
        self.op1.checked_mul(self.op2)
    }

    pub fn div(&self) -> (r: Option<T>)
        ensures
            opt_val(r) == div_spec(
                self.op1.as_int(),
                self.op2.as_int(),
                T::min_val(),
                T::max_val(),
            ),
    {
        self.op1.checked_div(self.op2)
    }

    pub fn and(&self) -> (r: T)
        ensures
            r == self.op1.spec_and(self.op2),
    {
        self.op1.and(self.op2)
    }

    pub fn or(&self) -> (r: T)
        ensures
            r == self.op1.spec_or(self.op2),
    {
        self.op1.or(self.op2)
    }

    pub fn xor(&self) -> (r: T)
        ensures
            r == self.op1.spec_xor(self.op2),
    {
        self.op1.xor(self.op2)
    }

    /// Renders the full report of the seven operations.
    pub fn report(&self) -> (s: String)
        ensures
            s@ == report_spec(self.op1, self.op2),
    {
        let mut s = String::new();
        push_arith_line(&mut s, self.op1, self.op2, "+", self.add());
        push_arith_line(&mut s, self.op1, self.op2, "-", self.sub());
        push_arith_line(&mut s, self.op1, self.op2, "*", self.mul());
        push_arith_line(&mut s, self.op1, self.op2, "/", self.div());
        push_bit_block(&mut s, self.op1, self.op2, "&", self.and());
        push_bit_block(&mut s, self.op1, self.op2, "|", self.or());
        push_bit_block(&mut s, self.op1, self.op2, "^", self.xor());
        assert(s@ =~= report_spec(self.op1, self.op2));
        s
    }

    /// Parses both operands and renders the report, or returns the parse
    /// error.
    pub fn parse_and_display(a: &str, b: &str) -> (r: Result<String, String>)
        ensures
            result_view(r) == eval_for::<T>(a@, b@),
    {
        match Self::parse(a, b) {
            Ok(c) => {
                proof {
                    c.op1.lemma_value_model();
                    c.op2.lemma_value_model();
                }
                Ok(c.report())
            },
            Err(e) => Err(e),
        }
    }
}

/// Looks the tag up and runs the engine specialized for it: the single
/// bridge from a runtime-chosen tag to the statically typed calculator.
pub fn evaluate(tag: &str, a: &str, b: &str) -> (r: Result<String, String>)
    ensures
        result_view(r) == eval_spec(tag@, a@, b@),
{
    match CalculatorType::from_tag(tag) {
        Some(t) => match t {
            CalculatorType::I8 => Calculator::<i8>::parse_and_display(a, b),
            CalculatorType::I16 => Calculator::<i16>::parse_and_display(a, b),
            CalculatorType::I32 => Calculator::<i32>::parse_and_display(a, b),
            CalculatorType::I64 => Calculator::<i64>::parse_and_display(a, b),
            CalculatorType::I128 => Calculator::<i128>::parse_and_display(a, b),
            CalculatorType::U8 => Calculator::<u8>::parse_and_display(a, b),
            CalculatorType::U16 => Calculator::<u16>::parse_and_display(a, b),
            CalculatorType::U32 => Calculator::<u32>::parse_and_display(a, b),
            CalculatorType::U64 => Calculator::<u64>::parse_and_display(a, b),
            CalculatorType::U128 => Calculator::<u128>::parse_and_display(a, b),
        },
        None => {
            let mut e = String::from_str("Unknown type: ");
            e.append(tag);
            Err(e)
        },
    }
}

} // verus!
