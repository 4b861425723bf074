//! The closed set of type tags the dispatch table knows, and the command a
//! line of input turns into.
use vstd::prelude::*;

verus! {

use vstd::string::StrSliceExecFns;

/// What the read loop asks for: either to stop, or to print a finished
/// report.
pub enum Command {
    Quit,
    Calculate(String),
}

/// One of the ten integer types the calculator can work under.
#[derive(Clone, Copy, PartialEq, Eq, Structural, Debug)]
pub enum CalculatorType {
    I8,
    I16,
    I32,
    I64,
    I128,
    U8,
    U16,
    U32,
    U64,
    U128,
}

/// The tag named by a string: exact match against the ten lowercase
/// canonical names, anything else (the empty string included) is unknown.
pub open spec fn spec_tag_of(s: Seq<char>) -> Option<CalculatorType> {
    if s == "i8"@ {
        Some(CalculatorType::I8)
    } else if s == "i16"@ {
        Some(CalculatorType::I16)
    } else if s == "i32"@ {
        Some(CalculatorType::I32)
    } else if s == "i64"@ {
        Some(CalculatorType::I64)
    } else if s == "i128"@ {
        Some(CalculatorType::I128)
    } else if s == "u8"@ {
        Some(CalculatorType::U8)
    } else if s == "u16"@ {
        Some(CalculatorType::U16)
    } else if s == "u32"@ {
        Some(CalculatorType::U32)
    } else if s == "u64"@ {
        Some(CalculatorType::U64)
    } else if s == "u128"@ {
        Some(CalculatorType::U128)
    } else {
        None
    }
}

/// Character-by-character string comparison.
fn str_eq(a: &str, b: &str) -> (r: bool)
    ensures
        r == (a@ == b@),
{
    let n = a.unicode_len();
    let m = b.unicode_len();
    if n != m {
        return false;
    }
    let mut i: usize = 0;
    while i < n
        invariant
            i <= n,
            n as int == a@.len(),
            n as int == b@.len(),
            forall|j: int| 0 <= j < i ==> a@[j] == b@[j],
        decreases n - i,
    {
        if a.get_char(i) != b.get_char(i) {
            return false;
        }
        i += 1;
    }
    proof {
        assert(a@ =~= b@);
    }
    true
}

impl CalculatorType {
    /// Looks a textual tag up in the closed set of ten.
    pub fn from_tag(s: &str) -> (r: Option<CalculatorType>)
        ensures
            r == spec_tag_of(s@),
    {
        if str_eq(s, "i8") {
            Some(CalculatorType::I8)
        } else if str_eq(s, "i16") {
            Some(CalculatorType::I16)
        } else if str_eq(s, "i32") {
            Some(CalculatorType::I32)
        } else if str_eq(s, "i64") {
            Some(CalculatorType::I64)
        } else if str_eq(s, "i128") {
            Some(CalculatorType::I128)
        } else if str_eq(s, "u8") {
            Some(CalculatorType::U8)
        } else if str_eq(s, "u16") {
            Some(CalculatorType::U16)
        } else if str_eq(s, "u32") {
            Some(CalculatorType::U32)
        } else if str_eq(s, "u64") {
            Some(CalculatorType::U64)
        } else if str_eq(s, "u128") {
            Some(CalculatorType::U128)
        } else {
            None
        }
    }
}

} // verus!
