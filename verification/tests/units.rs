use calcy::calculator::Calculator;
use calcy::format::format_binary;
use calcy::types::CalculatorType;
use calcy::types::Command;

#[test]
fn format_binary_groups_the_nibbles() {
    assert_eq!(format_binary(10, 8), "0b 0000 1010");
    assert_eq!(format_binary(0xFF, 8), "0b 1111 1111");
    assert_eq!(format_binary(0, 8), "0b 0000 0000");
    assert_eq!(format_binary(0x8000, 16), "0b 1000 0000 0000 0000");
    assert_eq!(format_binary(0xDEADBEEF, 32), "0b 1101 1110 1010 1101 1011 1110 1110 1111");
}

#[test]
fn format_binary_shape_at_every_width() {
    for bits in [8usize, 16, 32, 64, 128] {
        let s = format_binary(1, bits);
        assert_eq!(s.len(), 2 + (bits / 4) * 5);
        assert_eq!(s.chars().filter(|c| *c == ' ').count(), bits / 4);
        for (i, c) in s.chars().enumerate().skip(2) {
            if (i - 2) % 5 == 0 {
                assert_eq!(c, ' ');
            } else {
                assert!(c == '0' || c == '1');
            }
        }
    }
}

#[test]
fn from_tag_knows_exactly_the_ten_tags() {
    assert!(matches!(CalculatorType::from_tag("i8"), Some(CalculatorType::I8)));
    assert!(matches!(CalculatorType::from_tag("i16"), Some(CalculatorType::I16)));
    assert!(matches!(CalculatorType::from_tag("i32"), Some(CalculatorType::I32)));
    assert!(matches!(CalculatorType::from_tag("i64"), Some(CalculatorType::I64)));
    assert!(matches!(CalculatorType::from_tag("i128"), Some(CalculatorType::I128)));
    assert!(matches!(CalculatorType::from_tag("u8"), Some(CalculatorType::U8)));
    assert!(matches!(CalculatorType::from_tag("u16"), Some(CalculatorType::U16)));
    assert!(matches!(CalculatorType::from_tag("u32"), Some(CalculatorType::U32)));
    assert!(matches!(CalculatorType::from_tag("u64"), Some(CalculatorType::U64)));
    assert!(matches!(CalculatorType::from_tag("u128"), Some(CalculatorType::U128)));
    assert!(CalculatorType::from_tag("q7").is_none());
    assert!(CalculatorType::from_tag("").is_none());
    assert!(CalculatorType::from_tag("U8").is_none());
    assert!(CalculatorType::from_tag("u8 ").is_none());
}

#[test]
fn calculator_operations_on_u8() {
    let c = Calculator::<u8>::parse("10", "20").unwrap();
    assert_eq!(c.op1, 10);
    assert_eq!(c.op2, 20);
    assert_eq!(c.add(), Some(30));
    assert_eq!(c.sub(), None);
    assert_eq!(c.mul(), Some(200));
    assert_eq!(c.div(), Some(0));
    assert_eq!(c.and(), 0);
    assert_eq!(c.or(), 30);
    assert_eq!(c.xor(), 30);
}

#[test]
fn calculator_operations_on_i128_extremes() {
    let min = "-170141183460469231731687303715884105728";
    let c = Calculator::<i128>::parse(min, "-1").unwrap();
    assert_eq!(c.op1, i128::MIN);
    assert_eq!(c.op2, -1);
    assert_eq!(c.add(), None);
    assert_eq!(c.sub(), Some(i128::MIN + 1));
    assert_eq!(c.mul(), None);
    assert_eq!(c.div(), None);
    assert_eq!(c.and(), i128::MIN);
    assert_eq!(c.or(), -1);
    assert_eq!(c.xor(), i128::MAX);
}

#[test]
fn parse_rejects_what_the_type_cannot_hold() {
    assert_eq!(Calculator::<i8>::parse("abc", "1").unwrap_err(), "i8 cannot hold abc");
    assert_eq!(Calculator::<i8>::parse("1", "128").unwrap_err(), "i8 cannot hold 128");
    assert_eq!(Calculator::<u8>::parse("-0", "1").unwrap_err(), "u8 cannot hold -0");
    assert_eq!(Calculator::<u8>::parse("", "1").unwrap_err(), "u8 cannot hold ");
    assert_eq!(Calculator::<u8>::parse("+", "1").unwrap_err(), "u8 cannot hold +");
    assert_eq!(Calculator::<u8>::parse("1", "2 ").unwrap_err(), "u8 cannot hold 2 ");
    assert_eq!(
        Calculator::<u64>::parse("99999999999999999999999999999999999999999999", "1").unwrap_err(),
        "u64 cannot hold 99999999999999999999999999999999999999999999"
    );
}

#[test]
fn parse_accepts_signs_and_leading_zeros() {
    let c = Calculator::<i8>::parse("+5", "-0").unwrap();
    assert_eq!(c.op1, 5);
    assert_eq!(c.op2, 0);
    let c = Calculator::<u16>::parse("00042", "65535").unwrap();
    assert_eq!(c.op1, 42);
    assert_eq!(c.op2, 65535);
}

#[test]
fn parse_and_display_matches_evaluate() {
    let direct = Calculator::<i16>::parse_and_display("-300", "7").unwrap();
    let dispatched = calcy::calculator::evaluate("i16", "-300", "7").unwrap();
    assert_eq!(direct, dispatched);
}

#[test]
fn command_carries_a_report() {
    let cmd = Command::Calculate(String::from("out"));
    match cmd {
        Command::Calculate(s) => assert_eq!(s, "out"),
        Command::Quit => unreachable!(),
    }
    assert!(matches!(Command::Quit, Command::Quit));
}
