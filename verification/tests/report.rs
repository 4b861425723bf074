use calcy::calculator::evaluate;

#[test]
fn u8_small_operands() {
    let r = evaluate("u8", "10", "20").unwrap();
    let expected = "10 + 20 = Some(30)\n10 - 20 = None\n10 * 20 = Some(200)\n10 / 20 = Some(0)\n\n  0b 0000 1010 (0x0A) (10)\n& 0b 0001 0100 (0x14) (20)\n= 0b 0000 0000 (0x00) (0)\n\n  0b 0000 1010 (0x0A) (10)\n| 0b 0001 0100 (0x14) (20)\n= 0b 0001 1110 (0x1E) (30)\n\n  0b 0000 1010 (0x0A) (10)\n^ 0b 0001 0100 (0x14) (20)\n= 0b 0001 1110 (0x1E) (30)\n";
    assert_eq!(r, expected);
}

#[test]
fn i8_max_plus_one_overflows() {
    let r = evaluate("i8", "127", "1").unwrap();
    let expected = "127 + 1 = None\n127 - 1 = Some(126)\n127 * 1 = Some(127)\n127 / 1 = Some(127)\n\n  0b 0111 1111 (0x7F) (127)\n& 0b 0000 0001 (0x01) (1)\n= 0b 0000 0001 (0x01) (1)\n\n  0b 0111 1111 (0x7F) (127)\n| 0b 0000 0001 (0x01) (1)\n= 0b 0111 1111 (0x7F) (127)\n\n  0b 0111 1111 (0x7F) (127)\n^ 0b 0000 0001 (0x01) (1)\n= 0b 0111 1110 (0x7E) (126)\n";
    assert_eq!(r, expected);
}

#[test]
fn i8_min_and_minus_one() {
    let r = evaluate("i8", "-128", "-1").unwrap();
    let expected = "-128 + -1 = None\n-128 - -1 = Some(-127)\n-128 * -1 = None\n-128 / -1 = None\n\n  0b 1000 0000 (0x80) (-128)\n& 0b 1111 1111 (0xFF) (-1)\n= 0b 1000 0000 (0x80) (-128)\n\n  0b 1000 0000 (0x80) (-128)\n| 0b 1111 1111 (0xFF) (-1)\n= 0b 1111 1111 (0xFF) (-1)\n\n  0b 1000 0000 (0x80) (-128)\n^ 0b 1111 1111 (0xFF) (-1)\n= 0b 0111 1111 (0x7F) (127)\n";
    assert_eq!(r, expected);
}

#[test]
fn u32_max_and_one() {
    let r = evaluate("u32", "4294967295", "1").unwrap();
    let m = "0b 1111 1111 1111 1111 1111 1111 1111 1111 (0xFFFFFFFF) (4294967295)";
    let o = "0b 0000 0000 0000 0000 0000 0000 0000 0001 (0x00000001) (1)";
    let x = "0b 1111 1111 1111 1111 1111 1111 1111 1110 (0xFFFFFFFE) (4294967294)";
    let expected = format!(
        "4294967295 + 1 = None\n4294967295 - 1 = Some(4294967294)\n4294967295 * 1 = Some(4294967295)\n4294967295 / 1 = Some(4294967295)\n\n  {m}\n& {o}\n= {o}\n\n  {m}\n| {o}\n= {m}\n\n  {m}\n^ {o}\n= {x}\n",
        m = m,
        o = o,
        x = x,
    );
    assert_eq!(r, expected);
}

#[test]
fn u128_zero_and_zero() {
    let r = evaluate("u128", "0", "0").unwrap();
    let zeros_bin = format!("0b{}", " 0000".repeat(32));
    let zeros_hex = format!("0x{}", "0".repeat(32));
    let triplet = format!("{} ({}) (0)", zeros_bin, zeros_hex);
    let mut expected = String::from("0 + 0 = Some(0)\n0 - 0 = Some(0)\n0 * 0 = Some(0)\n0 / 0 = None\n");
    for sym in ["&", "|", "^"] {
        expected.push_str(&format!("\n  {t}\n{s} {t}\n= {t}\n", t = triplet, s = sym));
    }
    assert_eq!(r, expected);
}

#[test]
fn unknown_tag_and_malformed_operand() {
    assert_eq!(evaluate("q7", "1", "2").unwrap_err(), "Unknown type: q7");
    assert_eq!(evaluate("u8", "300", "1").unwrap_err(), "u8 cannot hold 300");
}

#[test]
fn division_by_zero_is_undefined_everywhere() {
    for tag in ["i8", "i16", "i32", "i64", "i128", "u8", "u16", "u32", "u64", "u128"] {
        let r = evaluate(tag, "5", "0").unwrap();
        let div_line = r.lines().nth(3).unwrap();
        assert_eq!(div_line, "5 / 0 = None");
    }
}

#[test]
fn signed_min_over_minus_one_is_undefined() {
    let cases = [
        ("i8", "-128"),
        ("i16", "-32768"),
        ("i32", "-2147483648"),
        ("i64", "-9223372036854775808"),
        ("i128", "-170141183460469231731687303715884105728"),
    ];
    for (tag, min) in cases {
        let r = evaluate(tag, min, "-1").unwrap();
        let div_line = r.lines().nth(3).unwrap();
        assert_eq!(div_line, format!("{} / -1 = None", min));
    }
}

#[test]
fn bitwise_lines_never_show_the_marker() {
    for (tag, a, b) in [
        ("i8", "-128", "-1"),
        ("u8", "255", "0"),
        ("i64", "-1", "-1"),
        ("u128", "340282366920938463463374607431768211455", "0"),
    ] {
        let r = evaluate(tag, a, b).unwrap();
        let bitwise_part = r.splitn(2, "\n\n").nth(1).unwrap();
        assert!(!bitwise_part.contains("None"));
    }
}

#[test]
fn in_range_pairs_always_succeed() {
    for tag in ["i8", "i16", "i32", "i64", "i128", "u8", "u16", "u32", "u64", "u128"] {
        for (a, b) in [("0", "0"), ("1", "127"), ("+7", "99")] {
            assert!(evaluate(tag, a, b).is_ok());
        }
    }
    for tag in ["i8", "i16", "i32", "i64", "i128"] {
        assert!(evaluate(tag, "-128", "-1").is_ok());
    }
}

#[test]
fn hex_and_binary_columns_reparse_to_bit_pattern() {
    let r = evaluate("i8", "-2", "3").unwrap();
    let values = [254u128, 3, 2, 254, 3, 255, 254, 3, 253];
    let lines: Vec<&str> = r.lines().skip(4).filter(|l| !l.is_empty()).collect();
    assert_eq!(lines.len(), 9);
    for (line, value) in lines.iter().zip(values) {
        let open = line.find("(0x").unwrap();
        let close = line[open..].find(')').unwrap() + open;
        let hex = &line[open + 3..close];
        assert_eq!(u128::from_str_radix(hex, 16).unwrap(), value);
        let bin_start = line.find("0b").unwrap() + 2;
        let bin: String = line[bin_start..open].chars().filter(|c| *c != ' ').collect();
        assert_eq!(u128::from_str_radix(&bin, 2).unwrap(), value);
    }
}
