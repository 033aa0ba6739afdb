use vrp_parser::numeric::{parse_u64, parse_usize};
use vrp_parser::FloatLiteral;

#[test]
fn parse_u64_reads_decimal_digits() {
    assert_eq!(parse_u64("0"), Some(0));
    assert_eq!(parse_u64("+42"), Some(42));
    assert_eq!(parse_u64("007"), Some(7));
    assert_eq!(parse_u64("18446744073709551615"), Some(u64::MAX));
}

#[test]
fn parse_u64_refuses_what_from_str_refuses() {
    for s in ["", "+", "-1", "1.0", " 1", "1 ", "1e3", "18446744073709551616", "１"] {
        assert_eq!(parse_u64(s), None, "{:?}", s);
        assert!(s.parse::<u64>().is_err(), "{:?}", s);
    }
}

#[test]
fn parse_usize_agrees_with_from_str() {
    for s in ["0", "12", "+3", "-3", "x", "99999999999999999999999"] {
        assert_eq!(parse_usize(s), s.parse::<usize>().ok(), "{:?}", s);
    }
}

#[test]
fn float_literal_accepts_what_f64_accepts() {
    let accepted = [
        "0", "0.0", "7.", ".5", "-1.5e3", "+2E-7", "1e+10", "inf", "-INF", "Infinity", "nan",
        "NaN", "+nAn", "00.00e00",
    ];
    for s in accepted {
        let f = FloatLiteral::parse(s).unwrap();
        assert_eq!(f.as_str(), s);
        assert!(s.parse::<f64>().is_ok(), "{:?}", s);
    }
}

#[test]
fn float_literal_refuses_what_f64_refuses() {
    let refused = [
        "", ".", "+", "-", "e5", "1e", "1e+", "1.2.3", " 1", "1 ", "ABC", "infin", "nana", "1,5",
        "--1", "0x10", "1_000",
    ];
    for s in refused {
        assert!(FloatLiteral::parse(s).is_none(), "{:?}", s);
        assert!(s.parse::<f64>().is_err(), "{:?}", s);
    }
}

#[test]
fn unsigned_literals_are_float_literals() {
    for s in ["0", "+17", "123456789012345678901234567890"] {
        assert!(FloatLiteral::parse(s).is_some());
    }
}
