use industrial_io::attr::{FromAttribute, ToAttribute};
use industrial_io::errors::Error;
use industrial_io::text::{
    find_nul, is_space_char, parse_bool, parse_signed, parse_unsigned, signed_text, unsigned_text,
};

#[test]
fn val_from_attr_str() {
    let val: i32 = i32::from_attr("123").unwrap();
    assert_eq!(val, 123);

    let val = bool::from_attr("1").unwrap();
    assert_eq!(val, true);

    let val: bool = FromAttribute::from_attr(" 0 \n").unwrap();
    assert_eq!(val, false);

    let val: String = String::from_attr("hello").unwrap();
    assert_eq!(&val, "hello");
}

#[test]
fn val_to_attr_string() {
    let s = i32::to_attr(&123).unwrap();
    assert_eq!(&s, "123");

    let s = bool::to_attr(&true).unwrap();
    assert_eq!(&s, "1");

    let s = bool::to_attr(&false).unwrap();
    assert_eq!(&s, "0");

    let s = ToAttribute::to_attr("hello").unwrap();
    assert_eq!(&s, "hello");

    let s = String::to_attr(&"hello".to_string()).unwrap();
    assert_eq!(s.as_str(), "hello");
}

#[test]
fn integers_are_written_in_decimal() {
    assert_eq!(i32::to_attr(&0).unwrap(), "0");
    assert_eq!(i32::to_attr(&-1).unwrap(), "-1");
    assert_eq!(i32::to_attr(&i32::MIN).unwrap(), "-2147483648");
    assert_eq!(u32::to_attr(&u32::MAX).unwrap(), "4294967295");
    assert_eq!(i64::to_attr(&i64::MIN).unwrap(), "-9223372036854775808");
    assert_eq!(u64::to_attr(&u64::MAX).unwrap(), "18446744073709551615");
    assert_eq!(
        i128::to_attr(&i128::MIN).unwrap(),
        "-170141183460469231731687303715884105728"
    );
    assert_eq!(
        u128::to_attr(&u128::MAX).unwrap(),
        "340282366920938463463374607431768211455"
    );
    assert_eq!(signed_text(-10), "-10");
    assert_eq!(unsigned_text(1000), "1000");
}

#[test]
fn integers_are_written_as_std_writes_them() {
    for v in [0i64, 1, -1, 9, 10, -10, 99, 100, 12345, -987654321, i64::MAX, i64::MIN] {
        assert_eq!(i64::to_attr(&v).unwrap(), v.to_string());
    }
    for v in [0u64, 7, 10, 4096, u64::MAX] {
        assert_eq!(u64::to_attr(&v).unwrap(), v.to_string());
    }
}

#[test]
fn integers_are_read_as_std_reads_them() {
    let texts = [
        "", "+", "-", "0", "-0", "+0", "007", "+12", "-12", " 1", "1 ", "1\n", "0x10", "1_000",
        "12a", "--1", "+-1", "2147483647", "2147483648", "-2147483648", "-2147483649",
        "4294967295", "4294967296", "99999999999999999999999999999999999999999999",
        "00000000000000000000000000000000000000000000000000001",
        "-00000000000000000000000000000000000000000000000000001",
    ];
    for t in texts {
        assert_eq!(i32::from_attr(t).ok(), t.parse::<i32>().ok(), "i32 from {:?}", t);
        assert_eq!(u32::from_attr(t).ok(), t.parse::<u32>().ok(), "u32 from {:?}", t);
        assert_eq!(i64::from_attr(t).ok(), t.parse::<i64>().ok(), "i64 from {:?}", t);
        assert_eq!(u64::from_attr(t).ok(), t.parse::<u64>().ok(), "u64 from {:?}", t);
        assert_eq!(i128::from_attr(t).ok(), t.parse::<i128>().ok(), "i128 from {:?}", t);
        assert_eq!(u128::from_attr(t).ok(), t.parse::<u128>().ok(), "u128 from {:?}", t);
    }
}

#[test]
fn integer_limits_are_read() {
    assert_eq!(i128::from_attr("-170141183460469231731687303715884105728").unwrap(), i128::MIN);
    assert_eq!(i128::from_attr("170141183460469231731687303715884105727").unwrap(), i128::MAX);
    assert!(i128::from_attr("170141183460469231731687303715884105728").is_err());
    assert!(i128::from_attr("-170141183460469231731687303715884105729").is_err());
    assert_eq!(u128::from_attr("340282366920938463463374607431768211455").unwrap(), u128::MAX);
    assert!(u128::from_attr("340282366920938463463374607431768211456").is_err());
    assert_eq!(parse_signed("-5", -5, 5), Some(-5));
    assert_eq!(parse_signed("-6", -5, 5), None);
    assert_eq!(parse_signed("6", -5, 5), None);
    assert_eq!(parse_signed("-1", 0, 5), None);
    assert_eq!(parse_signed("-0", 0, 5), Some(0));
    assert_eq!(parse_unsigned("-0", 5), None);
    assert_eq!(parse_unsigned("+5", 5), Some(5));
}

#[test]
fn a_text_that_is_no_number_is_a_conversion_error() {
    assert_eq!(i32::from_attr("abc"), Err(Error::StringConversionError));
    assert_eq!(u64::from_attr("-1"), Err(Error::StringConversionError));
    assert_eq!(i64::from_attr(""), Err(Error::StringConversionError));
    assert_eq!(u32::from_attr("4294967296"), Err(Error::StringConversionError));
}

#[test]
fn every_text_reads_as_a_boolean() {
    assert_eq!(bool::from_attr("0"), Ok(false));
    assert_eq!(bool::from_attr("\t0\r\n"), Ok(false));
    assert_eq!(bool::from_attr("\u{2003}0\u{3000}"), Ok(false));
    assert_eq!(bool::from_attr("1"), Ok(true));
    assert_eq!(bool::from_attr(""), Ok(true));
    assert_eq!(bool::from_attr("  "), Ok(true));
    assert_eq!(bool::from_attr("00"), Ok(true));
    assert_eq!(bool::from_attr("0 0"), Ok(true));
    assert_eq!(bool::from_attr("false"), Ok(true));
    assert_eq!(bool::from_attr("\u{200b}0"), Ok(true));
    for t in ["0", " 0", "0 ", "x", "", "\n0\n", "\u{85}0", "\u{a0}0\u{1680}", "0\u{feff}"] {
        assert_eq!(parse_bool(t), t.trim() != "0", "{:?}", t);
    }
}

#[test]
fn what_is_written_reads_back() {
    for v in [i32::MIN, -1, 0, 1, 42, i32::MAX] {
        assert_eq!(i32::from_attr(&i32::to_attr(&v).unwrap()), Ok(v));
    }
    for v in [0u32, 1, u32::MAX] {
        assert_eq!(u32::from_attr(&u32::to_attr(&v).unwrap()), Ok(v));
    }
    for v in [i64::MIN, 0, i64::MAX] {
        assert_eq!(i64::from_attr(&i64::to_attr(&v).unwrap()), Ok(v));
    }
    for v in [0u64, u64::MAX] {
        assert_eq!(u64::from_attr(&u64::to_attr(&v).unwrap()), Ok(v));
    }
    for v in [i128::MIN, 0, i128::MAX] {
        assert_eq!(i128::from_attr(&i128::to_attr(&v).unwrap()), Ok(v));
    }
    for v in [0u128, u128::MAX] {
        assert_eq!(u128::from_attr(&u128::to_attr(&v).unwrap()), Ok(v));
    }
    for v in [true, false] {
        assert_eq!(bool::from_attr(&bool::to_attr(&v).unwrap()), Ok(v));
    }
    let s = "sampling frequency".to_string();
    assert_eq!(String::from_attr(&String::to_attr(&s).unwrap()), Ok(s));
}

#[test]
fn the_first_nul_is_found() {
    assert_eq!(find_nul("abc"), None);
    assert_eq!(find_nul(""), None);
    assert_eq!(find_nul("\0"), Some(0));
    assert_eq!(find_nul("ab\0c\0"), Some(2));
    assert_eq!(find_nul("\u{e9}\0"), Some(2));
    assert_eq!(find_nul("\u{20ac}\u{1f600}\0x"), Some(7));
    for t in ["", "a", "\0", "a\0", "\u{e9}\0\0", "\u{ffff}b\0"] {
        assert_eq!(find_nul(t), t.bytes().position(|b| b == 0), "{:?}", t);
    }
}

#[test]
fn white_space_is_what_std_takes_for_it() {
    for code in 0..=0x10ffffu32 {
        if let Some(c) = char::from_u32(code) {
            assert_eq!(is_space_char(c), c.is_whitespace(), "U+{:04X}", code);
        }
    }
}

fn texts_over(alphabet: &[char], len: usize) -> Vec<String> {
    let mut all = vec![String::new()];
    let mut last = vec![String::new()];
    for _ in 0..len {
        let mut next = Vec::new();
        for t in &last {
            for c in alphabet {
                let mut s = t.clone();
                s.push(*c);
                next.push(s);
            }
        }
        all.extend(next.iter().cloned());
        last = next;
    }
    all
}

#[test]
fn short_texts_are_read_as_std_reads_them() {
    for t in texts_over(&['+', '-', '0', '1', '2', '9', ' ', 'a'], 4) {
        assert_eq!(i32::from_attr(&t).ok(), t.parse::<i32>().ok(), "i32 from {:?}", t);
        assert_eq!(u32::from_attr(&t).ok(), t.parse::<u32>().ok(), "u32 from {:?}", t);
        assert_eq!(
            parse_signed(&t, -128, 127),
            t.parse::<i8>().ok().map(|v| v as i128),
            "i8 from {:?}",
            t
        );
        assert_eq!(
            parse_unsigned(&t, 255),
            t.parse::<u8>().ok().map(|v| v as u128),
            "u8 from {:?}",
            t
        );
    }
}

#[test]
fn short_texts_are_read_as_booleans_as_trimmed() {
    for t in texts_over(&['0', '1', ' ', '\n', '\u{3000}', 'x'], 4) {
        assert_eq!(bool::from_attr(&t), Ok(t.trim() != "0"), "{:?}", t);
    }
}

#[test]
fn numbers_near_the_powers_of_ten_are_written_as_std_writes_them() {
    let mut p: u128 = 1;
    loop {
        for v in [p - 1, p, p + 1] {
            assert_eq!(unsigned_text(v), v.to_string());
            if v <= i128::MAX as u128 {
                assert_eq!(signed_text(v as i128), (v as i128).to_string());
                assert_eq!(signed_text(-(v as i128)), (-(v as i128)).to_string());
            }
        }
        match p.checked_mul(10) {
            Some(q) => p = q,
            None => break,
        }
    }
}
