use finchart::date::{epoch_seconds, Date};
use finchart::fetch::MyDuration;
use finchart::num::{i64_to_string, parse_u64, u64_to_string};

#[test]
fn decimal_rendering() {
    assert_eq!(u64_to_string(0), "0");
    assert_eq!(u64_to_string(7), "7");
    assert_eq!(u64_to_string(1156241), "1156241");
    assert_eq!(u64_to_string(u64::MAX), "18446744073709551615");
    assert_eq!(i64_to_string(0), "0");
    assert_eq!(i64_to_string(-1), "-1");
    assert_eq!(i64_to_string(1578009600), "1578009600");
    assert_eq!(i64_to_string(-62135596800), "-62135596800");
    assert_eq!(i64_to_string(i64::MIN), "-9223372036854775808");
}

#[test]
fn decimal_parsing() {
    assert_eq!(parse_u64("0"), Some(0));
    assert_eq!(parse_u64("500"), Some(500));
    assert_eq!(parse_u64("18446744073709551615"), Some(u64::MAX));
    assert_eq!(parse_u64("18446744073709551616"), None);
    assert_eq!(parse_u64(""), None);
    assert_eq!(parse_u64("12a"), None);
    assert_eq!(parse_u64("-5"), None);
}

/// Rendering then parsing gives the number back.
#[test]
fn decimal_round_trip() {
    for &n in &[0u64, 1, 9, 10, 99, 1156241, u64::MAX] {
        assert_eq!(parse_u64(&u64_to_string(n)), Some(n));
    }
}

#[test]
fn epoch_seconds_known_values() {
    let d = |year, month, day| Date { year, month, day };
    assert_eq!(epoch_seconds(d(1970, 1, 1)), 0);
    assert_eq!(epoch_seconds(d(1969, 12, 31)), -86400);
    assert_eq!(epoch_seconds(d(2020, 1, 3)), 1578009600);
    assert_eq!(epoch_seconds(d(2020, 1, 7)), 1578355200);
    assert_eq!(epoch_seconds(d(2000, 2, 29)), 951782400);
    assert_eq!(epoch_seconds(d(2020, 2, 29)), 1582934400);
    assert_eq!(epoch_seconds(d(1900, 1, 1)), -2208988800);
}

#[test]
fn duration_parsing() {
    assert_eq!(MyDuration::parse("500"), Some(MyDuration { millis: 500 }));
    assert_eq!(MyDuration::parse("100"), Some(MyDuration { millis: 100 }));
    assert_eq!(MyDuration::parse("+500"), Some(MyDuration { millis: 500 }));
    assert_eq!(MyDuration::parse(""), None);
    assert_eq!(MyDuration::parse("+"), None);
    assert_eq!(MyDuration::parse("-500"), None);
    assert_eq!(MyDuration::parse("5s"), None);
}
