use remindee::err::{append_decimal, Error};

fn decimal(n: i64) -> String {
    let mut s = String::new();
    append_decimal(&mut s, n);
    s
}

#[test]
fn decimal_notation() {
    assert_eq!(decimal(0), "0");
    assert_eq!(decimal(7), "7");
    assert_eq!(decimal(10), "10");
    assert_eq!(decimal(1234567890), "1234567890");
    assert_eq!(decimal(-1), "-1");
    assert_eq!(decimal(-1000), "-1000");
    assert_eq!(decimal(i64::MAX), "9223372036854775807");
    assert_eq!(decimal(i64::MIN), "-9223372036854775808");
    for n in [-101i64, -100, -99, -10, -9, 9, 11, 99, 100, 101, 1 << 40] {
        assert_eq!(decimal(n), n.to_string());
    }
}

#[test]
fn append_decimal_keeps_what_is_there() {
    let mut s = "id ".to_string();
    append_decimal(&mut s, 42);
    append_decimal(&mut s, -7);
    assert_eq!(s, "id 42-7");
}

#[test]
fn messages() {
    assert_eq!(Error::Storage.message(), "Database error: the store did not take the rows");
    assert_eq!(Error::NotFound(5).message(), "Database error: RecordNotFound Error: 5");
    assert_eq!(Error::NotFound(-12).message(), "Database error: RecordNotFound Error: -12");
    assert_eq!(Error::CronParse.message(), "Cron parse error: no next occurrence");
    assert_eq!(
        Error::EditStateViolation(300).message(),
        "Database error: edit state violation in chat 300"
    );
}
