use folder_organizer::text::{chars_of, push_all, push_decimal, push_signed_decimal, string_of};

fn decimal(n: u64) -> String {
    let mut out = Vec::new();
    push_decimal(&mut out, n);
    string_of(&out)
}

fn signed(n: i64) -> String {
    let mut out = Vec::new();
    push_signed_decimal(&mut out, n);
    string_of(&out)
}

#[test]
fn characters_round_trip() {
    let chars = chars_of("aé–z");
    assert_eq!(chars, vec!['a', 'é', '–', 'z']);
    assert_eq!(string_of(&chars), "aé–z");
    assert_eq!(string_of(&chars_of("")), "");
}

#[test]
fn decimal_of_small_numbers() {
    assert_eq!(decimal(0), "0");
    assert_eq!(decimal(7), "7");
    assert_eq!(decimal(10), "10");
    assert_eq!(decimal(999), "999");
    assert_eq!(decimal(1234567890), "1234567890");
}

#[test]
fn decimal_of_the_largest_number() {
    assert_eq!(decimal(u64::MAX), "18446744073709551615");
}

#[test]
fn signed_decimal_puts_a_minus() {
    assert_eq!(signed(0), "0");
    assert_eq!(signed(42), "42");
    assert_eq!(signed(-1), "-1");
    assert_eq!(signed(i64::MIN), "-9223372036854775808");
    assert_eq!(signed(i64::MAX), "9223372036854775807");
}

#[test]
fn decimal_is_appended() {
    let mut out = chars_of("n=");
    push_decimal(&mut out, 305);
    push_all(&mut out, &chars_of("!"));
    assert_eq!(string_of(&out), "n=305!");
}
