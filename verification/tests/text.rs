use raven::text::{i64_to_decimal, lex_less_exec, str_eq, u64_to_decimal};

#[test]
fn decimal_numerals() {
    assert_eq!(u64_to_decimal(0), "0");
    assert_eq!(u64_to_decimal(1234567890), "1234567890");
    assert_eq!(u64_to_decimal(u64::MAX), u64::MAX.to_string());
    assert_eq!(i64_to_decimal(-42), "-42");
    assert_eq!(i64_to_decimal(i64::MIN), i64::MIN.to_string());
    assert_eq!(i64_to_decimal(7), "7");
}

#[test]
fn lexicographic_order() {
    assert!(lex_less_exec("2019", "2020"));
    assert!(!lex_less_exec("2020", "2019"));
    assert!(lex_less_exec("abc", "abd"));
    assert!(lex_less_exec("ab", "abc"));
    assert!(!lex_less_exec("abc", "abc"));
    assert!(lex_less_exec("", "a"));
    assert_eq!(lex_less_exec("Zeta", "alpha"), "Zeta" < "alpha");
}

#[test]
fn string_equality() {
    assert!(str_eq("héllo", "héllo"));
    assert!(!str_eq("a", "ab"));
}
