use ghregistry::USER_AGENT;
use ghregistry::strutil::{bytes_to_hex, str_eq, str_starts_with, u64_to_dec};

#[test]
fn it_works() {
    assert_eq!(2 + 2, 4);
}

#[test]
fn user_agent_names_the_client() {
    assert_eq!(USER_AGENT, "acheta-ghregistry/0.0");
}

#[test]
fn string_equality_is_character_wise() {
    assert!(str_eq("abc", "abc"));
    assert!(!str_eq("abc", "abd"));
    assert!(!str_eq("abc", "ab"));
    assert!(str_eq("", ""));
}

#[test]
fn prefix_test_checks_the_head() {
    assert!(str_starts_with(".wh.a", ".wh."));
    assert!(!str_starts_with(".wh", ".wh."));
    assert!(str_starts_with("anything", ""));
}

#[test]
fn decimal_rendering_is_exact() {
    assert_eq!(u64_to_dec(0), "0");
    assert_eq!(u64_to_dec(7), "7");
    assert_eq!(u64_to_dec(1234567890), "1234567890");
    assert_eq!(u64_to_dec(u64::MAX), "18446744073709551615");
}

#[test]
fn hex_rendering_is_lowercase_and_two_digits_per_byte() {
    assert_eq!(bytes_to_hex(&vec![]), "");
    assert_eq!(bytes_to_hex(&vec![0x00, 0x0f, 0xa5, 0xff]), "000fa5ff");
    assert_eq!(bytes_to_hex(&vec![0xbe, 0xef]), "beef");
}
