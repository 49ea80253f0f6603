use warden_sdk::{percent_encode, LedgerClient, PoliciesClient};

#[test]
fn percent_encode_passes_unreserved() {
    assert_eq!(percent_encode("abc-XYZ_0.9~"), "abc-XYZ_0.9~");
}

#[test]
fn percent_encode_escapes_path_specials() {
    assert_eq!(percent_encode("a/b?c#d"), "a%2Fb%3Fc%23d");
    assert_eq!(percent_encode("hello world"), "hello%20world");
}

#[test]
fn percent_encode_of_nothing_is_nothing() {
    assert_eq!(percent_encode(""), "");
}

#[test]
fn percent_encode_escapes_the_percent_itself() {
    assert_eq!(percent_encode("100%"), "100%25");
    assert_eq!(percent_encode("%2F"), "%252F");
}

#[test]
fn percent_encode_escapes_every_byte_of_a_character() {
    assert_eq!(percent_encode("\u{fc}"), "%C3%BC");
    assert_eq!(percent_encode("\u{20ac}"), "%E2%82%AC");
    assert_eq!(percent_encode("\u{1f600}"), "%F0%9F%98%80");
}

#[test]
fn percent_encode_writes_upper_case_digits_and_leading_zeros() {
    assert_eq!(percent_encode("\0\n\u{7f}"), "%00%0A%7F");
    assert_eq!(percent_encode("*+,;=:@&"), "%2A%2B%2C%3B%3D%3A%40%26");
}

#[test]
fn percent_encode_keeps_values_apart() {
    let values = ["", "a", "A", "a/b", "a%2Fb", "a b", "a+b", ".", "..", "\u{e4}", "a\u{308}"];
    for (i, a) in values.iter().enumerate() {
        for b in &values[i + 1..] {
            assert_ne!(percent_encode(a), percent_encode(b));
        }
    }
}

#[test]
fn percent_encode_leaves_only_unreserved_characters_and_escapes() {
    let everything: String = (0u8..128).map(|b| b as char).collect();
    let encoded = percent_encode(&everything);
    assert!(encoded
        .chars()
        .all(|c| c.is_ascii_alphanumeric() || "-._~%".contains(c)));
}

#[test]
fn numbers_are_written_in_decimal() {
    let ledger = LedgerClient::new("http://ledger.test").unwrap();
    let url = |limit: usize, offset: usize| {
        ledger
            .audit_agent_paged("bot", limit, offset)
            .unwrap()
            .url
            .as_str()
            .to_owned()
    };
    assert_eq!(url(0, 9), "http://ledger.test/audit/bot?limit=0&offset=9");
    assert_eq!(url(10, 100), "http://ledger.test/audit/bot?limit=10&offset=100");
    assert_eq!(
        url(usize::MAX, 1_000_000),
        format!("http://ledger.test/audit/bot?limit={}&offset=1000000", usize::MAX)
    );
}

#[test]
fn negative_numbers_are_written_with_a_sign() {
    let policies = PoliciesClient::new("http://policies.test").unwrap();
    let url = |version: i64| {
        policies
            .get_version("p", version)
            .unwrap()
            .url
            .as_str()
            .to_owned()
    };
    assert_eq!(url(-7), "http://policies.test/policies/p/versions/-7");
    assert_eq!(url(i64::MAX), format!("http://policies.test/policies/p/versions/{}", i64::MAX));
    assert_eq!(url(i64::MIN), format!("http://policies.test/policies/p/versions/{}", i64::MIN));
}
