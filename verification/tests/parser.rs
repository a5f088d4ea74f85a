use easymo_shell::links::{DeepLink, ParseError};

#[test]
fn two_params_parse() {
    let link = DeepLink::parse("easymo://action?k1=v1&k2=v2").unwrap();
    assert_eq!(link.action, "action");
    assert_eq!(link.params.len(), 2);
    assert_eq!(link.get("k1"), Some(&"v1".to_string()));
    assert_eq!(link.get("k2"), Some(&"v2".to_string()));
    assert_eq!(link.get("k3"), None);
}

#[test]
fn missing_scheme_fails() {
    assert_eq!(
        DeepLink::parse("https://action?k=v").unwrap_err(),
        ParseError::BadScheme
    );
    assert_eq!(DeepLink::parse("").unwrap_err(), ParseError::BadScheme);
    assert_eq!(DeepLink::parse("easymo:/a").unwrap_err(), ParseError::BadScheme);
    assert_eq!(DeepLink::parse("easymo").unwrap_err(), ParseError::BadScheme);
}

#[test]
fn scheme_is_case_sensitive() {
    assert_eq!(
        DeepLink::parse("EASYMO://action").unwrap_err(),
        ParseError::BadScheme
    );
}

#[test]
fn empty_action_fails() {
    assert_eq!(DeepLink::parse("easymo://").unwrap_err(), ParseError::BadScheme);
    assert_eq!(
        DeepLink::parse("easymo://?x=1").unwrap_err(),
        ParseError::BadScheme
    );
}

#[test]
fn duplicate_keys_last_write_wins() {
    let link = DeepLink::parse("easymo://a?x=1&x=2").unwrap();
    assert_eq!(link.params.len(), 1);
    assert_eq!(link.get("x"), Some(&"2".to_string()));
}

#[test]
fn percent_roundtrip() {
    let inputs = [
        "hello world",
        "a&b=c?d",
        "100% true",
        "na\u{ef}ve caf\u{e9}",
        "\u{65e5}\u{672c}\u{8a9e}",
        "tab\tand\nnewline",
        "plus+signs+stay",
    ];
    for input in inputs {
        let url = format!("easymo://echo?v={}", urlencoding::encode(input));
        let link = DeepLink::parse(&url).unwrap();
        assert_eq!(link.get("v"), Some(&input.to_string()));
    }
}

#[test]
fn invalid_percent_encoding_fails() {
    assert_eq!(
        DeepLink::parse("easymo://a?x=%FF").unwrap_err(),
        ParseError::Encoding
    );
}

#[test]
fn malformed_escape_kept_literally() {
    let link = DeepLink::parse("easymo://a?x=%ZZ").unwrap();
    assert_eq!(link.get("x"), Some(&"%ZZ".to_string()));
}

#[test]
fn segments_without_equals_are_dropped() {
    let link = DeepLink::parse("easymo://a?flag&x=1&other").unwrap();
    assert_eq!(link.params.len(), 1);
    assert_eq!(link.get("x"), Some(&"1".to_string()));
    assert_eq!(link.get("flag"), None);
}

#[test]
fn value_may_contain_equals() {
    let link = DeepLink::parse("easymo://a?x=a=b").unwrap();
    assert_eq!(link.get("x"), Some(&"a=b".to_string()));
}

#[test]
fn empty_query_means_no_params() {
    let link = DeepLink::parse("easymo://a?").unwrap();
    assert_eq!(link.params.len(), 0);
    let link = DeepLink::parse("easymo://a").unwrap();
    assert_eq!(link.params.len(), 0);
}

#[test]
fn action_is_not_canonicalized() {
    let link = DeepLink::parse("easymo://Open Report?x=1").unwrap();
    assert_eq!(link.action, "Open Report");
    let link = DeepLink::parse("easymo://a%20b").unwrap();
    assert_eq!(link.action, "a%20b");
}

#[test]
fn parse_is_deterministic() {
    let a = DeepLink::parse("easymo://act?x=1&y=2").unwrap();
    let b = DeepLink::parse("easymo://act?x=1&y=2").unwrap();
    assert_eq!(a.action, b.action);
    assert_eq!(a.params, b.params);
}
