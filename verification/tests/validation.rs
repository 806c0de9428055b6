use chain_allowlist::allow_list::AllowListStore;
use chain_allowlist::supported_id::SupportedChainId;
use chain_allowlist::supported_id::ValidationError;

fn store_of(text: &str) -> AllowListStore {
    AllowListStore::from_config_text(text).expect("configuration text should be a JSON array")
}

#[test]
fn scenario_allow_list_of_two() {
    let store = store_of("[1, 8543]");

    let one = SupportedChainId::parse_from_parameter("1", &store).unwrap();
    assert_eq!(one.value(), 1);

    let base = SupportedChainId::parse_from_parameter("8543", &store).unwrap();
    assert_eq!(base.value(), 8543);

    match SupportedChainId::parse_from_parameter("2", &store) {
        Err(ValidationError::NotSupported { value }) => assert_eq!(value, 2),
        other => panic!("expected NotSupported, got {:?}", other),
    }

    match SupportedChainId::parse_from_parameter("abc", &store) {
        Err(ValidationError::MalformedInput { raw }) => assert_eq!(raw, "abc"),
        other => panic!("expected MalformedInput, got {:?}", other),
    }

    match SupportedChainId::parse_from_parameter("-1", &store) {
        Err(ValidationError::MalformedInput { raw }) => assert_eq!(raw, "-1"),
        other => panic!("expected MalformedInput, got {:?}", other),
    }
}

#[test]
fn every_listed_value_parses_to_itself() {
    let store = store_of("[0, 7, 42, 8543, 18446744073709551615]");
    for n in [0u64, 7, 42, 8543, u64::MAX] {
        let id = SupportedChainId::parse_from_parameter(&n.to_string(), &store).unwrap();
        assert_eq!(id.value(), n);
    }
}

#[test]
fn unlisted_values_are_not_supported() {
    let store = store_of("[1, 8543]");
    for n in [0u64, 2, 8542, 8544, u64::MAX] {
        match SupportedChainId::parse_from_parameter(&n.to_string(), &store) {
            Err(ValidationError::NotSupported { value }) => assert_eq!(value, n),
            other => panic!("expected NotSupported for {}, got {:?}", n, other),
        }
    }
}

#[test]
fn non_numeric_text_is_malformed() {
    let store = store_of("[1, 8543]");
    let bad = [
        "", "+", "-", " 1", "1 ", "1.5", "0x10", "abc", "--1", "++1", "1e3", "¾",
        "18446744073709551616", "99999999999999999999999", "-0",
    ];
    for raw in bad {
        match SupportedChainId::parse_from_parameter(raw, &store) {
            Err(ValidationError::MalformedInput { raw: text }) => assert_eq!(text, raw),
            other => panic!("expected MalformedInput for {:?}, got {:?}", raw, other),
        }
    }
}

#[test]
fn plus_sign_and_leading_zeros_are_accepted() {
    let store = store_of("[5]");
    let a = SupportedChainId::parse_from_parameter("+5", &store).unwrap();
    assert_eq!(a.value(), 5);
    let b = SupportedChainId::parse_from_parameter("005", &store).unwrap();
    assert_eq!(b.value(), 5);
    let c = SupportedChainId::parse_from_parameter("+005", &store).unwrap();
    assert_eq!(c.value(), 5);
}

#[test]
fn largest_value_round_trips() {
    let store = store_of("[18446744073709551615]");
    let id = SupportedChainId::parse_from_parameter("18446744073709551615", &store).unwrap();
    assert_eq!(id.value(), u64::MAX);
}

#[test]
fn parsing_twice_gives_equal_values() {
    let store = store_of("[1, 8543]");
    let a = SupportedChainId::parse_from_parameter("8543", &store).unwrap();
    let b = SupportedChainId::parse_from_parameter("8543", &store).unwrap();
    assert_eq!(a.value(), b.value());
    assert_eq!(a, b);
}

#[test]
fn contains_matches_the_configured_list() {
    let store = store_of("[1, 8543]");
    assert!(store.contains(1));
    assert!(store.contains(8543));
    assert!(!store.contains(0));
    assert!(!store.contains(2));
    assert!(!store.contains(u64::MAX));
}

#[test]
fn empty_allow_list_rejects_everything() {
    let store = store_of("[]");
    assert!(!store.contains(1));
    match SupportedChainId::parse_from_parameter("1", &store) {
        Err(ValidationError::NotSupported { value }) => assert_eq!(value, 1),
        other => panic!("expected NotSupported, got {:?}", other),
    }
}

#[test]
fn duplicate_entries_are_one_member() {
    let store = store_of("[7, 7, 7]");
    assert!(store.contains(7));
    assert!(!store.contains(8));
}

#[test]
fn invalid_configuration_is_rejected() {
    let bad = [
        "",
        "not json",
        "{\"a\": 1}",
        "[1, -2]",
        "[1.5]",
        "[\"1\"]",
        "[1, 2",
        "[18446744073709551616]",
        "null",
    ];
    for text in bad {
        assert!(
            AllowListStore::from_config_text(text).is_err(),
            "expected {:?} to be rejected",
            text
        );
    }
}

#[test]
fn missing_configuration_leaves_no_identifier() {
    // With no store built, there is no way to construct a SupportedChainId:
    // the only constructor takes a store. A failed load is the same story.
    let failed = AllowListStore::from_config_text("not json");
    assert!(failed.is_err());
}
