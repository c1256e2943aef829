use edge_runtime_core::ca_store::{ca_stores, trim_white_space, CaStore};
use edge_runtime_core::runtime::split_at_char;

#[test]
fn unset_variable_trusts_mozilla_roots() {
    assert_eq!(ca_stores(None), Ok(vec![CaStore::Mozilla]));
}

#[test]
fn names_are_trimmed_and_kept_in_order() {
    assert_eq!(ca_stores(Some(" system ,\tmozilla ")), Ok(vec![CaStore::System, CaStore::Mozilla]));
}

#[test]
fn empty_names_are_skipped() {
    assert_eq!(ca_stores(Some("")), Ok(vec![]));
    assert_eq!(ca_stores(Some(", ,\n,")), Ok(vec![]));
    assert_eq!(ca_stores(Some(",mozilla,,")), Ok(vec![CaStore::Mozilla]));
}

#[test]
fn unicode_white_space_is_trimmed() {
    assert_eq!(ca_stores(Some("\u{3000}system\u{85}")), Ok(vec![CaStore::System]));
    assert_eq!(trim_white_space("\u{a0} a b\u{2028}"), "a b");
}

#[test]
fn first_unknown_store_is_reported() {
    assert_eq!(
        ca_stores(Some("mozilla, foo ,bar")),
        Err("Unknown certificate store \"foo\" specified (allowed: \"system,mozilla\")".to_string())
    );
}

#[test]
fn store_names_are_case_sensitive() {
    assert_eq!(
        ca_stores(Some("Mozilla")),
        Err("Unknown certificate store \"Mozilla\" specified (allowed: \"system,mozilla\")".to_string())
    );
}

#[test]
fn split_keeps_empty_pieces() {
    assert_eq!(split_at_char("a,,b,", ','), vec!["a", "", "b", ""]);
    assert_eq!(split_at_char("", ','), vec![""]);
}
