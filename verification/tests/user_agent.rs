use edge_runtime_core::user_agent::{append_user_agent_comment, stamping_hook};

fn append(user_agent: Option<&str>) -> Option<String> {
    let comment = b"(variant; ref=meow)";
    let current = user_agent.map(|it| it.as_bytes());
    match (user_agent, append_user_agent_comment(current, comment)) {
        (None, changed) => {
            assert!(changed.is_none());
            None
        }
        (Some(_), Some(new_value)) => Some(String::from_utf8(new_value).unwrap()),
        (Some(old_value), None) => Some(old_value.to_string()),
    }
}

#[test]
fn test_append_user_agent_comment() {
    assert_eq!(append(None), None);
    assert_eq!(
        append(Some("curl/8.7.1")).as_deref(),
        Some("curl/8.7.1 (variant; ref=meow)")
    );
    assert_eq!(
        append(Some("curl/8.7.1 (variant; ref=meow)")).as_deref(),
        Some("curl/8.7.1 (variant; ref=meow)")
    );
    assert_eq!(append(Some("")).as_deref(), Some("(variant; ref=meow)"));
}

#[test]
fn test_stamping_hook_rejects_invalid_comments() {
    assert!(stamping_hook("(variant; ref=meow)").is_some());
    assert!(stamping_hook("").is_none());
    assert!(stamping_hook("new\nline").is_none());
}

#[test]
fn stamping_hook_keeps_the_comment_bytes() {
    assert_eq!(stamping_hook("(x)"), Some(b"(x)".to_vec()));
}

#[test]
fn stamping_twice_changes_nothing() {
    let once = append_user_agent_comment(Some(b"agent"), b"(c)").unwrap();
    assert_eq!(once, b"agent (c)".to_vec());
    assert_eq!(append_user_agent_comment(Some(&once), b"(c)"), None);
}

#[test]
fn a_value_that_cannot_be_a_header_is_left_alone() {
    // The joined value would hold a byte that no header value may hold.
    assert_eq!(append_user_agent_comment(Some(b"bad\x7f"), b"(c)"), None);
}
