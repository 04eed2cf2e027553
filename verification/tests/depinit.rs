use uniswap_backend::depinit::{next_step, reply_ok, Next};

#[test]
fn only_an_explicit_unconfigured_licenses_a_write() {
    assert_eq!(next_step(r#"{"ok":true,"state":"unconfigured","source":"none"}"#), Next::Initialize);
    assert_eq!(next_step(r#"{"ok":true,"state":"configured","source":"external"}"#), Next::Settled);
}

#[test]
fn unready_is_ask_again_and_never_unconfigured() {
    // A module that has not run `on_context_ready` has not told us it has no config, and
    // initializing it here would race its own load.
    let unready = r#"{"ok":false,"state":"unready","error":"context not ready"}"#;
    assert_eq!(next_step(unready), Next::AskAgain);
}

#[test]
fn nothing_unreadable_is_ever_read_as_permission_to_write() {
    for raw in [
        "", "not json", "[]", "{}", r#"{"ok":true}"#, r#"{"state":"weird"}"#, r#"{"state":null}"#,
        r#"{"ok":false,"error":"boom"}"#,
    ] {
        assert_eq!(next_step(raw), Next::AskAgain, "{raw}");
    }
}

#[test]
fn state_decides_and_the_ok_flag_does_not_override_it() {
    assert_eq!(next_step(r#"{"ok":false,"state":"configured"}"#), Next::Settled);
    assert_eq!(next_step(r#"{"ok":false,"state":"unconfigured"}"#), Next::Initialize);
}

#[test]
fn an_already_applied_default_is_a_success_not_a_failure() {
    let second = r#"{"ok":true,"applied":false,"state":"configured","source":"external","reason":"already configured"}"#;
    assert!(reply_ok(second));
    assert!(reply_ok(r#"{"ok":true,"applied":true}"#));
    assert!(!reply_ok(r#"{"ok":false,"error":"unready"}"#));
    assert!(!reply_ok("nonsense"));
}
