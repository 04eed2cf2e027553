use uniswap_backend::json::Json;
use uniswap_backend::replies::{verdict_of, Reply};
use uniswap_backend::verified::{normalize, readable, unknown_verdict};
use uniswap_backend::wire::read;

fn json(text: &str) -> Json {
    read(text).unwrap()
}

#[test]
fn a_readable_verdict_passes_through_and_anything_else_blocks() {
    let ready = json(r#"{"ok":true,"chainId":1,"mode":"required","state":"ready","blocking":false}"#);
    assert_eq!(normalize(1, &ready), ready);
    for unreadable in ["{}", r#"{"state":"ready"}"#, r#"{"blocking":false}"#, r#"{"ok":false,"error":"boom"}"#] {
        let v = normalize(1, &json(unreadable));
        assert_eq!(
            (v.str_of("mode"), v.bool_of("blocking"), v.u64_of("chainId")),
            ("unknown", Some(true), Some(1)),
            "{unreadable}"
        );
    }
    assert_eq!(normalize(1, &json(r#"{"ok":false,"error":"boom"}"#)).str_of("detail"), "boom");
}

#[test]
fn an_eth_rpc_that_is_silent_or_speaks_noise_blocks_too() {
    let silent = verdict_of(10, Reply::Unreachable { why: "Timeout".to_string() });
    assert_eq!(silent.str_of("detail"), "eth_rpc_module: Timeout");
    assert_eq!((silent.str_of("mode"), silent.bool_of("blocking")), ("unknown", Some(true)));
    let noise = verdict_of(10, Reply::Unreadable { raw: "?".to_string(), why: "expected value".to_string() });
    assert_eq!(noise.str_of("error"), "eth_rpc_module: expected value");
    assert_eq!(noise.u64_of("chainId"), Some(10));
    assert!(readable(&unknown_verdict(1, "why")), "what is reported can itself be read");
    assert_eq!(unknown_verdict(1, "why").bool_of("ok"), Some(false));
    assert_eq!(unknown_verdict(1, "why").str_of("action"), "restart_or_reload");
}
