use serde_json::Value;
use uniswap_backend::form::{is_address, is_native, parse_form, same_token, scale, SwapForm};

const USDC: &str = "0xA0b86991c6218b36c1d19D4a2e9Eb0cE3606eB48";

/// `base` with the fields of `extra`, as text.
fn merged(base: &str, extra: &str) -> String {
    let mut r: Value = serde_json::from_str(base).unwrap();
    let e: Value = serde_json::from_str(extra).unwrap();
    for (k, v) in e.as_object().unwrap() {
        r[k] = v.clone();
    }
    r.to_string()
}

fn form(extra: &str) -> SwapForm {
    let base = format!(
        r#"{{"chainId":11155111,"from":"0xf39F","tokenIn":"{USDC}","tokenOut":"ETH","amountUnits":"1000",
            "decimalsIn":6,"decimalsOut":18,"symbolIn":"USDC","symbolOut":"ETH","slippageBps":100}}"#
    );
    let mut f = parse_form(&merged(&base, extra)).unwrap();
    scale(&mut f).unwrap();
    f
}

fn refusal(request: &str) -> String {
    parse_form(request).and_then(|mut f| scale(&mut f)).unwrap_err()
}

#[test]
fn a_form_is_refused_in_words_rather_than_sent_on_as_zero() {
    let base = format!(
        r#"{{"chainId":1,"from":"0xf39F","tokenIn":"ETH","tokenOut":"{USDC}","amountUnits":"1","decimalsIn":18}}"#
    );
    let refused = |extra: &str| refusal(&merged(&base, extra));
    assert!(refused(r#"{"amountUnits":"1.2345678901234567890123"}"#).contains("18 decimal places"));
    assert_eq!(refused(r#"{"from":""}"#), "no account is selected");
    assert!(refused(r#"{"slippageBps":6000}"#).contains("5000"));
    assert_eq!(refused(r#"{"tokenOut":"native"}"#), "the two tokens are the same");
    assert_eq!(refused(r#"{"chainId":0}"#), "chainId is required");
    assert!(refused(r#"{"deadlineMins":0}"#).contains("deadline"));
    assert_eq!(refused(r#"{"amountUnits":"0.0"}"#), "there is nothing to swap");
    assert!(refused(r#"{"amountIn":"5"}"#).contains("not both"));
    let exponent = format!(r#"{{"chainId":1,"from":"a","tokenIn":"ETH","tokenOut":"{USDC}","amountIn":"1e18"}}"#);
    assert!(refusal(&exponent).contains("decimal digits"));
}

#[test]
fn a_good_form_scales_to_base_units_and_keeps_its_choices() {
    let f = form(r#"{"tier":"fast"}"#);
    assert_eq!(f.amount_in, "1000000000");
    assert_eq!(f.tier, "fast");
    assert_eq!(form("{}").tier, "normal");
    let bare = format!(r#"{{"chainId":1,"from":"a","tokenIn":"{USDC}","tokenOut":"ETH","amountUnits":"1"}}"#);
    let mut unknown = parse_form(&bare).unwrap();
    assert_eq!(unknown.decimals_in, None, "decimals are looked up, never assumed");
    assert!(scale(&mut unknown).unwrap_err().contains("decimals are unknown"));
}

#[test]
fn a_fee_field_that_is_not_a_whole_number_is_refused() {
    let base = format!(r#"{{"chainId":1,"from":"0xf39F","tokenIn":"ETH","tokenOut":"{USDC}","amountUnits":"1"}}"#);
    let refused = |extra: &str| parse_form(&merged(&base, extra)).unwrap_err();
    assert!(refused(r#"{"maxFeePerGas":"3.5 gwei"}"#).contains("maxFeePerGas must be a whole number"));
    assert!(refused(r#"{"maxPriorityFeePerGas":-1}"#).contains("maxPriorityFeePerGas"));
    assert!(refused(r#"{"gasLimits":"200000"}"#).contains("one gas limit, or null, per call"));
    assert!(refused(r#"{"gasLimits":["0"]}"#).contains("more than zero"));
    assert!(refused(r#"{"nonce":"forty"}"#).contains("nonce must be a whole number"));
    assert!(refused(r#"{"nonce":"99999999999999999999"}"#).contains("out of range"));
}

#[test]
fn every_refusal_has_its_own_words() {
    let base = format!(r#"{{"chainId":1,"from":"a","tokenIn":"ETH","tokenOut":"{USDC}","amountUnits":"1","decimalsIn":18}}"#);
    let refused = |extra: &str| refusal(&merged(&base, extra));
    assert!(refusal("{").starts_with("invalid swap request: "));
    assert_eq!(refusal("[]"), "a swap request must be a JSON object");
    assert_eq!(refused(r#"{"tokenIn":""}"#), "both tokens are required");
    assert_eq!(refused(r#"{"slippageBps":-1}"#), "slippage must be between 0 and 5000 basis points");
    assert_eq!(refused(r#"{"deadlineMins":4321}"#), "the deadline must be between 1 minute and 3 days");
    assert_eq!(refused(r#"{"amountUnits":" "}"#), "the amount is missing");
    assert_eq!(refused(r#"{"amountUnits":"","amountIn":"x"}"#), "amountIn must be base units in decimal digits");
    assert_eq!(refused(r#"{"amountUnits":"","amountIn":"000"}"#), "there is nothing to swap");
    assert_eq!(
        refused(r#"{"gasLimits":[null,"x"]}"#),
        "a gas limit must be a whole number in decimal digits"
    );
    assert_eq!(refused(r#"{"decimalsIn":78}"#), "the amount must be a number with at most 78 decimal places");
}

#[test]
fn a_form_reads_its_bounds_and_defaults() {
    let base = format!(r#"{{"chainId":1,"from":" a ","tokenIn":"ETH","tokenOut":"{USDC}","amountIn":"5"}}"#);
    let f = parse_form(&base).unwrap();
    assert_eq!((f.slippage_bps, f.deadline_mins), (50, 30));
    assert_eq!((f.from.as_str(), f.amount_in.as_str(), f.tier.as_str()), ("a", "5", "normal"));
    let edge = parse_form(&merged(&base, r#"{"slippageBps":5000,"deadlineMins":4320,"nonce":"18446744073709551615"}"#)).unwrap();
    assert_eq!((edge.slippage_bps, edge.deadline_mins, edge.nonce), (5000, 4320, Some(u64::MAX)));
    let fees = parse_form(&merged(&base, r#"{"maxFeePerGas":" 007 ","maxPriorityFeePerGas":12,"gasLimits":[1,null,""]}"#)).unwrap();
    assert_eq!(fees.max_fee_per_gas.as_deref(), Some("007"));
    assert_eq!(fees.max_priority_fee_per_gas.as_deref(), Some("12"));
    assert_eq!(fees.gas_limits, vec![Some("1".to_string()), None, None]);
    assert_eq!(f.clone(), f);
}

#[test]
fn the_native_coin_has_four_spellings() {
    let zero = format!("0x{}", "0".repeat(40));
    for native in ["", " ", "ETH", "eth", "Native", zero.as_str(), &zero.to_uppercase()] {
        assert!(is_native(native), "{native}");
    }
    for other in ["WETH", USDC, "0x0", "e th"] {
        assert!(!is_native(other), "{other}");
    }
    assert!(is_address(USDC) && is_address(&zero));
    for other in ["", "ETH", "0x0", &USDC[1..], &format!("{USDC}0"), &USDC.replace('A', "g")] {
        assert!(!is_address(other), "{other}");
    }
    let wide = format!("0x{}", "\u{e9}".repeat(20));
    assert!(!is_native(&wide) && !is_address(&wide));
    assert!(same_token("eth", &zero));
    assert!(same_token(USDC, &USDC.to_lowercase()));
    assert!(!same_token(USDC, "ETH"));
}
