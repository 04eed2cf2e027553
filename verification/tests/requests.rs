use serde_json::Value;
use uniswap_backend::form::{parse_form, scale, SwapForm};
use uniswap_backend::json::Json;
use uniswap_backend::rate::{rate_places, rate_terms, rate_text};
use uniswap_backend::requests::{
    merged_quote, sender_request, swap_module_request, swap_purpose, APP,
};
use uniswap_backend::wire::{read, spell};

const USDC: &str = "0xA0b86991c6218b36c1d19D4a2e9Eb0cE3606eB48";
const ROUTER: &str = "0x7a250d5630B4cF539739dF2C5dAcb4c659F2488D";

fn json(text: &str) -> Json {
    read(text).unwrap()
}

fn merged(base: &str, extra: &str) -> String {
    let mut r: Value = serde_json::from_str(base).unwrap();
    let e: Value = serde_json::from_str(extra).unwrap();
    for (k, v) in e.as_object().unwrap() {
        r[k] = v.clone();
    }
    r.to_string()
}

fn form(extra: &str) -> SwapForm {
    let base = format!(
        r#"{{"chainId":11155111,"from":"0xf39F","tokenIn":"{USDC}","tokenOut":"ETH","amountUnits":"1000",
            "decimalsIn":6,"decimalsOut":18,"symbolIn":"USDC","symbolOut":"ETH","slippageBps":100}}"#
    );
    let mut f = parse_form(&merged(&base, extra)).unwrap();
    scale(&mut f).unwrap();
    f
}

fn built() -> Json {
    json(&format!(
        r#"{{"ok":true,"amountOut":"5","amountOutMin":"4","route":{{"version":"V2"}},"calls":[
            {{"kind":"approve","to":"{USDC}","value":"0x0","data":"0x09","gasLimitHint":60000,"label":"Approve USDC for Uniswap"}},
            {{"kind":"swap","to":"{ROUTER}","value":"0x0","data":"0x18","gasLimitHint":180000,"label":"Swap USDC for ETH on Uniswap V2"}}]}}"#
    ))
}

fn rate_of(amount_in: &str, decimals_in: u32, amount_out: &str, decimals_out: u32) -> Option<String> {
    let (i, o) = rate_terms(amount_in, decimals_in, amount_out, decimals_out)?;
    let (i, o): (f64, f64) = (i.parse().ok()?, o.parse().ok()?);
    if !(i > 0.0) || !(o > 0.0) {
        return None;
    }
    let r = o / i;
    let places = rate_places(&format!("{r:.5e}"));
    Some(rate_text(&format!("{r:.*}", places)))
}

fn quote(built: &Json, fee: &Json, f: &SwapForm) -> Json {
    let out = built.str_of("amountOut");
    let (din, dout) = (f.decimals_in.unwrap_or(18), f.decimals_out.unwrap_or(18));
    let rate = rate_of(&f.amount_in, din, out, dout).unwrap_or_default();
    let inverse = rate_of(out, dout, &f.amount_in, din).unwrap_or_default();
    merged_quote(built, fee, f, &rate, &inverse)
}

#[test]
fn the_module_is_asked_with_the_owner_and_only_a_swap_carries_a_deadline() {
    let f = form("{}");
    let m = swap_module_request(&f, 1_789_000_000);
    assert_eq!(m.str_of("owner"), "0xf39F");
    assert_eq!(m.str_of("amountIn"), "1000000000");
    assert_eq!(m.u64_of("slippageBps"), Some(100));
    assert_eq!(m.u64_of("deadline"), Some(1_789_000_000u64));
    assert!(swap_module_request(&f, 0).get("deadline").is_none(), "a quote asks for no deadline");
}

#[test]
fn the_sender_gets_every_call_tagged_and_no_gas_limit() {
    let f = form("{}");
    let sr = sender_request(&built(), &f, "uniswap_ui", "P").unwrap();
    let calls = sr.array_of("calls").unwrap();
    assert_eq!(calls.len(), 2);
    assert!(calls[0].str_of("label").starts_with("Approve"), "in order");
    assert!(calls.iter().all(|c| c.get("gasLimit").is_none()), "the estimator prices every leg");
    let meta = calls[1].get("meta").unwrap();
    assert_eq!(meta.str_of("app"), APP);
    assert_eq!(meta.str_of("via"), "uniswap_ui");
    assert_eq!(meta.str_of("amountOutMin"), "4");
    assert_eq!(meta.u64_of("decimalsIn"), Some(6));
    assert_eq!(meta.get("route").unwrap().str_of("version"), "V2");
    assert_eq!(sr.str_of("tier"), "normal");
    assert_eq!(sr.u64_of("chainId"), Some(11155111));
    assert_eq!(sr.str_of("purpose"), "P");
    for k in ["maxFeePerGas", "maxPriorityFeePerGas", "nonce"] {
        assert!(sr.get(k).is_none(), "{k} is the sender's to choose unless the user set it");
    }
}

// The user's own fees, per-call gas limits and nonce reach the sender as given; the rules
// for them (the tier, a replacement's floor, a bundle that cannot be pinned) are its own.
#[test]
fn the_users_fee_fields_reach_the_sender_as_given() {
    let f = form(
        r#"{"maxFeePerGas":"372524310","maxPriorityFeePerGas":37979581,"gasLimits":[null,"200000"],"nonce":40}"#,
    );
    let sr = sender_request(&built(), &f, "uniswap_ui", "P").unwrap();
    assert_eq!((sr.str_of("maxFeePerGas"), sr.str_of("maxPriorityFeePerGas")), ("372524310", "37979581"));
    assert_eq!(sr.u64_of("nonce"), Some(40));
    let calls = sr.array_of("calls").unwrap();
    assert!(calls[0].get("gasLimit").is_none(), "an unset limit is left to the estimator");
    assert_eq!(calls[1].str_of("gasLimit"), "200000");
    let blank = form(r#"{"maxFeePerGas":"","gasLimits":[],"nonce":null}"#);
    assert_eq!((blank.max_fee_per_gas, blank.gas_limits.len(), blank.nonce), (None, 0, None));
}

// Limits set against one build of the swap must not land on another's calls.
#[test]
fn gas_limits_for_a_differently_built_swap_are_refused() {
    let f = form(r#"{"gasLimits":["180000"]}"#);
    let e = sender_request(&built(), &f, "uniswap_ui", "P").unwrap_err();
    assert!(e.contains("set for 1 calls, but the swap is now 2"), "{e}");
    assert_eq!(e, "gas limits were set for 1 calls, but the swap is now 2 \u{2014} review it again");
}

#[test]
fn the_purpose_names_every_digit_and_who_asked() {
    let f = form("{}");
    assert_eq!(swap_purpose(&f, &built(), ""), "Swap 1000 USDC for at least 0.000000000000000004 ETH on Uniswap");
    assert_eq!(
        swap_purpose(&f, &built(), "uniswap_ui"),
        "Swap 1000 USDC for at least 0.000000000000000004 ETH on Uniswap, via uniswap_ui"
    );
    let nameless = form(r#"{"symbolIn":"","symbolOut":""}"#);
    assert!(swap_purpose(&nameless, &built(), "host").starts_with(&format!("Swap 1000 {USDC} for")));
}

#[test]
fn the_merged_quote_carries_displays_the_balance_verdict_and_the_fee() {
    let f = form("{}");
    let b = json(
        r#"{"ok":true,"chainId":11155111,"owner":"0xf39F","amountOut":"333277787035494084",
            "amountOutMin":"331611398100316613","balanceIn":"5000000000000"}"#,
    );
    let q = quote(&b, &json(r#"{"ok":true,"feeCeilingWeiDisplay":"0.0004"}"#), &f);
    assert_eq!(q.str_of("from"), "0xf39F");
    assert_eq!(q.str_of("amountOutDisplay"), "0.33327");
    assert_eq!(q.str_of("amountOutMinDisplay"), "0.33161");
    assert_eq!(q.str_of("rate"), "0.000333278");
    assert_eq!(q.bool_of("insufficientBalance"), Some(false));
    assert_eq!(q.get("fee").unwrap().str_of("feeCeilingWeiDisplay"), "0.0004");
    let short = json(r#"{"ok":true,"chainId":11155111,"amountOut":"5","amountOutMin":"4","balanceIn":"1"}"#);
    let nofee = quote(&short, &Json::Null, &f);
    assert_eq!(nofee.bool_of("ok"), Some(true), "a sender that did not answer leaves the quote standing");
    assert_eq!(nofee.get("fee").unwrap().bool_of("ok"), Some(false));
    assert_eq!(nofee.bool_of("insufficientBalance"), Some(true));
}

#[test]
fn a_quote_adds_figures_and_keeps_the_rest_of_its_build() {
    let f = form("{}");
    let b = json(r#"{"ok":true,"amountOut":"1500000000000000000","amountOutMin":"x","extra":[1,{"a":null}]}"#);
    let q = quote(&b, &Json::object(), &f);
    assert_eq!((q.str_of("amountInDisplay"), q.str_of("amountOutExact")), ("1000", "1.5"));
    assert_eq!((q.str_of("amountOutMinDisplay"), q.str_of("amountOutMinExact")), ("", ""));
    assert_eq!(q.str_of("rateInverse"), "666.667");
    assert_eq!(q.get("extra"), b.get("extra"));
    assert!(q.get("insufficientBalance").is_none(), "no balance, no verdict");
    assert_eq!(q.get("fee").unwrap().str_of("error"), "the sender did not answer");
}

#[test]
fn a_request_made_of_plain_values_is_spelled() {
    let f = form(r#"{"gasLimits":[null,"5"],"nonce":7}"#);
    let asked = spell(&swap_module_request(&f, 1_789_000_000)).unwrap();
    assert_eq!(read(&asked).unwrap().u64_of("deadline"), Some(1_789_000_000));
    let sent = sender_request(&built(), &f, "uniswap_ui", "P").unwrap();
    assert_eq!(read(&spell(&sent).unwrap()).unwrap().array_of("calls").unwrap().len(), 2);
    let fee = json(r#"{"ok":true,"tier":"fast"}"#);
    assert!(spell(&quote(&built(), &fee, &f)).is_some());
}
