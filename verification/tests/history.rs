use uniswap_backend::form::{parse_form, scale};
use uniswap_backend::history::{bundle_status, group_swaps, is_final, received};
use uniswap_backend::json::Json;
use uniswap_backend::requests::{sender_request, APP};
use uniswap_backend::wire::read;

const USDC: &str = "0xA0b86991c6218b36c1d19D4a2e9Eb0cE3606eB48";
const ROUTER: &str = "0x7a250d5630B4cF539739dF2C5dAcb4c659F2488D";
const ME: &str = "0xf39Fd6e51aad88F6F4ce6aB8827279cffFb92266";
const WETH: &str = "0xfFf9976782d46CC05630D1f6eBAb18b2324d6B14";

fn json(text: &str) -> Json {
    read(text).unwrap()
}

fn row(hash: &str, req: &str, leg: i64, status: &str, kind: &str, app: &str, ts: f64) -> Json {
    json(&format!(
        r#"{{"hash":"{hash}","requestId":"{req}","leg":{leg},"legs":2,"status":"{status}","timestamp":{ts:?},
            "label":"L{leg}","origin":"host","to":"0x1",
            "meta":{{"app":"{app}","via":"uniswap_ui","kind":"{kind}","symbolIn":"USDC","symbolOut":"ETH",
                     "amountIn":"1000000000","decimalsIn":6,"amountOut":"5","decimalsOut":18}}}}"#
    ))
}

/// `value` with one more field of its meta.
fn with_meta(value: Json, key: &str, field: Json) -> Json {
    let meta = value.get("meta").unwrap().clone().with(key, field);
    value.with("meta", meta)
}

/// The confirmed swap leg of a bundle, as the sender returns it after reading its receipt.
fn settled(token_out: &str, extra: &str) -> Vec<Json> {
    let mut swap = row("0xa1", "snd_1", 1, "confirmed", "swap", APP, 2.0).with("from", Json::text(ME));
    swap = with_meta(swap, "tokenOut", Json::text(token_out));
    if let Json::Object(fields) = json(extra) {
        for (k, v) in fields {
            swap = swap.with(&k, v);
        }
    }
    vec![row("0xa0", "snd_1", 0, "confirmed", "approve", APP, 1.0), swap]
}

fn got(legs: &[Json]) -> Option<String> {
    received(legs, legs[1].get("meta").unwrap())
}

#[test]
fn swaps_are_this_apps_rows_grouped_by_bundle_newest_first() {
    let rows = vec![
        row("0xa1", "snd_1", 1, "confirmed", "swap", APP, 200.0),
        row("0xa0", "snd_1", 0, "confirmed", "approve", APP, 199.0),
        row("0xb0", "snd_2", 0, "pending", "swap", APP, 300.0),
        json(r#"{"hash":"0xc0","requestId":"","leg":0,"status":"confirmed","timestamp":400,"meta":{"kind":"native"}}"#),
    ];
    let groups = group_swaps(&rows, APP);
    assert_eq!(groups.len(), 2, "the wallet's own row is not one of ours");
    assert_eq!(groups[0].str_of("requestId"), "snd_2");
    assert_eq!(groups[0].str_of("status"), "pending");
    let b1 = &groups[1];
    assert_eq!(b1.str_of("requestId"), "snd_1");
    assert_eq!(b1.array_of("legs").unwrap()[0].u64_of("leg"), Some(0), "legs in order");
    assert_eq!(b1.str_of("label"), "L1", "titled by the swap leg");
    assert_eq!(b1.get("swap").unwrap().str_of("kind"), "swap");
    assert_eq!(b1.array_of("hashes").unwrap().len(), 2);
    assert_eq!(b1.str_of("status"), "confirmed");
    assert_eq!(b1.str_of("origin"), "host");
    assert_eq!(b1.str_of("via"), "uniswap_ui");
}

/// Quoted and minimum are what was EXPECTED; the receipt says what arrived. A token comes
/// in as an ERC-20 Transfer to the account, and only transfers of the token bought count.
#[test]
fn a_settled_swap_reads_what_it_received_off_its_receipt() {
    let lower = ME.to_lowercase();
    let legs = settled(
        WETH,
        &format!(
            r#"{{"transfers":[
                {{"contract":"{USDC}","from":"{ME}","to":"{ROUTER}","amount":"1000000000"}},
                {{"contract":"{WETH}","from":"{ROUTER}","to":"{lower}","amount":"333000000000000000"}},
                {{"contract":"{WETH}","from":"{ROUTER}","to":"{ROUTER}","amount":"7"}},
                {{"contract":"{USDC}","from":"{ROUTER}","to":"{ME}","amount":"1"}}]}}"#
        ),
    );
    assert_eq!(
        got(&legs).as_deref(),
        Some("333000000000000000"),
        "the refund of the token sold is not what was bought"
    );
    let g = &group_swaps(&legs, APP)[0];
    assert_eq!(
        (g.str_of("received"), g.str_of("receivedDisplay"), g.str_of("receivedExact")),
        ("333000000000000000", "0.333", "0.333")
    );
}

/// EIP-7708: ether out arrives as the router's CALL to the account, which the sender now
/// decodes and totals. Before Glamsterdam no log says so, and nothing is claimed.
#[test]
fn ether_out_is_read_off_eip7708_logs_and_unmeasured_ether_claims_nothing() {
    let legs = settled("ETH", r#"{"nativeReceivedWei":"333277787035494084"}"#);
    let g = &group_swaps(&legs, APP)[0];
    assert_eq!((g.str_of("received"), g.str_of("receivedDisplay")), ("333277787035494084", "0.33327"));

    let before = settled("ETH", "{}");
    assert!(group_swaps(&before, APP)[0].get("received").is_none(), "no log, no figure");

    // A sender that predates EIP-7708 handling files the log as a "token" of 0xff…fe. It is
    // not the token bought, so it is never read as one.
    let legacy = settled(
        WETH,
        &format!(
            r#"{{"transfers":[{{"contract":"0xfffffffffffffffffffffffffffffffffffffffe","from":"{ROUTER}","to":"{ME}","amount":"5"}}]}}"#
        ),
    );
    assert_eq!(got(&legacy), None);
}

/// A recipient other than the account is recorded with the call and read back from there:
/// its ether is in the transfer list, not in the account's own total.
#[test]
fn what_reached_another_recipient_is_summed_from_its_transfers() {
    const THEM: &str = "0x0adBc7B2D1A2b7C8E9F0A1b2c3d4e5f60718D3A7";
    let lower = THEM.to_lowercase();
    let mut legs = settled(
        "ETH",
        &format!(
            r#"{{"nativeReceivedWei":"999","nativeTransfers":[
                {{"from":"{WETH}","to":"{ROUTER}","amount":"5"}},
                {{"from":"{ROUTER}","to":"{THEM}","amount":"3"}},
                {{"from":"{ROUTER}","to":"{lower}","amount":"2"}}]}}"#
        ),
    );
    legs[1] = with_meta(legs[1].clone(), "recipient", Json::text(THEM));
    assert_eq!(got(&legs).as_deref(), Some("5"));

    let built = json(&format!(
        r#"{{"ok":true,"amountOut":"5","amountOutMin":"4","route":{{"version":"V2"}},"calls":[
            {{"kind":"approve","to":"{USDC}","value":"0x0","data":"0x09","gasLimitHint":60000,"label":"Approve USDC for Uniswap"}},
            {{"kind":"swap","to":"{ROUTER}","value":"0x0","data":"0x18","gasLimitHint":180000,"label":"Swap USDC for ETH on Uniswap V2"}}]}}"#
    ));
    let request = |recipient: &str| {
        let text = format!(
            r#"{{"chainId":11155111,"from":"0xf39F","tokenIn":"{USDC}","tokenOut":"ETH","amountUnits":"1000",
                "decimalsIn":6,"decimalsOut":18,"symbolIn":"USDC","symbolOut":"ETH","slippageBps":100{recipient}}}"#
        );
        let mut f = parse_form(&text).unwrap();
        scale(&mut f).unwrap();
        let sr = sender_request(&built, &f, "uniswap_ui", "P").unwrap();
        sr.array_of("calls").unwrap()[1].get("meta").unwrap().clone()
    };
    assert_eq!(request(&format!(r#","recipient":"{THEM}""#)).str_of("recipient"), THEM);
    assert!(request("").get("recipient").is_none(), "absent means the account");
}

#[test]
fn a_list_the_sender_cut_short_is_not_summed() {
    let mut legs = settled(
        WETH,
        &format!(
            r#"{{"transfersMore":3,"transfers":[{{"contract":"{WETH}","from":"{ROUTER}","to":"{ME}","amount":"5"}}]}}"#
        ),
    );
    assert_eq!(got(&legs), None, "three more transfers went unread");
    legs[1] = legs[1].clone().with("transfersMore", Json::Null);
    assert_eq!(got(&legs).as_deref(), Some("5"));
}

#[test]
fn an_unsettled_swap_has_received_nothing_yet() {
    let mut legs = settled("ETH", r#"{"nativeReceivedWei":"5"}"#);
    legs[1] = legs[1].clone().with("status", Json::text("pending"));
    assert_eq!(got(&legs), None);
    legs[1] = legs[1].clone().with("status", Json::text("failed"));
    assert_eq!(got(&legs), None, "a reverted swap delivered nothing");
}

#[test]
fn a_bundle_is_as_bad_as_its_worst_leg() {
    let failed = [
        row("0x1", "r", 0, "confirmed", "approve", APP, 1.0),
        row("0x2", "r", 1, "failed", "swap", APP, 2.0),
    ];
    assert_eq!(bundle_status(&failed), "failed");
    let mut stalled = row("0x3", "r", 0, "pending", "swap", APP, 3.0);
    stalled = stalled.with("stalled", Json::Bool(true));
    assert_eq!(bundle_status(&[stalled.clone()]), "stalled");
    stalled = stalled.with("verificationBlocked", Json::Bool(true));
    assert_eq!(bundle_status(&[stalled]), "blocked");
}

#[test]
fn a_replaced_swap_is_replaced_and_a_replaced_approval_is_not_the_swap() {
    let replaced = row("0x4", "r", 0, "replaced", "swap", APP, 4.0);
    assert_eq!(bundle_status(&[replaced.clone()]), "replaced");
    let approval_replaced = [
        row("0x5", "r", 0, "replaced", "approve", APP, 5.0),
        row("0x6", "r", 1, "confirmed", "swap", APP, 6.0),
    ];
    assert_eq!(bundle_status(&approval_replaced), "confirmed", "the swap itself landed");
    let still_moving = [
        row("0x7", "r", 0, "replaced", "approve", APP, 7.0),
        row("0x8", "r", 1, "pending", "swap", APP, 8.0),
    ];
    assert_eq!(bundle_status(&still_moving), "pending");
    let reverted = [
        row("0x9", "r", 0, "replaced", "approve", APP, 9.0),
        row("0xa", "r", 1, "failed", "swap", APP, 10.0),
    ];
    assert_eq!(bundle_status(&reverted), "failed");
}

#[test]
fn only_the_end_of_a_swap_is_final() {
    for (reply, want) in [
        (r#"{"ok":true,"status":"awaitingApproval","final":false}"#, false),
        (r#"{"ok":true,"status":"awaitingApproval","blocked":true,"final":false}"#, false),
        (r#"{"ok":true,"status":"broadcasting","final":false}"#, false),
        (r#"{"ok":true,"status":"stuck","final":true}"#, true),
        (r#"{"ok":true,"status":"broadcast","final":true}"#, true),
        (r#"{"ok":false,"error":"no time left to read the approval","final":false}"#, false),
        (r#"{"ok":false,"error":"no send with id 'snd_x'","final":true}"#, true),
    ] {
        assert_eq!(is_final(&json(reply)), want, "{reply}");
    }
    // The sender's word, never its sentence.
    assert!(!is_final(&json(r#"{"ok":false,"error":"no send with id 'snd_x'","final":false}"#)));
}

#[test]
fn a_sender_that_predates_final_is_read_the_way_it_behaves() {
    for live in ["awaitingApproval", "broadcasting"] {
        assert!(!is_final(&json(&format!(r#"{{"ok":true,"status":"{live}"}}"#))), "{live}");
    }
    assert!(!is_final(&json(r#"{"ok":true,"status":"awaitingApproval","blocked":true}"#)));
    for done in ["broadcast", "rejected", "cancelled", "failed", "stuck"] {
        assert!(is_final(&json(&format!(r#"{{"ok":true,"status":"{done}"}}"#))), "{done}");
    }
    for error in ["no time left to read the approval", "no send with id 'snd_x'"] {
        assert!(!is_final(&json(&format!(r#"{{"ok":false,"error":"{error}"}}"#))), "{error}");
    }
}

/// Times are compared as the floats they are read as: a whole number, a fraction and a time before
/// 1970 stand in one order, and bundles of the same time stay as they came.
#[test]
fn times_of_every_kind_stand_in_one_order() {
    let at = |id: &str, ts: &str| {
        json(&format!(r#"{{"hash":"{id}","requestId":"{id}","timestamp":{ts},"meta":{{"app":"{APP}"}}}}"#))
    };
    let rows = [at("a", "-5"), at("b", "10"), at("c", "10.5"), at("d", "null"), at("e", "10.0"), at("f", "-0.5")];
    let order: Vec<String> =
        group_swaps(&rows, APP).iter().map(|g| g.str_of("requestId").to_string()).collect();
    assert_eq!(order, ["c", "b", "e", "a", "d", "f"]);
    assert_eq!(group_swaps(&rows[1..2], APP)[0].get("timestamp"), Some(&Json::Float(10.0f64.to_bits())));
    assert_eq!(group_swaps(&rows[0..1], APP)[0].get("timestamp"), Some(&Json::Float(0.0f64.to_bits())));
    let large = at("g", "18446744073709551615");
    assert_eq!(group_swaps(&[large], APP)[0].get("timestamp"), Some(&Json::Float(18446744073709551615.0f64.to_bits())));
}

/// A row without a request is a bundle of its own, by its hash; legs of one number stay as they came.
#[test]
fn bundles_go_by_request_and_lone_rows_by_hash() {
    let lone = |hash: &str, leg: i64| {
        json(&format!(r#"{{"hash":"{hash}","requestId":"","leg":{leg},"label":"{hash}","meta":{{"app":"{APP}","kind":"x"}}}}"#))
    };
    let rows = [lone("h1", 0), lone("h2", 0), lone("h1", -3), lone("", 7)];
    let groups = group_swaps(&rows, APP);
    let ids: Vec<&str> = groups.iter().map(|g| g.str_of("requestId")).collect();
    assert_eq!(ids, ["h1", "h2", ""]);
    let legs = groups[0].array_of("legs").unwrap();
    assert_eq!((legs[0].i64_of("leg"), legs[1].i64_of("leg")), (Some(-3), Some(0)));
    assert_eq!(groups[0].str_of("label"), "h1");
    assert!(groups[2].array_of("hashes").unwrap().is_empty());
    assert!(group_swaps(&rows, "another_app").is_empty());
}

/// An amount that is no number leaves nothing to show, and amounts add past any integer width.
#[test]
fn what_is_received_is_a_sum_or_nothing() {
    let transfers = |amounts: &[&str]| {
        let list: Vec<String> =
            amounts.iter().map(|a| format!(r#"{{"contract":"{WETH}","to":"{ME}","amount":"{a}"}}"#)).collect();
        settled(WETH, &format!(r#"{{"transfers":[{}]}}"#, list.join(",")))
    };
    let big = "115792089237316195423570985008687907853269984665640564039457584007913129639935";
    assert_eq!(
        got(&transfers(&[big, "1"])).as_deref(),
        Some("115792089237316195423570985008687907853269984665640564039457584007913129639936")
    );
    assert_eq!(got(&transfers(&["5", "x", "6"])), None);
    assert_eq!(got(&transfers(&[])), None);
    assert_eq!(got(&transfers(&["0"])).as_deref(), Some("0"));
}

/// A whole time is read as the float closest to it, ties to the even one, so a later one comes first.
#[test]
fn a_whole_time_is_the_float_closest_to_it() {
    let at = |n: u64| {
        json(&format!(r#"{{"hash":"h{n}","requestId":"","timestamp":{n},"meta":{{"app":"{APP}"}}}}"#))
    };
    let exact = 1u64 << 53;
    for n in [
        0, 1, 2, 3, 5, 9, 1_789_000_000, exact - 1, exact, exact + 1, exact + 2, exact + 3, exact * 2 + 2,
        exact * 2 + 6, (1 << 63) + 1024, (1 << 63) + 3072, u64::MAX - 1024, u64::MAX - 1023, u64::MAX,
    ] {
        let swap = &group_swaps(&[at(n)], APP)[0];
        assert_eq!(swap.get("timestamp"), Some(&Json::Float((n as f64).to_bits())), "{n}");
    }
    let swaps = group_swaps(&[at(5), at(9), at(exact - 1), at(exact)], APP);
    let ids: Vec<String> = swaps.iter().map(|g| g.str_of("requestId").to_string()).collect();
    assert_eq!(ids, [format!("h{exact}"), format!("h{}", exact - 1), "h9".to_string(), "h5".to_string()]);
}

#[test]
fn another_leg_is_no_cure() {
    let legs = |statuses: &[&str]| -> Vec<Json> {
        statuses.iter().map(|s| row("0x1", "r", 0, s, "swap", APP, 1.0)).collect()
    };
    assert_eq!(bundle_status(&legs(&["failed", "confirmed"])), "failed");
    assert_eq!(bundle_status(&legs(&["pending", "confirmed"])), "pending");
    assert_eq!(bundle_status(&legs(&["pending", "confirmed", "failed"])), "failed");
    assert_eq!(bundle_status(&legs(&["pending", "replaced"])), "pending");
}
