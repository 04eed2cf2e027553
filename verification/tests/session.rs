use uniswap_backend::budget::{MILLI, MIN_SLICE, QUOTE_BUDGET, SECOND, SENDER_BUDGET, SWAP_BUDGET};
use uniswap_backend::calls::{Call, Module};
use uniswap_backend::feeds::{announce, Announcement, Notice};
use uniswap_backend::flow::{Flow, Moment, Picker, Step, Unrated};
use uniswap_backend::json::Json;
use uniswap_backend::reads::{
    accounts, balances, cancel_swap, catalogue, fee_tiers, networks, start, swap_status, swaps,
    tokens, verdict,
};
use uniswap_backend::replies::{
    caller_name, err, read_reply, refusal, relay, reply, Answer, Caller, Reply,
};
use uniswap_backend::requests::swap_purpose;
use uniswap_backend::session::{advance, defaults_landed, resume};
use uniswap_backend::swapping::{quote, swap};
use uniswap_backend::wire::{read, spell};

const USDC: &str = "0xA0b86991c6218b36c1d19D4a2e9Eb0cE3606eB48";

fn at(elapsed: u128) -> Moment {
    Moment { elapsed, unix_secs: 1_789_000_000, eth_rpc_settled: false, token_list_settled: false }
}

fn settled(elapsed: u128) -> Moment {
    Moment { eth_rpc_settled: true, token_list_settled: true, ..at(elapsed) }
}

/// What the other modules answer, when all is well.
fn world(call: &Call) -> Result<String, String> {
    let said = match call {
        Call::EthRpcInitDefaults | Call::TokenListInitDefaults => r#"{"ok":true,"applied":true}"#,
        Call::ListChainConfigs => {
            r#"{"ok":true,"scope":"testnets","chains":[
                {"chainId":11155111,"name":"Sepolia","enabled":true,"inScope":true},
                {"chainId":560048,"name":"Hoodi","enabled":true,"inScope":true},
                {"chainId":10,"enabled":true,"inScope":false}]}"#
        }
        Call::VerifiedProxyStatus { .. } => r#"{"ok":true,"mode":"required","state":"ready","blocking":false}"#,
        Call::GetChains => r#"{"ok":true,"chains":[{"chainId":1},{"chainId":11155111}]}"#,
        Call::ListOffered { .. } => r#"{"ok":true,"tokens":[{"address":"0xA0b86991c6218b36c1d19D4a2e9Eb0cE3606eB48","symbol":"USDC","decimals":6}]}"#,
        Call::GetTokensByAddress { .. } => r#"{"ok":true,"tokens":[{"address":"0xA0b86991c6218b36c1d19D4a2e9Eb0cE3606eB48","symbol":"USDC","decimals":6}]}"#,
        Call::ListAvailable { .. } => r#"{"ok":true,"total":1,"tokens":[{"symbol":"USDC"}]}"#,
        Call::ListAssets { .. } => r#"{"ok":true,"tokens":[{"symbol":"ETH","name":"Ether","native":true,"decimals":18}]}"#,
        Call::ResolveAsset { token, .. } => {
            if token == "USDC" {
                r#"{"ok":true,"asset":{"address":"0xA0b86991c6218b36c1d19D4a2e9Eb0cE3606eB48","symbol":"USDC","decimals":6}}"#
            } else if token == "ETH" {
                r#"{"ok":true,"asset":{"native":true,"symbol":"ETH","decimals":18}}"#
            } else {
                r#"{"ok":false,"error":"no such asset"}"#
            }
        }
        Call::GetBalances { .. } => r#"{"ok":true,"balances":[]}"#,
        Call::SuggestFees { .. } => r#" {"ok":true,"tiers":[]}"#,
        Call::ListAccounts => r#"{"ok":true,"accounts":["0xf39F"]}"#,
        Call::GetLabels => r#"{"ok":true,"labels":{"0xf39F":"me"}}"#,
        Call::GetAccountWallets => r#"{"ok":true}"#,
        Call::BuildSwap { .. } => {
            r#"{"ok":true,"amountOut":"333277787035494084","amountOutMin":"331611398100316613","balanceIn":"1",
                "calls":[{"kind":"approve","to":"0x1","value":"0x0","data":"0x09","label":"Approve"},
                         {"kind":"swap","to":"0x2","value":"0x0","data":"0x18","label":"Swap"}]}"#
        }
        Call::Prepare { .. } => r#"{"ok":true,"feeCeilingWeiDisplay":"0.0004"}"#,
        Call::Send { .. } => r#"{"ok":true,"pending":true,"requestId":"snd_1","handle":"h1"}"#,
        Call::SendStatus { .. } => r#"{"ok":true,"status":"broadcasting"}"#,
        Call::CancelSend { .. } => r#"{"ok":true}"#,
        Call::History { .. } => {
            r#"{"ok":true,"stillDue":true,"transactions":[{"hash":"0xa0","requestId":"snd_1","status":"confirmed","timestamp":5,
                "meta":{"app":"uniswap_ui","kind":"swap"}}]}"#
        }
    };
    Ok(said.to_string())
}

/// What a run of an entry point came to.
enum End {
    Answer(Answer),
    Rate(Unrated),
    Done,
}

/// Run an entry point against `answers`, ten milliseconds a call, and list the calls it makes.
fn run(first: Step, total: u128, answers: &dyn Fn(&Call) -> Result<String, String>) -> (Vec<Call>, End) {
    let mut calls = Vec::new();
    let mut elapsed = 0;
    let mut step = first;
    loop {
        match step {
            Step::Ask { call, grant, flow } => {
                assert!(grant >= MIN_SLICE && elapsed + grant <= total, "{call:?} may take {grant} after {elapsed}");
                let raw = answers(&call);
                elapsed += 10 * MILLI;
                let mut now = at(elapsed);
                for c in calls.iter().chain([&call]) {
                    now.eth_rpc_settled |= *c == Call::EthRpcInitDefaults;
                    now.token_list_settled |= *c == Call::TokenListInitDefaults;
                }
                calls.push(call);
                step = advance(flow, raw, &now);
            }
            Step::Answer(a) => return (calls, End::Answer(a)),
            Step::Rate(q) => return (calls, End::Rate(q)),
            Step::Done => return (calls, End::Done),
            Step::Unanswerable => panic!("nothing to answer"),
        }
    }
}

fn value(end: End) -> Json {
    match end {
        End::Answer(Answer::Value(v)) => v,
        End::Rate(q) => q.rated("R", "I"),
        _ => panic!("no value"),
    }
}

fn request(extra: &str) -> String {
    format!(
        r#"{{"chainId":11155111,"from":"0xf39F","tokenIn":"USDC","tokenOut":"ETH","amountUnits":"1000"{extra}}}"#
    )
}

fn picker() -> Picker {
    Picker { chain_id: 1, query: "e".to_string(), offset: 0, limit: 10 }
}

/// Every entry point, from its start to its answer.
fn every_run() -> Vec<Vec<Call>> {
    let by_address = format!(
        r#"{{"chainId":11155111,"from":"0xf39F","tokenIn":"{USDC}","tokenOut":"ETH","amountUnits":"1000"}}"#
    );
    let now = at(0);
    vec![
        run(start(&now), 6 * SECOND, &world).0,
        run(networks(&now), 4 * SECOND, &world).0,
        run(verdict(1, &now), 2 * SECOND, &world).0,
        run(tokens(1, &now), 8 * SECOND, &world).0,
        run(catalogue(picker(), &now), 8 * SECOND, &world).0,
        run(balances(1, "0xf39F".to_string(), "[]", &now), 17 * SECOND, &world).0,
        run(fee_tiers(1, &now), 5 * SECOND, &world).0,
        run(accounts(&now), 6 * SECOND, &world).0,
        run(quote(&request(""), String::new(), &now), QUOTE_BUDGET, &world).0,
        run(quote(&by_address, String::new(), &now), QUOTE_BUDGET, &world).0,
        run(swap(&request(""), "uniswap_ui".to_string(), &now), SWAP_BUDGET, &world).0,
        run(swap_status("snd_1".to_string(), &now), 18 * SECOND, &world).0,
        run(cancel_swap("snd_1".to_string(), &now), 5 * SECOND, &world).0,
        run(swaps("0xf39F".to_string(), 1, &now), 12 * SECOND, &world).0,
    ]
}

#[test]
fn every_outbound_call_is_bounded() {
    let calls: Vec<Call> = every_run().into_iter().flatten().collect();
    assert!(calls.len() >= 20, "the runs make the calls: {calls:?}");
    // The grants themselves are held to what is left by `run`. Past the allowance nothing is asked.
    let late = at(3600 * SECOND);
    for step in [
        networks(&late),
        verdict(1, &late),
        tokens(1, &late),
        catalogue(picker(), &late),
        balances(1, String::new(), "", &late),
        fee_tiers(1, &late),
        accounts(&late),
        quote(&request(""), String::new(), &late),
        swap(&request(""), String::new(), &late),
        swap_status(String::new(), &late),
        cancel_swap(String::new(), &late),
        swaps(String::new(), 1, &late),
    ] {
        match step {
            Step::Answer(Answer::Value(v)) => assert!(v.str_of("error").starts_with("no time left to "), "{v:?}"),
            other => panic!("asked too late: {other:?}"),
        }
    }
    assert_eq!(start(&late), Step::Done);
}

#[test]
fn the_keystore_client_only_reads() {
    let asked: Vec<Call> = every_run().into_iter().flatten().filter(|c| c.module() == Module::Keystore).collect();
    assert_eq!(asked, [Call::ListAccounts, Call::GetLabels, Call::GetAccountWallets]);
}

#[test]
fn money_leaves_through_one_sender_call() {
    let runs = every_run();
    let sends = |calls: &Vec<Call>| calls.iter().filter(|c| matches!(c, Call::Send { .. })).count();
    assert_eq!(runs.iter().map(sends).sum::<usize>(), 1);
    let last = runs.iter().find(|calls| sends(calls) == 1).unwrap().last().unwrap();
    assert!(matches!(last, Call::Send { .. }), "and nothing follows it");
}

#[test]
fn uniswap_module_is_only_asked_for_deployments_and_built_swaps() {
    let asked: Vec<Call> = every_run().into_iter().flatten().filter(|c| c.module() == Module::Uniswap).collect();
    assert!(!asked.is_empty());
    assert!(asked.iter().all(|c| matches!(c, Call::GetChains | Call::BuildSwap { .. })), "{asked:?}");
}

#[test]
fn the_words_a_human_approves_are_composed_in_app_alone() {
    let (calls, end) = run(swap(&request(""), "uniswap_ui".to_string(), &at(0)), SWAP_BUDGET, &world);
    let Some(Call::Send { request: sent }) = calls.last() else { panic!("{calls:?}") };
    let answer = value(end);
    let words = "Swap 1000 USDC for at least 0.331611398100316613 ETH on Uniswap, via uniswap_ui";
    assert_eq!((sent.str_of("purpose"), answer.str_of("purpose")), (words, words));
    let built = read_reply(world(&Call::BuildSwap { chain_id: 1, request: Json::Null }));
    let Reply::Value { value: built, .. } = built else { panic!() };
    let Step::Ask { flow: Flow::SwapEthRpc { job }, .. } = swap(&request(r#","decimalsIn":6,"decimalsOut":18,"symbolOut":"ETH""#), String::new(), &at(0)) else { panic!() };
    let mut form = job.form;
    form.amount_in = "1000000000".to_string();
    form.symbol_in = "USDC".to_string();
    assert_eq!(swap_purpose(&form, &built, "uniswap_ui"), words);
}

#[test]
fn no_lock_is_held_because_none_exists() {
    // Two runs of one entry point share nothing: each goes on from its own place.
    let one = quote(&request(""), String::new(), &at(0));
    let other = quote(&request(r#","tier":"fast""#), String::new(), &at(0));
    let (Step::Ask { flow: first, .. }, Step::Ask { flow: second, .. }) = (one, other) else { panic!() };
    assert_ne!(first, second);
    let offered = || world(&Call::ListOffered { chain_id: 1 });
    assert!(matches!(advance(second, offered(), &at(MILLI)), Step::Ask { call: Call::ResolveAsset { .. }, .. }));
    assert!(matches!(advance(first, offered(), &at(MILLI)), Step::Ask { call: Call::ResolveAsset { .. }, .. }));
}

/// eth_rpc owns its defaults and this backend asks for them wherever it ensures token_list's,
/// and in front of the registry read. A `config_status` gate would strand them: a store another
/// app already wrote to reads `configured` and still lacks what it needs.
#[test]
fn eth_rpc_defaults_are_asked_for_without_a_gate() {
    for calls in every_run() {
        let place = |wanted: &Call| calls.iter().position(|c| c == wanted);
        let eth_rpc = place(&Call::EthRpcInitDefaults);
        for later in [place(&Call::TokenListInitDefaults), place(&Call::ListChainConfigs)].into_iter().flatten() {
            assert_eq!(eth_rpc, Some(0), "{calls:?}");
            assert!(later == 1, "{calls:?}");
        }
    }
    // Once it has said yes it is not asked again.
    assert!(matches!(networks(&settled(0)), Step::Ask { call: Call::ListChainConfigs, .. }));
    assert!(matches!(tokens(1, &settled(0)), Step::Ask { call: Call::ListOffered { .. }, .. }));
    assert_eq!(start(&settled(0)), Step::Done);
    let yes = || Ok(r#"{"ok":true,"applied":false}"#.to_string());
    assert_eq!(defaults_landed(&Call::EthRpcInitDefaults, &yes()), Some(Module::EthRpc));
    assert_eq!(defaults_landed(&Call::TokenListInitDefaults, &yes()), Some(Module::TokenList));
    assert_eq!(defaults_landed(&Call::GetChains, &yes()), None);
    for other in [Ok(r#"{"ok":false}"#.to_string()), Ok("?".to_string()), Err("Timeout".to_string())] {
        assert_eq!(defaults_landed(&Call::EthRpcInitDefaults, &other), None);
    }
}

#[test]
fn a_quote_is_the_build_with_figures_and_the_senders_pricing() {
    let (calls, end) = run(quote(&request(""), "host".to_string(), &at(0)), QUOTE_BUDGET, &world);
    let End::Rate(unrated) = end else { panic!() };
    assert_eq!((unrated.form.token_in.as_str(), unrated.form.token_out.as_str()), (USDC, "ETH"));
    assert_eq!((unrated.form.decimals_in, unrated.form.decimals_out), (Some(6), Some(18)));
    assert_eq!(unrated.terms(), Some(("1000".to_string(), "0.333277787035494084".to_string())));
    let q = unrated.rated("0.000333278", "3000.5");
    assert_eq!((q.str_of("rate"), q.str_of("rateInverse")), ("0.000333278", "3000.5"));
    assert_eq!((q.str_of("amountInDisplay"), q.bool_of("insufficientBalance")), ("1000", Some(true)));
    assert_eq!(q.get("fee").unwrap().str_of("feeCeilingWeiDisplay"), "0.0004");
    let Call::BuildSwap { request: asked, .. } = &calls[calls.len() - 2] else { panic!("{calls:?}") };
    assert!(asked.get("deadline").is_none());
    assert_eq!(asked.str_of("amountIn"), "1000000000");
    let Some(Call::Prepare { request: priced }) = calls.last() else { panic!("{calls:?}") };
    assert_eq!(priced.str_of("purpose"), "");
    assert_eq!(priced.u64_of("deadlineMs"), Some(17_700), "less than it is waited for");
    assert!(calls.iter().all(|c| !matches!(c, Call::Send { .. } | Call::EthRpcInitDefaults)));
}

#[test]
fn a_quote_stands_without_the_senders_pricing() {
    let refusing = |call: &Call| match call {
        Call::Prepare { .. } => Ok(r#"{"ok":false,"error":"no funds","code":7}"#.to_string()),
        other => world(other),
    };
    let fee = value(run(quote(&request(""), String::new(), &at(0)), QUOTE_BUDGET, &refusing).1);
    assert_eq!(fee.bool_of("ok"), Some(true));
    assert_eq!(fee.get("fee").unwrap().u64_of("code"), Some(7), "its own words, whole");
    let silent = |call: &Call| match call {
        Call::Prepare { .. } => Err("Timeout".to_string()),
        other => world(other),
    };
    let fee = value(run(quote(&request(""), String::new(), &at(0)), QUOTE_BUDGET, &silent).1);
    assert_eq!(fee.get("fee").unwrap().str_of("error"), "tx_sender_module: Timeout");
    // Gas limits for another build are the fee's refusal, not the quote's.
    let limits = value(run(quote(&request(r#","gasLimits":["1"]"#), String::new(), &at(0)), QUOTE_BUDGET, &world).1);
    assert!(limits.get("fee").unwrap().str_of("error").starts_with("gas limits were set for 1 calls"));
}

#[test]
fn a_swap_is_built_afresh_and_answered_with_what_was_asked() {
    let (calls, end) = run(swap(&request(r#","deadlineMins":10"#), "operator:x".to_string(), &at(0)), SWAP_BUDGET, &world);
    let a = value(end);
    assert_eq!((a.str_of("requestId"), a.str_of("handle"), a.bool_of("pending")), ("snd_1", "h1", Some(true)));
    assert_eq!((a.u64_of("chainId"), a.str_of("from")), (Some(11155111), "0xf39F"));
    assert_eq!(a.str_of("amountOutMin"), "331611398100316613");
    assert_eq!(a.u64_of("deadline"), Some(1_789_000_600));
    let Call::BuildSwap { request: asked, .. } = &calls[calls.len() - 2] else { panic!("{calls:?}") };
    assert_eq!(asked.u64_of("deadline"), Some(1_789_000_600));
    let Some(Call::Send { request: sent }) = calls.last() else { panic!() };
    let meta = sent.array_of("calls").unwrap()[0].get("meta").unwrap();
    assert_eq!((meta.str_of("app"), meta.str_of("via")), ("uniswap_ui", "operator:x"));
    assert!(a.get("hash").is_none());
}

#[test]
fn a_swap_is_refused_where_it_cannot_be_made() {
    let refused = |text: &str, answers: &dyn Fn(&Call) -> Result<String, String>| {
        let a = value(run(swap(text, String::new(), &at(0)), SWAP_BUDGET, answers).1);
        assert_eq!(a.bool_of("ok"), Some(false));
        a.str_of("error").to_string()
    };
    assert_eq!(refused("[]", &world), "a swap request must be a JSON object");
    let elsewhere = r#"{"chainId":10,"from":"0xf39F","tokenIn":"USDC","tokenOut":"ETH","amountUnits":"1"}"#;
    assert_eq!(refused(elsewhere, &world), "chain 10 is not enabled in the current network scope");
    let nameless = r#"{"chainId":11155111,"from":"0xf39F","tokenIn":"DOGE","tokenOut":"ETH","amountUnits":"1"}"#;
    assert_eq!(refused(nameless, &world), "no such asset");
    let unlisted = "0x0000000000000000000000000000000000000001";
    let text = format!(r#"{{"chainId":11155111,"from":"0xf39F","tokenIn":"{unlisted}","tokenOut":"ETH","amountUnits":"1"}}"#);
    let nowhere = |call: &Call| match call {
        Call::GetTokensByAddress { addresses, .. } => {
            assert_eq!(addresses.as_array().unwrap()[0].as_str(), Some(unlisted));
            Ok(r#"{"ok":true,"tokens":[]}"#.to_string())
        }
        other => world(other),
    };
    assert_eq!(refused(&text, &nowhere), format!("{unlisted} is not in the token list; name its decimals"));
    let bare = |call: &Call| match call {
        Call::ResolveAsset { .. } => Ok(r#"{"ok":true,"asset":{"symbol":"X"}}"#.to_string()),
        other => world(other),
    };
    assert_eq!(refused(&request(""), &bare), "USDC has no decimals on record");
    let down = |call: &Call| match call {
        Call::BuildSwap { .. } => Err("Unreachable".to_string()),
        other => world(other),
    };
    assert_eq!(refused(&request(""), &down), "uniswap_module: Unreachable");
    let odd = |call: &Call| match call {
        Call::BuildSwap { .. } => Ok(r#"{ "ok" : 1 }"#.to_string()),
        other => world(other),
    };
    assert_eq!(refused(&request(""), &odd), r#"{"ok":1}"#, "what it said, as it is written");
    assert!(refused(&request(r#","gasLimits":["1"]"#), &world).starts_with("gas limits were set for 1 calls"));
    assert_eq!(refused(&request(r#","amountUnits":"0""#), &world), "there is nothing to swap");
}

#[test]
fn a_swap_that_runs_out_of_time_says_at_what() {
    let mut step = swap(&request(""), String::new(), &settled(0));
    let mut asked = Vec::new();
    while let Step::Ask { call, flow, .. } = step {
        let spent = if matches!(call, Call::BuildSwap { .. }) { SWAP_BUDGET } else { MILLI };
        let raw = world(&call);
        asked.push(call);
        step = advance(flow, raw, &settled(spent));
    }
    let Step::Answer(Answer::Value(a)) = step else { panic!() };
    assert_eq!(a.str_of("error"), "no time left to request approval");
    assert!(asked.iter().all(|c| !matches!(c, Call::Send { .. })));
    // With less than the sender's own cap left, it is told what is left.
    let (calls, _) = run(swap(&request(""), String::new(), &at(0)), SWAP_BUDGET, &world);
    let Some(Call::Send { request: sent }) = calls.last() else { panic!() };
    assert_eq!(sent.u64_of("deadlineMs"), Some((SENDER_BUDGET / MILLI) as u64 - 300));
}

#[test]
fn known_sides_are_taken_at_their_word() {
    let known = format!(
        r#"{{"chainId":1,"from":"a","tokenIn":"{USDC}","tokenOut":"eth","amountIn":"5","decimalsIn":6,"decimalsOut":18}}"#
    );
    let Step::Ask { call: Call::BuildSwap { request, .. }, .. } = quote(&known, String::new(), &at(0)) else { panic!() };
    assert_eq!((request.str_of("tokenIn"), request.str_of("tokenOut")), (USDC, "eth"));
    let half = known.replace(r#","decimalsOut":18"#, "");
    assert!(matches!(quote(&half, String::new(), &at(0)), Step::Ask { call: Call::ListOffered { chain_id: 1 }, .. }));
}

#[test]
fn the_networks_are_told_with_those_that_are_missing() {
    let a = value(run(networks(&at(0)), 4 * SECOND, &world).1);
    assert_eq!((a.bool_of("ok"), a.str_of("scope")), (Some(true), "testnets"));
    assert_eq!(a.array_of("networks").unwrap().len(), 1);
    assert_eq!(a.array_of("unsupported").unwrap()[0].as_u64(), Some(560048));
    let scopeless = |call: &Call| match call {
        Call::ListChainConfigs => Ok(r#"{"ok":true}"#.to_string()),
        other => world(other),
    };
    assert_eq!(value(run(networks(&at(0)), 4 * SECOND, &scopeless).1).str_of("scope"), "mainnets");
}

#[test]
fn reads_are_told_as_they_were_answered() {
    let now = at(0);
    assert_eq!(value(run(verdict(1, &now), 2 * SECOND, &world).1).str_of("state"), "ready");
    assert_eq!(value(run(verdict(0, &now), 2 * SECOND, &world).1).str_of("error"), "chain 0 is not a valid chain id");
    assert_eq!(value(run(swaps(String::new(), -3, &now), SECOND, &world).1).str_of("error"), "chain -3 is not a valid chain id");
    let t = value(run(tokens(1, &now), 8 * SECOND, &world).1);
    assert_eq!(t.array_of("tokens").unwrap()[0].str_of("symbol"), "ETH");
    let page = value(run(catalogue(picker(), &now), 8 * SECOND, &world).1);
    let symbols: Vec<&str> = page.array_of("tokens").unwrap().iter().map(|t| t.str_of("symbol")).collect();
    assert_eq!((symbols, page.u64_of("total")), (vec!["ETH", "USDC"], Some(2)));
    let End::Answer(Answer::Verbatim(fees)) = run(fee_tiers(1, &now), 5 * SECOND, &world).1 else { panic!() };
    assert_eq!(fees, r#" {"ok":true,"tiers":[]}"#, "verbatim, space and all");
    let bad = value(run(balances(1, String::new(), "{}", &now), 17 * SECOND, &world).1);
    assert_eq!(bad.str_of("error"), "a token list must be a JSON array");
    let a = value(run(accounts(&now), 6 * SECOND, &world).1);
    assert_eq!(a.array_of("accounts").unwrap().len(), 1);
    assert_eq!(a.get("labels").unwrap().str_of("0xf39F"), "me");
    assert_eq!(a.get("wallets"), Some(&Json::object()));
    let s = value(run(swaps("0xf39F".to_string(), 1, &now), 12 * SECOND, &world).1);
    assert_eq!((s.bool_of("stillDue"), s.str_of("address"), s.u64_of("chainId")), (Some(true), "0xf39F", Some(1)));
    assert_eq!(s.array_of("swaps").unwrap()[0].str_of("requestId"), "snd_1");
}

#[test]
fn the_callers_tokens_join_the_offered_ones_in_the_balances() {
    let mine = r#"[{"address":"0x01","symbol":"X"}]"#;
    let (calls, end) = run(balances(1, "0xf39F".to_string(), mine, &at(0)), 17 * SECOND, &world);
    let Some(Call::GetBalances { tokens, sort, .. }) = calls.last() else { panic!() };
    let symbols: Vec<&str> = tokens.as_array().unwrap().iter().map(|t| t.str_of("symbol")).collect();
    assert_eq!((symbols, sort.as_str()), (vec!["USDC", "X"], "alpha"));
    assert!(matches!(end, End::Answer(Answer::Verbatim(_))));
}

#[test]
fn a_name_is_a_courtesy() {
    let shy = |call: &Call| match call {
        Call::GetLabels => Err("Timeout".to_string()),
        Call::GetAccountWallets => Ok(r#"{"ok":false}"#.to_string()),
        other => world(other),
    };
    let a = value(run(accounts(&at(0)), 6 * SECOND, &shy).1);
    assert_eq!((a.bool_of("ok"), a.array_of("accounts").unwrap().len()), (Some(true), 1));
    assert!(a.get("labels").is_none() && a.get("wallets").is_none());
    // No time for courtesies: the accounts are the answer.
    let listed = read_reply(world(&Call::ListAccounts));
    assert!(matches!(resume(Flow::AccountsList, listed, &at(6 * SECOND)), Step::Answer(_)));
}

#[test]
fn a_status_always_says_whether_it_is_the_end() {
    let told = |raw: Result<&str, &str>| {
        let raw = raw.map(|s| s.to_string()).map_err(|s| s.to_string());
        match advance(Flow::Status, raw, &at(0)) {
            Step::Answer(Answer::Value(v)) => v,
            other => panic!("{other:?}"),
        }
    };
    assert_eq!(told(Ok(r#"{"ok":true,"status":"broadcast"}"#)).bool_of("final"), Some(true));
    assert_eq!(told(Ok(r#"{"ok":false,"final":true}"#)).bool_of("final"), Some(true));
    assert_eq!(told(Ok(r#"{"ok":false,"final":1}"#)).bool_of("final"), Some(false));
    let list = told(Ok("[]"));
    assert_eq!((list.bool_of("final"), list.str_of("error")), (Some(false), "tx_sender_module: the reply is not an object"));
    assert_eq!(told(Ok("?")).bool_of("final"), Some(false));
    let silent = told(Err("Timeout"));
    assert_eq!((silent.str_of("code"), silent.str_of("error")), ("unreachable", "tx_sender_module: Timeout"));
    assert_eq!((silent.bool_of("final"), silent.bool_of("ok")), (Some(false), Some(false)));
}

#[test]
fn a_page_that_nothing_can_be_made_of_is_not_answered() {
    let mut step = catalogue(picker(), &settled(0));
    while let Step::Ask { call, flow, .. } = step {
        let raw = match &call {
            Call::ListAvailable { offset, .. } => {
                assert_eq!(*offset, 0);
                Ok(r#"{"ok":true,"total":1,"tokens":[7]}"#.to_string())
            }
            other => world(other),
        };
        step = advance(flow, raw, &settled(0));
    }
    assert_eq!(step, Step::Unanswerable);
}

#[test]
fn a_refusal_passes_through_whole_and_anything_else_is_wrapped() {
    let read = |text: &str| read_reply(Ok(text.to_string()));
    let whole = reply(read(r#"{"ok":false,"verdict":{"mode":"required"}}"#), "m").unwrap_err();
    assert_eq!(whole.get("verdict").unwrap().str_of("mode"), "required");
    let wrapped = reply(read(r#"{"z":1,"a":[null, 2.50]}"#), "m").unwrap_err();
    assert_eq!(wrapped.str_of("error"), r#"{"a":[null,2.5],"z":1}"#);
    let noise = reply(read("nonsense"), "m").unwrap_err();
    assert!(noise.str_of("error").starts_with("m: "), "{noise:?}");
    assert_eq!(reply(read(r#"{"ok":true,"n":-5}"#), "m").unwrap().i64_of("n"), Some(-5));
    assert_eq!(relay(read("nonsense"), "m"), Answer::Verbatim("nonsense".to_string()));
    let down = relay(Reply::Unreachable { why: "Timeout".to_string() }, "fee_module");
    let Answer::Value(v) = down else { panic!() };
    assert_eq!((v.bool_of("ok"), v.str_of("error")), (Some(false), "fee_module: Timeout"));
}

#[test]
fn a_caller_is_named_as_the_runtime_attests_it() {
    let s = |t: &str| t.to_string();
    assert_eq!(caller_name(&Caller::Module { name: s("uniswap_ui") }), "uniswap_ui");
    assert_eq!(caller_name(&Caller::HostAnchor), "host");
    assert_eq!(caller_name(&Caller::Derived { parent: s("a"), leaf: s("b") }), "a/b");
    assert_eq!(caller_name(&Caller::Operator { name: s("op") }), "operator:op");
    assert_eq!(caller_name(&Caller::Unknown), "");
}

#[test]
fn events_are_relayed_from_the_modules_that_own_the_facts() {
    assert_eq!(
        announce(Notice::ChainConfigChanged { chain_id: 5 }),
        [Announcement::NetworksChanged(5), Announcement::TokensChanged(5)]
    );
    assert_eq!(announce(Notice::ChainEnabledChanged { chain_id: 5 }), [Announcement::NetworksChanged(5)]);
    assert_eq!(announce(Notice::NetworkScopeChanged), [Announcement::NetworksChanged(-1)]);
    assert_eq!(announce(Notice::TokensUpdated { chain_id: 5 }), [Announcement::TokensChanged(5)]);
    assert_eq!(announce(Notice::AccountsArmed), [Announcement::AccountsChanged(-1)]);
    assert_eq!(announce(Notice::AccountsChanged { count: Some(3) }), [Announcement::AccountsChanged(3)]);
    assert_eq!(announce(Notice::AccountsChanged { count: None }), [Announcement::AccountsChanged(-1)]);
    assert_eq!(
        announce(Notice::SendStatusChanged { request_id: "snd_1".to_string() }),
        [Announcement::SwapStatusChanged("snd_1".to_string())]
    );
    assert_eq!(announce(Notice::TxStatusChanged), [Announcement::SwapsChanged(String::new())]);
    assert_eq!(
        announce(Notice::HistoryChanged { address: "0x1".to_string() }),
        [Announcement::SwapsChanged("0x1".to_string())]
    );
}

/// Whatever is answered, each entry point comes to an end, within ten calls.
#[test]
fn every_entry_point_ends_whatever_is_answered() {
    let answers: [&dyn Fn(&Call) -> Result<String, String>; 4] = [
        &|_| Err("Timeout".to_string()),
        &|_| Ok("?".to_string()),
        &|_| Ok(r#"{"ok":true}"#.to_string()),
        &|call| match call {
            Call::ResolveAsset { .. } => Ok(r#"{"ok":false}"#.to_string()),
            other => world(other),
        },
    ];
    let by_address = format!(
        r#"{{"chainId":11155111,"from":"a","tokenIn":"{USDC}","tokenOut":"0x0000000000000000000000000000000000000001","amountUnits":"1"}}"#
    );
    for answer in answers {
        for (step, total) in [
            (start(&at(0)), 6 * SECOND),
            (networks(&at(0)), 4 * SECOND),
            (tokens(1, &at(0)), 8 * SECOND),
            (accounts(&at(0)), 6 * SECOND),
            (swap(&by_address, String::new(), &at(0)), SWAP_BUDGET),
        ] {
            assert!(run(step, total, answer).0.len() <= 10);
        }
    }
    let (calls, _) = run(swap(&by_address, String::new(), &at(0)), SWAP_BUDGET, answers[3]);
    assert_eq!(calls.len(), 10, "both sides looked up everywhere: {calls:?}");
}

/// What the user chose reaches the sender as it was asked, however much of the form is looked up.
#[test]
fn a_lookup_settles_tokens_and_leaves_the_users_choices() {
    let text = request(r#","tier":"fast","slippageBps":7,"recipient":"0xR","maxFeePerGas":"9","gasLimits":[null,"5"],"nonce":3"#);
    let (calls, end) = run(quote(&text, "host".to_string(), &at(0)), QUOTE_BUDGET, &world);
    let End::Rate(q) = end else { panic!() };
    assert_eq!((q.form.tier.as_str(), q.form.slippage_bps, q.form.recipient.as_str()), ("fast", 7, "0xR"));
    let Some(Call::Prepare { request: sent }) = calls.last() else { panic!() };
    assert_eq!((sent.str_of("tier"), sent.str_of("maxFeePerGas"), sent.u64_of("nonce")), ("fast", "9", Some(3)));
    let legs = sent.array_of("calls").unwrap();
    assert!(legs[0].get("gasLimit").is_none());
    assert_eq!(legs[1].str_of("gasLimit"), "5");
    assert_eq!(legs[1].get("meta").unwrap().str_of("recipient"), "0xR");
}

#[test]
fn an_answer_is_told_as_text() {
    assert_eq!(err("no time left"), r#"{"error":"no time left","ok":false}"#);
    let refused = Answer::Value(reply(read_reply(Err("Timeout".to_string())), "fee_module").unwrap_err());
    assert_eq!(refused.text().as_deref(), Some(r#"{"error":"fee_module: Timeout","ok":false}"#));
    assert_eq!(Answer::Verbatim(" { ".to_string()).text().as_deref(), Some(" { "));
    assert_eq!(Answer::Value(Json::Float(0)).text(), None);
}

#[test]
fn a_refusal_that_a_message_spells_passes_through_whole() {
    let whole = r#"{"ok":false,"verdict":{"blocking":true,"mode":"unknown"},"error":"not in sync"}"#;
    let passed = refusal(whole);
    assert_eq!(passed, read(whole).unwrap());
    assert_eq!(passed.get("verdict").unwrap().bool_of("blocking"), Some(true));
    assert_eq!(
        err(whole),
        r#"{"error":"not in sync","ok":false,"verdict":{"blocking":true,"mode":"unknown"}}"#
    );
    assert_eq!(err(r#" { "ok" : false } "#), r#"{"ok":false}"#);
    assert_eq!(err(r#"{"ok":false,"took":1.5}"#), r#"{"ok":false,"took":1.5}"#);
}

#[test]
fn any_other_message_is_wrapped_in_a_refusal() {
    for message in ["", "no time left", "{", "{}", "false", r#"{"ok":true}"#, r#"{"ok":null}"#, r#"[{"ok":false}]"#] {
        let wrapped = refusal(message);
        assert_eq!((wrapped.bool_of("ok"), wrapped.str_of("error")), (Some(false), message));
        assert_eq!(read(&err(message)), Ok(read(&spell(&wrapped).unwrap()).unwrap()));
    }
}

#[test]
fn a_refusal_of_a_refusal_is_the_same_refusal() {
    for message in ["no time left", "{}", r#"{"ok":false,"verdict":{"mode":"on"}}"#] {
        let once = err(message);
        assert_eq!(err(&once), once);
        assert_eq!(read(&once).unwrap(), refusal(&once));
    }
}

#[test]
fn a_value_that_does_not_say_yes_is_passed_on_as_what_is_written_of_it() {
    for raw in [r#"{ "ok": false, "code": 7 }"#, r#"{ "done": 1 }"#, r#"{"ok":"no"}"#, "[]", "3"] {
        let read = read_reply(Ok(raw.to_string()));
        let Reply::Value { ref written, .. } = read else { panic!() };
        let passed_on = refusal(written);
        assert_eq!(reply(read, "fee_module").unwrap_err(), passed_on, "{raw}");
    }
}
