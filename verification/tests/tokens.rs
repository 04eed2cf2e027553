use uniswap_backend::json::Json;
use uniswap_backend::tokens::{
    can_merge, merge_native_page, native_matches, parse_tokens, provider_offset, union_tokens,
};
use uniswap_backend::wire::read;

const USDC: &str = "0xA0b86991c6218b36c1d19D4a2e9Eb0cE3606eB48";
const ROUTER: &str = "0x7a250d5630B4cF539739dF2C5dAcb4c659F2488D";

fn json(text: &str) -> Json {
    read(text).unwrap()
}

#[test]
fn a_callers_extra_tokens_join_the_offered_ones_once() {
    let offered = vec![json(&format!(r#"{{"address":"{USDC}","symbol":"USDC"}}"#))];
    let lower = USDC.to_lowercase();
    let extra = parse_tokens(&format!(
        r#"[{{"address":"{lower}","symbol":"X"}},{{"address":"{ROUTER}","symbol":"R"}}]"#
    ))
    .unwrap();
    let all = union_tokens(offered, extra);
    assert_eq!(all.len(), 2);
    assert_eq!(all[0].str_of("symbol"), "USDC", "the offered row wins");
    assert!(parse_tokens("").unwrap().is_empty());
    assert!(parse_tokens("{}").is_err());
    assert!(parse_tokens("[1]").is_err());
}

#[test]
fn a_token_list_is_refused_in_words() {
    assert!(parse_tokens(" \n").unwrap().is_empty());
    assert_eq!(parse_tokens("{}").unwrap_err(), "a token list must be a JSON array");
    assert_eq!(parse_tokens("[{},[]]").unwrap_err(), "every token in the list must be an object");
    assert!(parse_tokens("[").unwrap_err().starts_with("invalid token list: "));
    let twice = parse_tokens(r#"[{"address":"a"},{"address":"A"},{}]"#).unwrap();
    let all = union_tokens(Vec::new(), twice);
    assert_eq!(all.len(), 2, "one address once, and one row without");
}

#[test]
fn the_native_row_takes_slot_zero_of_the_first_page_only() {
    let native = json(r#"{"symbol":"ETH","name":"Ether","native":true}"#);
    assert!(native_matches(&native, "et"));
    assert!(!native_matches(&native, "usd"));
    assert_eq!(provider_offset(true, 0), 0);
    assert_eq!(provider_offset(true, 100), 99);
    assert_eq!(provider_offset(false, 100), 100);
    let page = json(r#"{"ok":true,"chainId":1,"total":3,"listed":3,"tokens":[{"symbol":"A"},{"symbol":"B"},{"symbol":"C"}]}"#);
    let first = merge_native_page(&native, true, page.clone(), 0, 3);
    let symbols: Vec<&str> = first.array_of("tokens").unwrap().iter().map(|t| t.str_of("symbol")).collect();
    assert_eq!(symbols, vec!["ETH", "A", "B"]);
    assert_eq!(
        (first.u64_of("total"), first.u64_of("shown"), first.bool_of("hasMore")),
        (Some(4), Some(3), Some(true))
    );
    assert_eq!(first.array_of("tokens").unwrap()[1].bool_of("native"), Some(false));
    let later = merge_native_page(&native, true, json(r#"{"total":3,"tokens":[{"symbol":"C"}]}"#), 3, 3);
    assert_eq!(later.array_of("tokens").unwrap()[0].str_of("symbol"), "C");
    assert_eq!(later.bool_of("hasMore"), Some(false));
}

#[test]
fn a_query_is_a_substring_of_symbol_or_name_whatever_its_case() {
    let native = json(r#"{"symbol":"ETH","name":"Ether"}"#);
    for hit in ["", "  ", "ETH", "eTh", " her ", "ether"] {
        assert!(native_matches(&native, hit), "{hit}");
    }
    for miss in ["ethx", "e t", "0xeee"] {
        assert!(!native_matches(&native, miss), "{miss}");
    }
    assert!(!native_matches(&Json::Null, "e"));
}

/// Paging through five tokens two at a time shows the native row and each token once, in order.
#[test]
fn the_pickers_pages_tile() {
    let native = json(r#"{"symbol":"ETH"}"#);
    let listed = ["A", "B", "C", "D", "E"];
    for matches in [true, false] {
        let mut shown: Vec<String> = Vec::new();
        let mut offset = 0;
        loop {
            let from = provider_offset(matches, offset) as usize;
            let to = (from + 2).min(listed.len());
            let rows: Vec<String> = listed[from..to].iter().map(|s| format!(r#"{{"symbol":"{s}"}}"#)).collect();
            let page = json(&format!(r#"{{"total":5,"tokens":[{}]}}"#, rows.join(",")));
            let merged = merge_native_page(&native, matches, page, offset, 2);
            let tokens = merged.array_of("tokens").unwrap();
            shown.extend(tokens.iter().map(|t| t.str_of("symbol").to_string()));
            offset += tokens.len() as i64;
            if merged.bool_of("hasMore") == Some(false) {
                break;
            }
        }
        let want = if matches { "ETHABCDE" } else { "ABCDE" };
        assert_eq!(shown.concat(), want);
    }
}

#[test]
fn the_edges_of_a_page() {
    let native = json(r#"{"symbol":"ETH"}"#);
    assert_eq!(provider_offset(true, -7), 0);
    assert_eq!(provider_offset(false, -7), 0);
    let none = merge_native_page(&native, true, json(r#"{"tokens":[{"symbol":"A"}]}"#), -7, 0);
    assert_eq!(none.array_of("tokens").unwrap().len(), 1, "a limit of zero shows no native row and cuts nothing");
    assert_eq!((none.u64_of("offset"), none.u64_of("total"), none.bool_of("hasMore")), (Some(0), Some(1), Some(false)));
    let all = merge_native_page(&native, true, json(r#"{"total":1,"tokens":[{"symbol":"A"}]}"#), 0, -1);
    assert_eq!(all.u64_of("shown"), Some(2), "no limit, no cut");
    assert!(can_merge(&json(r#"{"tokens":[{},null]}"#), true));
    assert!(!can_merge(&json(r#"{"tokens":[1]}"#), true));
    assert!(!can_merge(&json("[]"), false));
    assert!(!can_merge(&json(r#"{"total":18446744073709551615}"#), true));
    assert!(can_merge(&json(r#"{"total":18446744073709551615}"#), false));
}
