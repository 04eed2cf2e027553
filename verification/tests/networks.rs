use uniswap_backend::json::Json;
use uniswap_backend::networks::{deployed_chains, swappable_networks};
use uniswap_backend::wire::read;

fn json(text: &str) -> Json {
    read(text).unwrap()
}

#[test]
fn only_enabled_in_scope_chains_with_a_deployment_are_networks() {
    let records = vec![
        json(r#"{"chainId":11155111,"name":"Sepolia","enabled":true,"inScope":true,"testnet":true,"endpoint":"e"}"#),
        json(r#"{"chainId":1,"name":"Ethereum","enabled":true,"inScope":true,"testnet":false}"#),
        json(r#"{"chainId":560048,"name":"Hoodi","enabled":true,"inScope":true,"testnet":true}"#),
        json(r#"{"chainId":10,"name":"Optimism","enabled":true,"inScope":false}"#),
        json(r#"{"chainId":8453,"name":"Base","enabled":false,"inScope":false}"#),
    ];
    let (networks, unsupported) = swappable_networks(&records, &[1, 10, 8453, 11155111]);
    let ids: Vec<u64> = networks.iter().map(|n| n.u64_of("chainId").unwrap()).collect();
    assert_eq!(ids, vec![11155111, 1]);
    assert_eq!(unsupported, vec![560048], "Hoodi is enabled but Uniswap is not there");
    assert!(networks[0].get("endpoint").is_none(), "the view gets names, not endpoints");
    assert_eq!(deployed_chains(&json(r#"{"ok":true,"chains":[{"chainId":1},{"chainId":10}]}"#)), vec![1, 10]);
}

#[test]
fn a_record_that_names_no_chain_is_passed_over() {
    let records = [
        json(r#"{"chainId":"1","enabled":true,"inScope":true}"#),
        json(r#"{"chainId":-1,"enabled":true,"inScope":true}"#),
        json("7"),
        json(r#"{"chainId":5,"enabled":true,"inScope":true,"nativeSymbol":"ETH","nativeDecimals":18,"verifiedProxyMode":null}"#),
    ];
    let (networks, unsupported) = swappable_networks(&records, &[5]);
    assert_eq!(networks.len(), 1);
    assert_eq!((networks[0].str_of("nativeSymbol"), networks[0].u64_of("nativeDecimals")), ("ETH", Some(18)));
    assert_eq!(networks[0].get("verifiedProxyMode"), Some(&Json::Null));
    assert!(unsupported.is_empty());
    assert!(deployed_chains(&json(r#"{"chains":[{"chainId":-1},{}]}"#)).is_empty());
    assert!(deployed_chains(&json("{}")).is_empty());
}
