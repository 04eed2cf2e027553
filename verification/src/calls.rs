//! Every call this module makes to another, by name and with its arguments. There is no other: the
//! keystore is only read, and money leaves through one sender call.
use crate::json::{Json, Tree};
use vstd::prelude::*;

verus! {

/// An outbound call, as the contracts speak of it.
#[verifier::ext_equal]
pub enum Ask {
    EthRpcInitDefaults,
    ListChainConfigs,
    VerifiedProxyStatus { chain_id: i64 },
    TokenListInitDefaults,
    ListOffered { chain_id: i64 },
    GetTokensByAddress { chain_id: i64, addresses: Tree },
    ListAvailable { chain_id: i64, query: Seq<char>, offset: i64, limit: i64 },
    ListAssets { chain_id: i64, tokens: Tree },
    ResolveAsset { chain_id: i64, token: Seq<char>, offered: Tree },
    GetBalances { chain_id: i64, address: Seq<char>, tokens: Tree, sort: Seq<char> },
    ListAccounts,
    GetLabels,
    GetAccountWallets,
    SuggestFees { chain_id: i64 },
    GetChains,
    BuildSwap { chain_id: i64, request: Tree },
    Prepare { request: Tree },
    Send { request: Tree },
    SendStatus { request_id: Seq<char> },
    CancelSend { request_id: Seq<char> },
    History { address: Seq<char>, chain_id: i64 },
}

/// An outbound call.
#[derive(Debug, PartialEq)]
pub enum Call {
    /// eth_rpc_module: fill what is absent of the default chains.
    EthRpcInitDefaults,
    /// eth_rpc_module: the chain registry and its scope.
    ListChainConfigs,
    /// eth_rpc_module: the verified-proxy verdict.
    VerifiedProxyStatus { chain_id: i64 },
    /// token_list_module: its own defaults, where nothing is configured.
    TokenListInitDefaults,
    /// token_list_module: the ERC-20 rows it offers, pinned, then enabled.
    ListOffered { chain_id: i64 },
    /// token_list_module: any row it holds for these addresses, offered or not.
    GetTokensByAddress { chain_id: i64, addresses: Json },
    /// token_list_module: a page of its catalogue.
    ListAvailable { chain_id: i64, query: String, offset: i64, limit: i64 },
    /// evm_assets_module: token rows as asset rows, the native coin first.
    ListAssets { chain_id: i64, tokens: Json },
    /// evm_assets_module: the asset that a token names.
    ResolveAsset { chain_id: i64, token: String, offered: Json },
    /// evm_assets_module: balances of the native coin and these tokens.
    GetBalances { chain_id: i64, address: String, tokens: Json, sort: String },
    /// keystore_module: the accounts.
    ListAccounts,
    /// keystore_module: their names.
    GetLabels,
    /// keystore_module: the wallets they were derived under.
    GetAccountWallets,
    /// fee_module: the fee tiers.
    SuggestFees { chain_id: i64 },
    /// uniswap_module: its deployments.
    GetChains,
    /// uniswap_module: a quote, and the calls that make the swap.
    BuildSwap { chain_id: i64, request: Json },
    /// tx_sender_module: what sending would cost.
    Prepare { request: Json },
    /// tx_sender_module: ask the human, and send.
    Send { request: Json },
    /// tx_sender_module: advance a send and say where it got to.
    SendStatus { request_id: String },
    /// tx_sender_module: withdraw a send that nobody has approved.
    CancelSend { request_id: String },
    /// tx_sender_module: the recorded rows of an account.
    History { address: String, chain_id: i64 },
}

impl View for Call {
    type V = Ask;

    open spec fn view(&self) -> Ask {
        match *self {
            Call::EthRpcInitDefaults => Ask::EthRpcInitDefaults,
            Call::ListChainConfigs => Ask::ListChainConfigs,
            Call::VerifiedProxyStatus { chain_id } => Ask::VerifiedProxyStatus { chain_id },
            Call::TokenListInitDefaults => Ask::TokenListInitDefaults,
            Call::ListOffered { chain_id } => Ask::ListOffered { chain_id },
            Call::GetTokensByAddress { chain_id, addresses } => Ask::GetTokensByAddress {
                chain_id,
                addresses: addresses@,
            },
            Call::ListAvailable { chain_id, query, offset, limit } => Ask::ListAvailable {
                chain_id,
                query: query@,
                offset,
                limit,
            },
            Call::ListAssets { chain_id, tokens } => Ask::ListAssets { chain_id, tokens: tokens@ },
            Call::ResolveAsset { chain_id, token, offered } => Ask::ResolveAsset {
                chain_id,
                token: token@,
                offered: offered@,
            },
            Call::GetBalances { chain_id, address, tokens, sort } => Ask::GetBalances {
                chain_id,
                address: address@,
                tokens: tokens@,
                sort: sort@,
            },
            Call::ListAccounts => Ask::ListAccounts,
            Call::GetLabels => Ask::GetLabels,
            Call::GetAccountWallets => Ask::GetAccountWallets,
            Call::SuggestFees { chain_id } => Ask::SuggestFees { chain_id },
            Call::GetChains => Ask::GetChains,
            Call::BuildSwap { chain_id, request } => Ask::BuildSwap { chain_id, request: request@ },
            Call::Prepare { request } => Ask::Prepare { request: request@ },
            Call::Send { request } => Ask::Send { request: request@ },
            Call::SendStatus { request_id } => Ask::SendStatus { request_id: request_id@ },
            Call::CancelSend { request_id } => Ask::CancelSend { request_id: request_id@ },
            Call::History { address, chain_id } => Ask::History { address: address@, chain_id },
        }
    }
}

/// The modules this one composes.
#[derive(Clone, Copy, Debug, PartialEq, Eq, Structural)]
pub enum Module {
    EthRpc,
    TokenList,
    EvmAssets,
    Keystore,
    Fee,
    Uniswap,
    TxSender,
}

/// The module that a call goes to.
pub open spec fn module_asked(ask: Ask) -> Module {
    match ask {
        Ask::EthRpcInitDefaults => Module::EthRpc,
        Ask::ListChainConfigs => Module::EthRpc,
        Ask::VerifiedProxyStatus { .. } => Module::EthRpc,
        Ask::TokenListInitDefaults => Module::TokenList,
        Ask::ListOffered { .. } => Module::TokenList,
        Ask::GetTokensByAddress { .. } => Module::TokenList,
        Ask::ListAvailable { .. } => Module::TokenList,
        Ask::ListAssets { .. } => Module::EvmAssets,
        Ask::ResolveAsset { .. } => Module::EvmAssets,
        Ask::GetBalances { .. } => Module::EvmAssets,
        Ask::ListAccounts => Module::Keystore,
        Ask::GetLabels => Module::Keystore,
        Ask::GetAccountWallets => Module::Keystore,
        Ask::SuggestFees { .. } => Module::Fee,
        Ask::GetChains => Module::Uniswap,
        Ask::BuildSwap { .. } => Module::Uniswap,
        Ask::Prepare { .. } => Module::TxSender,
        Ask::Send { .. } => Module::TxSender,
        Ask::SendStatus { .. } => Module::TxSender,
        Ask::CancelSend { .. } => Module::TxSender,
        Ask::History { .. } => Module::TxSender,
    }
}

impl Call {
    /// The module that this call goes to.
    pub fn module(&self) -> (r: Module)
        ensures
            r == module_asked(self@),
    {
        match self {
            Call::EthRpcInitDefaults => Module::EthRpc,
            Call::ListChainConfigs => Module::EthRpc,
            Call::VerifiedProxyStatus { .. } => Module::EthRpc,
            Call::TokenListInitDefaults => Module::TokenList,
            Call::ListOffered { .. } => Module::TokenList,
            Call::GetTokensByAddress { .. } => Module::TokenList,
            Call::ListAvailable { .. } => Module::TokenList,
            Call::ListAssets { .. } => Module::EvmAssets,
            Call::ResolveAsset { .. } => Module::EvmAssets,
            Call::GetBalances { .. } => Module::EvmAssets,
            Call::ListAccounts => Module::Keystore,
            Call::GetLabels => Module::Keystore,
            Call::GetAccountWallets => Module::Keystore,
            Call::SuggestFees { .. } => Module::Fee,
            Call::GetChains => Module::Uniswap,
            Call::BuildSwap { .. } => Module::Uniswap,
            Call::Prepare { .. } => Module::TxSender,
            Call::Send { .. } => Module::TxSender,
            Call::SendStatus { .. } => Module::TxSender,
            Call::CancelSend { .. } => Module::TxSender,
            Call::History { .. } => Module::TxSender,
        }
    }
}

/// The keystore is only read, and uniswap_module is only asked for deployments and built swaps.
pub proof fn law_what_modules_are_asked(ask: Ask)
    ensures
        module_asked(ask) is Keystore ==> ask is ListAccounts || ask is GetLabels || ask
            is GetAccountWallets,
        module_asked(ask) is Uniswap ==> ask is GetChains || ask is BuildSwap,
        module_asked(ask) is EthRpc ==> ask is EthRpcInitDefaults || ask is ListChainConfigs || ask
            is VerifiedProxyStatus,
{
}

/// Each call goes to the module that owns what it asks for: the registry, its defaults and the
/// verdict to eth_rpc; the catalogue and its defaults to token_list; asset rows and balances to
/// evm_assets; accounts to the keystore; tiers to fee_module; deployments and builds to
/// uniswap_module; and what costs, sends, follows, withdraws or recalls to the sender.
pub proof fn law_where_calls_go(ask: Ask)
    ensures
        module_asked(ask) is EthRpc <==> ask is EthRpcInitDefaults || ask is ListChainConfigs || ask
            is VerifiedProxyStatus,
        module_asked(ask) is TokenList <==> ask is TokenListInitDefaults || ask is ListOffered
            || ask is GetTokensByAddress || ask is ListAvailable,
        module_asked(ask) is EvmAssets <==> ask is ListAssets || ask is ResolveAsset || ask
            is GetBalances,
        module_asked(ask) is Keystore <==> ask is ListAccounts || ask is GetLabels || ask
            is GetAccountWallets,
        module_asked(ask) is Fee <==> ask is SuggestFees,
        module_asked(ask) is Uniswap <==> ask is GetChains || ask is BuildSwap,
        module_asked(ask) is TxSender <==> ask is Prepare || ask is Send || ask is SendStatus || ask
            is CancelSend || ask is History,
{
}

/// A call is spoken of as it is made: under its own name and with its own arguments.
pub proof fn law_a_call_is_spoken_of_as_it_is(call: Call)
    ensures
        match call {
            Call::EthRpcInitDefaults => call@ is EthRpcInitDefaults,
            Call::ListChainConfigs => call@ is ListChainConfigs,
            Call::VerifiedProxyStatus { chain_id } => call@ == (Ask::VerifiedProxyStatus {
                chain_id,
            }),
            Call::TokenListInitDefaults => call@ is TokenListInitDefaults,
            Call::ListOffered { chain_id } => call@ == (Ask::ListOffered { chain_id }),
            Call::GetTokensByAddress { chain_id, addresses } => call@ == (Ask::GetTokensByAddress {
                chain_id,
                addresses: addresses@,
            }),
            Call::ListAvailable { chain_id, query, offset, limit } => call@ == (
            Ask::ListAvailable { chain_id, query: query@, offset, limit }),
            Call::ListAssets { chain_id, tokens } => call@ == (Ask::ListAssets {
                chain_id,
                tokens: tokens@,
            }),
            Call::ResolveAsset { chain_id, token, offered } => call@ == (Ask::ResolveAsset {
                chain_id,
                token: token@,
                offered: offered@,
            }),
            Call::GetBalances { chain_id, address, tokens, sort } => call@ == (Ask::GetBalances {
                chain_id,
                address: address@,
                tokens: tokens@,
                sort: sort@,
            }),
            Call::ListAccounts => call@ is ListAccounts,
            Call::GetLabels => call@ is GetLabels,
            Call::GetAccountWallets => call@ is GetAccountWallets,
            Call::SuggestFees { chain_id } => call@ == (Ask::SuggestFees { chain_id }),
            Call::GetChains => call@ is GetChains,
            Call::BuildSwap { chain_id, request } => call@ == (Ask::BuildSwap {
                chain_id,
                request: request@,
            }),
            Call::Prepare { request } => call@ == (Ask::Prepare { request: request@ }),
            Call::Send { request } => call@ == (Ask::Send { request: request@ }),
            Call::SendStatus { request_id } => call@ == (Ask::SendStatus {
                request_id: request_id@,
            }),
            Call::CancelSend { request_id } => call@ == (Ask::CancelSend {
                request_id: request_id@,
            }),
            Call::History { address, chain_id } => call@ == (Ask::History {
                address: address@,
                chain_id,
            }),
        },
{
}

} // verus!
