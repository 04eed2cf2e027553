//! uniswap_backend — the Uniswap app's backend, one composition of reusable EVM modules.
//!
//! Chains and verdicts come from `eth_rpc_module`, the token catalogue from `token_list_module`,
//! asset rows and balances from `evm_assets_module`, accounts from `keystore_module`, fee tiers
//! from `fee_module`, and quotes and calls from `uniswap_module`. Every swap leaves through
//! `tx_sender_module`, which reserves the nonces, asks a human once and broadcasts. No key
//! material reaches this module.
//!
//! An entry point is a run of steps. [`reads`] and [`swapping`] say what each entry point does
//! first, [`session`] what it does once a call is answered; the caller makes the calls. What each of
//! them asks and answers stands in [`entry_laws`] and [`swap_laws`], and what holds of them all,
//! whatever the other modules answer, in [`session_laws`].

// What is read and written: text, digits, amounts, JSON.
pub mod digits;
pub mod floats;
pub mod json;
pub mod order;
pub mod rate;
pub mod text;
pub mod text_laws;
pub mod unit_laws;
pub mod units;
pub mod wire;

// The app's rules.
pub mod app;
pub mod budget;
pub mod bundle_laws;
pub mod depinit;
pub mod feeds;
pub mod form;
pub mod history;
pub mod history_laws;
pub mod networks;
pub mod request_laws;
pub mod requests;
pub mod tokens;
pub mod verified;

// The entry points, step by step.
pub mod calls;
pub mod entry_laws;
pub mod flow;
pub mod reads;
pub mod replies;
pub mod session;
pub mod session_laws;
pub mod swap_laws;
pub mod swapping;
