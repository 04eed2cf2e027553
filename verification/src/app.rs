//! The Uniswap app's rules, gathered: what a swap request means, what `uniswap_module` and
//! `tx_sender_module` are asked, what the human is told, and how the sender's history groups into
//! swaps.
pub use crate::form::{
    is_address, is_native, parse_form, scale, SwapForm, MAX_DEADLINE_MINS, MAX_SLIPPAGE_BPS,
};
pub use crate::history::{bundle_status, group_swaps, is_final, received};
pub use crate::networks::{deployed_chains, swappable_networks};
pub use crate::requests::{
    merged_quote, sender_request, swap_module_request, swap_purpose, APP,
};
pub use crate::tokens::{
    merge_native_page, native_matches, parse_tokens, provider_offset, union_tokens,
};
