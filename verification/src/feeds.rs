//! What this module announces when a module that owns a fact announces it.
use vstd::prelude::*;

verus! {

/// What a dependency announced.
#[derive(Debug, PartialEq)]
pub enum Notice {
    /// A chain's record moved.
    ChainConfigChanged { chain_id: i64 },
    /// A chain was switched on or off.
    ChainEnabledChanged { chain_id: i64 },
    /// The device's scope moved.
    NetworkScopeChanged,
    /// The tokens offered on a chain moved.
    TokensUpdated { chain_id: i64 },
    /// The keystore is listened to from now on.
    AccountsArmed,
    /// The keystore's accounts moved; how many there are, where it could be read.
    AccountsChanged { count: Option<i64> },
    /// A send changed state.
    SendStatusChanged { request_id: String },
    /// A transaction changed state.
    TxStatusChanged,
    /// A recorded row of an account changed.
    HistoryChanged { address: String },
}

/// What this module announces, as the contracts speak of it.
#[verifier::ext_equal]
pub enum Signal {
    Networks(i64),
    Tokens(i64),
    Accounts(i64),
    SwapStatus(Seq<char>),
    Swaps(Seq<char>),
}

/// What this module announces.
#[derive(Debug, PartialEq)]
pub enum Announcement {
    /// A chain's record, its enabled switch, or the device scope moved (`-1`: every chain).
    NetworksChanged(i64),
    /// The tokens offered on a chain, or its native coin's metadata, moved.
    TokensChanged(i64),
    /// The keystore's accounts moved. The count is advisory; re-read `accounts`.
    AccountsChanged(i64),
    /// A swap changed state.
    SwapStatusChanged(String),
    /// A recorded row for an account changed; empty when the sender named only a hash.
    SwapsChanged(String),
}

impl View for Announcement {
    type V = Signal;

    open spec fn view(&self) -> Signal {
        match *self {
            Announcement::NetworksChanged(id) => Signal::Networks(id),
            Announcement::TokensChanged(id) => Signal::Tokens(id),
            Announcement::AccountsChanged(count) => Signal::Accounts(count),
            Announcement::SwapStatusChanged(id) => Signal::SwapStatus(id@),
            Announcement::SwapsChanged(address) => Signal::Swaps(address@),
        }
    }
}

/// The signals of a list of announcements.
pub open spec fn signals(s: Seq<Announcement>) -> Seq<Signal> {
    Seq::new(s.len(), |i: int| s[i]@)
}

/// What is announced on a notice, in order. A chain's record carries the native coin's metadata,
/// which the token rows show. Arming is not retroactive: one announcement closes the window before
/// it.
pub open spec fn relayed_signals(notice: Notice) -> Seq<Signal> {
    match notice {
        Notice::ChainConfigChanged { chain_id } => seq![
            Signal::Networks(chain_id),
            Signal::Tokens(chain_id),
        ],
        Notice::ChainEnabledChanged { chain_id } => seq![Signal::Networks(chain_id)],
        Notice::NetworkScopeChanged => seq![Signal::Networks(-1 as i64)],
        Notice::TokensUpdated { chain_id } => seq![Signal::Tokens(chain_id)],
        Notice::AccountsArmed => seq![Signal::Accounts(-1 as i64)],
        Notice::AccountsChanged { count } => seq![
            Signal::Accounts(
                match count {
                    Some(n) => n,
                    None => -1 as i64,
                },
            ),
        ],
        Notice::SendStatusChanged { request_id } => seq![Signal::SwapStatus(request_id@)],
        Notice::TxStatusChanged => seq![Signal::Swaps(Seq::empty())],
        Notice::HistoryChanged { address } => seq![Signal::Swaps(address@)],
    }
}

/// What is announced on a notice, in order.
pub fn announce(notice: Notice) -> (r: Vec<Announcement>)
    ensures
        signals(r@) == relayed_signals(notice),
{
    let mut out: Vec<Announcement> = Vec::new();
    match notice {
        Notice::ChainConfigChanged { chain_id } => {
            out.push(Announcement::NetworksChanged(chain_id));
            out.push(Announcement::TokensChanged(chain_id));
        },
        Notice::ChainEnabledChanged { chain_id } => {
            out.push(Announcement::NetworksChanged(chain_id));
        },
        Notice::NetworkScopeChanged => {
            out.push(Announcement::NetworksChanged(-1));
        },
        Notice::TokensUpdated { chain_id } => {
            out.push(Announcement::TokensChanged(chain_id));
        },
        Notice::AccountsArmed => {
            out.push(Announcement::AccountsChanged(-1));
        },
        Notice::AccountsChanged { count } => {
            out.push(Announcement::AccountsChanged(count.unwrap_or(-1)));
        },
        Notice::SendStatusChanged { request_id } => {
            out.push(Announcement::SwapStatusChanged(request_id));
        },
        Notice::TxStatusChanged => {
            out.push(Announcement::SwapsChanged(String::new()));
        },
        Notice::HistoryChanged { address } => {
            out.push(Announcement::SwapsChanged(address));
        },
    }
    assert(signals(out@) =~= relayed_signals(notice));
    out
}

/// What is announced is what was noticed, of the same chain, account or send: a chain's record
/// moves its network and then its tokens; its switch, and the device's scope for every chain, the
/// network; the tokens of a chain those tokens; the keystore the accounts, with their number where
/// it is known; a send its swap; a row the swaps of its account, and a transaction those of none by
/// name.
pub proof fn law_what_is_announced(chain_id: i64, n: i64, name: String)
    ensures
        relayed_signals(Notice::ChainConfigChanged { chain_id }) == seq![
            Signal::Networks(chain_id),
            Signal::Tokens(chain_id),
        ],
        relayed_signals(Notice::ChainEnabledChanged { chain_id }) == seq![
            Signal::Networks(chain_id),
        ],
        relayed_signals(Notice::NetworkScopeChanged) == seq![Signal::Networks(-1i64)],
        relayed_signals(Notice::TokensUpdated { chain_id }) == seq![Signal::Tokens(chain_id)],
        relayed_signals(Notice::AccountsArmed) == seq![Signal::Accounts(-1i64)],
        relayed_signals(Notice::AccountsChanged { count: Some(n) }) == seq![Signal::Accounts(n)],
        relayed_signals(Notice::AccountsChanged { count: None }) == seq![Signal::Accounts(-1i64)],
        relayed_signals(Notice::SendStatusChanged { request_id: name }) == seq![
            Signal::SwapStatus(name@),
        ],
        relayed_signals(Notice::TxStatusChanged) == seq![Signal::Swaps(Seq::empty())],
        relayed_signals(Notice::HistoryChanged { address: name }) == seq![Signal::Swaps(name@)],
        Announcement::NetworksChanged(chain_id)@ == Signal::Networks(chain_id),
        Announcement::TokensChanged(chain_id)@ == Signal::Tokens(chain_id),
        Announcement::AccountsChanged(n)@ == Signal::Accounts(n),
        Announcement::SwapStatusChanged(name)@ == Signal::SwapStatus(name@),
        Announcement::SwapsChanged(name)@ == Signal::Swaps(name@),
{
}

} // verus!
