//! Where an entry point stands between two calls, and what it does next.
use crate::budget::{
    grant, slice, ACCOUNTS_BUDGET, BALANCES_BUDGET, CANCEL_BUDGET, FEES_BUDGET, HISTORY_BUDGET,
    QUOTE_BUDGET, READ_BUDGET, STARTUP_BUDGET, STATUS_BUDGET, SWAP_BUDGET, TOKENS_BUDGET,
    VERDICT_BUDGET,
};
use crate::calls::{Ask, Call};
use crate::form::{Form, SwapForm, MAX_DEADLINE_MINS};
use crate::json::{trees, Json, Tree};
use crate::replies::{refused, worded, Answer, Outcome};
use vstd::prelude::*;

verus! {

/// What is read off the device at one moment of an entry point.
#[derive(Clone, Copy, Debug, PartialEq, Eq)]
pub struct Moment {
    /// How much of the allowance is gone, in nanoseconds.
    pub elapsed: u128,
    /// The time, in seconds since 1970.
    pub unix_secs: u64,
    /// Whether eth_rpc has its defaults.
    pub eth_rpc_settled: bool,
    /// Whether token_list has its defaults.
    pub token_list_settled: bool,
}

/// Whether the longest deadline from that moment on can be told.
pub open spec fn tellable(now: Moment) -> bool {
    now.unix_secs + MAX_DEADLINE_MINS * 60 <= u64::MAX
}

/// Whether a swap's deadline from that moment on can be told. A quote sets none.
pub open spec fn timely(wish: Wish, now: Moment) -> bool {
    wish is Swap ==> tellable(now)
}

/// What a token picker asks for.
#[verifier::ext_equal]
pub struct Pick {
    pub chain_id: i64,
    pub query: Seq<char>,
    pub offset: i64,
    pub limit: i64,
}

/// What a token picker asks for.
#[derive(Debug, PartialEq)]
pub struct Picker {
    pub chain_id: i64,
    pub query: String,
    pub offset: i64,
    pub limit: i64,
}

impl View for Picker {
    type V = Pick;

    open spec fn view(&self) -> Pick {
        Pick {
            chain_id: self.chain_id,
            query: self.query@,
            offset: self.offset,
            limit: self.limit,
        }
    }
}

/// What a swap request is for: its price, or the swap.
#[derive(Clone, Copy, Debug, PartialEq, Eq, Structural)]
pub enum Wish {
    Quote,
    Swap,
}

/// One side of a swap: what leaves, or what comes back.
#[derive(Clone, Copy, Debug, PartialEq, Eq, Structural)]
pub enum Side {
    Sold,
    Bought,
}

/// A swap request under way: the form as far as it is settled, who asked, and what for.
#[verifier::ext_equal]
pub struct Task {
    pub form: Form,
    pub via: Seq<char>,
    pub wish: Wish,
}

/// A swap request under way: the form as far as it is settled, who asked, and what for.
#[derive(Debug, PartialEq)]
pub struct Job {
    pub form: SwapForm,
    pub via: String,
    pub wish: Wish,
}

impl View for Job {
    type V = Task;

    open spec fn view(&self) -> Task {
        Task { form: self.form@, via: self.via@, wish: self.wish }
    }
}

/// Where an entry point stands once it has made a call, as the contracts speak of it.
#[verifier::ext_equal]
pub enum Place {
    StartupEthRpc,
    StartupTokenList,
    NetworksEthRpc,
    NetworksRegistry,
    NetworksDeployments { scope: Seq<char>, records: Seq<Tree> },
    Verdict { chain: u64 },
    TokensEthRpc { chain_id: i64 },
    TokensTokenList { chain_id: i64 },
    TokensOffered { chain_id: i64 },
    TokensAssets,
    CatalogueEthRpc { picker: Pick },
    CatalogueTokenList { picker: Pick },
    CatalogueNative { picker: Pick },
    CataloguePage { picker: Pick, native: Tree, matches: bool },
    BalancesOffered { chain_id: i64, address: Seq<char>, extra: Seq<Tree> },
    BalancesRead,
    FeeTiers,
    AccountsList,
    AccountsLabels { out: Tree },
    AccountsWallets { out: Tree },
    SwapEthRpc { job: Task },
    SwapRegistry { job: Task },
    SideOffered { job: Task, side: Side },
    SideResolve { job: Task, side: Side },
    SideListed { job: Task, side: Side },
    Build { job: Task, deadline: u64 },
    Prepare { job: Task, built: Tree },
    Send { job: Task, built: Tree, words: Seq<char>, deadline: u64 },
    Status,
    Cancel,
    Swaps { address: Seq<char>, chain_id: i64 },
}

/// Where an entry point stands once it has made a call.
#[derive(Debug, PartialEq)]
pub enum Flow {
    /// eth_rpc was asked for its defaults, on start.
    StartupEthRpc,
    /// token_list was asked for its defaults, on start.
    StartupTokenList,
    /// eth_rpc was asked for its defaults, in front of the registry read.
    NetworksEthRpc,
    /// The chain registry was read.
    NetworksRegistry,
    /// Uniswap's deployments were read, for these chains.
    NetworksDeployments { scope: String, records: Vec<Json> },
    /// The verdict was read.
    Verdict { chain: u64 },
    /// eth_rpc was asked for its defaults, in front of the token reads.
    TokensEthRpc { chain_id: i64 },
    /// token_list was asked for its defaults, in front of the token reads.
    TokensTokenList { chain_id: i64 },
    /// The offered tokens were read.
    TokensOffered { chain_id: i64 },
    /// The asset rows were read.
    TokensAssets,
    /// eth_rpc was asked for its defaults, in front of the picker's reads.
    CatalogueEthRpc { picker: Picker },
    /// token_list was asked for its defaults, in front of the picker's reads.
    CatalogueTokenList { picker: Picker },
    /// The native row was read.
    CatalogueNative { picker: Picker },
    /// A page of the catalogue was read, beside this native row.
    CataloguePage { picker: Picker, native: Json, matches: bool },
    /// The offered tokens were read, to join these.
    BalancesOffered { chain_id: i64, address: String, extra: Vec<Json> },
    /// The balances were read.
    BalancesRead,
    /// The fee tiers were read.
    FeeTiers,
    /// The accounts were read.
    AccountsList,
    /// Their names were read, for this answer.
    AccountsLabels { out: Json },
    /// Their wallets were read, for this answer.
    AccountsWallets { out: Json },
    /// eth_rpc was asked for its defaults, in front of the registry read.
    SwapEthRpc { job: Job },
    /// The chain registry was read.
    SwapRegistry { job: Job },
    /// The offered tokens were read, to look one side up.
    SideOffered { job: Job, side: Side },
    /// One side was looked up among the offered tokens.
    SideResolve { job: Job, side: Side },
    /// One side was looked up in the whole catalogue.
    SideListed { job: Job, side: Side },
    /// The swap was built.
    Build { job: Job, deadline: u64 },
    /// The sender priced this build.
    Prepare { job: Job, built: Json },
    /// The sender was asked to make this build, in these words.
    Send { job: Job, built: Json, words: String, deadline: u64 },
    /// The sender was asked where a send got to.
    Status,
    /// The sender was asked to withdraw a send.
    Cancel,
    /// The sender's history was read.
    Swaps { address: String, chain_id: i64 },
}

impl View for Flow {
    type V = Place;

    open spec fn view(&self) -> Place {
        match *self {
            Flow::StartupEthRpc => Place::StartupEthRpc,
            Flow::StartupTokenList => Place::StartupTokenList,
            Flow::NetworksEthRpc => Place::NetworksEthRpc,
            Flow::NetworksRegistry => Place::NetworksRegistry,
            Flow::NetworksDeployments { scope, records } => Place::NetworksDeployments {
                scope: scope@,
                records: trees(records@),
            },
            Flow::Verdict { chain } => Place::Verdict { chain },
            Flow::TokensEthRpc { chain_id } => Place::TokensEthRpc { chain_id },
            Flow::TokensTokenList { chain_id } => Place::TokensTokenList { chain_id },
            Flow::TokensOffered { chain_id } => Place::TokensOffered { chain_id },
            Flow::TokensAssets => Place::TokensAssets,
            Flow::CatalogueEthRpc { picker } => Place::CatalogueEthRpc { picker: picker@ },
            Flow::CatalogueTokenList { picker } => Place::CatalogueTokenList { picker: picker@ },
            Flow::CatalogueNative { picker } => Place::CatalogueNative { picker: picker@ },
            Flow::CataloguePage { picker, native, matches } => Place::CataloguePage {
                picker: picker@,
                native: native@,
                matches,
            },
            Flow::BalancesOffered { chain_id, address, extra } => Place::BalancesOffered {
                chain_id,
                address: address@,
                extra: trees(extra@),
            },
            Flow::BalancesRead => Place::BalancesRead,
            Flow::FeeTiers => Place::FeeTiers,
            Flow::AccountsList => Place::AccountsList,
            Flow::AccountsLabels { out } => Place::AccountsLabels { out: out@ },
            Flow::AccountsWallets { out } => Place::AccountsWallets { out: out@ },
            Flow::SwapEthRpc { job } => Place::SwapEthRpc { job: job@ },
            Flow::SwapRegistry { job } => Place::SwapRegistry { job: job@ },
            Flow::SideOffered { job, side } => Place::SideOffered { job: job@, side },
            Flow::SideResolve { job, side } => Place::SideResolve { job: job@, side },
            Flow::SideListed { job, side } => Place::SideListed { job: job@, side },
            Flow::Build { job, deadline } => Place::Build { job: job@, deadline },
            Flow::Prepare { job, built } => Place::Prepare { job: job@, built: built@ },
            Flow::Send { job, built, words, deadline } => Place::Send {
                job: job@,
                built: built@,
                words: words@,
                deadline,
            },
            Flow::Status => Place::Status,
            Flow::Cancel => Place::Cancel,
            Flow::Swaps { address, chain_id } => Place::Swaps { address: address@, chain_id },
        }
    }
}

/// The allowance of a quote or of a swap.
pub open spec fn allowance_for(wish: Wish) -> u128 {
    match wish {
        Wish::Quote => QUOTE_BUDGET,
        Wish::Swap => SWAP_BUDGET,
    }
}

/// The allowance of the entry point that stands there.
pub open spec fn allowance(place: Place) -> u128 {
    match place {
        Place::StartupEthRpc => STARTUP_BUDGET,
        Place::StartupTokenList => STARTUP_BUDGET,
        Place::NetworksEthRpc => READ_BUDGET,
        Place::NetworksRegistry => READ_BUDGET,
        Place::NetworksDeployments { .. } => READ_BUDGET,
        Place::Verdict { .. } => VERDICT_BUDGET,
        Place::TokensEthRpc { .. } => TOKENS_BUDGET,
        Place::TokensTokenList { .. } => TOKENS_BUDGET,
        Place::TokensOffered { .. } => TOKENS_BUDGET,
        Place::TokensAssets => TOKENS_BUDGET,
        Place::CatalogueEthRpc { .. } => TOKENS_BUDGET,
        Place::CatalogueTokenList { .. } => TOKENS_BUDGET,
        Place::CatalogueNative { .. } => TOKENS_BUDGET,
        Place::CataloguePage { .. } => TOKENS_BUDGET,
        Place::BalancesOffered { .. } => BALANCES_BUDGET,
        Place::BalancesRead => BALANCES_BUDGET,
        Place::FeeTiers => FEES_BUDGET,
        Place::AccountsList => ACCOUNTS_BUDGET,
        Place::AccountsLabels { .. } => ACCOUNTS_BUDGET,
        Place::AccountsWallets { .. } => ACCOUNTS_BUDGET,
        Place::SwapEthRpc { job, .. } => allowance_for(job.wish),
        Place::SwapRegistry { job, .. } => allowance_for(job.wish),
        Place::SideOffered { job, .. } => allowance_for(job.wish),
        Place::SideResolve { job, .. } => allowance_for(job.wish),
        Place::SideListed { job, .. } => allowance_for(job.wish),
        Place::Build { job, .. } => allowance_for(job.wish),
        Place::Prepare { job, .. } => allowance_for(job.wish),
        Place::Send { job, .. } => allowance_for(job.wish),
        Place::Status => STATUS_BUDGET,
        Place::Cancel => CANCEL_BUDGET,
        Place::Swaps { .. } => HISTORY_BUDGET,
    }
}

/// The swap request that is under way there, if there is one.
pub open spec fn task_at(place: Place) -> Option<Task> {
    match place {
        Place::SwapEthRpc { job, .. } => Some(job),
        Place::SwapRegistry { job, .. } => Some(job),
        Place::SideOffered { job, .. } => Some(job),
        Place::SideResolve { job, .. } => Some(job),
        Place::SideListed { job, .. } => Some(job),
        Place::Build { job, .. } => Some(job),
        Place::Prepare { job, .. } => Some(job),
        Place::Send { job, .. } => Some(job),
        _ => None,
    }
}

/// Whether a form's deadline is within its bounds.
pub open spec fn bounded(form: Form) -> bool {
    1 <= form.deadline_mins <= MAX_DEADLINE_MINS
}

/// What holds wherever an entry point can stand: a deadline within its bounds, and an answer under
/// way that is an object.
pub open spec fn standing(place: Place) -> bool {
    &&& task_at(place) matches Some(task) ==> bounded(task.form)
    &&& match place {
        Place::AccountsLabels { out } => out is Object,
        Place::AccountsWallets { out } => out is Object,
        Place::Prepare { built, .. } => built is Object,
        _ => true,
    }
}

/// A quote that lacks only its rate line.
#[derive(Debug, PartialEq)]
pub struct Unrated {
    pub built: Json,
    pub fee: Json,
    pub form: SwapForm,
}

/// What an entry point does next, as the contracts speak of it.
#[verifier::ext_equal]
pub enum Move {
    Ask { ask: Ask, grant: u128, place: Place },
    Answer(Outcome),
    Rate { built: Tree, fee: Tree, form: Form },
    Done,
    Unanswerable,
}

/// What an entry point does next.
#[derive(Debug, PartialEq)]
pub enum Step {
    /// Make this call, wait for it no longer than `grant` nanoseconds, and go on there.
    Ask { call: Call, grant: u128, flow: Flow },
    /// This is the answer.
    Answer(Answer),
    /// This is the answer, once its rate line is worked out.
    Rate(Unrated),
    /// There is no more to do, and nothing to answer.
    Done,
    /// A dependency answered in a shape that nothing can be made of.
    Unanswerable,
}

impl View for Step {
    type V = Move;

    open spec fn view(&self) -> Move {
        match *self {
            Step::Ask { call, grant, flow } => Move::Ask {
                ask: call@,
                grant,
                place: flow@,
            },
            Step::Answer(a) => Move::Answer(a@),
            Step::Rate(q) => Move::Rate { built: q.built@, fee: q.fee@, form: q.form@ },
            Step::Done => Move::Done,
            Step::Unanswerable => Move::Unanswerable,
        }
    }
}

/// Whether a next step stands on firm ground.
pub open spec fn sound(next: Move) -> bool {
    match next {
        Move::Ask { place, .. } => standing(place),
        Move::Rate { built, .. } => built is Object,
        _ => true,
    }
}

/// An answer that refuses, in words.
pub open spec fn refuses(words: Seq<char>) -> Move {
    Move::Answer(Outcome::Value(refused(words)))
}

/// The value is the answer.
pub open spec fn answers_with(value: Tree) -> Move {
    Move::Answer(Outcome::Value(value))
}

/// Make a call where there is time for it.
pub open spec fn asks(ask: Ask, elapsed: u128, per_call: u128, place: Place) -> Option<Move> {
    match grant(allowance(place), elapsed, per_call) {
        Some(grant) => Some(Move::Ask { ask, grant, place }),
        None => None,
    }
}

/// Make a call where there is time for it, else refuse in those words.
pub open spec fn asks_or_refuses(
    ask: Ask,
    elapsed: u128,
    per_call: u128,
    place: Place,
    words: Seq<char>,
) -> Move {
    match asks(ask, elapsed, per_call, place) {
        Some(next) => next,
        None => refuses(words),
    }
}

pub(crate) fn refuse(words: &str) -> (r: Step)
    ensures
        r@ == refuses(words@),
{
    Step::Answer(Answer::Value(worded(words)))
}

pub(crate) fn answer_with(value: Json) -> (r: Step)
    ensures
        r@ == answers_with(value@),
{
    Step::Answer(Answer::Value(value))
}

/// Make a call where there is time for it out of `total`, else refuse in those words.
pub(crate) fn ask_or_refuse(
    total: u128,
    call: Call,
    elapsed: u128,
    per_call: u128,
    flow: Flow,
    words: &str,
) -> (r: Step)
    requires
        total == allowance(flow@),
    ensures
        r@ == asks_or_refuses(call@, elapsed, per_call, flow@, words@),
{
    match slice(total, elapsed, per_call) {
        Some(grant) => Step::Ask { call, grant, flow },
        None => refuse(words),
    }
}

/// Where an entry point stands is spoken of as it is: under its own name, and with all that it
/// holds.
pub proof fn law_a_flow_is_spoken_of_as_it_is(flow: Flow)
    ensures
        match flow {
            Flow::StartupEthRpc => flow@ == (Place::StartupEthRpc),
            Flow::StartupTokenList => flow@ == (Place::StartupTokenList),
            Flow::NetworksEthRpc => flow@ == (Place::NetworksEthRpc),
            Flow::NetworksRegistry => flow@ == (Place::NetworksRegistry),
            Flow::NetworksDeployments { scope, records } => flow@ == (Place::NetworksDeployments {
                scope: scope@,
                records: trees(records@),
            }),
            Flow::Verdict { chain } => flow@ == (Place::Verdict { chain }),
            Flow::TokensEthRpc { chain_id } => flow@ == (Place::TokensEthRpc { chain_id }),
            Flow::TokensTokenList { chain_id } => flow@ == (Place::TokensTokenList { chain_id }),
            Flow::TokensOffered { chain_id } => flow@ == (Place::TokensOffered { chain_id }),
            Flow::TokensAssets => flow@ == (Place::TokensAssets),
            Flow::CatalogueEthRpc { picker } => flow@ == (Place::CatalogueEthRpc { picker: picker@ }),
            Flow::CatalogueTokenList { picker } => flow@ == (Place::CatalogueTokenList { picker: picker@ }),
            Flow::CatalogueNative { picker } => flow@ == (Place::CatalogueNative { picker: picker@ }),
            Flow::CataloguePage { picker, native, matches } => flow@ == (Place::CataloguePage {
                picker: picker@,
                native: native@,
                matches,
            }),
            Flow::BalancesOffered { chain_id, address, extra } => flow@ == (Place::BalancesOffered {
                chain_id,
                address: address@,
                extra: trees(extra@),
            }),
            Flow::BalancesRead => flow@ == (Place::BalancesRead),
            Flow::FeeTiers => flow@ == (Place::FeeTiers),
            Flow::AccountsList => flow@ == (Place::AccountsList),
            Flow::AccountsLabels { out } => flow@ == (Place::AccountsLabels { out: out@ }),
            Flow::AccountsWallets { out } => flow@ == (Place::AccountsWallets { out: out@ }),
            Flow::SwapEthRpc { job } => flow@ == (Place::SwapEthRpc { job: job@ }),
            Flow::SwapRegistry { job } => flow@ == (Place::SwapRegistry { job: job@ }),
            Flow::SideOffered { job, side } => flow@ == (Place::SideOffered { job: job@, side }),
            Flow::SideResolve { job, side } => flow@ == (Place::SideResolve { job: job@, side }),
            Flow::SideListed { job, side } => flow@ == (Place::SideListed { job: job@, side }),
            Flow::Build { job, deadline } => flow@ == (Place::Build { job: job@, deadline }),
            Flow::Prepare { job, built } => flow@ == (Place::Prepare { job: job@, built: built@ }),
            Flow::Send { job, built, words, deadline } => flow@ == (Place::Send {
                job: job@,
                built: built@,
                words: words@,
                deadline,
            }),
            Flow::Status => flow@ == (Place::Status),
            Flow::Cancel => flow@ == (Place::Cancel),
            Flow::Swaps { address, chain_id } => flow@ == (Place::Swaps { address: address@, chain_id }),
        },
{
}

/// A picker, a job and a step are spoken of as they are: each part under its own name.
pub proof fn law_steps_are_spoken_of_as_they_are(picker: Picker, job: Job, step: Step)
    ensures
        picker@.chain_id == picker.chain_id,
        picker@.query == picker.query@,
        picker@.offset == picker.offset,
        picker@.limit == picker.limit,
        job@.form == job.form@,
        job@.via == job.via@,
        job@.wish == job.wish,
        match step {
            Step::Ask { call, grant, flow } => step@ == (Move::Ask {
                ask: call@,
                grant,
                place: flow@,
            }),
            Step::Answer(a) => step@ == Move::Answer(a@),
            Step::Rate(q) => step@ == (Move::Rate {
                built: q.built@,
                fee: q.fee@,
                form: q.form@,
            }),
            Step::Done => step@ is Done,
            Step::Unanswerable => step@ is Unanswerable,
        },
{
}

} // verus!
