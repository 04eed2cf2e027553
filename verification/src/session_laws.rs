//! What holds of every entry point, whatever its dependencies answer and whenever they do.
use crate::budget::{MIN_SLICE, READ_BUDGET};
use crate::calls::Ask;
use crate::flow::{
    allowance, standing, task_at, tellable, Moment, Move, Pick, Place, Side, Task, Wish,
};
use crate::digits::{digits, lemma_numeral, lemma_zero_value, value};
use crate::form::{decimals_at, form_read, law_accepted_form, scaled, Form};
use crate::history::ended;
use crate::json::{number, Tree};
use crate::reads::{
    accounts_after_list, accounts_from, accounts_wallets, balances_after_offered, balances_asked,
    cancel_asked, catalogue_after_native, catalogue_from, catalogue_native, catalogue_token_list,
    fee_tiers_asked, field_or, networks_after_registry, networks_from, networks_registry, startup,
    startup_token_list, status_asked, status_from, swaps_asked, tokens_after_offered, tokens_from,
    tokens_offered, tokens_token_list, verdict_asked, with_courtesy,
};
use crate::replies::{heard, Word};
use crate::requests::{
    law_only_a_swap_has_a_deadline, law_user_fields_as_given, module_request, purpose, request_for,
};
use crate::session::after;
use crate::swapping::{
    after_build, bounded_request, built_from, chain_in_scope, deadline_at, priced, requested,
    settle, settle_bought, side_after_listed, side_after_offered, side_after_resolve, side_named,
    side_of, swap_after_registry, swap_answer, swap_registry, token_named, with_side,
};
use crate::text::trimmed;
use crate::units::base_value;
use crate::wire::json_read;
use vstd::prelude::*;

verus! {

/// An entry point as it is called.
pub enum Entry {
    Startup,
    Networks,
    Verdict { chain_id: i64 },
    Tokens { chain_id: i64 },
    Catalogue { picker: Pick },
    Balances { chain_id: i64, address: Seq<char>, tokens: Seq<char> },
    FeeTiers { chain_id: i64 },
    Accounts,
    Request { text: Seq<char>, via: Seq<char>, wish: Wish },
    SwapStatus { request_id: Seq<char> },
    CancelSwap { request_id: Seq<char> },
    Swaps { address: Seq<char>, chain_id: i64 },
}

/// What an entry point does first.
pub open spec fn first(entry: Entry, now: Moment) -> Move {
    match entry {
        Entry::Startup => startup(now),
        Entry::Networks => networks_from(now),
        Entry::Verdict { chain_id } => verdict_asked(chain_id, now),
        Entry::Tokens { chain_id } => tokens_from(chain_id, now),
        Entry::Catalogue { picker } => catalogue_from(picker, now),
        Entry::Balances { chain_id, address, tokens } => balances_asked(
            chain_id,
            address,
            tokens,
            now,
        ),
        Entry::FeeTiers { chain_id } => fee_tiers_asked(chain_id, now),
        Entry::Accounts => accounts_from(now),
        Entry::Request { text, via, wish } => requested(text, via, wish, now),
        Entry::SwapStatus { request_id } => status_asked(request_id, now),
        Entry::CancelSwap { request_id } => cancel_asked(request_id, now),
        Entry::Swaps { address, chain_id } => swaps_asked(address, chain_id, now),
    }
}

/// Whether a call is waited for no longer than what is left of the allowance, and long enough to be
/// worth it.
pub open spec fn within(next: Move, now: Moment) -> bool {
    next matches Move::Ask { grant, place, .. } ==> MIN_SLICE <= grant && grant + now.elapsed
        <= allowance(place)
}

/// How many more calls can follow from there.
pub open spec fn calls_left(place: Place) -> nat {
    match place {
        Place::StartupEthRpc => 1,
        Place::StartupTokenList => 0,
        Place::NetworksEthRpc => 2,
        Place::NetworksRegistry => 1,
        Place::NetworksDeployments { .. } => 0,
        Place::Verdict { .. } => 0,
        Place::TokensEthRpc { .. } => 3,
        Place::TokensTokenList { .. } => 2,
        Place::TokensOffered { .. } => 1,
        Place::TokensAssets => 0,
        Place::CatalogueEthRpc { .. } => 3,
        Place::CatalogueTokenList { .. } => 2,
        Place::CatalogueNative { .. } => 1,
        Place::CataloguePage { .. } => 0,
        Place::BalancesOffered { .. } => 1,
        Place::BalancesRead => 0,
        Place::FeeTiers => 0,
        Place::AccountsList => 2,
        Place::AccountsLabels { .. } => 1,
        Place::AccountsWallets { .. } => 0,
        Place::SwapEthRpc { .. } => 9,
        Place::SwapRegistry { .. } => 8,
        Place::SideOffered { side, .. } => if side is Sold {
            7
        } else {
            4
        },
        Place::SideResolve { side, .. } => if side is Sold {
            6
        } else {
            3
        },
        Place::SideListed { side, .. } => if side is Sold {
            5
        } else {
            2
        },
        Place::Build { .. } => 1,
        Place::Prepare { .. } => 0,
        Place::Send { .. } => 0,
        Place::Status => 0,
        Place::Cancel => 0,
        Place::Swaps { .. } => 0,
    }
}

/// What stays as it was asked while a form is settled.
pub open spec fn keeps(before: Task, later: Task) -> bool {
    let (f, g) = (before.form, later.form);
    &&& later.via == before.via
    &&& later.wish == before.wish
    &&& g.chain_id == f.chain_id
    &&& g.from == f.from
    &&& g.recipient == f.recipient
    &&& g.tier == f.tier
    &&& g.slippage_bps == f.slippage_bps
    &&& g.deadline_mins == f.deadline_mins
    &&& g.max_fee_per_gas == f.max_fee_per_gas
    &&& g.max_priority_fee_per_gas == f.max_priority_fee_per_gas
    &&& g.gas_limits == f.gas_limits
    &&& g.nonce == f.nonce
}

/// What is true of a call that follows from where an entry point stands, whatever was answered.
spec fn follows(place: Place, now: Moment, ask: Ask, next: Place) -> bool {
    &&& allowance(next) == allowance(place)
    &&& calls_left(next) < calls_left(place)
    &&& ask is Send <==> next is Send
    &&& ask is Send ==> place is Build && (task_at(place) matches Some(task) && task.wish is Swap)
    &&& ask is TokenListInitDefaults ==> place is StartupEthRpc || place is TokensEthRpc || place
        is CatalogueEthRpc
    &&& ask is ListChainConfigs ==> place is NetworksEthRpc || place is SwapEthRpc
    &&& !(ask is EthRpcInitDefaults)
    &&& ask is BuildSwap ==> (next matches Place::Build { job, deadline } && ask
        == (Ask::BuildSwap {
        chain_id: job.form.chain_id,
        request: module_request(job.form, deadline),
    }) && deadline == deadline_at(job, now)) && task_at(place) is Some
    &&& task_at(place) matches Some(task) ==> {
        &&& task_at(next) matches Some(later) && keeps(task, later)
        &&& task.wish is Quote && !(place is SwapEthRpc) ==> ask is ListOffered || ask
            is ResolveAsset || ask is GetTokensByAddress || ask is BuildSwap || ask is Prepare
    }
}

/// What is true of what follows from where an entry point stands, whatever was answered.
spec fn fair(place: Place, now: Moment, next: Move) -> bool {
    &&& within(next, now)
    &&& next matches Move::Ask { ask, place: there, .. } ==> follows(place, now, ask, there)
}

proof fn lemma_startup(now: Moment)
    ensures
        fair(Place::StartupEthRpc, now, startup_token_list(now)),
{
}

proof fn lemma_networks_seeded(now: Moment)
    ensures
        fair(Place::NetworksEthRpc, now, networks_registry(now)),
{
}

proof fn lemma_networks_registry(word: Word, now: Moment)
    ensures
        fair(Place::NetworksRegistry, now, networks_after_registry(word, now)),
{
}

proof fn lemma_tokens_seeded(chain_id: i64, now: Moment)
    ensures
        fair(Place::TokensEthRpc { chain_id }, now, tokens_token_list(chain_id, now)),
{
}

proof fn lemma_tokens_listed(chain_id: i64, now: Moment)
    ensures
        fair(Place::TokensTokenList { chain_id }, now, tokens_offered(chain_id, now)),
{
}

proof fn lemma_tokens_offered(chain_id: i64, word: Word, now: Moment)
    ensures
        fair(Place::TokensOffered { chain_id }, now, tokens_after_offered(chain_id, word, now)),
{
}

proof fn lemma_catalogue_seeded(picker: Pick, now: Moment)
    ensures
        fair(Place::CatalogueEthRpc { picker }, now, catalogue_token_list(picker, now)),
{
}

proof fn lemma_catalogue_listed(picker: Pick, now: Moment)
    ensures
        fair(Place::CatalogueTokenList { picker }, now, catalogue_native(picker, now)),
{
}

proof fn lemma_catalogue_native(picker: Pick, word: Word, now: Moment)
    ensures
        fair(Place::CatalogueNative { picker }, now, catalogue_after_native(picker, word, now)),
{
}

proof fn lemma_balances_offered(
    chain_id: i64,
    address: Seq<char>,
    extra: Seq<Tree>,
    word: Word,
    now: Moment,
)
    ensures
        fair(
            Place::BalancesOffered { chain_id, address, extra },
            now,
            balances_after_offered(chain_id, address, extra, word, now),
        ),
{
}

proof fn lemma_accounts_list(word: Word, now: Moment)
    ensures
        fair(Place::AccountsList, now, accounts_after_list(word, now)),
{
}

proof fn lemma_accounts_labels(out: Tree, named: Tree, now: Moment)
    ensures
        fair(Place::AccountsLabels { out }, now, accounts_wallets(named, now)),
{
}

proof fn lemma_swap_seeded(job: Task, now: Moment)
    ensures
        fair(Place::SwapEthRpc { job }, now, swap_registry(job, now)),
{
}

/// Where building starts from: a place whose task the form settles without changing what the user
/// chose.
spec fn before_build(place: Place, task: Task) -> bool {
    &&& task_at(place) matches Some(t) && keeps(t, task)
    &&& calls_left(place) > 1
    &&& !(place is SwapEthRpc)
}

proof fn lemma_built_from(place: Place, task: Task, now: Moment)
    requires
        before_build(place, task),
    ensures
        fair(place, now, built_from(task, now)),
{
}

proof fn lemma_priced(place: Place, task: Task, now: Moment)
    requires
        before_build(place, task),
    ensures
        fair(place, now, priced(task, now)),
{
    let form = scaled(task.form).0;
    lemma_built_from(place, Task { form, ..task }, now);
}

proof fn lemma_settle_bought(place: Place, task: Task, now: Moment)
    requires
        before_build(place, task),
        calls_left(place) > 4,
    ensures
        fair(place, now, settle_bought(task, now)),
{
    lemma_priced(place, task, now);
}

proof fn lemma_settle(place: Place, task: Task, now: Moment)
    requires
        before_build(place, task),
        calls_left(place) > 7,
    ensures
        fair(place, now, settle(task, now)),
{
    lemma_settle_bought(place, task, now);
}

proof fn lemma_registry(job: Task, word: Word, now: Moment)
    ensures
        fair(Place::SwapRegistry { job }, now, swap_after_registry(job, word, now)),
{
    lemma_settle(Place::SwapRegistry { job }, job, now);
}

proof fn lemma_side_offered(job: Task, side: Side, word: Word, now: Moment)
    ensures
        fair(Place::SideOffered { job, side }, now, side_after_offered(job, side, word, now)),
{
}

proof fn lemma_side_named(place: Place, job: Task, side: Side, asset: Tree, now: Moment)
    requires
        place == (Place::SideResolve { job, side }) || place == (Place::SideListed { job, side }),
    ensures
        fair(place, now, side_named(job, side, asset, now)),
{
    let (token, symbol, _) = side_of(job.form, side);
    let called = if symbol.len() == 0 {
        asset.text_at("symbol"@)
    } else {
        symbol
    };
    let form = with_side(
        job.form,
        side,
        token_named(asset, token),
        called,
        decimals_at(asset, "decimals"@),
    );
    let task = Task { form, ..job };
    match side {
        Side::Sold => lemma_settle_bought(place, task, now),
        Side::Bought => lemma_priced(place, task, now),
    }
}

proof fn lemma_side_resolve(job: Task, side: Side, word: Word, now: Moment)
    ensures
        fair(Place::SideResolve { job, side }, now, side_after_resolve(job, side, word, now)),
{
    if let Ok(v) = heard(word, "evm_assets_module"@) {
        lemma_side_named(
            Place::SideResolve { job, side },
            job,
            side,
            field_or(v, "asset"@, Tree::Null),
            now,
        );
    }
}

proof fn lemma_side_listed(job: Task, side: Side, word: Word, now: Moment)
    ensures
        fair(Place::SideListed { job, side }, now, side_after_listed(job, side, word, now)),
{
    if let Ok(v) = heard(word, "token_list_module"@) {
        lemma_side_named(
            Place::SideListed { job, side },
            job,
            side,
            v.list_at("tokens"@)[0],
            now,
        );
    }
}

proof fn lemma_build(job: Task, deadline: u64, word: Word, now: Moment)
    ensures
        fair(Place::Build { job, deadline }, now, after_build(job, deadline, word, now)),
{
}

#[verifier::rlimit(50)]
proof fn lemma_fair(place: Place, word: Word, now: Moment)
    ensures
        fair(place, now, after(place, word, now)),
{
    match place {
        Place::StartupEthRpc => lemma_startup(now),
        Place::NetworksEthRpc => lemma_networks_seeded(now),
        Place::NetworksRegistry => lemma_networks_registry(word, now),
        Place::TokensEthRpc { chain_id } => lemma_tokens_seeded(chain_id, now),
        Place::TokensTokenList { chain_id } => lemma_tokens_listed(chain_id, now),
        Place::TokensOffered { chain_id } => lemma_tokens_offered(chain_id, word, now),
        Place::CatalogueEthRpc { picker } => lemma_catalogue_seeded(picker, now),
        Place::CatalogueTokenList { picker } => lemma_catalogue_listed(picker, now),
        Place::CatalogueNative { picker } => lemma_catalogue_native(picker, word, now),
        Place::BalancesOffered { chain_id, address, extra } => lemma_balances_offered(
            chain_id,
            address,
            extra,
            word,
            now,
        ),
        Place::AccountsList => lemma_accounts_list(word, now),
        Place::AccountsLabels { out } => lemma_accounts_labels(
            out,
            with_courtesy(out, word, "labels"@),
            now,
        ),
        Place::SwapEthRpc { job } => lemma_swap_seeded(job, now),
        Place::SwapRegistry { job } => lemma_registry(job, word, now),
        Place::SideOffered { job, side } => lemma_side_offered(job, side, word, now),
        Place::SideResolve { job, side } => lemma_side_resolve(job, side, word, now),
        Place::SideListed { job, side } => lemma_side_listed(job, side, word, now),
        Place::Build { job, deadline } => lemma_build(job, deadline, word, now),
        _ => {},
    }
}

/// What is true of the first call of an entry point.
spec fn fair_first(entry: Entry, now: Moment, next: Move) -> bool {
    &&& within(next, now)
    &&& next matches Move::Ask { ask, place: there, .. } ==> {
        &&& !(ask is Send)
        &&& ask is TokenListInitDefaults || ask is ListChainConfigs ==> now.eth_rpc_settled
        &&& entry matches Entry::Request { wish, .. } ==> (task_at(there) matches Some(t) && t.wish
            == wish && (wish is Quote ==> ask is ListOffered || ask is BuildSwap))
    }
}

#[verifier::rlimit(50)]
proof fn lemma_first_request(text: Seq<char>, via: Seq<char>, wish: Wish, now: Moment)
    ensures
        fair_first(Entry::Request { text, via, wish }, now, requested(text, via, wish, now)),
{
}

proof fn lemma_first_startup(now: Moment)
    ensures
        fair_first(Entry::Startup, now, startup(now)),
{
}

proof fn lemma_first_networks(now: Moment)
    ensures
        fair_first(Entry::Networks, now, networks_from(now)),
{
}

proof fn lemma_first_tokens(chain_id: i64, now: Moment)
    ensures
        fair_first(Entry::Tokens { chain_id }, now, tokens_from(chain_id, now)),
{
}

proof fn lemma_first_catalogue(picker: Pick, now: Moment)
    ensures
        fair_first(Entry::Catalogue { picker }, now, catalogue_from(picker, now)),
{
}

#[verifier::rlimit(50)]
proof fn lemma_first(entry: Entry, now: Moment)
    ensures
        fair_first(entry, now, first(entry, now)),
{
    match entry {
        Entry::Startup => lemma_first_startup(now),
        Entry::Networks => lemma_first_networks(now),
        Entry::Tokens { chain_id } => lemma_first_tokens(chain_id, now),
        Entry::Catalogue { picker } => lemma_first_catalogue(picker, now),
        Entry::Request { text, via, wish } => lemma_first_request(text, via, wish, now),
        _ => {},
    }
}

/// Every outbound call is bounded, by what is left of the one allowance of its entry point.
#[verifier::rlimit(50)]
pub proof fn law_every_call_is_bounded(entry: Entry, place: Place, word: Word, now: Moment)
    ensures
        within(first(entry, now), now),
        within(after(place, word, now), now),
        after(place, word, now) matches Move::Ask { place: next, .. } ==> allowance(next)
            == allowance(place),
{
    lemma_first(entry, now);
    lemma_fair(place, word, now);
}

/// Every entry point comes to an end: whatever is answered, each call leaves fewer to make.
#[verifier::rlimit(50)]
pub proof fn law_every_entry_point_ends(place: Place, word: Word, now: Moment)
    ensures
        after(place, word, now) matches Move::Ask { place: next, .. } ==> calls_left(next)
            < calls_left(place),
{
    lemma_fair(place, word, now);
}

/// Money leaves through one sender call: it is asked for by a swap that was built just before, by
/// nothing else, and once it is answered there is only the answer.
#[verifier::rlimit(50)]
pub proof fn law_money_leaves_through_one_call(entry: Entry, place: Place, word: Word, now: Moment)
    ensures
        first(entry, now) matches Move::Ask { ask, .. } ==> !(ask is Send),
        after(place, word, now) matches Move::Ask { ask, place: next, .. } ==> (ask is Send
            <==> next is Send) && (ask is Send ==> place is Build && (task_at(place) matches Some(task)
            && task.wish is Swap)),
        place is Send ==> after(place, word, now) is Answer,
{
    lemma_first(entry, now);
    lemma_fair(place, word, now);
}

/// A quote has no side effects: it reads token rows, has the swap built and priced, and asks for
/// nothing else.
#[verifier::rlimit(50)]
pub proof fn law_quote_has_no_side_effects(
    text: Seq<char>,
    via: Seq<char>,
    place: Place,
    word: Word,
    now: Moment,
)
    ensures
        first(Entry::Request { text, via, wish: Wish::Quote }, now) matches Move::Ask {
            ask,
            place: next,
            ..
        } ==> (ask is ListOffered || ask is BuildSwap) && (task_at(next) matches Some(t) && t.wish
            is Quote),
        (task_at(place) matches Some(task) && task.wish is Quote && !(place is SwapEthRpc)) ==> (
        after(place, word, now) matches Move::Ask { ask, place: next, .. } ==> (ask is ListOffered
            || ask is ResolveAsset || ask is GetTokensByAddress || ask is BuildSwap || ask
            is Prepare) && (task_at(next) matches Some(t) && t.wish is Quote)),
{
    lemma_first(Entry::Request { text, via, wish: Wish::Quote }, now);
    lemma_fair(place, word, now);
}

/// The entry points that make sure of eth_rpc's defaults: the start, the reads in front of which they
/// are needed, and a swap request that is one.
pub open spec fn seeds_first(entry: Entry) -> bool {
    match entry {
        Entry::Startup => true,
        Entry::Networks => true,
        Entry::Tokens { .. } => true,
        Entry::Catalogue { .. } => true,
        Entry::Request { text, wish, .. } => wish is Swap && form_read(text) is Ok,
        _ => false,
    }
}

/// eth_rpc is asked for its defaults without a gate, in front of the registry read and wherever
/// token_list is asked for its own: neither of those is the first call unless eth_rpc has said yes
/// before, and neither follows any other call than that one. Until it has said yes it is asked by
/// each of them, while there is time.
#[verifier::rlimit(50)]
pub proof fn law_eth_rpc_defaults_come_first(entry: Entry, place: Place, word: Word, now: Moment)
    ensures
        first(entry, now) matches Move::Ask { ask, .. } ==> (ask is TokenListInitDefaults || ask
            is ListChainConfigs ==> now.eth_rpc_settled),
        after(place, word, now) matches Move::Ask { ask, .. } ==> {
            &&& ask is TokenListInitDefaults ==> place is StartupEthRpc || place is TokensEthRpc
                || place is CatalogueEthRpc
            &&& ask is ListChainConfigs ==> place is NetworksEthRpc || place is SwapEthRpc
            &&& !(ask is EthRpcInitDefaults)
        },
        !now.eth_rpc_settled && now.elapsed + MIN_SLICE <= READ_BUDGET && seeds_first(entry) ==> (
        first(entry, now) matches Move::Ask { ask, .. } && ask is EthRpcInitDefaults),
{
    lemma_first(entry, now);
    lemma_fair(place, word, now);
}

/// What is sent is the build that was just heard, whole, in the words that `purpose` composes of it,
/// and the answer names those words.
#[verifier::rlimit(50)]
pub proof fn law_what_is_sent(place: Place, word: Word, now: Moment)
    ensures
        after(place, word, now) matches Move::Ask { ask: Ask::Send { request }, grant, place: next }
            ==> {
            &&& place matches Place::Build { job, deadline }
            &&& heard(word, "uniswap_module"@) matches Ok(built)
            &&& request_for(built, job.form, job.via, purpose(job.form, built, job.via)) matches Ok(
                req,
            )
            &&& req.get("purpose"@) == Some(Tree::Text(purpose(job.form, built, job.via)))
            &&& request == bounded_request(req, grant)
            &&& next == (Place::Send {
                job,
                built,
                words: purpose(job.form, built, job.via),
                deadline,
            })
        },
{
    lemma_fair(place, word, now);
    if let Place::Build { job, deadline } = place {
        if let Ok(built) = heard(word, "uniswap_module"@) {
            law_user_fields_as_given(built, job.form, job.via, purpose(job.form, built, job.via));
        }
    }
}

/// A build is asked for with the form as it stands, and only a swap sets a deadline: that many
/// minutes from now, the one that the swap is then answered with.
#[verifier::rlimit(50)]
pub proof fn law_what_is_built(place: Place, word: Word, now: Moment)
    ensures
        after(place, word, now) matches Move::Ask {
            ask: Ask::BuildSwap { chain_id, request },
            place: next,
            ..
        } ==> {
            &&& next matches Place::Build { job, deadline }
            &&& chain_id == job.form.chain_id
            &&& request == module_request(job.form, deadline)
            &&& deadline == deadline_at(job, now)
            &&& job.wish is Quote ==> request.get("deadline"@) is None
            &&& job.wish is Swap && standing(place) && tellable(now) ==> deadline == now.unix_secs
                + job.form.deadline_mins * 60 && request.get("deadline"@) == Some(
                Tree::Unsigned(deadline),
            )
        },
{
    lemma_fair(place, word, now);
    if let Move::Ask { place: Place::Build { job, deadline }, .. } = after(place, word, now) {
        law_only_a_swap_has_a_deadline(job.form, deadline);
    }
}

/// Who asked, and what the user chose, is the same from the request to the sender: a lookup settles
/// tokens, symbols, decimals and the amount, and nothing else.
#[verifier::rlimit(50)]
pub proof fn law_choices_are_kept(place: Place, word: Word, now: Moment)
    ensures
        task_at(place) matches Some(task) ==> (after(place, word, now) matches Move::Ask {
            place: next,
            ..
        } ==> (task_at(next) matches Some(later) && keeps(task, later))),
{
    lemma_fair(place, word, now);
}

/// A base-unit amount, where there is one yet, is in digits.
pub open spec fn amount_in_digits(form: Form) -> bool {
    form.amount_in.len() > 0 ==> digits(form.amount_in)
}

/// How far a form is settled where an entry point stands: the side sold before the side bought is
/// looked up, both and the amount before anything is built.
pub open spec fn settled_so_far(place: Place) -> bool {
    &&& task_at(place) matches Some(task) ==> amount_in_digits(task.form)
    &&& match place {
        Place::SideOffered { job, side } => side is Bought ==> job.form.decimals_in is Some,
        Place::SideResolve { job, side } => side is Bought ==> job.form.decimals_in is Some,
        Place::SideListed { job, side } => side is Bought ==> job.form.decimals_in is Some,
        Place::Build { job, .. } => ready(job.form),
        Place::Prepare { job, .. } => ready(job.form),
        Place::Send { job, .. } => ready(job.form),
        _ => true,
    }
}

/// Whether a form says all that a swap needs: the decimals of both sides, and an amount that is not
/// zero.
pub open spec fn ready(form: Form) -> bool {
    &&& form.decimals_in is Some
    &&& form.decimals_out is Some
    &&& digits(form.amount_in)
    &&& value(form.amount_in) > 0
}

proof fn lemma_scaled(f: Form)
    requires
        amount_in_digits(f),
    ensures
        ({
            let (g, r) = scaled(f);
            r is Ok ==> digits(g.amount_in) && value(g.amount_in) > 0 && g.decimals_in
                == f.decimals_in && g.decimals_out == f.decimals_out
        }),
{
    if let Some(d) = f.decimals_in {
        lemma_numeral(base_value(trimmed(f.amount_units), d as nat));
    }
    let g = scaled(f).0;
    if scaled(f).1 is Ok && value(g.amount_in) == 0 {
        lemma_zero_value(g.amount_in);
    }
}

proof fn lemma_settle_steps(task: Task, now: Moment)
    requires
        amount_in_digits(task.form),
    ensures
        settle(task, now) matches Move::Ask { place, .. } ==> settled_so_far(place),
        task.form.decimals_in is Some ==> (settle_bought(
            task,
            now,
        ) matches Move::Ask { place, .. } ==> settled_so_far(place)),
        task.form.decimals_in is Some && task.form.decimals_out is Some ==> (
        priced(task, now) matches Move::Ask { place, .. } ==> settled_so_far(
            place,
        )),
{
    lemma_scaled(task.form);
}

/// Missing decimals are looked up, never assumed, and nothing is never built, priced or sent: from
/// the request on, a form is settled side by side, and a build is asked for only once both sides
/// have their decimals and the amount is a number above zero.
#[verifier::rlimit(50)]
pub proof fn law_nothing_is_assumed(
    text: Seq<char>,
    via: Seq<char>,
    wish: Wish,
    place: Place,
    word: Word,
    now: Moment,
)
    ensures
        first(Entry::Request { text, via, wish }, now) matches Move::Ask { place: next, .. }
            ==> settled_so_far(next),
        settled_so_far(place) ==> (after(place, word, now) matches Move::Ask { place: next, .. }
            ==> settled_so_far(next)),
{
    if let Ok(t) = json_read(text) {
        law_accepted_form(t);
        if let Ok(form) = form_read(text) {
            lemma_settle_steps(Task { form, via, wish }, now);
        }
    }
    if settled_so_far(place) {
        match place {
            Place::SwapRegistry { job } => lemma_settle_steps(job, now),
            Place::SideResolve { job, side } => {
                if let Ok(v) = heard(word, "evm_assets_module"@) {
                    lemma_named(
                        job,
                        side,
                        field_or(v, "asset"@, Tree::Null),
                        now,
                    );
                }
            },
            Place::SideListed { job, side } => {
                if let Ok(v) = heard(word, "token_list_module"@) {
                    lemma_named(job, side, v.list_at("tokens"@)[0], now);
                }
            },
            _ => {},
        }
    }
}

proof fn lemma_named(task: Task, side: Side, asset: Tree, now: Moment)
    requires
        amount_in_digits(task.form),
        side is Bought ==> task.form.decimals_in is Some,
    ensures
        side_named(task, side, asset, now) matches Move::Ask { place, .. }
            ==> settled_so_far(place),
{
    let (token, symbol, _) = side_of(task.form, side);
    let called = if symbol.len() == 0 {
        asset.text_at("symbol"@)
    } else {
        symbol
    };
    let form = with_side(
        task.form,
        side,
        token_named(asset, token),
        called,
        decimals_at(asset, "decimals"@),
    );
    lemma_settle_steps(Task { form, ..task }, now);
}

/// A swap goes on only on a chain that is switched on and in scope.
pub proof fn law_swaps_only_in_scope(job: Task, word: Word, now: Moment)
    ensures
        after(Place::SwapRegistry { job }, word, now) is Ask ==> (heard(
            word,
            "eth_rpc_module"@,
        ) matches Ok(v) && chain_in_scope(v.list_at("chains"@), job.form.chain_id)),
{
}

/// A swap's status always says whether it is the end, and it is not unless the sender says so in an
/// object: silence, noise and a call that ran out of time mean ask again.
pub proof fn law_status_says_whether_it_is_the_end(word: Word)
    ensures
        status_from(word).bool_at("final"@) == Some(
            word matches Word::Value { value, .. } && value is Object && ended(value),
        ),
{
    reveal_strlit("ok");
    reveal_strlit("final");
    reveal_strlit("error");
    reveal_strlit("code");
    assert("ok"@.len() == 2);
    assert("final"@.len() == 5 && "final"@[0] == 'f');
    assert("error"@.len() == 5 && "error"@[0] == 'e');
    assert("code"@.len() == 4);
}

/// A name is a courtesy: whatever the keystore says of names and wallets, the accounts stay as they
/// were read.
pub proof fn law_a_name_is_a_courtesy(out: Tree, word: Word, key: Seq<char>, other: Seq<char>)
    requires
        out is Object,
        other != key,
    ensures
        with_courtesy(out, word, key).get(other) == out.get(other),
        heard(word, "keystore_module"@) is Err ==> with_courtesy(out, word, key) == out,
{
}

/// A swap that the sender took is answered with all that the sender said, and with the chain, the
/// account, the words, the minimum and the deadline that it was asked with.
pub proof fn law_swap_is_answered_with_what_was_asked(
    job: Task,
    built: Tree,
    words: Seq<char>,
    deadline: u64,
    sent: Tree,
    key: Seq<char>,
)
    requires
        sent is Object,
    ensures
        ({
            let said = swap_answer(sent, job.form, built, words, deadline);
            &&& said.get("chainId"@) == Some(number(job.form.chain_id as int))
            &&& said.get("from"@) == Some(Tree::Text(job.form.from))
            &&& said.get("purpose"@) == Some(Tree::Text(words))
            &&& said.get("amountOutMin"@) == Some(field_or(built, "amountOutMin"@, Tree::Null))
            &&& said.get("deadline"@) == Some(Tree::Unsigned(deadline))
            &&& key != "chainId"@ && key != "from"@ && key != "purpose"@ && key != "amountOutMin"@
                && key != "deadline"@ ==> said.get(key) == sent.get(key)
        }),
{
    reveal_strlit("chainId");
    reveal_strlit("from");
    reveal_strlit("purpose");
    reveal_strlit("amountOutMin");
    reveal_strlit("deadline");
    assert("chainId"@.len() == 7 && "chainId"@[0] == 'c');
    assert("from"@.len() == 4);
    assert("purpose"@.len() == 7 && "purpose"@[0] == 'p');
    assert("amountOutMin"@.len() == 12);
    assert("deadline"@.len() == 8);
}

} // verus!
