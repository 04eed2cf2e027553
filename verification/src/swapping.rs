//! A quote and a swap: what is asked to settle the form, to build the swap, and to have it priced or
//! sent.
use crate::budget::{
    callee_deadline, deadline_for, grant, slice, BUILD_BUDGET, LOCAL_BUDGET, PROBE_BUDGET,
    QUOTE_BUDGET, SENDER_BUDGET, SWAP_BUDGET,
};
use crate::calls::{Ask, Call};
use crate::digits::{signed, signed_decimal};
use crate::flow::{
    allowance_for, answer_with, answers_with, ask_or_refuse, asks_or_refuses, bounded, refuse,
    refuses, sound, tellable, timely, Flow, Job, Moment, Move, Place, Side, Step, Task, Unrated,
    Wish,
};
use crate::form::{
    address, decimals_at, decimals_of, form_read, is_address, is_native, law_accepted_form,
    native, parse_form, scale, scaled, Form, SwapForm,
};
use crate::json::{number, trees, Json, Tree};
use crate::rate::{rate_terms, terms};
use crate::reads::{eth_rpc_seeding, field_or, first_token, seeds_eth_rpc};
use crate::replies::{heard, law_refusals_say_no, refused, reply, worded, Reply, Word};
use crate::requests::{
    merged_quote, module_request, purpose, quote_for, request_for, sender_request,
    swap_module_request, swap_purpose,
};
use crate::wire::json_read;
use vstd::prelude::*;

verus! {

/// The token, the symbol and the decimal places of one side of a form.
pub open spec fn side_of(form: Form, side: Side) -> (Seq<char>, Seq<char>, Option<u32>) {
    match side {
        Side::Sold => (form.token_in, form.symbol_in, form.decimals_in),
        Side::Bought => (form.token_out, form.symbol_out, form.decimals_out),
    }
}

/// The form with that token, symbol and decimal places on one side.
pub open spec fn with_side(
    form: Form,
    side: Side,
    token: Seq<char>,
    symbol: Seq<char>,
    decimals: Option<u32>,
) -> Form {
    match side {
        Side::Sold => Form { token_in: token, symbol_in: symbol, decimals_in: decimals, ..form },
        Side::Bought => Form {
            token_out: token,
            symbol_out: symbol,
            decimals_out: decimals,
            ..form
        },
    }
}

/// Whether a side needs no lookup: a caller that names decimals is taken at its word.
pub open spec fn side_known(form: Form, side: Side) -> bool {
    let (token, _, decimals) = side_of(form, side);
    decimals is Some && (native(token) || address(token))
}

/// Where both sides are settled: the amount in base units, then the build.
pub open spec fn priced(task: Task, now: Moment) -> Move {
    match scaled(task.form) {
        (_, Err(words)) => refuses(words),
        (form, Ok(_)) => built_from(Task { form, ..task }, now),
    }
}

/// The deadline of a build: none for a quote.
pub open spec fn deadline_at(task: Task, now: Moment) -> u64 {
    match task.wish {
        Wish::Quote => 0,
        Wish::Swap => (now.unix_secs + task.form.deadline_mins * 60) as u64,
    }
}

/// A FRESH build: the figures on screen may be a block old, and the minimum and the deadline are set
/// from this one.
pub open spec fn built_from(task: Task, now: Moment) -> Move {
    let deadline = deadline_at(task, now);
    asks_or_refuses(
        Ask::BuildSwap {
            chain_id: task.form.chain_id,
            request: module_request(task.form, deadline),
        },
        now.elapsed,
        BUILD_BUDGET,
        Place::Build { job: task, deadline },
        "no time left to quote the swap"@,
    )
}

/// Look one side up, where it is not named exactly.
pub open spec fn looked_up(task: Task, side: Side, now: Moment) -> Move {
    asks_or_refuses(
        Ask::ListOffered { chain_id: task.form.chain_id },
        now.elapsed,
        LOCAL_BUDGET,
        Place::SideOffered { job: task, side },
        "no time left to read the offered tokens"@,
    )
}

/// Name the side bought exactly, then go on.
pub open spec fn settle_bought(task: Task, now: Moment) -> Move {
    if side_known(task.form, Side::Bought) {
        priced(task, now)
    } else {
        looked_up(task, Side::Bought, now)
    }
}

/// Name the side sold exactly, then the side bought, then go on.
pub open spec fn settle(task: Task, now: Moment) -> Move {
    if side_known(task.form, Side::Sold) {
        settle_bought(task, now)
    } else {
        looked_up(task, Side::Sold, now)
    }
}

/// Go on where one side is named exactly.
pub open spec fn side_settled(task: Task, side: Side, now: Moment) -> Move {
    match side {
        Side::Sold => settle_bought(task, now),
        Side::Bought => priced(task, now),
    }
}

pub open spec fn side_after_offered(task: Task, side: Side, word: Word, now: Moment) -> Move {
    match heard(word, "token_list_module"@) {
        Err(refusal) => answers_with(refusal),
        Ok(v) => asks_or_refuses(
            Ask::ResolveAsset {
                chain_id: task.form.chain_id,
                token: side_of(task.form, side).0,
                offered: Tree::Array(v.list_at("tokens"@)),
            },
            now.elapsed,
            LOCAL_BUDGET,
            Place::SideResolve { job: task, side },
            "no time left to look the token up"@,
        ),
    }
}

/// What an asset row calls its token; the token as it was asked for where it says nothing.
pub open spec fn token_named(asset: Tree, token: Seq<char>) -> Seq<char> {
    if asset.bool_at("native"@) == Some(true) {
        "ETH"@
    } else {
        match asset.get("address"@) {
            Some(Tree::Text(a)) => a,
            _ => token,
        }
    }
}

/// One side named by an asset row: its address (or "ETH"), its decimals, and its symbol where the
/// caller gave none.
pub open spec fn side_named(task: Task, side: Side, asset: Tree, now: Moment) -> Move {
    let (token, symbol, _) = side_of(task.form, side);
    let named = token_named(asset, token);
    let called = if symbol.len() == 0 {
        asset.text_at("symbol"@)
    } else {
        symbol
    };
    let decimals = decimals_at(asset, "decimals"@);
    if decimals is None {
        refuses(named + " has no decimals on record"@)
    } else {
        side_settled(
            Task { form: with_side(task.form, side, named, called, decimals), ..task },
            side,
            now,
        )
    }
}

pub open spec fn side_after_resolve(task: Task, side: Side, word: Word, now: Moment) -> Move {
    let token = side_of(task.form, side).0;
    match heard(word, "evm_assets_module"@) {
        Ok(v) => side_named(task, side, field_or(v, "asset"@, Tree::Null), now),
        Err(refusal) => if address(token) {
            asks_or_refuses(
                Ask::GetTokensByAddress {
                    chain_id: task.form.chain_id,
                    addresses: Tree::Array(seq![Tree::Text(token)]),
                },
                now.elapsed,
                LOCAL_BUDGET,
                Place::SideListed { job: task, side },
                "no time left to look the token up"@,
            )
        } else {
            answers_with(refusal)
        },
    }
}

pub open spec fn side_after_listed(task: Task, side: Side, word: Word, now: Moment) -> Move {
    match heard(word, "token_list_module"@) {
        Err(refusal) => answers_with(refusal),
        Ok(v) => {
            let rows = v.list_at("tokens"@);
            if rows.len() == 0 {
                refuses(
                    side_of(task.form, side).0 + " is not in the token list; name its decimals"@,
                )
            } else {
                side_named(task, side, rows[0], now)
            }
        },
    }
}

/// The exec form of `side_of`, token and symbol.
fn side_texts(form: &SwapForm, side: Side) -> (r: (&str, &str))
    ensures
        r.0@ == side_of(form@, side).0,
        r.1@ == side_of(form@, side).1,
{
    match side {
        Side::Sold => (form.token_in.as_str(), form.symbol_in.as_str()),
        Side::Bought => (form.token_out.as_str(), form.symbol_out.as_str()),
    }
}

fn is_side_known(form: &SwapForm, side: Side) -> (r: bool)
    ensures
        r == side_known(form@, side),
{
    let (token, _) = side_texts(form, side);
    let decimals: Option<u32> = match side {
        Side::Sold => form.decimals_in,
        Side::Bought => form.decimals_out,
    };
    match decimals {
        Some(_) => is_native(token) || is_address(token),
        None => false,
    }
}

fn allowed(wish: Wish) -> (r: u128)
    ensures
        r == allowance_for(wish),
{
    match wish {
        Wish::Quote => QUOTE_BUDGET,
        Wish::Swap => SWAP_BUDGET,
    }
}

/// uniswap_module's `build_swap`: the quote, and the calls in the order they must land.
fn build(job: Job, now: &Moment) -> (r: Step)
    requires
        bounded(job.form@),
        timely(job.wish, *now),
    ensures
        r@ == built_from(job@, *now),
        sound(r@),
{
    let deadline: u64 = match job.wish {
        Wish::Quote => 0,
        Wish::Swap => now.unix_secs + job.form.deadline_mins as u64 * 60,
    };
    ask_or_refuse(
        allowed(job.wish),
        Call::BuildSwap {
            chain_id: job.form.chain_id,
            request: swap_module_request(&job.form, deadline),
        },
        now.elapsed,
        BUILD_BUDGET,
        Flow::Build { job, deadline },
        "no time left to quote the swap",
    )
}

/// Both sides named exactly: the amount in base units, then the build.
fn price(job: Job, now: &Moment) -> (r: Step)
    requires
        bounded(job.form@),
        timely(job.wish, *now),
    ensures
        r@ == priced(job@, *now),
        sound(r@),
{
    let mut form = job.form;
    match scale(&mut form) {
        Err(words) => refuse(words.as_str()),
        Ok(_) => build(Job { form, via: job.via, wish: job.wish }, now),
    }
}

fn look_up(job: Job, side: Side, now: &Moment) -> (r: Step)
    requires
        bounded(job.form@),
    ensures
        r@ == looked_up(job@, side, *now),
        sound(r@),
{
    ask_or_refuse(
        allowed(job.wish),
        Call::ListOffered { chain_id: job.form.chain_id },
        now.elapsed,
        LOCAL_BUDGET,
        Flow::SideOffered { job, side },
        "no time left to read the offered tokens",
    )
}

fn complete_bought(job: Job, now: &Moment) -> (r: Step)
    requires
        bounded(job.form@),
        timely(job.wish, *now),
    ensures
        r@ == settle_bought(job@, *now),
        sound(r@),
{
    if is_side_known(&job.form, Side::Bought) {
        price(job, now)
    } else {
        look_up(job, Side::Bought, now)
    }
}

/// A parsed request completed: both sides named exactly, the amount in base units, then the build.
pub(crate) fn complete(job: Job, now: &Moment) -> (r: Step)
    requires
        bounded(job.form@),
        timely(job.wish, *now),
    ensures
        r@ == settle(job@, *now),
        sound(r@),
{
    if is_side_known(&job.form, Side::Sold) {
        complete_bought(job, now)
    } else {
        look_up(job, Side::Sold, now)
    }
}

pub(crate) fn resolve_side(job: Job, side: Side, word: Reply, now: &Moment) -> (r: Step)
    requires
        bounded(job.form@),
    ensures
        r@ == side_after_offered(job@, side, word@, *now),
        sound(r@),
{
    match reply(word, "token_list_module") {
        Err(refusal) => answer_with(refusal),
        Ok(v) => {
            let token = side_texts(&job.form, side).0.to_owned();
            ask_or_refuse(
                allowed(job.wish),
                Call::ResolveAsset {
                    chain_id: job.form.chain_id,
                    token,
                    offered: Json::array(v.list_of("tokens")),
                },
                now.elapsed,
                LOCAL_BUDGET,
                Flow::SideResolve { job, side },
                "no time left to look the token up",
            )
        },
    }
}

/// Name one side of the swap exactly: its address (or "ETH"), decimals and symbol.
fn settle_side(job: Job, side: Side, asset: &Json, now: &Moment) -> (r: Step)
    requires
        bounded(job.form@),
        timely(job.wish, *now),
    ensures
        r@ == side_named(job@, side, asset@, *now),
        sound(r@),
{
    let (token, symbol) = side_texts(&job.form, side);
    let native = match asset.bool_of("native") {
        Some(b) => b,
        None => false,
    };
    let named = if native {
        "ETH".to_owned()
    } else {
        match asset.get("address") {
            Some(Json::Text(a)) => a.clone(),
            _ => token.to_owned(),
        }
    };
    let called = if symbol.is_empty() {
        asset.str_of("symbol").to_owned()
    } else {
        symbol.to_owned()
    };
    let decimals = decimals_of(asset, "decimals");
    if decimals.is_none() {
        let mut words = named;
        words.append(" has no decimals on record");
        return refuse(words.as_str());
    }
    let ghost before = job@;
    let mut form = job.form;
    match side {
        Side::Sold => {
            form.token_in = named;
            form.symbol_in = called;
            form.decimals_in = decimals;
        },
        Side::Bought => {
            form.token_out = named;
            form.symbol_out = called;
            form.decimals_out = decimals;
        },
    }
    let job = Job { form, via: job.via, wish: job.wish };
    assert(job@ == (Task {
        form: with_side(before.form, side, named@, called@, decimals),
        ..before
    }));
    match side {
        Side::Sold => complete_bought(job, now),
        Side::Bought => price(job, now),
    }
}

pub(crate) fn take_asset(job: Job, side: Side, word: Reply, now: &Moment) -> (r: Step)
    requires
        bounded(job.form@),
        timely(job.wish, *now),
    ensures
        r@ == side_after_resolve(job@, side, word@, *now),
        sound(r@),
{
    let token = side_texts(&job.form, side).0.to_owned();
    match reply(word, "evm_assets_module") {
        Ok(v) => match v.get("asset") {
            Some(asset) => settle_side(job, side, asset, now),
            None => settle_side(job, side, &Json::Null, now),
        },
        Err(refusal) => {
            if !is_address(token.as_str()) {
                return answer_with(refusal);
            }
            let mut addresses: Vec<Json> = Vec::new();
            addresses.push(Json::Text(token));
            assert(trees(addresses@) =~= seq![Tree::Text(token@)]);
            ask_or_refuse(
                allowed(job.wish),
                Call::GetTokensByAddress {
                    chain_id: job.form.chain_id,
                    addresses: Json::array(addresses),
                },
                now.elapsed,
                LOCAL_BUDGET,
                Flow::SideListed { job, side },
                "no time left to look the token up",
            )
        },
    }
}

/// Any catalogue row token_list holds for the address, offered or not.
pub(crate) fn take_listed(job: Job, side: Side, word: Reply, now: &Moment) -> (r: Step)
    requires
        bounded(job.form@),
        timely(job.wish, *now),
    ensures
        r@ == side_after_listed(job@, side, word@, *now),
        sound(r@),
{
    match reply(word, "token_list_module") {
        Err(refusal) => answer_with(refusal),
        Ok(v) => match first_token(&v) {
            Some(row) => settle_side(job, side, &row, now),
            None => {
                let mut words = side_texts(&job.form, side).0.to_owned();
                words.append(" is not in the token list; name its decimals");
                refuse(words.as_str())
            },
        },
    }
}

/// A swap request taken up, once it is read: a quote settles the form, a swap makes sure first that
/// its chain is in scope.
pub open spec fn taken_up(form: Form, via: Seq<char>, wish: Wish, now: Moment) -> Move {
    let task = Task { form, via, wish };
    match wish {
        Wish::Quote => settle(task, now),
        Wish::Swap => match seeds_eth_rpc(now, Place::SwapEthRpc { job: task }) {
            Some(next) => next,
            None => swap_registry(task, now),
        },
    }
}

/// A swap request taken up, or refused in words.
pub open spec fn requested(request: Seq<char>, via: Seq<char>, wish: Wish, now: Moment) -> Move {
    match form_read(request) {
        Err(words) => refuses(words),
        Ok(form) => taken_up(form, via, wish, now),
    }
}

pub open spec fn swap_registry(task: Task, now: Moment) -> Move {
    asks_or_refuses(
        Ask::ListChainConfigs,
        now.elapsed,
        PROBE_BUDGET,
        Place::SwapRegistry { job: task },
        "no time left to read the chain registry"@,
    )
}

/// Whether a chain is switched on and in scope, by the registry's records.
pub open spec fn chain_in_scope(records: Seq<Tree>, chain_id: i64) -> bool {
    exists|i: int|
        0 <= i < records.len() && (#[trigger] records[i]).signed_at("chainId"@) == Some(chain_id)
            && records[i].bool_at("enabled"@) == Some(true) && records[i].bool_at("inScope"@)
            == Some(true)
}

/// What is said of a chain that is not in scope.
pub open spec fn out_of_scope(chain_id: i64) -> Seq<char> {
    "chain "@ + signed(chain_id as int) + " is not enabled in the current network scope"@
}

pub open spec fn swap_after_registry(task: Task, word: Word, now: Moment) -> Move {
    match heard(word, "eth_rpc_module"@) {
        Err(refusal) => answers_with(refusal),
        Ok(v) => if chain_in_scope(v.list_at("chains"@), task.form.chain_id) {
            settle(task, now)
        } else {
            refuses(out_of_scope(task.form.chain_id))
        },
    }
}

/// A swap request that is read, taken up.
pub fn take_up(form: SwapForm, via: String, wish: Wish, now: &Moment) -> (r: Step)
    requires
        bounded(form@),
        timely(wish, *now),
    ensures
        r@ == taken_up(form@, via@, wish, *now),
        sound(r@),
{
    let job = Job { form, via, wish };
    match wish {
        Wish::Quote => complete(job, now),
        Wish::Swap => match eth_rpc_seeding(SWAP_BUDGET, now) {
            Some(grant) => Step::Ask {
                call: Call::EthRpcInitDefaults,
                grant,
                flow: Flow::SwapEthRpc { job },
            },
            None => check_scope(job, now),
        },
    }
}

fn request(request_json: &str, via: String, wish: Wish, now: &Moment) -> (r: Step)
    requires
        timely(wish, *now),
    ensures
        r@ == requested(request_json@, via@, wish, *now),
        sound(r@),
{
    match parse_form(request_json) {
        Err(words) => refuse(words.as_str()),
        Ok(form) => {
            proof {
                if let Ok(t) = json_read(request_json@) {
                    law_accepted_form(t);
                }
            }
            take_up(form, via, wish, now)
        },
    }
}

/// Price a swap without side effects. A token is an address, "ETH", or an offered symbol, and
/// missing decimals are looked up. The fee fields are the user's, in wei, relayed as given,
/// `gasLimits` one per call in build order. The reply is uniswap_module's `build_swap` with the
/// display figures and `tx_sender_module`'s `prepare` under `fee`.
pub fn quote(request_json: &str, via: String, now: &Moment) -> (r: Step)
    ensures
        r@ == requested(request_json@, via@, Wish::Quote, *now),
        sound(r@),
{
    request(request_json, via, Wish::Quote, now)
}

/// Build the swap afresh and ask the sender to make it. Nothing is signed yet; poll `swap_status`.
pub fn swap(request_json: &str, via: String, now: &Moment) -> (r: Step)
    requires
        tellable(*now),
    ensures
        r@ == requested(request_json@, via@, Wish::Swap, *now),
        sound(r@),
{
    request(request_json, via, Wish::Swap, now)
}

pub(crate) fn check_scope(job: Job, now: &Moment) -> (r: Step)
    requires
        bounded(job.form@),
    ensures
        r@ == swap_registry(job@, *now),
        sound(r@),
{
    ask_or_refuse(
        allowed(job.wish),
        Call::ListChainConfigs,
        now.elapsed,
        PROBE_BUDGET,
        Flow::SwapRegistry { job },
        "no time left to read the chain registry",
    )
}

fn in_scope(registry: &Json, chain_id: i64) -> (r: bool)
    ensures
        r == chain_in_scope(registry@.list_at("chains"@), chain_id),
{
    match registry.array_of("chains") {
        None => false,
        Some(records) => {
            let ghost all = trees(records@);
            let mut i: usize = 0;
            while i < records.len()
                invariant
                    i <= records@.len(),
                    all == trees(records@),
                    registry@.list_at("chains"@) == all,
                    forall|j: int|
                        0 <= j < i ==> !((#[trigger] all[j]).signed_at("chainId"@) == Some(chain_id)
                            && all[j].bool_at("enabled"@) == Some(true) && all[j].bool_at(
                            "inScope"@,
                        ) == Some(true)),
                decreases records@.len() - i,
            {
                let record = &records[i];
                assert(all[i as int] == record@);
                let this = match record.i64_of("chainId") {
                    Some(id) => id == chain_id,
                    None => false,
                };
                let enabled = match record.bool_of("enabled") {
                    Some(b) => b,
                    None => false,
                };
                let scoped = match record.bool_of("inScope") {
                    Some(b) => b,
                    None => false,
                };
                if this && enabled && scoped {
                    return true;
                }
                i += 1;
            }
            false
        },
    }
}

pub(crate) fn take_registry(job: Job, word: Reply, now: &Moment) -> (r: Step)
    requires
        bounded(job.form@),
        timely(job.wish, *now),
    ensures
        r@ == swap_after_registry(job@, word@, *now),
        sound(r@),
{
    match reply(word, "eth_rpc_module") {
        Err(refusal) => answer_with(refusal),
        Ok(v) => if in_scope(&v, job.form.chain_id) {
            complete(job, now)
        } else {
            let mut words = "chain ".to_owned();
            words.append(signed_decimal(job.form.chain_id).as_str());
            words.append(" is not enabled in the current network scope");
            refuse(words.as_str())
        },
    }
}

/// What the sender is asked, once it is known how long it is waited for: the deadline it is told is
/// shorter.
pub open spec fn bounded_request(req: Tree, wait: u128) -> Tree {
    match deadline_for(wait) {
        Some(ms) => req.with("deadlineMs"@, number(ms as int)),
        None => req,
    }
}

fn bound_request(req: Json, wait: u128) -> (r: Json)
    requires
        req@ is Object,
    ensures
        r@ == bounded_request(req@, wait),
{
    match callee_deadline(wait) {
        Some(ms) => req.with("deadlineMs", Json::signed(ms)),
        None => req,
    }
}

/// A quote once it is built: the sender prices it, where there is time and the user's own fields
/// let it.
pub open spec fn quote_after_build(task: Task, built: Tree, now: Moment) -> Move {
    let form = task.form;
    match request_for(built, form, task.via, Seq::empty()) {
        Err(words) => Move::Rate { built, fee: refused(words), form },
        Ok(req) => match grant(allowance_for(task.wish), now.elapsed, SENDER_BUDGET) {
            None => Move::Rate { built, fee: refused("no time left to price the swap"@), form },
            Some(wait) => Move::Ask {
                ask: Ask::Prepare { request: bounded_request(req, wait) },
                grant: wait,
                place: Place::Prepare { job: task, built },
            },
        },
    }
}

/// A swap once it is built: the sender is asked to make it, in the words that the human approves.
pub open spec fn swap_after_build(task: Task, built: Tree, deadline: u64, now: Moment) -> Move {
    let words = purpose(task.form, built, task.via);
    match request_for(built, task.form, task.via, words) {
        Err(why) => refuses(why),
        Ok(req) => match grant(allowance_for(task.wish), now.elapsed, SENDER_BUDGET) {
            None => refuses("no time left to request approval"@),
            Some(wait) => Move::Ask {
                ask: Ask::Send { request: bounded_request(req, wait) },
                grant: wait,
                place: Place::Send { job: task, built, words, deadline },
            },
        },
    }
}

pub open spec fn after_build(task: Task, deadline: u64, word: Word, now: Moment) -> Move {
    match heard(word, "uniswap_module"@) {
        Err(refusal) => answers_with(refusal),
        Ok(built) => match task.wish {
            Wish::Quote => quote_after_build(task, built, now),
            Wish::Swap => swap_after_build(task, built, deadline, now),
        },
    }
}

/// What the sender said of a quote's cost.
pub open spec fn after_prepare(task: Task, built: Tree, word: Word) -> Move {
    let fee = match heard(word, "tx_sender_module"@) {
        Ok(v) => v,
        Err(refusal) => refusal,
    };
    Move::Rate { built, fee, form: task.form }
}

/// What a swap is answered once the sender took it: deliberately no hash, for nothing is signed or
/// broadcast until a human approves.
pub open spec fn swap_answer(
    sent: Tree,
    form: Form,
    built: Tree,
    words: Seq<char>,
    deadline: u64,
) -> Tree {
    sent.with("chainId"@, number(form.chain_id as int)).with("from"@, Tree::Text(form.from)).with(
        "purpose"@,
        Tree::Text(words),
    ).with("amountOutMin"@, field_or(built, "amountOutMin"@, Tree::Null)).with(
        "deadline"@,
        Tree::Unsigned(deadline),
    )
}

pub open spec fn after_send(
    task: Task,
    built: Tree,
    words: Seq<char>,
    deadline: u64,
    word: Word,
) -> Move {
    match heard(word, "tx_sender_module"@) {
        Err(refusal) => answers_with(refusal),
        Ok(v) => answers_with(swap_answer(v, task.form, built, words, deadline)),
    }
}

fn price_build(job: Job, built: Json, now: &Moment) -> (r: Step)
    requires
        bounded(job.form@),
        built@ is Object,
    ensures
        r@ == quote_after_build(job@, built@, *now),
        sound(r@),
{
    proof {
        reveal_strlit("");
        assert(""@ =~= Seq::<char>::empty());
    }
    let req = match sender_request(&built, &job.form, job.via.as_str(), "") {
        Err(words) => {
            return Step::Rate(Unrated { built, fee: worded(words.as_str()), form: job.form });
        },
        Ok(req) => req,
    };
    match slice(allowed(job.wish), now.elapsed, SENDER_BUDGET) {
        None => Step::Rate(
            Unrated { built, fee: worded("no time left to price the swap"), form: job.form },
        ),
        Some(wait) => Step::Ask {
            call: Call::Prepare { request: bound_request(req, wait) },
            grant: wait,
            flow: Flow::Prepare { job, built },
        },
    }
}

fn send_build(job: Job, built: Json, deadline: u64, now: &Moment) -> (r: Step)
    requires
        bounded(job.form@),
        built@ is Object,
    ensures
        r@ == swap_after_build(job@, built@, deadline, *now),
        sound(r@),
{
    let words = swap_purpose(&job.form, &built, job.via.as_str());
    let req = match sender_request(&built, &job.form, job.via.as_str(), words.as_str()) {
        Err(why) => {
            return refuse(why.as_str());
        },
        Ok(req) => req,
    };
    match slice(allowed(job.wish), now.elapsed, SENDER_BUDGET) {
        None => refuse("no time left to request approval"),
        Some(wait) => Step::Ask {
            call: Call::Send { request: bound_request(req, wait) },
            grant: wait,
            flow: Flow::Send { job, built, words, deadline },
        },
    }
}

pub(crate) fn take_build(job: Job, deadline: u64, word: Reply, now: &Moment) -> (r: Step)
    requires
        bounded(job.form@),
    ensures
        r@ == after_build(job@, deadline, word@, *now),
        sound(r@),
{
    proof {
        law_refusals_say_no(word@, "uniswap_module"@);
    }
    match reply(word, "uniswap_module") {
        Err(refusal) => answer_with(refusal),
        Ok(built) => match job.wish {
            Wish::Quote => price_build(job, built, now),
            Wish::Swap => send_build(job, built, deadline, now),
        },
    }
}

pub(crate) fn take_price(job: Job, built: Json, word: Reply) -> (r: Step)
    requires
        built@ is Object,
    ensures
        r@ == after_prepare(job@, built@, word@),
        sound(r@),
{
    let fee = match reply(word, "tx_sender_module") {
        Ok(v) => v,
        Err(refusal) => refusal,
    };
    Step::Rate(Unrated { built, fee, form: job.form })
}

pub(crate) fn tell_swap(
    job: Job,
    built: Json,
    words: String,
    deadline: u64,
    word: Reply,
) -> (r: Step)
    ensures
        r@ == after_send(job@, built@, words@, deadline, word@),
        sound(r@),
{
    proof {
        law_refusals_say_no(word@, "tx_sender_module"@);
    }
    match reply(word, "tx_sender_module") {
        Err(refusal) => answer_with(refusal),
        Ok(v) => {
            let least = match built.get("amountOutMin") {
                Some(m) => m.clone(),
                None => Json::Null,
            };
            answer_with(
                v.with("chainId", Json::signed(job.form.chain_id)).with(
                    "from",
                    Json::text(job.form.from.as_str()),
                ).with("purpose", Json::Text(words)).with("amountOutMin", least).with(
                    "deadline",
                    Json::Unsigned(deadline),
                ),
            )
        },
    }
}

/// The two amounts that a quote's rate is made of, in token units: what leaves, and what comes back.
pub open spec fn quote_terms(built: Tree, form: Form) -> Option<(Seq<char>, Seq<char>)> {
    terms(
        form.amount_in,
        form.decimals_in.unwrap_or(18),
        built.text_at("amountOut"@),
        form.decimals_out.unwrap_or(18),
    )
}

impl Unrated {
    /// The two amounts that the rate is made of, in token units: what leaves, and what comes back.
    /// `None` where one of them is no amount, or is nothing.
    pub fn terms(&self) -> (r: Option<(String, String)>)
        ensures
            match r {
                Some(t) => quote_terms(self.built@, self.form@) == Some((t.0@, t.1@)),
                None => quote_terms(self.built@, self.form@) is None,
            },
    {
        rate_terms(
            self.form.amount_in.as_str(),
            self.form.decimals_in.unwrap_or(18),
            self.built.str_of("amountOut"),
            self.form.decimals_out.unwrap_or(18),
        )
    }

    /// The quote, with its rate line both ways.
    pub fn rated(&self, rate: &str, rate_inverse: &str) -> (r: Json)
        requires
            self.built@ is Object,
        ensures
            r@ == quote_for(self.built@, self.fee@, self.form@, rate@, rate_inverse@),
    {
        merged_quote(&self.built, &self.fee, &self.form, rate, rate_inverse)
    }
}

} // verus!
