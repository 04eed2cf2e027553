//! The entry points that read: what each asks, in which order, and what it makes of the answers.
use crate::budget::{
    slice, ACCOUNTS_BUDGET, ASSETS_BUDGET, BALANCES_BUDGET, CANCEL_BUDGET, FEES_BUDGET,
    HISTORY_BUDGET, INIT_BUDGET, LOCAL_BUDGET, PROBE_BUDGET, READ_BUDGET, STARTUP_BUDGET,
    STATUS_BUDGET, TOKENS_BUDGET, VERDICT_BUDGET,
};
use crate::calls::{Ask, Call};
use crate::digits::{signed, signed_decimal};
use crate::flow::{
    allowance, answer_with, answers_with, ask_or_refuse, asks, asks_or_refuses, refuse, refuses,
    sound, Flow, Moment, Move, Pick, Picker, Place, Step,
};
use crate::history::{ended, group_swaps, is_final, swaps_in};
use crate::json::{empty_object, number, trees, Json, Tree};
use crate::networks::{
    chain_ids, deployed_chains, networks_in, swappable_networks, unsupported_in,
};
use crate::replies::{
    heard, relay, relayed, reply, said_of, told, verdict_from, verdict_of, Reply, Word,
};
use crate::requests::APP;
use crate::tokens::{
    answers, can_merge, joined, listed_offset, merge_native_page, mergeable, merged_page,
    native_matches, parse_tokens, provider_offset, tokens_read, union_tokens,
};
use vstd::prelude::*;

verus! {

/// Ask eth_rpc for its default chains, where it has not said yes yet and there is time. No
/// `config_status` gate: it fills only what is absent and seeds a default chain at most once per
/// device, so a store another app has already written to still gets the defaults it lacks.
pub open spec fn seeds_eth_rpc(now: Moment, place: Place) -> Option<Move> {
    if now.eth_rpc_settled {
        None
    } else {
        asks(Ask::EthRpcInitDefaults, now.elapsed, INIT_BUDGET, place)
    }
}

/// Ask token_list for its own defaults, where it has not said yes yet and there is time: a device
/// with no wallet on it still needs a catalogue. No `config_status` gate: it writes them only when
/// nothing is configured.
pub open spec fn seeds_token_list(now: Moment, place: Place) -> Option<Move> {
    if now.token_list_settled {
        None
    } else {
        asks(Ask::TokenListInitDefaults, now.elapsed, INIT_BUDGET, place)
    }
}

/// What eth_rpc may spend on its defaults; `None` where it is not asked.
pub(crate) fn eth_rpc_seeding(total: u128, now: &Moment) -> (r: Option<u128>)
    ensures
        forall|place: Place|
            allowance(place) == total ==> #[trigger] seeds_eth_rpc(*now, place) == match r {
                Some(grant) => Some(Move::Ask { ask: Ask::EthRpcInitDefaults, grant, place }),
                None => None,
            },
{
    if now.eth_rpc_settled {
        return None;
    }
    slice(total, now.elapsed, INIT_BUDGET)
}

/// What token_list may spend on its defaults; `None` where it is not asked.
fn token_list_seeding(total: u128, now: &Moment) -> (r: Option<u128>)
    ensures
        forall|place: Place|
            allowance(place) == total ==> #[trigger] seeds_token_list(*now, place) == match r {
                Some(grant) => Some(Move::Ask { ask: Ask::TokenListInitDefaults, grant, place }),
                None => None,
            },
{
    if now.token_list_settled {
        return None;
    }
    slice(total, now.elapsed, INIT_BUDGET)
}

// On start.
/// eth_rpc's defaults, then token_list's.
pub open spec fn startup(now: Moment) -> Move {
    match seeds_eth_rpc(now, Place::StartupEthRpc) {
        Some(next) => next,
        None => startup_token_list(now),
    }
}

pub open spec fn startup_token_list(now: Moment) -> Move {
    match seeds_token_list(now, Place::StartupTokenList) {
        Some(next) => next,
        None => Move::Done,
    }
}

/// On start both dependencies are asked for their defaults.
pub fn start(now: &Moment) -> (r: Step)
    ensures
        r@ == startup(*now),
        sound(r@),
{
    match eth_rpc_seeding(STARTUP_BUDGET, now) {
        Some(grant) => Step::Ask {
            call: Call::EthRpcInitDefaults,
            grant,
            flow: Flow::StartupEthRpc,
        },
        None => start_token_list(now),
    }
}

pub(crate) fn start_token_list(now: &Moment) -> (r: Step)
    ensures
        r@ == startup_token_list(*now),
{
    match token_list_seeding(STARTUP_BUDGET, now) {
        Some(grant) => Step::Ask {
            call: Call::TokenListInitDefaults,
            grant,
            flow: Flow::StartupTokenList,
        },
        None => Step::Done,
    }
}

// The networks.
/// eth_rpc's defaults, the chain registry, then Uniswap's deployments.
pub open spec fn networks_from(now: Moment) -> Move {
    match seeds_eth_rpc(now, Place::NetworksEthRpc) {
        Some(next) => next,
        None => networks_registry(now),
    }
}

pub open spec fn networks_registry(now: Moment) -> Move {
    asks_or_refuses(
        Ask::ListChainConfigs,
        now.elapsed,
        PROBE_BUDGET,
        Place::NetworksRegistry,
        "no time left to read the chain registry"@,
    )
}

/// The device's scope, as the registry tells it.
pub open spec fn scope_in(registry: Tree) -> Seq<char> {
    match registry.get("scope"@) {
        Some(Tree::Text(scope)) => scope,
        _ => "mainnets"@,
    }
}

pub open spec fn networks_after_registry(word: Word, now: Moment) -> Move {
    match heard(word, "eth_rpc_module"@) {
        Err(refusal) => answers_with(refusal),
        Ok(v) => asks_or_refuses(
            Ask::GetChains,
            now.elapsed,
            PROBE_BUDGET,
            Place::NetworksDeployments { scope: scope_in(v), records: v.list_at("chains"@) },
            "no time left to read the Uniswap deployments"@,
        ),
    }
}

/// Chain ids as a JSON list.
pub open spec fn id_list(ids: Seq<u64>) -> Tree {
    Tree::Array(Seq::new(ids.len(), |i: int| Tree::Unsigned(ids[i])))
}

/// The networks as a view is told of them.
pub open spec fn networks_answer(
    scope: Seq<char>,
    records: Seq<Tree>,
    deployed: Seq<u64>,
) -> Tree {
    empty_object().with("ok"@, Tree::Bool(true)).with("scope"@, Tree::Text(scope)).with(
        "networks"@,
        Tree::Array(networks_in(records, deployed)),
    ).with("unsupported"@, id_list(unsupported_in(records, deployed)))
}

pub open spec fn networks_after_deployments(
    scope: Seq<char>,
    records: Seq<Tree>,
    word: Word,
) -> Move {
    match heard(word, "uniswap_module"@) {
        Err(refusal) => answers_with(refusal),
        Ok(v) => answers_with(networks_answer(scope, records, chain_ids(v.list_at("chains"@)))),
    }
}

/// The chains a swap can happen on: eth_rpc's enabled, in-scope chains that uniswap_module
/// holds a deployment for, and the enabled chains that Uniswap is not deployed on.
pub fn networks(now: &Moment) -> (r: Step)
    ensures
        r@ == networks_from(*now),
        sound(r@),
{
    match eth_rpc_seeding(READ_BUDGET, now) {
        Some(grant) => Step::Ask {
            call: Call::EthRpcInitDefaults,
            grant,
            flow: Flow::NetworksEthRpc,
        },
        None => read_registry(now),
    }
}

pub(crate) fn read_registry(now: &Moment) -> (r: Step)
    ensures
        r@ == networks_registry(*now),
{
    ask_or_refuse(
        READ_BUDGET,
        Call::ListChainConfigs,
        now.elapsed,
        PROBE_BUDGET,
        Flow::NetworksRegistry,
        "no time left to read the chain registry",
    )
}

pub(crate) fn read_deployments(word: Reply, now: &Moment) -> (r: Step)
    ensures
        r@ == networks_after_registry(word@, *now),
{
    match reply(word, "eth_rpc_module") {
        Err(refusal) => answer_with(refusal),
        Ok(v) => {
            let scope = match v.get("scope") {
                Some(Json::Text(scope)) => scope.clone(),
                _ => "mainnets".to_owned(),
            };
            ask_or_refuse(
                READ_BUDGET,
                Call::GetChains,
                now.elapsed,
                PROBE_BUDGET,
                Flow::NetworksDeployments { scope, records: v.list_of("chains") },
                "no time left to read the Uniswap deployments",
            )
        },
    }
}

fn ids_json(ids: &Vec<u64>) -> (r: Json)
    ensures
        r@ == id_list(ids@),
{
    let mut out: Vec<Json> = Vec::new();
    let mut i: usize = 0;
    while i < ids.len()
        invariant
            i <= ids@.len(),
            out@.len() == i,
            forall|k: int| 0 <= k < i ==> (#[trigger] out@[k])@ == Tree::Unsigned(ids@[k]),
        decreases ids@.len() - i,
    {
        out.push(Json::Unsigned(ids[i]));
        i += 1;
    }
    let r = Json::array(out);
    assert(r@->Array_0 =~= id_list(ids@)->Array_0);
    r
}

pub(crate) fn tell_networks(scope: String, records: Vec<Json>, word: Reply) -> (r: Step)
    ensures
        r@ == networks_after_deployments(scope@, trees(records@), word@),
{
    match reply(word, "uniswap_module") {
        Err(refusal) => answer_with(refusal),
        Ok(v) => {
            let deployed = deployed_chains(&v);
            let (networks, unsupported) = swappable_networks(&records, &deployed);
            answer_with(
                Json::object().with("ok", Json::Bool(true)).with("scope", Json::Text(scope)).with(
                    "networks",
                    Json::array(networks),
                ).with("unsupported", ids_json(&unsupported)),
            )
        },
    }
}

// The verdict.
/// What is said of a number that is no chain id.
pub open spec fn no_chain(chain_id: i64) -> Seq<char> {
    "chain "@ + signed(chain_id as int) + " is not a valid chain id"@
}

fn no_chain_words(chain_id: i64) -> (r: String)
    ensures
        r@ == no_chain(chain_id),
{
    let mut out = "chain ".to_owned();
    out.append(signed_decimal(chain_id).as_str());
    out.append(" is not a valid chain id");
    out
}

pub open spec fn verdict_asked(chain_id: i64, now: Moment) -> Move {
    if chain_id <= 0 {
        refuses(no_chain(chain_id))
    } else {
        asks_or_refuses(
            Ask::VerifiedProxyStatus { chain_id },
            now.elapsed,
            VERDICT_BUDGET,
            Place::Verdict { chain: chain_id as u64 },
            "no time left to read the verdict"@,
        )
    }
}

/// eth_rpc's verified-proxy verdict for `chain_id`. A verdict that cannot be read is a blocking
/// `mode: "unknown"` one, never `off`.
pub fn verdict(chain_id: i64, now: &Moment) -> (r: Step)
    ensures
        r@ == verdict_asked(chain_id, *now),
        sound(r@),
{
    if chain_id <= 0 {
        return refuse(no_chain_words(chain_id).as_str());
    }
    ask_or_refuse(
        VERDICT_BUDGET,
        Call::VerifiedProxyStatus { chain_id },
        now.elapsed,
        VERDICT_BUDGET,
        Flow::Verdict { chain: chain_id as u64 },
        "no time left to read the verdict",
    )
}

pub(crate) fn tell_verdict(chain_id: u64, word: Reply) -> (r: Step)
    ensures
        r@ == answers_with(verdict_from(chain_id, word@)),
{
    answer_with(verdict_of(chain_id, word))
}

// The offered tokens.
/// eth_rpc's defaults, token_list's, the offered tokens, then their asset rows.
pub open spec fn tokens_from(chain_id: i64, now: Moment) -> Move {
    match seeds_eth_rpc(now, Place::TokensEthRpc { chain_id }) {
        Some(next) => next,
        None => tokens_token_list(chain_id, now),
    }
}

pub open spec fn tokens_token_list(chain_id: i64, now: Moment) -> Move {
    match seeds_token_list(now, Place::TokensTokenList { chain_id }) {
        Some(next) => next,
        None => tokens_offered(chain_id, now),
    }
}

pub open spec fn tokens_offered(chain_id: i64, now: Moment) -> Move {
    asks_or_refuses(
        Ask::ListOffered { chain_id },
        now.elapsed,
        LOCAL_BUDGET,
        Place::TokensOffered { chain_id },
        "no time left to read the offered tokens"@,
    )
}

pub open spec fn tokens_after_offered(chain_id: i64, word: Word, now: Moment) -> Move {
    match heard(word, "token_list_module"@) {
        Err(refusal) => answers_with(refusal),
        Ok(v) => asks_or_refuses(
            Ask::ListAssets { chain_id, tokens: Tree::Array(v.list_at("tokens"@)) },
            now.elapsed,
            LOCAL_BUDGET,
            Place::TokensAssets,
            "no time left to read the asset rows"@,
        ),
    }
}

pub open spec fn tokens_after_assets(word: Word) -> Move {
    match heard(word, "evm_assets_module"@) {
        Err(refusal) => answers_with(refusal),
        Ok(v) => answers_with(v),
    }
}

/// The native coin, then the tokens offered on `chain_id` (pinned and enabled), as asset rows.
pub fn tokens(chain_id: i64, now: &Moment) -> (r: Step)
    ensures
        r@ == tokens_from(chain_id, *now),
        sound(r@),
{
    match eth_rpc_seeding(TOKENS_BUDGET, now) {
        Some(grant) => Step::Ask {
            call: Call::EthRpcInitDefaults,
            grant,
            flow: Flow::TokensEthRpc { chain_id },
        },
        None => seed_for_tokens(chain_id, now),
    }
}

pub(crate) fn seed_for_tokens(chain_id: i64, now: &Moment) -> (r: Step)
    ensures
        r@ == tokens_token_list(chain_id, *now),
{
    match token_list_seeding(TOKENS_BUDGET, now) {
        Some(grant) => Step::Ask {
            call: Call::TokenListInitDefaults,
            grant,
            flow: Flow::TokensTokenList { chain_id },
        },
        None => read_offered(chain_id, now),
    }
}

pub(crate) fn read_offered(chain_id: i64, now: &Moment) -> (r: Step)
    ensures
        r@ == tokens_offered(chain_id, *now),
{
    ask_or_refuse(
        TOKENS_BUDGET,
        Call::ListOffered { chain_id },
        now.elapsed,
        LOCAL_BUDGET,
        Flow::TokensOffered { chain_id },
        "no time left to read the offered tokens",
    )
}

pub(crate) fn read_assets(chain_id: i64, word: Reply, now: &Moment) -> (r: Step)
    ensures
        r@ == tokens_after_offered(chain_id, word@, *now),
{
    match reply(word, "token_list_module") {
        Err(refusal) => answer_with(refusal),
        Ok(v) => ask_or_refuse(
            TOKENS_BUDGET,
            Call::ListAssets { chain_id, tokens: Json::array(v.list_of("tokens")) },
            now.elapsed,
            LOCAL_BUDGET,
            Flow::TokensAssets,
            "no time left to read the asset rows",
        ),
    }
}

pub(crate) fn tell_tokens(word: Reply) -> (r: Step)
    ensures
        r@ == tokens_after_assets(word@),
{
    match reply(word, "evm_assets_module") {
        Err(refusal) => answer_with(refusal),
        Ok(v) => answer_with(v),
    }
}

// The token picker.
/// eth_rpc's defaults, token_list's, the native row, then a page of the catalogue.
pub open spec fn catalogue_from(picker: Pick, now: Moment) -> Move {
    match seeds_eth_rpc(now, Place::CatalogueEthRpc { picker }) {
        Some(next) => next,
        None => catalogue_token_list(picker, now),
    }
}

pub open spec fn catalogue_token_list(picker: Pick, now: Moment) -> Move {
    match seeds_token_list(now, Place::CatalogueTokenList { picker }) {
        Some(next) => next,
        None => catalogue_native(picker, now),
    }
}

pub open spec fn catalogue_native(picker: Pick, now: Moment) -> Move {
    asks_or_refuses(
        Ask::ListAssets { chain_id: picker.chain_id, tokens: Tree::Array(Seq::empty()) },
        now.elapsed,
        LOCAL_BUDGET,
        Place::CatalogueNative { picker },
        "no time left to read the asset rows"@,
    )
}

/// The first of the rows; null where there is none.
pub open spec fn first_row(rows: Seq<Tree>) -> Tree {
    if rows.len() > 0 {
        rows[0]
    } else {
        Tree::Null
    }
}

pub open spec fn catalogue_after_native(picker: Pick, word: Word, now: Moment) -> Move {
    match heard(word, "evm_assets_module"@) {
        Err(refusal) => answers_with(refusal),
        Ok(v) => {
            let native = first_row(v.list_at("tokens"@));
            let matches = answers(native, picker.query);
            asks_or_refuses(
                Ask::ListAvailable {
                    chain_id: picker.chain_id,
                    query: picker.query,
                    offset: listed_offset(matches, picker.offset as int) as i64,
                    limit: picker.limit,
                },
                now.elapsed,
                LOCAL_BUDGET,
                Place::CataloguePage { picker, native, matches },
                "no time left to read the token picker"@,
            )
        },
    }
}

pub open spec fn catalogue_after_page(
    picker: Pick,
    native: Tree,
    matches: bool,
    word: Word,
) -> Move {
    match heard(word, "token_list_module"@) {
        Err(refusal) => answers_with(refusal),
        Ok(page) => if mergeable(page, matches) {
            answers_with(
                merged_page(native, matches, page, picker.offset as int, picker.limit as int),
            )
        } else {
            Move::Unanswerable
        },
    }
}

/// The token picker: token_list's catalogue, the native row first on the first page.
pub fn catalogue(picker: Picker, now: &Moment) -> (r: Step)
    ensures
        r@ == catalogue_from(picker@, *now),
        sound(r@),
{
    match eth_rpc_seeding(TOKENS_BUDGET, now) {
        Some(grant) => Step::Ask {
            call: Call::EthRpcInitDefaults,
            grant,
            flow: Flow::CatalogueEthRpc { picker },
        },
        None => seed_for_catalogue(picker, now),
    }
}

pub(crate) fn seed_for_catalogue(picker: Picker, now: &Moment) -> (r: Step)
    ensures
        r@ == catalogue_token_list(picker@, *now),
{
    match token_list_seeding(TOKENS_BUDGET, now) {
        Some(grant) => Step::Ask {
            call: Call::TokenListInitDefaults,
            grant,
            flow: Flow::CatalogueTokenList { picker },
        },
        None => read_native(picker, now),
    }
}

pub(crate) fn read_native(picker: Picker, now: &Moment) -> (r: Step)
    ensures
        r@ == catalogue_native(picker@, *now),
{
    let none: Vec<Json> = Vec::new();
    assert(trees(none@) =~= Seq::<Tree>::empty());
    ask_or_refuse(
        TOKENS_BUDGET,
        Call::ListAssets { chain_id: picker.chain_id, tokens: Json::array(none) },
        now.elapsed,
        LOCAL_BUDGET,
        Flow::CatalogueNative { picker },
        "no time left to read the asset rows",
    )
}

/// The first of the rows under `tokens`; null where there is none.
pub(crate) fn first_token(v: &Json) -> (r: Option<Json>)
    ensures
        match r {
            Some(row) => v@.list_at("tokens"@).len() > 0 && row@ == v@.list_at("tokens"@)[0],
            None => v@.list_at("tokens"@).len() == 0,
        },
{
    match v.array_of("tokens") {
        Some(rows) => if rows.len() > 0 {
            Some(rows[0].clone())
        } else {
            None
        },
        None => None,
    }
}

pub(crate) fn read_page(picker: Picker, word: Reply, now: &Moment) -> (r: Step)
    ensures
        r@ == catalogue_after_native(picker@, word@, *now),
{
    match reply(word, "evm_assets_module") {
        Err(refusal) => answer_with(refusal),
        Ok(v) => {
            let native = match first_token(&v) {
                Some(row) => row,
                None => Json::Null,
            };
            let matches = native_matches(&native, picker.query.as_str());
            ask_or_refuse(
                TOKENS_BUDGET,
                Call::ListAvailable {
                    chain_id: picker.chain_id,
                    query: picker.query.clone(),
                    offset: provider_offset(matches, picker.offset),
                    limit: picker.limit,
                },
                now.elapsed,
                LOCAL_BUDGET,
                Flow::CataloguePage { picker, native, matches },
                "no time left to read the token picker",
            )
        },
    }
}

pub(crate) fn tell_page(picker: Picker, native: Json, matches: bool, word: Reply) -> (r: Step)
    ensures
        r@ == catalogue_after_page(picker@, native@, matches, word@),
{
    match reply(word, "token_list_module") {
        Err(refusal) => answer_with(refusal),
        Ok(page) => if can_merge(&page, matches) {
            answer_with(merge_native_page(&native, matches, page, picker.offset, picker.limit))
        } else {
            Step::Unanswerable
        },
    }
}

// Balances.
/// The offered tokens, then the balances of the native coin, of those, and of what the caller adds.
pub open spec fn balances_from(
    chain_id: i64,
    address: Seq<char>,
    extra: Seq<Tree>,
    now: Moment,
) -> Move {
    asks_or_refuses(
        Ask::ListOffered { chain_id },
        now.elapsed,
        LOCAL_BUDGET,
        Place::BalancesOffered { chain_id, address, extra },
        "no time left to read the offered tokens"@,
    )
}

pub open spec fn balances_asked(
    chain_id: i64,
    address: Seq<char>,
    tokens: Seq<char>,
    now: Moment,
) -> Move {
    match tokens_read(tokens) {
        Err(words) => refuses(words),
        Ok(extra) => balances_from(chain_id, address, extra, now),
    }
}

pub open spec fn balances_after_offered(
    chain_id: i64,
    address: Seq<char>,
    extra: Seq<Tree>,
    word: Word,
    now: Moment,
) -> Move {
    match heard(word, "token_list_module"@) {
        Err(refusal) => answers_with(refusal),
        Ok(v) => asks_or_refuses(
            Ask::GetBalances {
                chain_id,
                address,
                tokens: Tree::Array(joined(v.list_at("tokens"@), extra)),
                sort: "alpha"@,
            },
            now.elapsed,
            ASSETS_BUDGET,
            Place::BalancesRead,
            "no time left to read the balances"@,
        ),
    }
}

/// Balances of `address` on `chain_id` for the native coin, every offered token and the token rows
/// that the caller adds (the pair on screen, say), once their list is read.
pub fn balances_with(chain_id: i64, address: String, extra: Vec<Json>, now: &Moment) -> (r: Step)
    ensures
        r@ == balances_from(chain_id, address@, trees(extra@), *now),
        sound(r@),
{
    ask_or_refuse(
        BALANCES_BUDGET,
        Call::ListOffered { chain_id },
        now.elapsed,
        LOCAL_BUDGET,
        Flow::BalancesOffered { chain_id, address, extra },
        "no time left to read the offered tokens",
    )
}

/// Balances of `address` on `chain_id` for the native coin, every offered token and any
/// extra token rows the caller names.
pub fn balances(chain_id: i64, address: String, tokens_json: &str, now: &Moment) -> (r: Step)
    ensures
        r@ == balances_asked(chain_id, address@, tokens_json@, *now),
        sound(r@),
{
    match parse_tokens(tokens_json) {
        Err(words) => refuse(words.as_str()),
        Ok(extra) => balances_with(chain_id, address, extra, now),
    }
}

pub(crate) fn read_balances(
    chain_id: i64,
    address: String,
    extra: Vec<Json>,
    word: Reply,
    now: &Moment,
) -> (r: Step)
    ensures
        r@ == balances_after_offered(chain_id, address@, trees(extra@), word@, *now),
{
    match reply(word, "token_list_module") {
        Err(refusal) => answer_with(refusal),
        Ok(v) => {
            let tokens = union_tokens(v.list_of("tokens"), extra);
            ask_or_refuse(
                BALANCES_BUDGET,
                Call::GetBalances {
                    chain_id,
                    address,
                    tokens: Json::array(tokens),
                    sort: "alpha".to_owned(),
                },
                now.elapsed,
                ASSETS_BUDGET,
                Flow::BalancesRead,
                "no time left to read the balances",
            )
        },
    }
}

pub(crate) fn pass_on(word: Reply, who: &str) -> (r: Step)
    ensures
        r@ == Move::Answer(relayed(word@, who@)),
{
    Step::Answer(relay(word, who))
}

// Fee tiers.
pub open spec fn fee_tiers_asked(chain_id: i64, now: Moment) -> Move {
    asks_or_refuses(
        Ask::SuggestFees { chain_id },
        now.elapsed,
        FEES_BUDGET,
        Place::FeeTiers,
        "no time left to price the fee"@,
    )
}

/// fee_module's tiers for `chain_id`, relayed verbatim.
pub fn fee_tiers(chain_id: i64, now: &Moment) -> (r: Step)
    ensures
        r@ == fee_tiers_asked(chain_id, *now),
        sound(r@),
{
    ask_or_refuse(
        FEES_BUDGET,
        Call::SuggestFees { chain_id },
        now.elapsed,
        FEES_BUDGET,
        Flow::FeeTiers,
        "no time left to price the fee",
    )
}

// Accounts.
/// The accounts, then their names and their wallets where there is time.
pub open spec fn accounts_from(now: Moment) -> Move {
    asks_or_refuses(
        Ask::ListAccounts,
        now.elapsed,
        LOCAL_BUDGET,
        Place::AccountsList,
        "no time left to read the accounts"@,
    )
}

/// What stands under that name, else `otherwise`.
pub open spec fn field_or(v: Tree, key: Seq<char>, otherwise: Tree) -> Tree {
    match v.get(key) {
        Some(f) => f,
        None => otherwise,
    }
}

pub open spec fn accounts_labels(out: Tree, now: Moment) -> Move {
    match asks(Ask::GetLabels, now.elapsed, LOCAL_BUDGET, Place::AccountsLabels { out }) {
        Some(next) => next,
        None => accounts_wallets(out, now),
    }
}

pub open spec fn accounts_wallets(out: Tree, now: Moment) -> Move {
    match asks(Ask::GetAccountWallets, now.elapsed, LOCAL_BUDGET, Place::AccountsWallets { out }) {
        Some(next) => next,
        None => answers_with(out),
    }
}

pub open spec fn accounts_after_list(word: Word, now: Moment) -> Move {
    match heard(word, "keystore_module"@) {
        Err(refusal) => answers_with(refusal),
        Ok(v) => accounts_labels(
            empty_object().with("ok"@, Tree::Bool(true)).with(
                "accounts"@,
                field_or(v, "accounts"@, Tree::Array(Seq::empty())),
            ),
            now,
        ),
    }
}

/// The answer with what the keystore said under that name. A name is a courtesy: an account list
/// without one is still the answer.
pub open spec fn with_courtesy(out: Tree, word: Word, key: Seq<char>) -> Tree {
    match heard(word, "keystore_module"@) {
        Ok(v) => out.with(key, field_or(v, key, empty_object())),
        Err(_) => out,
    }
}

/// The keystore's accounts, their names and the wallets they were derived under, in one
/// reply. Read-only: this module can never create, import or sign.
pub fn accounts(now: &Moment) -> (r: Step)
    ensures
        r@ == accounts_from(*now),
        sound(r@),
{
    ask_or_refuse(
        ACCOUNTS_BUDGET,
        Call::ListAccounts,
        now.elapsed,
        LOCAL_BUDGET,
        Flow::AccountsList,
        "no time left to read the accounts",
    )
}

fn take_field(v: &Json, key: &str, otherwise: Json) -> (r: Json)
    ensures
        r@ == field_or(v@, key@, otherwise@),
{
    match v.get(key) {
        Some(f) => f.clone(),
        None => otherwise,
    }
}

pub(crate) fn read_labels(word: Reply, now: &Moment) -> (r: Step)
    ensures
        r@ == accounts_after_list(word@, *now),
{
    match reply(word, "keystore_module") {
        Err(refusal) => answer_with(refusal),
        Ok(v) => {
            let none: Vec<Json> = Vec::new();
            assert(trees(none@) =~= Seq::<Tree>::empty());
            let accounts = take_field(&v, "accounts", Json::array(none));
            let out = Json::object().with("ok", Json::Bool(true)).with("accounts", accounts);
            match slice(ACCOUNTS_BUDGET, now.elapsed, LOCAL_BUDGET) {
                Some(grant) => Step::Ask {
                    call: Call::GetLabels,
                    grant,
                    flow: Flow::AccountsLabels { out },
                },
                None => read_wallets(out, now),
            }
        },
    }
}

pub(crate) fn read_wallets(out: Json, now: &Moment) -> (r: Step)
    ensures
        r@ == accounts_wallets(out@, *now),
{
    match slice(ACCOUNTS_BUDGET, now.elapsed, LOCAL_BUDGET) {
        Some(grant) => Step::Ask {
            call: Call::GetAccountWallets,
            grant,
            flow: Flow::AccountsWallets { out },
        },
        None => answer_with(out),
    }
}

pub(crate) fn add_courtesy(out: Json, word: Reply, key: &str) -> (r: Json)
    requires
        out@ is Object,
    ensures
        r@ == with_courtesy(out@, word@, key@),
{
    match reply(word, "keystore_module") {
        Ok(v) => {
            let said = take_field(&v, key, Json::object());
            out.with(key, said)
        },
        Err(_) => out,
    }
}

// Where a swap got to.
/// A refusal that is not the end of the swap.
pub open spec fn ask_again(words: Seq<char>) -> Tree {
    empty_object().with("ok"@, Tree::Bool(false)).with("final"@, Tree::Bool(false)).with(
        "error"@,
        Tree::Text(words),
    )
}

pub open spec fn status_asked(request_id: Seq<char>, now: Moment) -> Move {
    match asks(
        Ask::SendStatus { request_id },
        now.elapsed,
        STATUS_BUDGET,
        Place::Status,
    ) {
        Some(next) => next,
        None => answers_with(ask_again("no time left to read the swap"@)),
    }
}

/// The sender's status with its `final`. The sender may still be broadcasting behind a call that ran
/// out of time.
pub open spec fn status_from(word: Word) -> Tree {
    match word {
        Word::Value { value, .. } => if value is Object {
            value.with("final"@, Tree::Bool(ended(value)))
        } else {
            ask_again("tx_sender_module: the reply is not an object"@)
        },
        Word::Unreadable { why, .. } => ask_again(said_of("tx_sender_module"@, why)),
        Word::Unreachable { why } => ask_again(said_of("tx_sender_module"@, why)).with(
            "code"@,
            Tree::Text("unreachable"@),
        ),
    }
}

fn again(words: &str) -> (r: Json)
    ensures
        r@ == ask_again(words@),
        r@ is Object,
{
    Json::object().with("ok", Json::Bool(false)).with("final", Json::Bool(false)).with(
        "error",
        Json::text(words),
    )
}

/// Advance a swap and report where it got to: the sender's `send_status` and its `final`,
/// read off `status` for a sender that predates it. Polling IS the broadcast. `final:
/// false` means ask again, refusals included.
pub fn swap_status(request_id: String, now: &Moment) -> (r: Step)
    ensures
        r@ == status_asked(request_id@, *now),
        sound(r@),
{
    match slice(STATUS_BUDGET, now.elapsed, STATUS_BUDGET) {
        Some(grant) => Step::Ask {
            call: Call::SendStatus { request_id },
            grant,
            flow: Flow::Status,
        },
        None => answer_with(again("no time left to read the swap")),
    }
}

pub(crate) fn tell_status(word: Reply) -> (r: Step)
    ensures
        r@ == answers_with(status_from(word@)),
{
    match word {
        Reply::Value { raw: _, value, written: _ } => if value.is_object() {
            let end = is_final(&value);
            answer_with(value.with("final", Json::Bool(end)))
        } else {
            answer_with(again("tx_sender_module: the reply is not an object"))
        },
        Reply::Unreadable { raw: _, why } => answer_with(
            again(told("tx_sender_module", why.as_str()).as_str()),
        ),
        Reply::Unreachable { why } => answer_with(
            again(told("tx_sender_module", why.as_str()).as_str()).with(
                "code",
                Json::text("unreachable"),
            ),
        ),
    }
}

pub open spec fn cancel_asked(request_id: Seq<char>, now: Moment) -> Move {
    asks_or_refuses(
        Ask::CancelSend { request_id },
        now.elapsed,
        CANCEL_BUDGET,
        Place::Cancel,
        "no time left to cancel the swap"@,
    )
}

/// Withdraw a swap nobody has approved yet, releasing its nonces.
pub fn cancel_swap(request_id: String, now: &Moment) -> (r: Step)
    ensures
        r@ == cancel_asked(request_id@, *now),
        sound(r@),
{
    ask_or_refuse(
        CANCEL_BUDGET,
        Call::CancelSend { request_id },
        now.elapsed,
        CANCEL_BUDGET,
        Flow::Cancel,
        "no time left to cancel the swap",
    )
}

// The app's swaps.
pub open spec fn swaps_asked(address: Seq<char>, chain_id: i64, now: Moment) -> Move {
    if chain_id <= 0 {
        refuses(no_chain(chain_id))
    } else {
        asks_or_refuses(
            Ask::History { address, chain_id },
            now.elapsed,
            HISTORY_BUDGET,
            Place::Swaps { address, chain_id },
            "no time left to read the swaps"@,
        )
    }
}

/// The app's swaps out of the sender's history.
pub open spec fn swaps_answer(address: Seq<char>, chain_id: i64, history: Tree) -> Tree {
    empty_object().with("ok"@, Tree::Bool(true)).with("chainId"@, number(chain_id as int)).with(
        "address"@,
        Tree::Text(address),
    ).with("stillDue"@, field_or(history, "stillDue"@, Tree::Bool(false))).with(
        "swaps"@,
        Tree::Array(swaps_in(history.list_at("transactions"@), APP@)),
    )
}

pub open spec fn swaps_after_history(address: Seq<char>, chain_id: i64, word: Word) -> Move {
    match heard(word, "tx_sender_module"@) {
        Err(refusal) => answers_with(refusal),
        Ok(v) => answers_with(swaps_answer(address, chain_id, v)),
    }
}

/// This app's swaps for `address` on `chain_id`, newest first, one entry per bundle. Receipts due
/// are swept first.
pub fn swaps(address: String, chain_id: i64, now: &Moment) -> (r: Step)
    ensures
        r@ == swaps_asked(address@, chain_id, *now),
        sound(r@),
{
    if chain_id <= 0 {
        return refuse(no_chain_words(chain_id).as_str());
    }
    ask_or_refuse(
        HISTORY_BUDGET,
        Call::History { address: address.clone(), chain_id },
        now.elapsed,
        HISTORY_BUDGET,
        Flow::Swaps { address, chain_id },
        "no time left to read the swaps",
    )
}

pub(crate) fn tell_swaps(address: String, chain_id: i64, word: Reply) -> (r: Step)
    ensures
        r@ == swaps_after_history(address@, chain_id, word@),
{
    match reply(word, "tx_sender_module") {
        Err(refusal) => answer_with(refusal),
        Ok(v) => {
            let due = take_field(&v, "stillDue", Json::Bool(false));
            let rows = v.list_of("transactions");
            answer_with(
                Json::object().with("ok", Json::Bool(true)).with(
                    "chainId",
                    Json::signed(chain_id),
                ).with("address", Json::Text(address)).with("stillDue", due).with(
                    "swaps",
                    Json::array(group_swaps(&rows, APP)),
                ),
            )
        },
    }
}

} // verus!
