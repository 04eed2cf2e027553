//! What each entry point asks, of whom and for how long, and what it answers, by what it was called
//! with and what came back.
use crate::budget::grant;
use crate::calls::Ask;
use crate::digits::{numeral, signed};
use crate::flow::{Moment, Move, Pick, Place};
use crate::history::swaps_in;
use crate::json::{empty_object, Tree};
use crate::networks::{chain_ids, networks_in, unsupported_in};
use crate::replies::{heard, refused, Outcome, Word};
use crate::session::after;
use crate::session_laws::{first, Entry};
use crate::text::{holds_text, lowered, same_but_case, trimmed};
use crate::tokens::{answers, joined};
use crate::verified::unknown;
use crate::wire::json_read;
use vstd::prelude::*;

verus! {

/// Whether a value is a refusal in those words, and nothing else.
pub open spec fn says_no(v: Tree, words: Seq<char>) -> bool {
    &&& v.get("ok"@) == Some(Tree::Bool(false))
    &&& v.get("error"@) == Some(Tree::Text(words))
    &&& forall|key: Seq<char>|
        key != "ok"@ && key != "error"@ ==> (#[trigger] v.get(key)) is None
}

/// Whether the answer is a refusal in those words.
pub open spec fn refused_in(next: Move, words: Seq<char>) -> bool {
    next matches Move::Answer(Outcome::Value(v)) && says_no(v, words)
}

/// What a module answered, where it said yes.
pub open spec fn agreed(word: Word) -> Option<Tree> {
    match word {
        Word::Value { value, .. } => if value.get("ok"@) == Some(Tree::Bool(true)) {
            Some(value)
        } else {
            None
        },
        _ => None,
    }
}

/// Whether a value is the refusal to pass on of a module that did not say yes: the one that it
/// worded itself, whole; what it answered, in words; or the module's name and what became of its
/// answer.
pub open spec fn passed_on(v: Tree, word: Word, who: Seq<char>) -> bool {
    match word {
        Word::Value { value, written, .. } => if value.get("ok"@) == Some(Tree::Bool(false)) {
            v == value
        } else {
            says_no(v, written)
        },
        Word::Unreadable { why, .. } => says_no(v, who + ": "@ + why),
        Word::Unreachable { why } => says_no(v, who + ": "@ + why),
    }
}

/// Whether the answer is the refusal of a module that did not say yes.
pub open spec fn refused_by(next: Move, word: Word, who: Seq<char>) -> bool {
    next matches Move::Answer(Outcome::Value(v)) && passed_on(v, word, who)
}

/// Whether the answer is what came back, as it came back; or that nothing did.
pub open spec fn relayed_whole(next: Move, word: Word, who: Seq<char>) -> bool {
    match word {
        Word::Value { raw, .. } => next == Move::Answer(Outcome::Verbatim(raw)),
        Word::Unreadable { raw, .. } => next == Move::Answer(Outcome::Verbatim(raw)),
        Word::Unreachable { why } => refused_in(next, who + ": "@ + why),
    }
}

/// What a call is waited for, in nanoseconds: what it may take at most, or what is left of the
/// whole. Both are in milliseconds.
pub open spec fn waited(now: Moment, total: int, most: int) -> int {
    let left = total * 1_000_000 - now.elapsed;
    if left < most * 1_000_000 {
        left
    } else {
        most * 1_000_000
    }
}

/// Whether that is worth a call: a twentieth of a second.
pub open spec fn worth_it(time: int) -> bool {
    time >= 50_000_000
}

/// Whether that call is made, and waited for out of that allowance.
pub open spec fn calls(
    next: Move,
    ask: Ask,
    place: Place,
    now: Moment,
    total: int,
    most: int,
) -> bool {
    next == (Move::Ask { ask, grant: waited(now, total, most) as u128, place })
}

/// Whether that call is made where there is time for it, and refused in those words where there is
/// none.
pub open spec fn calls_in_time(
    next: Move,
    ask: Ask,
    place: Place,
    now: Moment,
    total: int,
    most: int,
    words: Seq<char>,
) -> bool {
    &&& worth_it(waited(now, total, most)) ==> calls(next, ask, place, now, total, most)
    &&& !worth_it(waited(now, total, most)) ==> refused_in(next, words)
}

/// The list under a name; nothing where there is none.
pub open spec fn listed(v: Tree, key: Seq<char>) -> Seq<Tree> {
    match v.get(key) {
        Some(Tree::Array(rows)) => rows,
        _ => Seq::empty(),
    }
}

/// A refusal in words says no in those words, and nothing else.
pub proof fn lemma_says_no(words: Seq<char>)
    ensures
        says_no(refused(words), words),
{
    reveal_strlit("ok");
    reveal_strlit("error");
    assert("ok"@.len() == 2);
    assert("error"@.len() == 5);
}

/// An answer that refuses in words is a refusal in those words.
pub proof fn lemma_no_time(words: Seq<char>)
    ensures
        refused_in(Move::Answer(Outcome::Value(refused(words))), words),
{
    lemma_says_no(words);
}

/// A module is taken at its word where it says yes, with all that it says; else its refusal is
/// passed on: the one it worded, whole, what it answered where it said neither, or its name and
/// what went wrong.
pub proof fn law_what_is_heard(word: Word, who: Seq<char>)
    ensures
        agreed(word) matches Some(v) ==> heard(word, who) == Ok::<Tree, Tree>(v),
        agreed(word) is None ==> (heard(word, who) matches Err(v) && passed_on(v, word, who)),
{
    match word {
        Word::Value { written, .. } => lemma_says_no(written),
        Word::Unreadable { why, .. } => lemma_says_no(who + ": "@ + why),
        Word::Unreachable { why } => lemma_says_no(who + ": "@ + why),
    }
}

/// A call is granted what it may take at most, or what is left, whichever is less; and nothing
/// where that is less than a twentieth of a second.
pub proof fn law_what_is_granted(total: u128, elapsed: u128, per_call: u128)
    ensures
        ({
            let left = total - elapsed;
            let time = if left < per_call {
                left
            } else {
                per_call as int
            };
            &&& time >= 50_000_000 ==> grant(total, elapsed, per_call) == Some(time as u128)
            &&& time < 50_000_000 ==> grant(total, elapsed, per_call) is None
        }),
{
}

/// A whole number is spelled in digits, behind a minus where it is below zero.
pub proof fn law_how_a_signed_number_is_spelled(n: int)
    ensures
        n >= 0 ==> signed(n) == numeral(n as nat),
        n < 0 ==> signed(n) == seq!['-'] + numeral((-n) as nat),
{
}

/// On start eth_rpc is asked for its defaults, then token_list for its own, each unless it has said
/// yes before or there is no time; what either answers changes nothing, and then it is done.
pub proof fn law_start(word: Word, now: Moment)
    ensures
        !now.eth_rpc_settled && worth_it(waited(now, 6000, 5000)) ==> calls(
            first(Entry::Startup, now),
            Ask::EthRpcInitDefaults,
            Place::StartupEthRpc,
            now,
            6000,
            5000,
        ),
        now.eth_rpc_settled || !worth_it(waited(now, 6000, 5000)) ==> first(Entry::Startup, now)
            == after(Place::StartupEthRpc, word, now),
        !now.token_list_settled && worth_it(waited(now, 6000, 5000)) ==> calls(
            after(Place::StartupEthRpc, word, now),
            Ask::TokenListInitDefaults,
            Place::StartupTokenList,
            now,
            6000,
            5000,
        ),
        now.token_list_settled || !worth_it(waited(now, 6000, 5000)) ==> after(
            Place::StartupEthRpc,
            word,
            now,
        ) is Done,
        after(Place::StartupTokenList, word, now) is Done,
{
}

/// The networks are the chain registry's, once eth_rpc was asked for its defaults, where it has not
/// said yes before and there is time; then uniswap_module's deployments are read, for the chains
/// and the scope that the registry named, or "mainnets" where it named none.
pub proof fn law_networks_are_read(word: Word, now: Moment)
    ensures
        !now.eth_rpc_settled && worth_it(waited(now, 4000, 5000)) ==> calls(
            first(Entry::Networks, now),
            Ask::EthRpcInitDefaults,
            Place::NetworksEthRpc,
            now,
            4000,
            5000,
        ),
        now.eth_rpc_settled || !worth_it(waited(now, 4000, 5000)) ==> first(Entry::Networks, now)
            == after(Place::NetworksEthRpc, word, now),
        calls_in_time(
            after(Place::NetworksEthRpc, word, now),
            Ask::ListChainConfigs,
            Place::NetworksRegistry,
            now,
            4000,
            1500,
            "no time left to read the chain registry"@,
        ),
        agreed(word) is None ==> refused_by(
            after(Place::NetworksRegistry, word, now),
            word,
            "eth_rpc_module"@,
        ),
        agreed(word) matches Some(v) ==> calls_in_time(
            after(Place::NetworksRegistry, word, now),
            Ask::GetChains,
            Place::NetworksDeployments {
                scope: match v.get("scope"@) {
                    Some(Tree::Text(scope)) => scope,
                    _ => "mainnets"@,
                },
                records: listed(v, "chains"@),
            },
            now,
            4000,
            1500,
            "no time left to read the Uniswap deployments"@,
        ),
{
    law_what_is_heard(word, "eth_rpc_module"@);
    lemma_no_time("no time left to read the chain registry"@);
    lemma_no_time("no time left to read the Uniswap deployments"@);
}

/// The networks are told by the scope and the chains that the registry named and the deployments
/// that uniswap_module did: those where Uniswap is, with their records, and the ids of those where
/// it is not.
pub proof fn law_networks_are_told(
    scope: Seq<char>,
    records: Seq<Tree>,
    word: Word,
    now: Moment,
    key: Seq<char>,
)
    ensures
        ({
            let next = after(Place::NetworksDeployments { scope, records }, word, now);
            &&& agreed(word) is None ==> refused_by(next, word, "uniswap_module"@)
            &&& agreed(word) matches Some(v) ==> {
                let deployed = chain_ids(listed(v, "chains"@));
                let missing = unsupported_in(records, deployed);
                &&& next matches Move::Answer(Outcome::Value(told))
                &&& told.get("ok"@) == Some(Tree::Bool(true))
                &&& told.get("scope"@) == Some(Tree::Text(scope))
                &&& told.get("networks"@) == Some(Tree::Array(networks_in(records, deployed)))
                &&& told.get("unsupported"@) matches Some(Tree::Array(ids))
                &&& ids.len() == missing.len()
                &&& forall|i: int|
                    0 <= i < ids.len() ==> #[trigger] ids[i] == Tree::Unsigned(missing[i])
                &&& told.get(key) is Some ==> key == "ok"@ || key == "scope"@ || key == "networks"@
                    || key == "unsupported"@
            }
        }),
{
    law_what_is_heard(word, "uniswap_module"@);
    reveal_strlit("ok");
    reveal_strlit("scope");
    reveal_strlit("networks");
    reveal_strlit("unsupported");
    assert("ok"@.len() == 2);
    assert("scope"@.len() == 5);
    assert("networks"@.len() == 8);
    assert("unsupported"@.len() == 11);
}

/// The verdict is read for the chain that was named, which is a number above zero.
pub proof fn law_verdict_is_read(chain_id: i64, now: Moment)
    ensures
        chain_id <= 0 ==> refused_in(
            first(Entry::Verdict { chain_id }, now),
            "chain "@ + signed(chain_id as int) + " is not a valid chain id"@,
        ),
        chain_id > 0 ==> calls_in_time(
            first(Entry::Verdict { chain_id }, now),
            Ask::VerifiedProxyStatus { chain_id },
            Place::Verdict { chain: chain_id as u64 },
            now,
            2000,
            2000,
            "no time left to read the verdict"@,
        ),
{
    lemma_no_time("chain "@ + signed(chain_id as int) + " is not a valid chain id"@);
    lemma_no_time("no time left to read the verdict"@);
}

/// Whether a value is the verdict on a chain of which nothing is known, and why.
pub open spec fn unknown_and_blocking(v: Tree, chain: u64, why: Seq<char>) -> bool {
    &&& v.get("ok"@) == Some(Tree::Bool(false))
    &&& v.get("error"@) == Some(Tree::Text(why))
    &&& v.get("chainId"@) == Some(Tree::Unsigned(chain))
    &&& v.get("mode"@) == Some(Tree::Text("unknown"@))
    &&& v.get("state"@) == Some(Tree::Text("unhealthy"@))
    &&& v.get("usable"@) == Some(Tree::Bool(false))
    &&& v.get("blocking"@) == Some(Tree::Bool(true))
    &&& v.get("message"@) == Some(Tree::Text("The verified-proxy state could not be read."@))
    &&& v.get("action"@) == Some(Tree::Text("restart_or_reload"@))
    &&& v.get("detail"@) == Some(Tree::Text(why))
}

proof fn lemma_blocking(chain: u64, why: Seq<char>)
    ensures
        unknown_and_blocking(unknown(chain, why), chain, why),
{
    reveal_strlit("ok");
    reveal_strlit("error");
    reveal_strlit("chainId");
    reveal_strlit("mode");
    reveal_strlit("state");
    reveal_strlit("usable");
    reveal_strlit("blocking");
    reveal_strlit("message");
    reveal_strlit("action");
    reveal_strlit("detail");
    assert("ok"@.len() == 2);
    assert("error"@.len() == 5 && "error"@[0] == 'e');
    assert("chainId"@.len() == 7 && "chainId"@[0] == 'c');
    assert("mode"@.len() == 4);
    assert("state"@.len() == 5 && "state"@[0] == 's');
    assert("usable"@.len() == 6 && "usable"@[0] == 'u');
    assert("blocking"@.len() == 8);
    assert("message"@.len() == 7 && "message"@[0] == 'm');
    assert("action"@.len() == 6 && "action"@[0] == 'a');
    assert("detail"@.len() == 6 && "detail"@[0] == 'd');
}

/// A verdict is told as eth_rpc gave it where it says how it stands, in words, and whether it
/// blocks; else the chain counts as unknown and blocked, for the reason that eth_rpc gave, or
/// because it gave none, or because it did not answer.
pub proof fn law_verdict_is_told(chain: u64, word: Word, now: Moment)
    ensures
        after(Place::Verdict { chain }, word, now) matches Move::Answer(Outcome::Value(v)) && match word {
            Word::Value { value, .. } => if (value.get("state"@) matches Some(Tree::Text(_)))
                && (value.get("blocking"@) matches Some(Tree::Bool(_))) {
                v == value
            } else {
                unknown_and_blocking(
                    v,
                    chain,
                    match value.get("error"@) {
                        Some(Tree::Text(why)) => why,
                        _ => "eth_rpc returned no usable verdict"@,
                    },
                )
            },
            Word::Unreadable { why, .. } => unknown_and_blocking(
                v,
                chain,
                "eth_rpc_module"@ + ": "@ + why,
            ),
            Word::Unreachable { why } => unknown_and_blocking(
                v,
                chain,
                "eth_rpc_module"@ + ": "@ + why,
            ),
        },
{
    match word {
        Word::Value { value, .. } => lemma_blocking(
            chain,
            match value.get("error"@) {
                Some(Tree::Text(why)) => why,
                _ => "eth_rpc returned no usable verdict"@,
            },
        ),
        Word::Unreadable { why, .. } => lemma_blocking(chain, "eth_rpc_module"@ + ": "@ + why),
        Word::Unreachable { why } => lemma_blocking(chain, "eth_rpc_module"@ + ": "@ + why),
    }
}

/// The offered tokens of a chain are read from token_list, once both modules were asked for their
/// defaults, and their asset rows from evm_assets, for that chain and those rows; what it says is
/// the answer.
pub proof fn law_tokens_are_read(chain_id: i64, word: Word, now: Moment)
    ensures
        !now.eth_rpc_settled && worth_it(waited(now, 8000, 5000)) ==> calls(
            first(Entry::Tokens { chain_id }, now),
            Ask::EthRpcInitDefaults,
            Place::TokensEthRpc { chain_id },
            now,
            8000,
            5000,
        ),
        now.eth_rpc_settled || !worth_it(waited(now, 8000, 5000)) ==> first(
            Entry::Tokens { chain_id },
            now,
        ) == after(Place::TokensEthRpc { chain_id }, word, now),
        !now.token_list_settled && worth_it(waited(now, 8000, 5000)) ==> calls(
            after(Place::TokensEthRpc { chain_id }, word, now),
            Ask::TokenListInitDefaults,
            Place::TokensTokenList { chain_id },
            now,
            8000,
            5000,
        ),
        now.token_list_settled || !worth_it(waited(now, 8000, 5000)) ==> after(
            Place::TokensEthRpc { chain_id },
            word,
            now,
        ) == after(Place::TokensTokenList { chain_id }, word, now),
        calls_in_time(
            after(Place::TokensTokenList { chain_id }, word, now),
            Ask::ListOffered { chain_id },
            Place::TokensOffered { chain_id },
            now,
            8000,
            3000,
            "no time left to read the offered tokens"@,
        ),
        agreed(word) is None ==> refused_by(
            after(Place::TokensOffered { chain_id }, word, now),
            word,
            "token_list_module"@,
        ),
        agreed(word) matches Some(v) ==> calls_in_time(
            after(Place::TokensOffered { chain_id }, word, now),
            Ask::ListAssets { chain_id, tokens: Tree::Array(listed(v, "tokens"@)) },
            Place::TokensAssets,
            now,
            8000,
            3000,
            "no time left to read the asset rows"@,
        ),
        agreed(word) is None ==> refused_by(
            after(Place::TokensAssets, word, now),
            word,
            "evm_assets_module"@,
        ),
        agreed(word) matches Some(v) ==> after(Place::TokensAssets, word, now) == Move::Answer(
            Outcome::Value(v),
        ),
{
    law_what_is_heard(word, "token_list_module"@);
    law_what_is_heard(word, "evm_assets_module"@);
    lemma_no_time("no time left to read the offered tokens"@);
    lemma_no_time("no time left to read the asset rows"@);
}

/// The picker reads the native row of its own chain, once both modules were asked for their
/// defaults.
pub proof fn law_picker_reads_the_native_row(picker: Pick, word: Word, now: Moment)
    ensures
        !now.eth_rpc_settled && worth_it(waited(now, 8000, 5000)) ==> calls(
            first(Entry::Catalogue { picker }, now),
            Ask::EthRpcInitDefaults,
            Place::CatalogueEthRpc { picker },
            now,
            8000,
            5000,
        ),
        now.eth_rpc_settled || !worth_it(waited(now, 8000, 5000)) ==> first(
            Entry::Catalogue { picker },
            now,
        ) == after(Place::CatalogueEthRpc { picker }, word, now),
        !now.token_list_settled && worth_it(waited(now, 8000, 5000)) ==> calls(
            after(Place::CatalogueEthRpc { picker }, word, now),
            Ask::TokenListInitDefaults,
            Place::CatalogueTokenList { picker },
            now,
            8000,
            5000,
        ),
        now.token_list_settled || !worth_it(waited(now, 8000, 5000)) ==> after(
            Place::CatalogueEthRpc { picker },
            word,
            now,
        ) == after(Place::CatalogueTokenList { picker }, word, now),
        calls_in_time(
            after(Place::CatalogueTokenList { picker }, word, now),
            Ask::ListAssets { chain_id: picker.chain_id, tokens: Tree::Array(Seq::empty()) },
            Place::CatalogueNative { picker },
            now,
            8000,
            3000,
            "no time left to read the asset rows"@,
        ),
{
    lemma_no_time("no time left to read the asset rows"@);
}

/// Whether a text stands somewhere in another, whatever the case.
pub open spec fn found_in(hay: Seq<char>, needle: Seq<char>) -> bool {
    exists|i: int|
        0 <= i <= hay.len() - needle.len() && same_but_case(
            #[trigger] hay.subrange(i, i + needle.len()),
            needle,
        )
}

proof fn lemma_found(hay: Seq<char>, needle: Seq<char>)
    ensures
        holds_text(lowered(hay), lowered(needle)) <==> found_in(hay, needle),
{
    let n = needle.len();
    assert(lowered(needle).len() == n);
    assert forall|i: int| 0 <= i <= hay.len() - n implies lowered(hay).subrange(i, i + n) == lowered(
        #[trigger] hay.subrange(i, i + n),
    ) by {
        assert(lowered(hay).subrange(i, i + n) =~= lowered(hay.subrange(i, i + n)));
    }
    if holds_text(lowered(hay), lowered(needle)) {
        let i = choose|i: int|
            0 <= i <= lowered(hay).len() - n && #[trigger] lowered(hay).subrange(i, i + n)
                == lowered(needle);
        assert(same_but_case(hay.subrange(i, i + n), needle));
    }
    if found_in(hay, needle) {
        let i = choose|i: int|
            0 <= i <= hay.len() - n && same_but_case(#[trigger] hay.subrange(i, i + n), needle);
        assert(lowered(hay).subrange(i, i + n) == lowered(needle));
    }
}

/// The native row answers a query that is nothing but white space, and one that stands in its
/// symbol or in its name, whatever the case.
pub proof fn law_what_the_native_row_answers(native: Tree, query: Seq<char>)
    ensures
        answers(native, query) <==> trimmed(query).len() == 0 || found_in(
            native.text_at("symbol"@),
            trimmed(query),
        ) || found_in(native.text_at("name"@), trimmed(query)),
{
    lemma_found(native.text_at("symbol"@), trimmed(query));
    lemma_found(native.text_at("name"@), trimmed(query));
}

/// token_list is asked for the page that the picker asked for: on its chain, for its query, with
/// its limit, and from its offset, less the slot that the native row takes where it answers the
/// query; an offset below zero counts as zero. The native row is the first that evm_assets listed.
pub proof fn law_picker_asks_for_its_own_page(picker: Pick, word: Word, now: Moment)
    ensures
        agreed(word) is None ==> refused_by(
            after(Place::CatalogueNative { picker }, word, now),
            word,
            "evm_assets_module"@,
        ),
        agreed(word) matches Some(v) ==> {
            let rows = listed(v, "tokens"@);
            let native = if rows.len() > 0 {
                rows[0]
            } else {
                Tree::Null
            };
            let matches = trimmed(picker.query).len() == 0 || found_in(
                native.text_at("symbol"@),
                trimmed(picker.query),
            ) || found_in(native.text_at("name"@), trimmed(picker.query));
            calls_in_time(
                after(Place::CatalogueNative { picker }, word, now),
                Ask::ListAvailable {
                    chain_id: picker.chain_id,
                    query: picker.query,
                    offset: if picker.offset <= 0 {
                        0
                    } else if matches {
                        (picker.offset - 1) as i64
                    } else {
                        picker.offset
                    },
                    limit: picker.limit,
                },
                Place::CataloguePage { picker, native, matches },
                now,
                8000,
                3000,
                "no time left to read the token picker"@,
            )
        },
{
    law_what_is_heard(word, "evm_assets_module"@);
    lemma_no_time("no time left to read the token picker"@);
    if let Some(v) = agreed(word) {
        let rows = listed(v, "tokens"@);
        law_what_the_native_row_answers(
            if rows.len() > 0 {
                rows[0]
            } else {
                Tree::Null
            },
            picker.query,
        );
    }
}

/// Whether a row can be marked: it is an object, or null.
pub open spec fn can_be_marked(row: Tree) -> bool {
    row is Object || row is Null
}

/// The picker's page is token_list's: its rows, each marked as a token and else as it was; in front
/// of them the native row, where it answers the query, the page is the first one and it is to show
/// anything; and no more of them than the limit, where there is one. The counts are those of the
/// rows shown and of all there are, and all else that token_list says of the page stands.
pub proof fn law_picker_page_is_told(
    picker: Pick,
    native: Tree,
    matches: bool,
    word: Word,
    now: Moment,
    key: Seq<char>,
)
    ensures
        ({
            let next = after(Place::CataloguePage { picker, native, matches }, word, now);
            &&& agreed(word) is None ==> refused_by(next, word, "token_list_module"@)
            &&& agreed(word) matches Some(page) ==> {
                let given = listed(page, "tokens"@);
                let counted = match page.get("total"@) {
                    Some(Tree::Unsigned(n)) => n as int,
                    _ => 0,
                };
                let total = if matches {
                    counted + 1
                } else {
                    counted
                };
                let from = if picker.offset > 0 {
                    picker.offset as int
                } else {
                    0
                };
                let in_front: int = if matches && picker.offset <= 0 && picker.limit != 0 {
                    1
                } else {
                    0
                };
                let all = given.len() + in_front;
                let shown = if 0 < picker.limit < all {
                    picker.limit as int
                } else {
                    all
                };
                if (forall|i: int| 0 <= i < given.len() ==> can_be_marked(#[trigger] given[i]))
                    && total <= u64::MAX {
                    &&& next matches Move::Answer(Outcome::Value(told))
                    &&& told.get("tokens"@) matches Some(Tree::Array(rows))
                    &&& rows.len() == shown
                    &&& in_front == 1 && shown > 0 ==> rows[0] == native
                    &&& forall|i: int|
                        in_front <= i < shown ==> {
                            &&& (#[trigger] rows[i]).get("native"@) == Some(Tree::Bool(false))
                            &&& key != "native"@ ==> rows[i].get(key) == given[i - in_front].get(
                                key,
                            )
                        }
                    &&& told.get("total"@) == Some(Tree::Unsigned(total as u64))
                    &&& told.get("offset"@) == Some(Tree::Unsigned(from as u64))
                    &&& told.get("shown"@) == Some(Tree::Unsigned(shown as u64))
                    &&& told.get("hasMore"@) == Some(Tree::Bool(from + shown < total))
                    &&& key != "tokens"@ && key != "total"@ && key != "offset"@ && key != "shown"@
                        && key != "hasMore"@ ==> told.get(key) == page.get(key)
                } else {
                    next is Unanswerable
                }
            }
        }),
{
    law_what_is_heard(word, "token_list_module"@);
    reveal_strlit("native");
    assert("native"@.len() == 6);
    reveal_strlit("total");
    reveal_strlit("offset");
    reveal_strlit("shown");
    reveal_strlit("hasMore");
    reveal_strlit("tokens");
    assert("total"@.len() == 5 && "total"@[0] == 't');
    assert("offset"@.len() == 6 && "offset"@[0] == 'o');
    assert("shown"@.len() == 5 && "shown"@[0] == 's');
    assert("hasMore"@.len() == 7);
    assert("tokens"@.len() == 6 && "tokens"@[0] == 't');
}

/// Balances are read for the tokens offered on the chain and those the caller lists: nothing at all
/// is no list, and what is no list of objects is refused in words.
pub proof fn law_balances_are_asked_for(
    chain_id: i64,
    address: Seq<char>,
    tokens: Seq<char>,
    now: Moment,
)
    ensures
        ({
            let next = first(Entry::Balances { chain_id, address, tokens }, now);
            let read = json_read(tokens);
            let words = "no time left to read the offered tokens"@;
            if trimmed(tokens).len() == 0 {
                calls_in_time(
                    next,
                    Ask::ListOffered { chain_id },
                    Place::BalancesOffered { chain_id, address, extra: Seq::empty() },
                    now,
                    17000,
                    3000,
                    words,
                )
            } else if read is Err {
                refused_in(next, "invalid token list: "@ + read->Err_0)
            } else if !(read->Ok_0 is Array) {
                refused_in(next, "a token list must be a JSON array"@)
            } else if exists|i: int|
                0 <= i < read->Ok_0->Array_0.len() && !(#[trigger] read->Ok_0->Array_0[i]
                    is Object) {
                refused_in(next, "every token in the list must be an object"@)
            } else {
                calls_in_time(
                    next,
                    Ask::ListOffered { chain_id },
                    Place::BalancesOffered { chain_id, address, extra: read->Ok_0->Array_0 },
                    now,
                    17000,
                    3000,
                    words,
                )
            }
        }),
{
    lemma_no_time("no time left to read the offered tokens"@);
    lemma_no_time("a token list must be a JSON array"@);
    lemma_no_time("every token in the list must be an object"@);
    if let Err(e) = json_read(tokens) {
        lemma_no_time("invalid token list: "@ + e);
    }
}

/// The balances are those of the account on the chain, for the offered rows joined with the
/// caller's, in alphabetical order; what evm_assets answers is relayed as it came, and so are
/// fee_module's tiers and the sender's answer to a withdrawal.
pub proof fn law_balances_are_read(
    chain_id: i64,
    address: Seq<char>,
    extra: Seq<Tree>,
    word: Word,
    now: Moment,
)
    ensures
        ({
            let next = after(Place::BalancesOffered { chain_id, address, extra }, word, now);
            &&& agreed(word) is None ==> refused_by(next, word, "token_list_module"@)
            &&& agreed(word) matches Some(v) ==> calls_in_time(
                next,
                Ask::GetBalances {
                    chain_id,
                    address,
                    tokens: Tree::Array(joined(listed(v, "tokens"@), extra)),
                    sort: "alpha"@,
                },
                Place::BalancesRead,
                now,
                17000,
                15000,
                "no time left to read the balances"@,
            )
        }),
        relayed_whole(after(Place::BalancesRead, word, now), word, "evm_assets_module"@),
{
    law_what_is_heard(word, "token_list_module"@);
    lemma_no_time("no time left to read the balances"@);
    if let Word::Unreachable { why } = word {
        lemma_no_time("evm_assets_module"@ + ": "@ + why);
    }
}

/// fee_module is asked for the tiers of the chain, and what it answers is relayed as it came.
pub proof fn law_fee_tiers_are_relayed(chain_id: i64, word: Word, now: Moment)
    ensures
        calls_in_time(
            first(Entry::FeeTiers { chain_id }, now),
            Ask::SuggestFees { chain_id },
            Place::FeeTiers,
            now,
            5000,
            5000,
            "no time left to price the fee"@,
        ),
        relayed_whole(after(Place::FeeTiers, word, now), word, "fee_module"@),
{
    lemma_no_time("no time left to price the fee"@);
    if let Word::Unreachable { why } = word {
        lemma_no_time("fee_module"@ + ": "@ + why);
    }
}

/// The sender is asked to withdraw the send that was named, and what it answers is relayed as it
/// came.
pub proof fn law_a_swap_is_withdrawn(request_id: Seq<char>, word: Word, now: Moment)
    ensures
        calls_in_time(
            first(Entry::CancelSwap { request_id }, now),
            Ask::CancelSend { request_id },
            Place::Cancel,
            now,
            5000,
            5000,
            "no time left to cancel the swap"@,
        ),
        relayed_whole(after(Place::Cancel, word, now), word, "tx_sender_module"@),
{
    lemma_no_time("no time left to cancel the swap"@);
    if let Word::Unreachable { why } = word {
        lemma_no_time("tx_sender_module"@ + ": "@ + why);
    }
}

/// What is added to an answer under a name: what the keystore says under it, or an object without
/// fields where it says nothing; and nothing at all where it does not say yes.
pub open spec fn adds(out: Tree, told: Tree, word: Word, name: Seq<char>, key: Seq<char>) -> bool {
    match agreed(word) {
        Some(v) => {
            &&& told.get(name) == Some(
                match v.get(name) {
                    Some(said) => said,
                    None => empty_object(),
                },
            )
            &&& key != name ==> told.get(key) == out.get(key)
        },
        None => told == out,
    }
}

/// The accounts are the keystore's; then, where there is time, it is asked for their names and for
/// their wallets. Whatever it says of these, and whether there is time, the accounts are told.
pub proof fn law_accounts_are_told(out: Tree, word: Word, now: Moment, key: Seq<char>)
    requires
        out is Object,
    ensures
        calls_in_time(
            first(Entry::Accounts, now),
            Ask::ListAccounts,
            Place::AccountsList,
            now,
            6000,
            3000,
            "no time left to read the accounts"@,
        ),
        agreed(word) is None ==> refused_by(
            after(Place::AccountsList, word, now),
            word,
            "keystore_module"@,
        ),
        agreed(word) matches Some(v) ==> {
            let next = after(Place::AccountsList, word, now);
            let told = match next {
                Move::Ask { place: Place::AccountsLabels { out }, .. } => out,
                Move::Answer(Outcome::Value(out)) => out,
                _ => Tree::Null,
            };
            &&& told.get("ok"@) == Some(Tree::Bool(true))
            &&& told.get("accounts"@) == Some(
                match v.get("accounts"@) {
                    Some(accounts) => accounts,
                    None => Tree::Array(Seq::empty()),
                },
            )
            &&& told.get(key) is Some ==> key == "ok"@ || key == "accounts"@
            &&& worth_it(waited(now, 6000, 3000)) ==> calls(
                next,
                Ask::GetLabels,
                Place::AccountsLabels { out: told },
                now,
                6000,
                3000,
            )
            &&& !worth_it(waited(now, 6000, 3000)) ==> next == Move::Answer(Outcome::Value(told))
        },
        ({
            let next = after(Place::AccountsLabels { out }, word, now);
            let told = match next {
                Move::Ask { place: Place::AccountsWallets { out }, .. } => out,
                Move::Answer(Outcome::Value(out)) => out,
                _ => Tree::Null,
            };
            &&& adds(out, told, word, "labels"@, key)
            &&& worth_it(waited(now, 6000, 3000)) ==> calls(
                next,
                Ask::GetAccountWallets,
                Place::AccountsWallets { out: told },
                now,
                6000,
                3000,
            )
            &&& !worth_it(waited(now, 6000, 3000)) ==> next == Move::Answer(Outcome::Value(told))
        }),
        after(Place::AccountsWallets { out }, word, now) matches Move::Answer(Outcome::Value(told))
            && adds(out, told, word, "wallets"@, key),
{
    law_what_is_heard(word, "keystore_module"@);
    lemma_no_time("no time left to read the accounts"@);
    reveal_strlit("ok");
    reveal_strlit("accounts");
    assert("ok"@.len() == 2);
    assert("accounts"@.len() == 8);
}

/// Whether a value means that the swap is to be asked about again, and says why.
pub open spec fn not_the_end(v: Tree, words: Seq<char>) -> bool {
    &&& v.get("ok"@) == Some(Tree::Bool(false))
    &&& v.get("final"@) == Some(Tree::Bool(false))
    &&& v.get("error"@) == Some(Tree::Text(words))
}

/// The sender is asked about the send that was named. Its status is told whole, with whether it is
/// the end: as the sender says itself, else where it says yes and neither waits for approval nor
/// broadcasts. Where it says nothing that can be read, or there was no time, it is not the end, and
/// a sender that was not reached is told by a code.
pub proof fn law_status_is_told(request_id: Seq<char>, word: Word, now: Moment, key: Seq<char>)
    ensures
        worth_it(waited(now, 18000, 18000)) ==> calls(
            first(Entry::SwapStatus { request_id }, now),
            Ask::SendStatus { request_id },
            Place::Status,
            now,
            18000,
            18000,
        ),
        !worth_it(waited(now, 18000, 18000)) ==> (first(
            Entry::SwapStatus { request_id },
            now,
        ) matches Move::Answer(Outcome::Value(v)) && not_the_end(
            v,
            "no time left to read the swap"@,
        )),
        after(Place::Status, word, now) matches Move::Answer(Outcome::Value(v)) && match word {
            Word::Value { value, .. } => if value is Object {
                &&& v.get("final"@) == Some(
                    Tree::Bool(
                        match value.get("final"@) {
                            Some(Tree::Bool(end)) => end,
                            _ => value.get("ok"@) == Some(Tree::Bool(true)) && value.get("status"@)
                                != Some(Tree::Text("awaitingApproval"@)) && value.get("status"@)
                                != Some(Tree::Text("broadcasting"@)),
                        },
                    ),
                )
                &&& key != "final"@ ==> v.get(key) == value.get(key)
            } else {
                not_the_end(v, "tx_sender_module: the reply is not an object"@)
            },
            Word::Unreadable { why, .. } => not_the_end(v, "tx_sender_module"@ + ": "@ + why)
                && v.get("code"@) is None,
            Word::Unreachable { why } => not_the_end(v, "tx_sender_module"@ + ": "@ + why) && v.get(
                "code"@,
            ) == Some(Tree::Text("unreachable"@)),
        },
{
    reveal_strlit("awaitingApproval");
    reveal_strlit("broadcasting");
    assert("awaitingApproval"@.len() == 16);
    assert("broadcasting"@.len() == 12);
    reveal_strlit("ok");
    reveal_strlit("final");
    reveal_strlit("error");
    reveal_strlit("code");
    assert("ok"@.len() == 2);
    assert("final"@.len() == 5 && "final"@[0] == 'f');
    assert("error"@.len() == 5 && "error"@[0] == 'e');
    assert("code"@.len() == 4);
}

/// The sender is asked for the history of the account on the chain, which is a number above zero.
pub proof fn law_history_is_asked_for(address: Seq<char>, chain_id: i64, now: Moment)
    ensures
        chain_id <= 0 ==> refused_in(
            first(Entry::Swaps { address, chain_id }, now),
            "chain "@ + signed(chain_id as int) + " is not a valid chain id"@,
        ),
        chain_id > 0 ==> calls_in_time(
            first(Entry::Swaps { address, chain_id }, now),
            Ask::History { address, chain_id },
            Place::Swaps { address, chain_id },
            now,
            12000,
            12000,
            "no time left to read the swaps"@,
        ),
{
    lemma_no_time("chain "@ + signed(chain_id as int) + " is not a valid chain id"@);
    lemma_no_time("no time left to read the swaps"@);
}

/// The swaps are told by the chain and the account they were asked for, with whether receipts are
/// still due, as the sender says, and those of its rows that this app tagged.
pub proof fn law_swaps_are_told(
    address: Seq<char>,
    chain_id: i64,
    word: Word,
    now: Moment,
    key: Seq<char>,
)
    ensures
        ({
            let next = after(Place::Swaps { address, chain_id }, word, now);
            &&& agreed(word) is None ==> refused_by(next, word, "tx_sender_module"@)
            &&& agreed(word) matches Some(v) ==> {
                &&& next matches Move::Answer(Outcome::Value(told))
                &&& told.get("ok"@) == Some(Tree::Bool(true))
                &&& chain_id >= 0 ==> told.get("chainId"@) == Some(Tree::Unsigned(chain_id as u64))
                &&& told.get("address"@) == Some(Tree::Text(address))
                &&& told.get("stillDue"@) == Some(
                    match v.get("stillDue"@) {
                        Some(due) => due,
                        None => Tree::Bool(false),
                    },
                )
                &&& told.get("swaps"@) == Some(
                    Tree::Array(swaps_in(listed(v, "transactions"@), "uniswap_ui"@)),
                )
                &&& told.get(key) is Some ==> key == "ok"@ || key == "chainId"@ || key == "address"@
                    || key == "stillDue"@ || key == "swaps"@
            }
        }),
{
    law_what_is_heard(word, "tx_sender_module"@);
    reveal_strlit("ok");
    reveal_strlit("chainId");
    reveal_strlit("address");
    reveal_strlit("stillDue");
    reveal_strlit("swaps");
    assert("ok"@.len() == 2);
    assert("chainId"@.len() == 7 && "chainId"@[0] == 'c');
    assert("address"@.len() == 7 && "address"@[0] == 'a');
    assert("stillDue"@.len() == 8);
    assert("swaps"@.len() == 5);
}

} // verus!
