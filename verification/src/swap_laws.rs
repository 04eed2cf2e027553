//! What a quote and a swap ask, step by step, and what they answer: how each side is settled, what
//! is built, priced and sent.
use crate::budget::deadline_for;
use crate::calls::Ask;
use crate::digits::{
    all_zeros, digits, lemma_numeral, lemma_value_zeros, lemma_zero_value, numeral, signed, value,
};
use crate::entry_laws::{
    agreed, calls, calls_in_time, law_what_is_heard, lemma_no_time, lemma_says_no, listed,
    passed_on, refused_by, refused_in, says_no, waited, worth_it,
};
use crate::flow::{task_at, Moment, Move, Place, Side, Task, Wish};
use crate::form::{address, form_read, native, Form};
use crate::json::Tree;
use crate::replies::{Outcome, Word};
use crate::request_laws::places_given;
use crate::requests::{module_request, purpose, request_for};
use crate::session::after;
use crate::session_laws::{first, Entry};
use crate::swapping::{
    bounded_request, built_from, priced, quote_terms, settle, settle_bought, side_named,
};
use crate::text::trimmed;
use crate::units::{amount, base_value, exact};
use vstd::prelude::*;

verus! {

/// The whole allowance of a quote or a swap, in milliseconds.
pub open spec fn whole_time(wish: Wish) -> int {
    match wish {
        Wish::Quote => 58000,
        Wish::Swap => 60000,
    }
}

/// Whether a side needs no lookup: it names its decimals, and is an address or the native coin.
pub open spec fn named_exactly(token: Seq<char>, decimals: Option<u32>) -> bool {
    decimals is Some && (native(token) || address(token))
}

/// Whether the build is asked for, with the form as it stands, on its chain; and with a deadline
/// for a swap, that many minutes from now.
pub open spec fn asks_for_the_build(next: Move, task: Task, now: Moment) -> bool {
    let deadline: u64 = match task.wish {
        Wish::Quote => 0,
        Wish::Swap => (now.unix_secs + 60 * task.form.deadline_mins) as u64,
    };
    calls_in_time(
        next,
        Ask::BuildSwap {
            chain_id: task.form.chain_id,
            request: module_request(task.form, deadline),
        },
        Place::Build { job: task, deadline },
        now,
        whole_time(task.wish),
        40000,
        "no time left to quote the swap"@,
    )
}

/// Whether the amount is settled and the build asked for, or it is said why not.
pub open spec fn settles_the_amount(next: Move, task: Task, now: Moment) -> bool {
    let f = task.form;
    let typed = trimmed(f.amount_units);
    if f.amount_in.len() > 0 {
        if forall|i: int| 0 <= i < f.amount_in.len() ==> #[trigger] f.amount_in[i] == '0' {
            refused_in(next, "there is nothing to swap"@)
        } else {
            asks_for_the_build(next, task, now)
        }
    } else if f.decimals_in is None {
        refused_in(next, "the sell token's decimals are unknown"@)
    } else if f.decimals_in->0 <= 77 && amount(typed, f.decimals_in->0 as nat) {
        let n = base_value(typed, f.decimals_in->0 as nat);
        if n == 0 {
            refused_in(next, "there is nothing to swap"@)
        } else {
            asks_for_the_build(
                next,
                Task { form: Form { amount_in: numeral(n), ..f }, ..task },
                now,
            )
        }
    } else {
        refused_in(
            next,
            "the amount must be a number with at most "@ + numeral(f.decimals_in->0 as nat)
                + " decimal places"@,
        )
    }
}

/// Whether the offered tokens are read, to look that side up.
pub open spec fn looks_up(next: Move, task: Task, side: Side, now: Moment) -> bool {
    calls_in_time(
        next,
        Ask::ListOffered { chain_id: task.form.chain_id },
        Place::SideOffered { job: task, side },
        now,
        whole_time(task.wish),
        3000,
        "no time left to read the offered tokens"@,
    )
}

/// Whether the side bought is looked up where it has to be, and the amount settled where it has
/// not.
pub open spec fn settles_the_side_bought(next: Move, task: Task, now: Moment) -> bool {
    if named_exactly(task.form.token_out, task.form.decimals_out) {
        settles_the_amount(next, task, now)
    } else {
        looks_up(next, task, Side::Bought, now)
    }
}

/// Whether the side sold is looked up where it has to be, and the side bought settled where it has
/// not.
pub open spec fn settles_both_sides(next: Move, task: Task, now: Moment) -> bool {
    if named_exactly(task.form.token_in, task.form.decimals_in) {
        settles_the_side_bought(next, task, now)
    } else {
        looks_up(next, task, Side::Sold, now)
    }
}

proof fn lemma_build(task: Task, now: Moment)
    ensures
        asks_for_the_build(built_from(task, now), task, now),
{
    lemma_no_time("no time left to quote the swap"@);
}

proof fn lemma_amount(task: Task, now: Moment)
    ensures
        settles_the_amount(priced(task, now), task, now),
{
    let f = task.form;
    lemma_build(task, now);
    lemma_no_time("there is nothing to swap"@);
    lemma_no_time("the sell token's decimals are unknown"@);
    if let Some(d) = f.decimals_in {
        let n = base_value(trimmed(f.amount_units), d as nat);
        lemma_numeral(n);
        lemma_build(Task { form: Form { amount_in: numeral(n), ..f }, ..task }, now);
        lemma_no_time(
            "the amount must be a number with at most "@ + numeral(d as nat) + " decimal places"@,
        );
        if n == 0 {
            lemma_zero_value(numeral(n));
        } else if forall|i: int| 0 <= i < numeral(n).len() ==> #[trigger] numeral(n)[i] == '0' {
            lemma_value_zeros(numeral(n));
        }
    }
}

proof fn lemma_bought(task: Task, now: Moment)
    ensures
        settles_the_side_bought(settle_bought(task, now), task, now),
{
    lemma_amount(task, now);
    lemma_no_time("no time left to read the offered tokens"@);
}

proof fn lemma_both(task: Task, now: Moment)
    ensures
        settles_both_sides(settle(task, now), task, now),
{
    lemma_bought(task, now);
    lemma_no_time("no time left to read the offered tokens"@);
}

/// A request that is no swap is refused in words. A quote settles its sides at once; a swap first
/// has eth_rpc asked for its defaults, where it has not said yes before and there is time, and then
/// reads the chain registry.
pub proof fn law_a_request_is_taken_up(
    text: Seq<char>,
    via: Seq<char>,
    wish: Wish,
    word: Word,
    now: Moment,
)
    ensures
        ({
            let next = first(Entry::Request { text, via, wish }, now);
            &&& form_read(text) matches Err(words) ==> refused_in(next, words)
            &&& form_read(text) matches Ok(form) ==> {
                let job = Task { form, via, wish };
                &&& wish is Quote ==> settles_both_sides(next, job, now)
                &&& wish is Swap && !now.eth_rpc_settled && worth_it(waited(now, 60000, 5000))
                    ==> calls(
                    next,
                    Ask::EthRpcInitDefaults,
                    Place::SwapEthRpc { job },
                    now,
                    60000,
                    5000,
                )
                &&& wish is Swap && (now.eth_rpc_settled || !worth_it(waited(now, 60000, 5000)))
                    ==> next == after(Place::SwapEthRpc { job }, word, now)
            }
        }),
{
    match form_read(text) {
        Ok(form) => lemma_both(Task { form, via, wish }, now),
        Err(words) => lemma_no_time(words),
    }
}

/// Whether a record of the registry is that of the chain, switched on and in scope.
pub open spec fn switched_on(record: Tree, chain_id: i64) -> bool {
    &&& match record.get("chainId"@) {
        Some(Tree::Unsigned(n)) => n == chain_id,
        Some(Tree::Negative(n)) => n == chain_id,
        _ => false,
    }
    &&& record.get("enabled"@) == Some(Tree::Bool(true))
    &&& record.get("inScope"@) == Some(Tree::Bool(true))
}

/// A swap reads the chain registry, and goes on to settle its sides exactly where the registry
/// holds a record of its own chain that is switched on and in scope.
pub proof fn law_a_swap_asks_whether_its_chain_is_on(job: Task, word: Word, now: Moment)
    ensures
        calls_in_time(
            after(Place::SwapEthRpc { job }, word, now),
            Ask::ListChainConfigs,
            Place::SwapRegistry { job },
            now,
            whole_time(job.wish),
            1500,
            "no time left to read the chain registry"@,
        ),
        agreed(word) is None ==> refused_by(
            after(Place::SwapRegistry { job }, word, now),
            word,
            "eth_rpc_module"@,
        ),
        agreed(word) matches Some(v) ==> {
            let next = after(Place::SwapRegistry { job }, word, now);
            let records = listed(v, "chains"@);
            let on = exists|i: int|
                0 <= i < records.len() && switched_on(#[trigger] records[i], job.form.chain_id);
            &&& on ==> settles_both_sides(next, job, now)
            &&& !on ==> refused_in(
                next,
                "chain "@ + signed(job.form.chain_id as int)
                    + " is not enabled in the current network scope"@,
            )
        },
{
    law_what_is_heard(word, "eth_rpc_module"@);
    lemma_no_time("no time left to read the chain registry"@);
    lemma_no_time(
        "chain "@ + signed(job.form.chain_id as int)
            + " is not enabled in the current network scope"@,
    );
    lemma_both(job, now);
    if let Some(v) = agreed(word) {
        let records = listed(v, "chains"@);
        let id = job.form.chain_id;
        assert(forall|i: int|
            0 <= i < records.len() ==> (switched_on(#[trigger] records[i], id) <==> records[i].signed_at(
                "chainId"@,
            ) == Some(id) && records[i].bool_at("enabled"@) == Some(true) && records[i].bool_at(
                "inScope"@,
            ) == Some(true)));
    }
}

/// A side is looked up by the token that the form names on that side, on the form's chain, among
/// the rows that token_list offers.
pub proof fn law_a_side_is_looked_up_by_its_own_token(
    job: Task,
    side: Side,
    word: Word,
    now: Moment,
)
    ensures
        agreed(word) is None ==> refused_by(
            after(Place::SideOffered { job, side }, word, now),
            word,
            "token_list_module"@,
        ),
        agreed(word) matches Some(v) ==> calls_in_time(
            after(Place::SideOffered { job, side }, word, now),
            Ask::ResolveAsset {
                chain_id: job.form.chain_id,
                token: match side {
                    Side::Sold => job.form.token_in,
                    Side::Bought => job.form.token_out,
                },
                offered: Tree::Array(listed(v, "tokens"@)),
            },
            Place::SideResolve { job, side },
            now,
            whole_time(job.wish),
            3000,
            "no time left to look the token up"@,
        ),
{
    law_what_is_heard(word, "token_list_module"@);
    lemma_no_time("no time left to look the token up"@);
}

/// What an asset row calls its token: "ETH" for the native coin, else its address; as it was asked
/// for where the row names none.
pub open spec fn token_by_row(asset: Tree, asked: Seq<char>) -> Seq<char> {
    if asset.get("native"@) == Some(Tree::Bool(true)) {
        seq!['E', 'T', 'H']
    } else {
        match asset.get("address"@) {
            Some(Tree::Text(a)) => a,
            _ => asked,
        }
    }
}

/// The symbol of a side: the caller's, else the row's, else none.
pub open spec fn symbol_by_row(asset: Tree, asked: Seq<char>) -> Seq<char> {
    if asked.len() > 0 {
        asked
    } else {
        match asset.get("symbol"@) {
            Some(Tree::Text(s)) => s,
            _ => Seq::empty(),
        }
    }
}

/// Whether the side sold is named by the row and the side bought settled next; or it is said that
/// the row has no decimals.
pub open spec fn takes_the_row_for_the_side_sold(
    next: Move,
    job: Task,
    asset: Tree,
    now: Moment,
) -> bool {
    let f = job.form;
    let token = token_by_row(asset, f.token_in);
    match places_given(asset.get("decimals"@)) {
        None => refused_in(next, token + " has no decimals on record"@),
        Some(d) => settles_the_side_bought(
            next,
            Task {
                form: Form {
                    token_in: token,
                    symbol_in: symbol_by_row(asset, f.symbol_in),
                    decimals_in: Some(d),
                    ..f
                },
                ..job
            },
            now,
        ),
    }
}

/// Whether the side bought is named by the row and the amount settled next; or it is said that the
/// row has no decimals.
pub open spec fn takes_the_row_for_the_side_bought(
    next: Move,
    job: Task,
    asset: Tree,
    now: Moment,
) -> bool {
    let f = job.form;
    let token = token_by_row(asset, f.token_out);
    match places_given(asset.get("decimals"@)) {
        None => refused_in(next, token + " has no decimals on record"@),
        Some(d) => settles_the_amount(
            next,
            Task {
                form: Form {
                    token_out: token,
                    symbol_out: symbol_by_row(asset, f.symbol_out),
                    decimals_out: Some(d),
                    ..f
                },
                ..job
            },
            now,
        ),
    }
}

/// Whether a side is named by the row.
pub open spec fn takes_the_row(
    next: Move,
    job: Task,
    side: Side,
    asset: Tree,
    now: Moment,
) -> bool {
    match side {
        Side::Sold => takes_the_row_for_the_side_sold(next, job, asset, now),
        Side::Bought => takes_the_row_for_the_side_bought(next, job, asset, now),
    }
}

proof fn lemma_row(job: Task, side: Side, asset: Tree, now: Moment)
    ensures
        takes_the_row(side_named(job, side, asset, now), job, side, asset, now),
{
    let f = job.form;
    reveal_strlit("ETH");
    assert("ETH"@ =~= seq!['E', 'T', 'H']);
    let (sold, bought) = (token_by_row(asset, f.token_in), token_by_row(asset, f.token_out));
    lemma_no_time(sold + " has no decimals on record"@);
    lemma_no_time(bought + " has no decimals on record"@);
    if let Some(d) = places_given(asset.get("decimals"@)) {
        lemma_bought(
            Task {
                form: Form {
                    token_in: sold,
                    symbol_in: symbol_by_row(asset, f.symbol_in),
                    decimals_in: Some(d),
                    ..f
                },
                ..job
            },
            now,
        );
        lemma_amount(
            Task {
                form: Form {
                    token_out: bought,
                    symbol_out: symbol_by_row(asset, f.symbol_out),
                    decimals_out: Some(d),
                    ..f
                },
                ..job
            },
            now,
        );
    }
}

/// A side is settled by the row that evm_assets resolved it to. Where it resolved it to none, an
/// address is looked for in the whole catalogue, on the form's chain and by that address alone, and
/// anything else is refused as evm_assets refused it. The first row of the catalogue then settles
/// the side, and where there is none it is said that the token is not in the list.
pub proof fn law_a_side_is_settled_by_its_row(job: Task, side: Side, word: Word, now: Moment)
    ensures
        ({
            let token = match side {
                Side::Sold => job.form.token_in,
                Side::Bought => job.form.token_out,
            };
            let next = after(Place::SideResolve { job, side }, word, now);
            let then = after(Place::SideListed { job, side }, word, now);
            &&& agreed(word) matches Some(v) ==> takes_the_row(
                next,
                job,
                side,
                match v.get("asset"@) {
                    Some(asset) => asset,
                    None => Tree::Null,
                },
                now,
            )
            &&& agreed(word) is None && !address(token) ==> refused_by(
                next,
                word,
                "evm_assets_module"@,
            )
            &&& agreed(word) is None && address(token) ==> calls_in_time(
                next,
                Ask::GetTokensByAddress {
                    chain_id: job.form.chain_id,
                    addresses: Tree::Array(seq![Tree::Text(token)]),
                },
                Place::SideListed { job, side },
                now,
                whole_time(job.wish),
                3000,
                "no time left to look the token up"@,
            )
            &&& agreed(word) is None ==> refused_by(then, word, "token_list_module"@)
            &&& (agreed(word) matches Some(v) && listed(v, "tokens"@).len() == 0) ==> refused_in(
                then,
                token + " is not in the token list; name its decimals"@,
            )
            &&& (agreed(word) matches Some(v) && listed(v, "tokens"@).len() > 0) ==> takes_the_row(
                then,
                job,
                side,
                listed(agreed(word)->0, "tokens"@)[0],
                now,
            )
        }),
{
    law_what_is_heard(word, "evm_assets_module"@);
    law_what_is_heard(word, "token_list_module"@);
    lemma_no_time("no time left to look the token up"@);
    lemma_no_time(job.form.token_in + " is not in the token list; name its decimals"@);
    lemma_no_time(job.form.token_out + " is not in the token list; name its decimals"@);
    if let Some(v) = agreed(word) {
        lemma_row(
            job,
            side,
            match v.get("asset"@) {
                Some(asset) => asset,
                None => Tree::Null,
            },
            now,
        );
        if listed(v, "tokens"@).len() > 0 {
            lemma_row(job, side, listed(v, "tokens"@)[0], now);
        }
    }
}

/// The row that answered a lookup, where one did.
pub open spec fn row_found(place: Place, word: Word) -> Option<Tree> {
    match (place, agreed(word)) {
        (Place::SideResolve { .. }, Some(v)) => Some(
            match v.get("asset"@) {
                Some(asset) => asset,
                None => Tree::Null,
            },
        ),
        (Place::SideListed { .. }, Some(v)) => if listed(v, "tokens"@).len() > 0 {
            Some(listed(v, "tokens"@)[0])
        } else {
            None
        },
        _ => None,
    }
}

/// Missing decimals are looked up and never assumed: whatever follows the lookup of a side, the
/// form has on that side the decimals that the row names, the row's address or "ETH" as its token,
/// and the caller's symbol or else the row's. The other side is as it was, and so is the amount
/// that was typed. A row without decimals goes no further.
pub proof fn law_decimals_are_those_of_the_row(place: Place, word: Word, now: Moment)
    ensures
        row_found(place, word) matches Some(asset) ==> {
            let side = match place {
                Place::SideResolve { side, .. } => side,
                Place::SideListed { side, .. } => side,
                _ => Side::Sold,
            };
            let f = task_at(place)->0.form;
            let n = asset.get("decimals"@);
            &&& !(n matches Some(Tree::Unsigned(d)) && d <= u32::MAX) ==> !(after(place, word, now)
                is Ask)
            &&& after(place, word, now) matches Move::Ask { place: next, .. } ==> {
                &&& task_at(next) matches Some(later)
                &&& n matches Some(Tree::Unsigned(d))
                &&& later.form.amount_units == f.amount_units
                &&& side is Sold ==> {
                    &&& later.form.decimals_in == Some(d as u32)
                    &&& later.form.decimals_in->0 == d
                    &&& later.form.token_in == token_by_row(asset, f.token_in)
                    &&& later.form.symbol_in == symbol_by_row(asset, f.symbol_in)
                    &&& later.form.decimals_out == f.decimals_out
                    &&& later.form.token_out == f.token_out
                    &&& later.form.symbol_out == f.symbol_out
                }
                &&& side is Bought ==> {
                    &&& later.form.decimals_out == Some(d as u32)
                    &&& later.form.decimals_out->0 == d
                    &&& later.form.token_out == token_by_row(asset, f.token_out)
                    &&& later.form.symbol_out == symbol_by_row(asset, f.symbol_out)
                    &&& later.form.decimals_in == f.decimals_in
                    &&& later.form.token_in == f.token_in
                    &&& later.form.symbol_in == f.symbol_in
                }
            }
        },
{
    match place {
        Place::SideResolve { job, side } => law_a_side_is_settled_by_its_row(job, side, word, now),
        Place::SideListed { job, side } => law_a_side_is_settled_by_its_row(job, side, word, now),
        _ => {},
    }
}

/// What a callee is told of its deadline, in milliseconds: three tenths of a second less than it is
/// waited for, rounded down, where that leaves a twentieth of a second; else nothing.
pub proof fn law_what_a_callee_is_told(wait: u128)
    requires
        wait <= 0x7fff_ffff_ffff_ffff,
    ensures
        wait >= 350_000_000 ==> (deadline_for(wait) matches Some(ms) && ms == (wait - 300_000_000)
            / 1_000_000),
        wait < 350_000_000 ==> deadline_for(wait) is None,
{
    if wait >= 350_000_000 {
        let millis: u128 = ((wait - 300_000_000) as u128) / 1_000_000;
        assert(millis <= 0x7fff_ffff_ffff_ffff);
        assert(millis as i64 == millis);
    }
}

/// Whether a request is that one, with how long the sender may take added to it, where it is told.
pub open spec fn with_a_deadline(sent: Tree, req: Tree, wait: int, key: Seq<char>) -> bool {
    &&& wait >= 350_000_000 ==> sent.get("deadlineMs"@) == Some(
        Tree::Unsigned(((wait - 300_000_000) / 1_000_000) as u64),
    )
    &&& wait < 350_000_000 ==> sent == req
    &&& key != "deadlineMs"@ ==> sent.get(key) == req.get(key)
}

proof fn lemma_deadline(req: Tree, wait: u128, key: Seq<char>)
    requires
        req is Object,
        wait <= 0x7fff_ffff_ffff_ffff,
    ensures
        with_a_deadline(bounded_request(req, wait), req, wait as int, key),
{
    law_what_a_callee_is_told(wait);
}

/// A quote that was built is priced by the sender: it is asked for the calls of this build, without
/// words, and told how long it may take. Where it cannot be asked, the quote says why in place of
/// its price. A build that was refused is refused.
pub proof fn law_a_build_is_priced(
    job: Task,
    deadline: u64,
    word: Word,
    now: Moment,
    key: Seq<char>,
)
    requires
        job.wish is Quote,
    ensures
        ({
            let next = after(Place::Build { job, deadline }, word, now);
            let time = waited(now, 58000, 18000);
            &&& agreed(word) is None ==> refused_by(next, word, "uniswap_module"@)
            &&& agreed(word) matches Some(built) ==> match request_for(
                built,
                job.form,
                job.via,
                Seq::empty(),
            ) {
                Err(words) => next matches Move::Rate { built: shown, fee, form } && shown == built
                    && form == job.form && says_no(fee, words),
                Ok(req) => if worth_it(time) {
                    &&& next matches Move::Ask { ask: Ask::Prepare { request }, grant, place }
                    &&& grant == time
                    &&& place == (Place::Prepare { job, built })
                    &&& with_a_deadline(request, req, time, key)
                } else {
                    next matches Move::Rate { built: shown, fee, form } && shown == built && form
                        == job.form && says_no(fee, "no time left to price the swap"@)
                },
            }
        }),
{
    law_what_is_heard(word, "uniswap_module"@);
    lemma_says_no("no time left to price the swap"@);
    if let Some(built) = agreed(word) {
        match request_for(built, job.form, job.via, Seq::empty()) {
            Err(words) => lemma_says_no(words),
            Ok(req) => {
                if worth_it(waited(now, 58000, 18000)) {
                    lemma_deadline(req, waited(now, 58000, 18000) as u128, key);
                }
            },
        }
    }
}

/// A swap that was built is sent: the sender is asked for the calls of this build in the words that
/// the human approves, and told how long it may take. A build that was refused, or cannot be asked
/// for, is refused.
pub proof fn law_a_build_is_sent(job: Task, deadline: u64, word: Word, now: Moment, key: Seq<char>)
    requires
        job.wish is Swap,
    ensures
        ({
            let next = after(Place::Build { job, deadline }, word, now);
            let time = waited(now, 60000, 18000);
            &&& agreed(word) is None ==> refused_by(next, word, "uniswap_module"@)
            &&& agreed(word) matches Some(built) ==> {
                let words = purpose(job.form, built, job.via);
                match request_for(built, job.form, job.via, words) {
                    Err(why) => refused_in(next, why),
                    Ok(req) => if worth_it(time) {
                        &&& next matches Move::Ask { ask: Ask::Send { request }, grant, place }
                        &&& grant == time
                        &&& place == (Place::Send { job, built, words, deadline })
                        &&& with_a_deadline(request, req, time, key)
                    } else {
                        refused_in(next, "no time left to request approval"@)
                    },
                }
            }
        }),
{
    law_what_is_heard(word, "uniswap_module"@);
    lemma_no_time("no time left to request approval"@);
    if let Some(built) = agreed(word) {
        match request_for(built, job.form, job.via, purpose(job.form, built, job.via)) {
            Err(why) => lemma_no_time(why),
            Ok(req) => {
                if worth_it(waited(now, 60000, 18000)) {
                    lemma_deadline(req, waited(now, 60000, 18000) as u128, key);
                }
            },
        }
    }
}

/// A quote is told of the build and of the form that it was priced with, and with what the sender
/// said: its pricing, or its refusal.
pub proof fn law_a_quote_is_told(job: Task, built: Tree, word: Word, now: Moment)
    ensures
        after(Place::Prepare { job, built }, word, now) matches Move::Rate { built: shown, fee, form }
            && shown == built && form == job.form && match agreed(word) {
            Some(v) => fee == v,
            None => passed_on(fee, word, "tx_sender_module"@),
        },
{
    law_what_is_heard(word, "tx_sender_module"@);
}

/// A swap is answered with all that the sender said, and with the chain and the account of the
/// form, the words that were approved, the least that the build gives, and the deadline it was
/// built with.
pub proof fn law_a_swap_is_told(
    job: Task,
    built: Tree,
    words: Seq<char>,
    deadline: u64,
    word: Word,
    now: Moment,
    key: Seq<char>,
)
    ensures
        ({
            let next = after(Place::Send { job, built, words, deadline }, word, now);
            &&& agreed(word) is None ==> refused_by(next, word, "tx_sender_module"@)
            &&& agreed(word) matches Some(sent) ==> {
                &&& next matches Move::Answer(Outcome::Value(told))
                &&& job.form.chain_id >= 0 ==> told.get("chainId"@) == Some(
                    Tree::Unsigned(job.form.chain_id as u64),
                )
                &&& told.get("from"@) == Some(Tree::Text(job.form.from))
                &&& told.get("purpose"@) == Some(Tree::Text(words))
                &&& told.get("amountOutMin"@) == Some(
                    match built.get("amountOutMin"@) {
                        Some(least) => least,
                        None => Tree::Null,
                    },
                )
                &&& told.get("deadline"@) == Some(Tree::Unsigned(deadline))
                &&& key != "chainId"@ && key != "from"@ && key != "purpose"@ && key
                    != "amountOutMin"@ && key != "deadline"@ ==> told.get(key) == sent.get(key)
            }
        }),
{
    law_what_is_heard(word, "tx_sender_module"@);
    reveal_strlit("chainId");
    reveal_strlit("from");
    reveal_strlit("purpose");
    reveal_strlit("amountOutMin");
    reveal_strlit("deadline");
    assert("chainId"@.len() == 7 && "chainId"@[0] == 'c');
    assert("from"@.len() == 4);
    assert("purpose"@.len() == 7 && "purpose"@[0] == 'p');
    assert("amountOutMin"@.len() == 12);
    assert("deadline"@.len() == 8);
}

/// The rate of a quote is that of the amount sold, in the decimals of the token sold, and of what
/// comes back, in those of the token bought, eighteen where a side has none; where both are numbers
/// above zero, and only there.
pub proof fn law_which_amounts_are_rated(built: Tree, form: Form)
    ensures
        ({
            let (sold, bought) = (form.amount_in, built.text_at("amountOut"@));
            let din: u32 = match form.decimals_in {
                Some(d) => d,
                None => 18,
            };
            let dout: u32 = match form.decimals_out {
                Some(d) => d,
                None => 18,
            };
            if digits(sold) && digits(bought) && value(sold) > 0 && value(bought) > 0 {
                quote_terms(built, form) == Some(
                    (exact(sold, din as nat), exact(bought, dout as nat)),
                )
            } else {
                quote_terms(built, form) is None
            }
        }),
{
    let (sold, bought) = (form.amount_in, built.text_at("amountOut"@));
    if digits(sold) {
        if value(sold) == 0 {
            lemma_zero_value(sold);
        } else if all_zeros(sold) {
            lemma_value_zeros(sold);
        }
    }
    if digits(bought) {
        if value(bought) == 0 {
            lemma_zero_value(bought);
        } else if all_zeros(bought) {
            lemma_value_zeros(bought);
        }
    }
}

} // verus!
