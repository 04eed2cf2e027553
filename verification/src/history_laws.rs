//! What holds of the app's history as a whole.
use crate::digits::{digits, lemma_numeral, value};
use crate::floats::{law_floats_keep_order, EXACT_TO};
use crate::form::{decimals_at, native, Form};
use crate::history::{
    bundle_id, bundle_ids, by_leg, by_newest, delivered, ended, got, got_by, in_figures,
    lemma_ids_distinct, leg_number, moving, newest, recipient_of, recorded, rows_of_bundle, some_flag,
    some_moving, some_status, status_of, sum, swap_entry, swap_leg, swap_of, swaps_in, tagged,
    time_of, title,
};
use crate::json::Tree;
use crate::order::{in_order, law_ordered, ordered};
use crate::requests::{
    call_meta, exact_or_nothing, law_every_call_tagged, lemma_meta_fields, optional_text,
    request_for, shown_or_nothing, APP,
};
use crate::text::same_but_case;
use vstd::prelude::*;

verus! {

/// A bundle is listed once. Each of the app's rows belongs to a listed bundle, and to that alone;
/// a bundle that is listed has rows, all of them the app's own and all of them its own.
pub proof fn law_own_rows_in_one_bundle(rows: Seq<Tree>, app: Seq<char>)
    ensures
        bundle_ids(rows, app).no_duplicates(),
        forall|i: int|
            0 <= i < rows.len() && tagged(#[trigger] rows[i], app) ==> bundle_ids(
                rows,
                app,
            ).contains(bundle_id(rows[i])) && rows_of_bundle(
                rows,
                app,
                bundle_id(rows[i]),
            ).contains(rows[i]),
        forall|id: Seq<char>|
            bundle_ids(rows, app).contains(id) ==> (#[trigger] rows_of_bundle(rows, app, id)).len()
                > 0,
        forall|id: Seq<char>, k: int|
            0 <= k < rows_of_bundle(rows, app, id).len() ==> {
                let row = #[trigger] rows_of_bundle(rows, app, id)[k];
                rows.contains(row) && tagged(row, app) && bundle_id(row) == id
            },
{
    lemma_ids_distinct(rows, app);
    assert forall|i: int| 0 <= i < rows.len() && tagged(#[trigger] rows[i], app) implies bundle_ids(
        rows,
        app,
    ).contains(bundle_id(rows[i])) && rows_of_bundle(rows, app, bundle_id(rows[i])).contains(
        rows[i],
    ) by {
        lemma_named(rows, app, i);
        let id = bundle_id(rows[i]);
        rows.lemma_filter_contains(|row: Tree| tagged(row, app) && bundle_id(row) == id, i);
    }
    assert forall|id: Seq<char>| bundle_ids(rows, app).contains(id) implies (
    #[trigger] rows_of_bundle(rows, app, id)).len() > 0 by {
        lemma_some_row(rows, app, id);
        let i = choose|i: int|
            0 <= i < rows.len() && tagged(#[trigger] rows[i], app) && bundle_id(rows[i]) == id;
        rows.lemma_filter_contains(|row: Tree| tagged(row, app) && bundle_id(row) == id, i);
    }
    assert forall|id: Seq<char>, k: int| 0 <= k < rows_of_bundle(rows, app, id).len() implies {
        let row = #[trigger] rows_of_bundle(rows, app, id)[k];
        rows.contains(row) && tagged(row, app) && bundle_id(row) == id
    } by {
        rows.lemma_filter_pred(|row: Tree| tagged(row, app) && bundle_id(row) == id, k);
        rows.lemma_filter_contains_rev(
            |row: Tree| tagged(row, app) && bundle_id(row) == id,
            rows_of_bundle(rows, app, id)[k],
        );
    }
}

proof fn lemma_named(rows: Seq<Tree>, app: Seq<char>, i: int)
    requires
        0 <= i < rows.len(),
        tagged(rows[i], app),
    ensures
        bundle_ids(rows, app).contains(bundle_id(rows[i])),
    decreases rows.len(),
{
    let head = rows.drop_last();
    let before = bundle_ids(head, app);
    let ids = bundle_ids(rows, app);
    let id = bundle_id(rows[i]);
    if i < rows.len() - 1 {
        lemma_named(head, app, i);
    }
    if before.contains(id) {
        let k = choose|k: int| 0 <= k < before.len() && before[k] == id;
        assert(ids[k] == id);
    } else {
        assert(ids.last() == id);
    }
}

proof fn lemma_some_row(rows: Seq<Tree>, app: Seq<char>, id: Seq<char>)
    requires
        bundle_ids(rows, app).contains(id),
    ensures
        exists|i: int|
            0 <= i < rows.len() && tagged(#[trigger] rows[i], app) && bundle_id(rows[i]) == id,
    decreases rows.len(),
{
    let head = rows.drop_last();
    let before = bundle_ids(head, app);
    let ids = bundle_ids(rows, app);
    let k = choose|k: int| 0 <= k < ids.len() && ids[k] == id;
    if k < before.len() {
        assert(before[k] == id);
        lemma_some_row(head, app, id);
        let i = choose|i: int|
            0 <= i < head.len() && tagged(#[trigger] head[i], app) && bundle_id(head[i]) == id;
        assert(rows[i] == head[i]);
    } else {
        assert(rows[rows.len() - 1] == rows.last());
    }
}

/// There is one swap per bundle, and none stands before one that is newer.
pub proof fn law_newest_first(rows: Seq<Tree>, app: Seq<char>)
    ensures
        swaps_in(rows, app).len() == bundle_ids(rows, app).len(),
        forall|i: int|
            0 <= i < bundle_ids(rows, app).len() ==> swaps_in(rows, app).contains(
                swap_of(rows, app, #[trigger] bundle_ids(rows, app)[i]),
            ),
        forall|i: int, j: int|
            0 <= i <= j < swaps_in(rows, app).len() ==> time_of(#[trigger] swaps_in(rows, app)[i])
                >= time_of(#[trigger] swaps_in(rows, app)[j]),
{
    broadcast use vstd::seq_lib::group_to_multiset_ensures;

    let ids = bundle_ids(rows, app);
    let entries = Seq::new(ids.len(), |i: int| swap_of(rows, app, ids[i]));
    let swaps = swaps_in(rows, app);
    let key = by_newest();
    law_ordered(entries, key);
    assert(in_order(swaps, key));
    assert forall|i: int, j: int| 0 <= i <= j < swaps.len() implies time_of(#[trigger] swaps[i])
        >= time_of(#[trigger] swaps[j]) by {
        assert(key(swaps[i]) <= key(swaps[j]));
    }
    assert forall|i: int| 0 <= i < ids.len() implies swaps.contains(
        swap_of(rows, app, #[trigger] ids[i]),
    ) by {
        assert(entries[i] == swap_of(rows, app, ids[i]));
        assert(entries.contains(entries[i]));
        assert(entries.to_multiset().contains(entries[i]));
        assert(swaps.to_multiset().contains(entries[i]));
    }
}

proof fn lemma_entry_fields(id: Seq<char>, legs: Seq<Tree>)
    ensures
        swap_entry(id, legs).text_at("requestId"@) == id,
        swap_entry(id, legs).text_at("status"@) == status_of(legs),
        swap_entry(id, legs).list_at("legs"@) == legs,
        time_of(swap_entry(id, legs)) == newest(legs),
        swap_entry(id, legs).get("received"@) == optional_text(got_by(legs, title(legs).0)),
        swap_entry(id, legs).get("receivedExact"@) == (match (
            got_by(legs, title(legs).0),
            decimals_at(title(legs).0, "decimalsOut"@),
        ) {
            (Some(base), Some(d)) => Some(Tree::Text(exact_or_nothing(base, d))),
            _ => None,
        }),
        swap_entry(id, legs).get("receivedDisplay"@) == (match (
            got_by(legs, title(legs).0),
            decimals_at(title(legs).0, "decimalsOut"@),
        ) {
            (Some(base), Some(d)) => Some(Tree::Text(shown_or_nothing(base, d))),
            _ => None,
        }),
{
    reveal_strlit("requestId");
    reveal_strlit("status");
    reveal_strlit("timestamp");
    reveal_strlit("hashes");
    reveal_strlit("swap");
    reveal_strlit("label");
    reveal_strlit("origin");
    reveal_strlit("via");
    reveal_strlit("legs");
    reveal_strlit("receivedDisplay");
    reveal_strlit("receivedExact");
    reveal_strlit("received");
    assert("requestId"@.len() == 9 && "requestId"@[0] == 'r');
    assert("status"@.len() == 6 && "status"@[0] == 's');
    assert("timestamp"@.len() == 9 && "timestamp"@[0] == 't');
    assert("hashes"@.len() == 6 && "hashes"@[0] == 'h');
    assert("swap"@.len() == 4 && "swap"@[0] == 's');
    assert("label"@.len() == 5);
    assert("origin"@.len() == 6 && "origin"@[0] == 'o');
    assert("via"@.len() == 3);
    assert("legs"@.len() == 4 && "legs"@[0] == 'l');
    assert("receivedDisplay"@.len() == 15);
    assert("receivedExact"@.len() == 13);
    assert("received"@.len() == 8);
}

proof fn lemma_newest(legs: Seq<Tree>)
    ensures
        forall|i: int| 0 <= i < legs.len() ==> recorded(#[trigger] legs[i]) <= newest(legs),
        legs.len() > 0 ==> newest(legs) == 0 || exists|i: int|
            0 <= i < legs.len() && recorded(#[trigger] legs[i]) == newest(legs),
    decreases legs.len(),
{
    if legs.len() > 0 {
        let head = legs.drop_last();
        lemma_newest(head);
        assert forall|i: int| 0 <= i < legs.len() implies recorded(#[trigger] legs[i]) <= newest(
            legs,
        ) by {
            if i < head.len() {
                assert(head[i] == legs[i]);
            }
        }
        assert(legs[legs.len() - 1] == legs.last());
        if newest(legs) == newest(head) && newest(head) > 0 {
            let i = choose|i: int|
                0 <= i < head.len() && recorded(#[trigger] head[i]) == newest(head);
            assert(legs[i] == head[i]);
        }
    }
}

/// A swap carries its bundle's id, the status of its worst leg, the time of its newest, and its
/// bundle's rows in the order of their legs.
pub proof fn law_legs_in_order(rows: Seq<Tree>, app: Seq<char>, id: Seq<char>)
    ensures
        ({
            let swap = swap_of(rows, app, id);
            let legs = swap.list_at("legs"@);
            &&& swap.text_at("requestId"@) == id
            &&& swap.text_at("status"@) == status_of(legs)
            &&& legs.to_multiset() == rows_of_bundle(rows, app, id).to_multiset()
            &&& forall|i: int|
                0 <= i < legs.len() ==> recorded(#[trigger] legs[i]) <= time_of(swap)
            &&& time_of(swap) == 0 || exists|i: int|
                0 <= i < legs.len() && recorded(#[trigger] legs[i]) == time_of(swap)
            &&& forall|i: int, j: int|
                0 <= i <= j < legs.len() ==> leg_number(#[trigger] legs[i]) <= leg_number(
                    #[trigger] legs[j],
                )
        }),
{
    let legs = ordered(rows_of_bundle(rows, app, id), by_leg());
    law_ordered(rows_of_bundle(rows, app, id), by_leg());
    lemma_entry_fields(id, legs);
    lemma_newest(legs);
    assert forall|i: int, j: int| 0 <= i <= j < legs.len() implies leg_number(#[trigger] legs[i])
        <= leg_number(#[trigger] legs[j]) by {
        let key = by_leg();
        assert(key(legs[i]) <= key(legs[j]));
    }
}

/// A bundle is as bad as its worst leg: it failed exactly when a leg did, and it is confirmed only
/// when no leg failed, is blocked, stalled or still moves, and the swap itself was not replaced.
pub proof fn law_worst_leg_wins(legs: Seq<Tree>)
    ensures
        status_of(legs) == "failed"@ <==> some_status(legs, "failed"@),
        status_of(legs) == "confirmed"@ <==> !some_status(legs, "failed"@) && !some_flag(
            legs,
            "verificationBlocked"@,
        ) && !some_flag(legs, "stalled"@) && !some_moving(legs) && !(legs.len() > 0
            && legs.last().text_at("status"@) == "replaced"@),
{
    reveal_strlit("failed");
    reveal_strlit("blocked");
    reveal_strlit("stalled");
    reveal_strlit("pending");
    reveal_strlit("replaced");
    reveal_strlit("confirmed");
    assert("failed"@.len() == 6);
    assert("blocked"@.len() == 7 && "blocked"@[0] == 'b');
    assert("stalled"@.len() == 7 && "stalled"@[0] == 's');
    assert("pending"@.len() == 7 && "pending"@[0] == 'p');
    assert("replaced"@.len() == 8);
    assert("confirmed"@.len() == 9);
}

/// A replaced approval is not the swap: where the swap, the last leg, is confirmed, and no leg
/// failed, is blocked, stalled or still moves, the bundle is confirmed.
pub proof fn law_replaced_approval(legs: Seq<Tree>)
    requires
        legs.len() > 0,
        legs.last().text_at("status"@) == "confirmed"@,
        !some_flag(legs, "verificationBlocked"@),
        !some_flag(legs, "stalled"@),
        forall|i: int|
            0 <= i < legs.len() ==> (#[trigger] legs[i]).text_at("status"@) == "confirmed"@
                || legs[i].text_at("status"@) == "replaced"@,
    ensures
        status_of(legs) == "confirmed"@,
{
    reveal_strlit("failed");
    reveal_strlit("replaced");
    reveal_strlit("confirmed");
    assert("failed"@.len() == 6);
    assert("replaced"@.len() == 8);
    assert("confirmed"@.len() == 9);
}

/// A swap that is not settled has received nothing, nor has a bundle without a swap leg.
pub proof fn law_unsettled_received_nothing(legs: Seq<Tree>, meta: Tree)
    requires
        swap_leg(legs) matches Some(leg) ==> leg.text_at("status"@) != "confirmed"@,
    ensures
        got_by(legs, meta) is None,
{
}

/// A list that the sender cut short is not summed, except that it totals the ether that reached the
/// account itself over every log.
pub proof fn law_cut_list_is_not_summed(leg: Tree, meta: Tree)
    requires
        ({
            let token = meta.text_at("tokenOut"@);
            let account = leg.text_at("from"@);
            if native(token) {
                &&& !same_but_case(recipient_of(meta, account), account)
                &&& leg.unsigned_at("nativeTransfersMore"@) matches Some(n) && n > 0
            } else {
                leg.unsigned_at("transfersMore"@) matches Some(n) && n > 0
            }
        }),
    ensures
        got(leg, meta) is None,
{
}

/// What a swap received is a number. For a token, and for ether to another recipient, it is the sum
/// over the transfers of what was bought to the recipient, and over those alone.
pub proof fn law_received_is_the_sum(leg: Tree, meta: Tree)
    ensures
        got(leg, meta) matches Some(base) ==> digits(base) && ({
            let token = meta.text_at("tokenOut"@);
            let account = leg.text_at("from"@);
            let recipient = recipient_of(meta, account);
            let list = if native(token) {
                "nativeTransfers"@
            } else {
                "transfers"@
            };
            let amounts = delivered(leg.list_at(list), token, recipient);
            if native(token) && same_but_case(recipient, account) {
                base == leg.text_at("nativeReceivedWei"@)
            } else {
                amounts.len() > 0 && in_figures(amounts) && value(base) == sum(amounts)
            }
        }),
{
    let token = meta.text_at("tokenOut"@);
    let recipient = recipient_of(meta, leg.text_at("from"@));
    lemma_numeral(sum(delivered(leg.list_at("nativeTransfers"@), token, recipient)));
    lemma_numeral(sum(delivered(leg.list_at("transfers"@), token, recipient)));
}

/// The app finds its swaps again: a row that carries the meta of a call that the sender was asked
/// to make is one of the app's own.
pub proof fn law_sent_calls_are_found(
    built: Tree,
    f: Form,
    via: Seq<char>,
    words: Seq<char>,
    i: int,
    row: Tree,
)
    requires
        request_for(built, f, via, words) is Ok,
        0 <= i < built.list_at("calls"@).len(),
        row.get("meta"@) == request_for(built, f, via, words)->Ok_0.list_at("calls"@)[i].get(
            "meta"@,
        ),
    ensures
        tagged(row, APP@),
{
    law_every_call_tagged(built, f, via, words, i);
}

/// A call is read back from the history as it was tagged: what kind it was, who asked, the token
/// bought and its decimals, and where the swap delivers, which is the recipient that the form names,
/// else the account.
pub proof fn law_call_read_back(
    built: Tree,
    f: Form,
    via: Seq<char>,
    call: Tree,
    account: Seq<char>,
)
    ensures
        ({
            let meta = call_meta(built, f, via, call);
            &&& meta.text_at("kind"@) == call.text_at("kind"@)
            &&& meta.text_at("via"@) == via
            &&& meta.text_at("tokenOut"@) == f.token_out
            &&& decimals_at(meta, "decimalsOut"@) == f.decimals_out
            &&& recipient_of(meta, account) == (if f.recipient.len() > 0 {
                f.recipient
            } else {
                account
            })
        }),
{
    lemma_meta_fields(built, f, via, call);
}

/// A swap shows what it received, and shows nothing where nothing was measured. In token units it
/// shows it where the decimals of the token bought are on record.
pub proof fn law_received_is_shown(id: Seq<char>, legs: Seq<Tree>)
    ensures
        ({
            let swap = swap_entry(id, legs);
            let base = got_by(legs, title(legs).0);
            let decimals = decimals_at(title(legs).0, "decimalsOut"@);
            &&& swap.get("received"@) == optional_text(base)
            &&& base is None || decimals is None ==> swap.get("receivedExact"@) is None
                && swap.get("receivedDisplay"@) is None
            &&& base is Some && decimals is Some ==> swap.get("receivedExact"@) == Some(
                Tree::Text(exact_or_nothing(base->0, decimals->0)),
            ) && swap.get("receivedDisplay"@) == Some(
                Tree::Text(shown_or_nothing(base->0, decimals->0)),
            )
        }),
{
    lemma_entry_fields(id, legs);
}

/// The sender's own word on the end of a swap is taken; of a sender that gives none no refusal is
/// final, and neither is a swap that still moves.
pub proof fn law_final(reply: Tree)
    ensures
        reply.bool_at("final"@) matches Some(b) ==> ended(reply) == b,
        reply.bool_at("final"@) is None && ended(reply) ==> reply.bool_at("ok"@) == Some(true)
            && reply.text_at("status"@) != "awaitingApproval"@ && reply.text_at("status"@)
            != "broadcasting"@,
{
}

/// When a row was recorded, where its time is a whole number.
pub open spec fn stamp(row: Tree) -> Option<u64> {
    row.unsigned_at("timestamp"@)
}

/// A row of a later time was recorded no earlier, and up to two to the 53rd it was recorded later.
pub proof fn law_later_stamp_is_newer(earlier: Tree, later: Tree)
    requires
        stamp(earlier) is Some,
        stamp(later) is Some,
        stamp(earlier)->0 <= stamp(later)->0,
    ensures
        recorded(earlier) <= recorded(later),
        stamp(earlier)->0 < stamp(later)->0 <= EXACT_TO ==> recorded(earlier) < recorded(later),
{
    law_floats_keep_order(stamp(earlier)->0, stamp(later)->0);
}

/// Of two swaps the one with the later leg comes first: where a leg of one has a later time than
/// every leg of the other, that swap stands before it. Times are whole numbers up to two to the
/// 53rd.
pub proof fn law_later_swap_comes_first(
    rows: Seq<Tree>,
    app: Seq<char>,
    newer: int,
    older: int,
    leg: int,
)
    requires
        0 <= newer < swaps_in(rows, app).len(),
        0 <= older < swaps_in(rows, app).len(),
        0 <= leg < swaps_in(rows, app)[newer].list_at("legs"@).len(),
        stamp(swaps_in(rows, app)[newer].list_at("legs"@)[leg]) is Some,
        stamp(swaps_in(rows, app)[newer].list_at("legs"@)[leg])->0 <= EXACT_TO,
        forall|i: int|
            0 <= i < swaps_in(rows, app)[older].list_at("legs"@).len() ==> (stamp(
                #[trigger] swaps_in(rows, app)[older].list_at("legs"@)[i],
            ) matches Some(n) && n < stamp(
                swaps_in(rows, app)[newer].list_at("legs"@)[leg],
            )->0),
    ensures
        newer < older,
{
    let swaps = swaps_in(rows, app);
    let (a, b) = (swaps[newer].list_at("legs"@), swaps[older].list_at("legs"@));
    law_newest_first(rows, app);
    lemma_swap_is_of_a_bundle(rows, app, newer);
    lemma_swap_is_of_a_bundle(rows, app, older);
    let x = choose|id: Seq<char>| swaps[newer] == #[trigger] swap_of(rows, app, id);
    let y = choose|id: Seq<char>| swaps[older] == #[trigger] swap_of(rows, app, id);
    law_legs_in_order(rows, app, x);
    law_legs_in_order(rows, app, y);
    assert(recorded(a[leg]) <= time_of(swaps[newer]));
    if time_of(swaps[older]) == 0 {
        lemma_bundle_has_legs(rows, app, older);
        law_later_stamp_is_newer(b[0], a[leg]);
    } else {
        let i = choose|i: int|
            0 <= i < b.len() && recorded(#[trigger] b[i]) == time_of(swaps[older]);
        law_later_stamp_is_newer(b[i], a[leg]);
    }
}

/// Every swap that is listed is that of a bundle.
proof fn lemma_swap_is_of_a_bundle(rows: Seq<Tree>, app: Seq<char>, i: int)
    requires
        0 <= i < swaps_in(rows, app).len(),
    ensures
        exists|id: Seq<char>|
            bundle_ids(rows, app).contains(id) && swaps_in(rows, app)[i] == #[trigger] swap_of(
                rows,
                app,
                id,
            ),
{
    broadcast use vstd::seq_lib::group_to_multiset_ensures;

    let ids = bundle_ids(rows, app);
    let entries = Seq::new(ids.len(), |k: int| swap_of(rows, app, ids[k]));
    let swaps = swaps_in(rows, app);
    law_ordered(entries, by_newest());
    assert(swaps.contains(swaps[i]));
    assert(entries.to_multiset().contains(swaps[i]));
    assert(entries.contains(swaps[i]));
    let k = choose|k: int| 0 <= k < entries.len() && entries[k] == swaps[i];
    assert(ids.contains(ids[k]));
    assert(swaps[i] == swap_of(rows, app, ids[k]));
}

/// Every swap that is listed has a leg.
proof fn lemma_bundle_has_legs(rows: Seq<Tree>, app: Seq<char>, i: int)
    requires
        0 <= i < swaps_in(rows, app).len(),
    ensures
        swaps_in(rows, app)[i].list_at("legs"@).len() > 0,
{
    lemma_swap_is_of_a_bundle(rows, app, i);
    let id = choose|id: Seq<char>|
        bundle_ids(rows, app).contains(id) && swaps_in(rows, app)[i] == #[trigger] swap_of(
            rows,
            app,
            id,
        );
    law_own_rows_in_one_bundle(rows, app);
    let bundle = rows_of_bundle(rows, app, id);
    assert(bundle.len() > 0);
    law_ordered(bundle, by_leg());
    lemma_entry_fields(id, ordered(bundle, by_leg()));
}

/// How bad a status is: one that has landed, or was replaced, holds nothing up.
pub open spec fn severity(status: Seq<char>) -> nat {
    if status == "failed"@ {
        4
    } else if status == "blocked"@ {
        3
    } else if status == "stalled"@ {
        2
    } else if status == "pending"@ {
        1
    } else {
        0
    }
}

/// Another leg never makes a bundle better: it stays as bad as it was, or gets worse.
pub proof fn law_another_leg_is_no_cure(legs: Seq<Tree>, leg: Tree)
    ensures
        severity(status_of(legs)) <= severity(status_of(legs.push(leg))),
{
    let more = legs.push(leg);
    assert(forall|i: int| 0 <= i < legs.len() ==> #[trigger] more[i] == legs[i]);
    if some_status(legs, "failed"@) {
        let i = choose|i: int|
            0 <= i < legs.len() && (#[trigger] legs[i]).text_at("status"@) == "failed"@;
        assert(more[i].text_at("status"@) == "failed"@);
    }
    if some_flag(legs, "verificationBlocked"@) {
        let i = choose|i: int|
            0 <= i < legs.len() && (#[trigger] legs[i]).bool_at("verificationBlocked"@) == Some(
                true,
            );
        assert(more[i].bool_at("verificationBlocked"@) == Some(true));
    }
    if some_flag(legs, "stalled"@) {
        let i = choose|i: int|
            0 <= i < legs.len() && (#[trigger] legs[i]).bool_at("stalled"@) == Some(true);
        assert(more[i].bool_at("stalled"@) == Some(true));
    }
    if some_moving(legs) {
        let i = choose|i: int| 0 <= i < legs.len() && moving(#[trigger] legs[i]);
        assert(moving(more[i]));
    }
    reveal_strlit("failed");
    reveal_strlit("blocked");
    reveal_strlit("stalled");
    reveal_strlit("pending");
    reveal_strlit("replaced");
    reveal_strlit("confirmed");
    assert("failed"@.len() == 6);
    assert("blocked"@.len() == 7 && "blocked"@[0] == 'b');
    assert("stalled"@.len() == 7 && "stalled"@[0] == 's');
    assert("pending"@.len() == 7 && "pending"@[0] == 'p');
    assert("replaced"@.len() == 8);
    assert("confirmed"@.len() == 9);
}

} // verus!
