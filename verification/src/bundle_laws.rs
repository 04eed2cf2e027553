//! What the entry of a bundle says of its legs, field by field, and which rows of the history it is
//! made of.
use crate::digits::{digits, lemma_numeral, value};
use crate::floats::float_bits;
use crate::form::native;
use crate::history::{
    bundle_id, bundle_ids, by_leg, by_newest, delivered, ended, got, got_by, hashes, in_figures,
    is_swap_leg, leg_number, meta_of_row, moving, newest, recipient_of, recorded, rows_of_bundle,
    some_flag, some_moving, some_status, status_of, sum, swap_entry, swap_leg, swap_of, swaps_in,
    tagged, time_of, title,
};
use crate::json::{empty_object, Tree};
use crate::order::{at_key, law_ordered, ordered};
use crate::request_laws::places_given;
use crate::text::{same_but_case, trimmed};
use crate::units::{exact, shown};
use vstd::prelude::*;

verus! {

/// The text under a name; nothing where there is none.
pub open spec fn written_under(row: Tree, key: Seq<char>) -> Seq<char> {
    match row.get(key) {
        Some(Tree::Text(s)) => s,
        _ => Seq::empty(),
    }
}

proof fn lemma_hashes(legs: Seq<Tree>) -> (at: Seq<int>)
    ensures
        hashes(legs).len() == at.len(),
        forall|k: int|
            0 <= k < at.len() ==> 0 <= #[trigger] at[k] < legs.len() && written_under(
                legs[at[k]],
                "hash"@,
            ).len() > 0 && hashes(legs)[k] == Tree::Text(written_under(legs[at[k]], "hash"@)),
        forall|j: int, k: int| 0 <= j < k < at.len() ==> #[trigger] at[j] < #[trigger] at[k],
        forall|i: int|
            0 <= i < legs.len() && written_under(#[trigger] legs[i], "hash"@).len() > 0
                ==> at.contains(i),
    decreases legs.len(),
{
    if legs.len() == 0 {
        Seq::empty()
    } else {
        let head = legs.drop_last();
        let n = legs.len() - 1;
        let before = lemma_hashes(head);
        assert(forall|i: int| 0 <= i < head.len() ==> head[i] == legs[i]);
        assert(legs[n] == legs.last());
        if legs.last().text_at("hash"@).len() > 0 {
            let at = before.push(n);
            assert forall|i: int|
                0 <= i < legs.len() && written_under(
                    #[trigger] legs[i],
                    "hash"@,
                ).len() > 0 implies at.contains(i) by {
                if i < n {
                    assert(written_under(head[i], "hash"@).len() > 0);
                    let k = choose|k: int| 0 <= k < before.len() && before[k] == i;
                    assert(at[k] == i);
                } else {
                    assert(at[before.len() as int] == n);
                }
            }
            assert forall|k: int| 0 <= k < at.len() implies 0 <= #[trigger] at[k] < legs.len()
                && written_under(legs[at[k]], "hash"@).len() > 0 && hashes(legs)[k] == Tree::Text(
                written_under(legs[at[k]], "hash"@),
            ) by {
                if k < before.len() {
                    assert(at[k] == before[k]);
                }
            }
            at
        } else {
            assert forall|i: int|
                0 <= i < legs.len() && written_under(
                    #[trigger] legs[i],
                    "hash"@,
                ).len() > 0 implies before.contains(i) by {
                assert(i < n);
                assert(written_under(head[i], "hash"@).len() > 0);
            }
            before
        }
    }
}

proof fn lemma_fields(id: Seq<char>, legs: Seq<Tree>)
    ensures
        ({
            let e = swap_entry(id, legs);
            &&& e.get("requestId"@) == Some(Tree::Text(id))
            &&& e.get("status"@) == Some(Tree::Text(status_of(legs)))
            &&& e.get("timestamp"@) == Some(Tree::Float(newest(legs)))
            &&& e.get("hashes"@) == Some(Tree::Array(hashes(legs)))
            &&& e.get("swap"@) == Some(title(legs).0)
            &&& e.get("label"@) == Some(Tree::Text(title(legs).1))
            &&& e.get("legs"@) == Some(Tree::Array(legs))
            &&& legs.len() > 0 ==> e.get("origin"@) == Some(
                Tree::Text(written_under(legs[0], "origin"@)),
            )
            &&& legs.len() > 0 ==> e.get("via"@) == Some(
                Tree::Text(
                    match legs[0].get("meta"@) {
                        Some(m) => written_under(m, "via"@),
                        None => Seq::empty(),
                    },
                ),
            )
        }),
{
    reveal_strlit("requestId");
    reveal_strlit("status");
    reveal_strlit("timestamp");
    reveal_strlit("hashes");
    reveal_strlit("swap");
    reveal_strlit("label");
    reveal_strlit("origin");
    reveal_strlit("via");
    reveal_strlit("legs");
    reveal_strlit("receivedDisplay");
    reveal_strlit("receivedExact");
    reveal_strlit("received");
    assert("requestId"@.len() == 9 && "requestId"@[0] == 'r');
    assert("status"@.len() == 6 && "status"@[0] == 's');
    assert("timestamp"@.len() == 9 && "timestamp"@[0] == 't');
    assert("hashes"@.len() == 6 && "hashes"@[0] == 'h');
    assert("swap"@.len() == 4 && "swap"@[0] == 's');
    assert("label"@.len() == 5);
    assert("origin"@.len() == 6 && "origin"@[0] == 'o');
    assert("via"@.len() == 3);
    assert("legs"@.len() == 4 && "legs"@[0] == 'l');
    assert("receivedDisplay"@.len() == 15);
    assert("receivedExact"@.len() == 13);
    assert("received"@.len() == 8);
}

/// The entry of a bundle names the hashes of its legs: under "hashes" stands the hash of each leg
/// that has one, and nothing else, in the order of the legs.
pub proof fn law_entry_names_the_hashes_of_its_legs(
    id: Seq<char>,
    legs: Seq<Tree>,
) -> (at: Seq<int>)
    ensures
        swap_entry(id, legs).get("hashes"@) matches Some(Tree::Array(named)) && {
            &&& named.len() == at.len()
            &&& forall|k: int|
                0 <= k < at.len() ==> 0 <= #[trigger] at[k] < legs.len() && written_under(
                    legs[at[k]],
                    "hash"@,
                ).len() > 0 && named[k] == Tree::Text(written_under(legs[at[k]], "hash"@))
        },
        forall|j: int, k: int| 0 <= j < k < at.len() ==> #[trigger] at[j] < #[trigger] at[k],
        forall|i: int|
            0 <= i < legs.len() && written_under(#[trigger] legs[i], "hash"@).len() > 0
                ==> at.contains(i),
{
    lemma_fields(id, legs);
    lemma_hashes(legs)
}

/// The entry of a bundle carries its id, its legs as they are, and where it came from and who
/// asked, as its first leg says. It says nothing beside that and its status, time, hashes, title,
/// and what it received.
pub proof fn law_what_an_entry_carries(id: Seq<char>, legs: Seq<Tree>, key: Seq<char>)
    requires
        legs.len() > 0,
    ensures
        ({
            let e = swap_entry(id, legs);
            &&& e.get("requestId"@) == Some(Tree::Text(id))
            &&& e.get("legs"@) == Some(Tree::Array(legs))
            &&& e.get("origin"@) == Some(Tree::Text(written_under(legs[0], "origin"@)))
            &&& e.get("via"@) == Some(
                Tree::Text(
                    match legs[0].get("meta"@) {
                        Some(m) => written_under(m, "via"@),
                        None => Seq::empty(),
                    },
                ),
            )
            &&& e.get(key) is Some ==> key == "requestId"@ || key == "legs"@ || key == "origin"@
                || key == "via"@ || key == "status"@ || key == "timestamp"@ || key == "hashes"@
                || key == "swap"@ || key == "label"@ || key == "received"@ || key
                == "receivedExact"@ || key == "receivedDisplay"@
        }),
{
    lemma_fields(id, legs);
}

/// Whether some leg says yes under a name.
pub open spec fn a_leg_says(legs: Seq<Tree>, flag: Seq<char>) -> bool {
    exists|i: int| 0 <= i < legs.len() && (#[trigger] legs[i]).get(flag) == Some(Tree::Bool(true))
}

/// The status in an entry is that of its worst leg: failed where a leg failed; else blocked where
/// one is held by verification; else stalled where one stalls; else pending where one has neither
/// failed, landed nor been replaced; else replaced where the last leg was; else confirmed.
pub proof fn law_status_is_that_of_the_worst_leg(id: Seq<char>, legs: Seq<Tree>)
    ensures
        swap_entry(id, legs).get("status"@) == Some(
            Tree::Text(
                if exists|i: int|
                    0 <= i < legs.len() && written_under(#[trigger] legs[i], "status"@)
                        == "failed"@ {
                    "failed"@
                } else if a_leg_says(legs, "verificationBlocked"@) {
                    "blocked"@
                } else if a_leg_says(legs, "stalled"@) {
                    "stalled"@
                } else if exists|i: int|
                    0 <= i < legs.len() && written_under(#[trigger] legs[i], "status"@)
                        != "confirmed"@ && written_under(legs[i], "status"@) != "replaced"@ {
                    "pending"@
                } else if legs.len() > 0 && written_under(legs[legs.len() - 1], "status"@)
                    == "replaced"@ {
                    "replaced"@
                } else {
                    "confirmed"@
                },
            ),
        ),
{
    lemma_fields(id, legs);
    assert(forall|i: int|
        0 <= i < legs.len() ==> written_under(#[trigger] legs[i], "status"@) == legs[i].text_at(
            "status"@,
        ));
    assert(forall|i: int, flag: Seq<char>|
        0 <= i < legs.len() ==> (#[trigger] legs[i].get(flag) == Some(Tree::Bool(true))
            <==> legs[i].bool_at(flag) == Some(true)));
    assert(a_leg_says(legs, "verificationBlocked"@) <==> some_flag(
        legs,
        "verificationBlocked"@,
    )) by {
        lemma_flag(legs, "verificationBlocked"@);
    }
    assert(a_leg_says(legs, "stalled"@) <==> some_flag(legs, "stalled"@)) by {
        lemma_flag(legs, "stalled"@);
    }
    lemma_status(legs);
}

proof fn lemma_flag(legs: Seq<Tree>, flag: Seq<char>)
    ensures
        a_leg_says(legs, flag) <==> some_flag(legs, flag),
{
    if a_leg_says(legs, flag) {
        let i = choose|i: int|
            0 <= i < legs.len() && (#[trigger] legs[i]).get(flag) == Some(Tree::Bool(true));
        assert(legs[i].bool_at(flag) == Some(true));
    }
    if some_flag(legs, flag) {
        let i = choose|i: int|
            0 <= i < legs.len() && (#[trigger] legs[i]).bool_at(flag) == Some(true);
        assert(legs[i].get(flag) == Some(Tree::Bool(true)));
    }
}

proof fn lemma_status(legs: Seq<Tree>)
    ensures
        some_status(legs, "failed"@) <==> exists|i: int|
            0 <= i < legs.len() && written_under(#[trigger] legs[i], "status"@) == "failed"@,
        !some_status(legs, "failed"@) ==> (some_moving(legs)
            <==> exists|i: int|
            0 <= i < legs.len() && written_under(#[trigger] legs[i], "status"@) != "confirmed"@
                && written_under(legs[i], "status"@) != "replaced"@),
{
    if some_status(legs, "failed"@) {
        let i = choose|i: int|
            0 <= i < legs.len() && (#[trigger] legs[i]).text_at("status"@) == "failed"@;
        assert(written_under(legs[i], "status"@) == "failed"@);
    } else {
        if some_moving(legs) {
            let i = choose|i: int|
                0 <= i < legs.len() && moving(#[trigger] legs[i]);
            assert(written_under(legs[i], "status"@) != "confirmed"@);
        }
        if exists|i: int|
            0 <= i < legs.len() && written_under(#[trigger] legs[i], "status"@) != "confirmed"@
                && written_under(legs[i], "status"@) != "replaced"@ {
            let i = choose|i: int|
                0 <= i < legs.len() && written_under(#[trigger] legs[i], "status"@) != "confirmed"@
                    && written_under(legs[i], "status"@) != "replaced"@;
            assert(legs[i].text_at("status"@) != "failed"@);
            assert(moving(legs[i]));
        }
    }
}

/// Whether a row is the swap itself.
pub open spec fn of_the_swap(row: Tree) -> bool {
    row.get("meta"@) matches Some(m) && m.get("kind"@) == Some(Tree::Text("swap"@))
}

/// Whether a row's meta says anything.
pub open spec fn says_something(row: Tree) -> bool {
    row.get("meta"@) matches Some(m) && m != empty_object()
}

/// Whether an entry is titled by a row: its meta, and its label.
pub open spec fn titled_by(e: Tree, row: Tree) -> bool {
    &&& e.get("swap"@) == Some(
        match row.get("meta"@) {
            Some(m) => m,
            None => empty_object(),
        },
    )
    &&& e.get("label"@) == Some(Tree::Text(written_under(row, "label"@)))
}

proof fn lemma_title(legs: Seq<Tree>, k: int)
    requires
        0 <= k < legs.len(),
    ensures
        (of_the_swap(legs[k]) && forall|i: int| k < i < legs.len() ==> !of_the_swap(#[trigger] legs[i]))
            ==> title(legs) == (legs[k].get("meta"@)->0, written_under(legs[k], "label"@)),
        (says_something(legs[k]) && (forall|i: int| 0 <= i < k ==> !says_something(#[trigger] legs[i]))
            && forall|i: int| 0 <= i < legs.len() ==> !of_the_swap(#[trigger] legs[i])) ==> title(
            legs,
        ) == (legs[k].get("meta"@)->0, written_under(legs[k], "label"@)),
        (forall|i: int| 0 <= i < legs.len() ==> !says_something(#[trigger] legs[i])) ==> title(
            legs,
        ) == (empty_object(), written_under(legs.last(), "label"@)),
    decreases legs.len(),
{
    reveal_strlit("swap");
    assert("swap"@.len() == 4);
    reveal_with_fuel(title, 2);
    let head = legs.drop_last();
    let n = legs.len() - 1;
    assert(forall|i: int| 0 <= i < head.len() ==> #[trigger] head[i] == legs[i]);
    assert(legs.last() == legs[n]);
    assert(of_the_swap(legs.last()) <==> meta_of_row(legs.last()).text_at("kind"@)
        == "swap"@);
    assert(forall|i: int| 0 <= i < legs.len() && of_the_swap(#[trigger] legs[i]) ==> says_something(
        legs[i],
    )) by {
        assert forall|i: int| 0 <= i < legs.len() && of_the_swap(
            #[trigger] legs[i],
        ) implies says_something(legs[i]) by {
            let m = legs[i].get("meta"@)->0;
            if m == empty_object() {
                assert(m.get("kind"@) is None);
            }
        }
    }
    if head.len() > 0 {
        if k < n {
            lemma_title(head, k);
        }
        if forall|i: int| 0 <= i < n ==> !says_something(#[trigger] legs[i]) {
            assert(forall|i: int| 0 <= i < head.len() ==> !says_something(#[trigger] head[i]));
            lemma_title(head, 0);
        }
    }
}

/// An entry is titled by its last leg that is the swap itself; where none is, by the first leg
/// whose meta says anything; and where none does, by the label of its last leg.
pub proof fn law_what_an_entry_is_titled_by(id: Seq<char>, legs: Seq<Tree>, k: int)
    requires
        0 <= k < legs.len(),
    ensures
        (of_the_swap(legs[k]) && forall|i: int| k < i < legs.len() ==> !of_the_swap(#[trigger] legs[i]))
            ==> titled_by(swap_entry(id, legs), legs[k]),
        (says_something(legs[k]) && (forall|i: int| 0 <= i < k ==> !says_something(#[trigger] legs[i]))
            && forall|i: int| 0 <= i < legs.len() ==> !of_the_swap(#[trigger] legs[i]))
            ==> titled_by(swap_entry(id, legs), legs[k]),
        (k == legs.len() - 1 && forall|i: int|
            0 <= i < legs.len() ==> !says_something(#[trigger] legs[i])) ==> swap_entry(
            id,
            legs,
        ).get("swap"@) == Some(empty_object()) && swap_entry(id, legs).get("label"@) == Some(
            Tree::Text(written_under(legs[k], "label"@)),
        ),
{
    lemma_fields(id, legs);
    lemma_title(legs, k);
}

/// When a row was recorded: its time as a float, by its bits; zero where it has none, or one below
/// zero or that is no number.
pub proof fn law_when_a_row_was_recorded(row: Tree)
    ensures
        recorded(row) == match row.get("timestamp"@) {
            Some(Tree::Unsigned(n)) => float_bits(n),
            Some(Tree::Float(bits)) => if bits <= 0x7ff0_0000_0000_0000 {
                bits
            } else {
                0
            },
            _ => 0,
        },
{
}

/// The time of an entry is that of its newest leg, as a float: no leg was recorded later, and one
/// was recorded then, unless none was recorded at all.
pub proof fn law_time_is_that_of_the_newest_leg(id: Seq<char>, legs: Seq<Tree>)
    ensures
        swap_entry(id, legs).get("timestamp"@) matches Some(Tree::Float(time)) && {
            &&& forall|i: int| 0 <= i < legs.len() ==> recorded(#[trigger] legs[i]) <= time
            &&& time == 0 || exists|i: int|
                0 <= i < legs.len() && recorded(#[trigger] legs[i]) == time
        },
{
    lemma_fields(id, legs);
    lemma_newest(legs);
}

proof fn lemma_newest(legs: Seq<Tree>)
    ensures
        forall|i: int| 0 <= i < legs.len() ==> recorded(#[trigger] legs[i]) <= newest(legs),
        newest(legs) == 0 || exists|i: int|
            0 <= i < legs.len() && recorded(#[trigger] legs[i]) == newest(legs),
    decreases legs.len(),
{
    if legs.len() > 0 {
        let head = legs.drop_last();
        lemma_newest(head);
        assert forall|i: int| 0 <= i < legs.len() implies recorded(#[trigger] legs[i]) <= newest(
            legs,
        ) by {
            if i < head.len() {
                assert(head[i] == legs[i]);
            }
        }
        assert(legs[legs.len() - 1] == legs.last());
        if newest(legs) == newest(head) && newest(head) > 0 {
            let i = choose|i: int|
                0 <= i < head.len() && recorded(#[trigger] head[i]) == newest(head);
            assert(legs[i] == head[i]);
        }
    }
}

/// Whether a swap leg delivers ether, and to the account itself.
pub open spec fn ether_to_the_account(leg: Tree, meta: Tree) -> bool {
    let (account, named) = (written_under(leg, "from"@), written_under(meta, "recipient"@));
    native(written_under(meta, "tokenOut"@)) && (named.len() == 0 || same_but_case(named, account))
}

/// What a swap received is read off its first leg that is the swap itself, and off no other; a
/// bundle without one received nothing that is known.
pub proof fn law_received_is_read_off_the_swap_leg(legs: Seq<Tree>, meta: Tree, k: int)
    ensures
        (0 <= k < legs.len() && of_the_swap(legs[k]) && forall|i: int|
            0 <= i < k ==> !of_the_swap(#[trigger] legs[i])) ==> got_by(legs, meta) == got(
            legs[k],
            meta,
        ),
        (forall|i: int| 0 <= i < legs.len() ==> !of_the_swap(#[trigger] legs[i])) ==> got_by(
            legs,
            meta,
        ) is None,
{
    lemma_swap_leg(legs, k);
}

proof fn lemma_swap_leg(legs: Seq<Tree>, k: int)
    ensures
        (0 <= k < legs.len() && of_the_swap(legs[k]) && forall|i: int|
            0 <= i < k ==> !of_the_swap(#[trigger] legs[i])) ==> swap_leg(legs) == Some(legs[k]),
        (forall|i: int| 0 <= i < legs.len() ==> !of_the_swap(#[trigger] legs[i])) ==> swap_leg(legs)
            is None,
    decreases legs.len(),
{
    reveal_strlit("swap");
    assert("swap"@.len() == 4);
    if legs.len() > 0 {
        let rest = legs.drop_first();
        assert(of_the_swap(legs[0]) <==> is_swap_leg(legs[0]));
        assert(forall|i: int| 0 <= i < rest.len() ==> #[trigger] rest[i] == legs[i + 1]);
        lemma_swap_leg(rest, k - 1);
    }
}

/// Whether each amount is in digits.
pub open spec fn all_digits(amounts: Seq<Seq<char>>) -> bool {
    forall|i: int| 0 <= i < amounts.len() ==> digits(trimmed(#[trigger] amounts[i]))
}

/// What a swap leg received. Nothing is known unless it is confirmed. Ether to the account itself
/// is what the sender totals, where that is digits. Anything else is the sum over the transfers
/// that count, of ether or of tokens, spelled as a number: where the sender did not cut their list
/// short, one counts at all, and each that does is in digits.
pub proof fn law_what_a_swap_leg_received(leg: Tree, meta: Tree)
    ensures
        ({
            let token = written_under(meta, "tokenOut"@);
            let named = written_under(meta, "recipient"@);
            let recipient = if named.len() > 0 {
                named
            } else {
                written_under(leg, "from"@)
            };
            let total = written_under(leg, "nativeReceivedWei"@);
            let (list, more) = if native(token) {
                (leg.get("nativeTransfers"@), leg.get("nativeTransfersMore"@))
            } else {
                (leg.get("transfers"@), leg.get("transfersMore"@))
            };
            let transfers = match list {
                Some(Tree::Array(a)) => a,
                _ => Seq::empty(),
            };
            let amounts = delivered(transfers, token, recipient);
            if written_under(leg, "status"@) != "confirmed"@ {
                got(leg, meta) is None
            } else if ether_to_the_account(leg, meta) {
                &&& digits(total) ==> got(leg, meta) == Some(total)
                &&& !digits(total) ==> got(leg, meta) is None
            } else if (more matches Some(Tree::Unsigned(n)) && n > 0) || amounts.len() == 0
                || !all_digits(amounts) {
                got(leg, meta) is None
            } else {
                got(leg, meta) matches Some(base) && digits(base) && value(base) == sum(amounts) && (
                base.len() > 1 ==> base[0] != '0')
            }
        }),
{
    let token = written_under(meta, "tokenOut"@);
    let named = written_under(meta, "recipient"@);
    let recipient = if named.len() > 0 {
        named
    } else {
        written_under(leg, "from"@)
    };
    assert(recipient == recipient_of(meta, leg.text_at("from"@)));
    assert(ether_to_the_account(leg, meta) <==> native(token) && same_but_case(
        recipient,
        leg.text_at("from"@),
    ));
    let (ether, tokens) = (
        delivered(leg.list_at("nativeTransfers"@), token, recipient),
        delivered(leg.list_at("transfers"@), token, recipient),
    );
    lemma_numeral(sum(ether));
    lemma_numeral(sum(tokens));
    assert(all_digits(ether) <==> in_figures(ether));
    assert(all_digits(tokens) <==> in_figures(tokens));
}

/// A transfer counts where it goes to the recipient, whatever the case, and is of the token bought,
/// or that is ether. What is delivered is the amounts of those that count, in their order.
pub proof fn law_which_transfers_count(
    transfers: Seq<Tree>,
    transfer: Tree,
    token: Seq<char>,
    recipient: Seq<char>,
)
    ensures
        delivered(Seq::empty(), token, recipient) == Seq::<Seq<char>>::empty(),
        ({
            let before = delivered(transfers, token, recipient);
            let then = delivered(transfers.push(transfer), token, recipient);
            if (native(token) || same_but_case(written_under(transfer, "contract"@), token))
                && same_but_case(written_under(transfer, "to"@), recipient) {
                then == before.push(written_under(transfer, "amount"@))
            } else {
                then == before
            }
        }),
{
    assert(transfers.push(transfer).drop_last() =~= transfers);
}

/// The sum of amounts is what each of them is worth, added up.
pub proof fn law_what_amounts_add_up_to(amounts: Seq<Seq<char>>, more: Seq<char>)
    ensures
        sum(Seq::empty()) == 0,
        sum(amounts.push(more)) == sum(amounts) + value(trimmed(more)),
{
    assert(amounts.push(more).drop_last() =~= amounts);
}

/// An entry shows what its bundle received, in base units, and in token units where the title names
/// the decimals of the token bought: every digit, and at a glance. Where nothing is known to have
/// been received it shows none of them.
pub proof fn law_what_an_entry_shows_as_received(id: Seq<char>, legs: Seq<Tree>)
    ensures
        ({
            let e = swap_entry(id, legs);
            let meta = match e.get("swap"@) {
                Some(m) => m,
                None => Tree::Null,
            };
            let places = places_given(meta.get("decimalsOut"@));
            match got_by(legs, meta) {
                Some(base) => {
                    &&& e.get("received"@) == Some(Tree::Text(base))
                    &&& (places is Some && digits(trimmed(base))) ==> e.get("receivedExact"@) == Some(
                        Tree::Text(exact(trimmed(base), places->0 as nat)),
                    ) && e.get("receivedDisplay"@) == Some(
                        Tree::Text(shown(trimmed(base), places->0 as nat)),
                    )
                    &&& places is None ==> e.get("receivedExact"@) is None && e.get(
                        "receivedDisplay"@,
                    ) is None
                },
                None => e.get("received"@) is None && e.get("receivedExact"@) is None && e.get(
                    "receivedDisplay"@,
                ) is None,
            }
        }),
{
    lemma_fields(id, legs);
    reveal_strlit("requestId");
    reveal_strlit("status");
    reveal_strlit("timestamp");
    reveal_strlit("hashes");
    reveal_strlit("swap");
    reveal_strlit("label");
    reveal_strlit("origin");
    reveal_strlit("via");
    reveal_strlit("legs");
    reveal_strlit("receivedDisplay");
    reveal_strlit("receivedExact");
    reveal_strlit("received");
    assert("requestId"@.len() == 9 && "requestId"@[0] == 'r');
    assert("status"@.len() == 6 && "status"@[0] == 's');
    assert("timestamp"@.len() == 9 && "timestamp"@[0] == 't');
    assert("hashes"@.len() == 6 && "hashes"@[0] == 'h');
    assert("swap"@.len() == 4 && "swap"@[0] == 's');
    assert("label"@.len() == 5);
    assert("origin"@.len() == 6 && "origin"@[0] == 'o');
    assert("via"@.len() == 3);
    assert("legs"@.len() == 4 && "legs"@[0] == 'l');
    assert("receivedDisplay"@.len() == 15);
    assert("receivedExact"@.len() == 13);
    assert("received"@.len() == 8);
}

/// A row is the app's own where its meta names the app. It belongs to the bundle of its request, or
/// to that of its hash where it names none; and its place in the bundle is its leg, or zero.
pub proof fn law_whose_a_row_is(row: Tree, app: Seq<char>)
    ensures
        tagged(row, app) <==> (row.get("meta"@) matches Some(m) && written_under(m, "app"@) == app),
        written_under(row, "requestId"@).len() > 0 ==> bundle_id(row) == written_under(
            row,
            "requestId"@,
        ),
        written_under(row, "requestId"@).len() == 0 ==> bundle_id(row) == written_under(row, "hash"@),
        leg_number(row) == match row.get("leg"@) {
            Some(Tree::Unsigned(n)) => if n <= 0x7fff_ffff_ffff_ffff {
                n as int
            } else {
                0
            },
            Some(Tree::Negative(n)) => n as int,
            _ => 0,
        },
{
}

/// The bundles of the app are listed as its rows first name them, and each is made of the rows that
/// name it, in the order of the history.
pub proof fn law_how_rows_are_grouped(rows: Seq<Tree>, row: Tree, app: Seq<char>, id: Seq<char>)
    ensures
        bundle_ids(Seq::empty(), app) == Seq::<Seq<char>>::empty(),
        rows_of_bundle(Seq::empty(), app, id) == Seq::<Tree>::empty(),
        tagged(row, app) && !bundle_ids(rows, app).contains(bundle_id(row)) ==> bundle_ids(
            rows.push(row),
            app,
        ) == bundle_ids(rows, app).push(bundle_id(row)),
        !tagged(row, app) || bundle_ids(rows, app).contains(bundle_id(row)) ==> bundle_ids(
            rows.push(row),
            app,
        ) == bundle_ids(rows, app),
        tagged(row, app) && bundle_id(row) == id ==> rows_of_bundle(rows.push(row), app, id)
            == rows_of_bundle(rows, app, id).push(row),
        !(tagged(row, app) && bundle_id(row) == id) ==> rows_of_bundle(rows.push(row), app, id)
            == rows_of_bundle(rows, app, id),
{
    reveal(Seq::filter);
    assert(rows.push(row).drop_last() =~= rows);
}

/// The legs of a bundle's entry are its rows, put in the order of their legs; rows of one leg stand
/// as in the history. The swaps are the entries of the bundles, newest first; those of one time
/// stand as their bundles are listed.
pub proof fn law_equals_stand_as_they_came(rows: Seq<Tree>, app: Seq<char>, id: Seq<char>, k: int)
    ensures
        swap_of(rows, app, id).get("requestId"@) == Some(Tree::Text(id)),
        swap_of(rows, app, id).get("legs"@) matches Some(Tree::Array(legs)) && {
            &&& legs.to_multiset() == rows_of_bundle(rows, app, id).to_multiset()
            &&& forall|i: int, j: int|
                0 <= i <= j < legs.len() ==> leg_number(#[trigger] legs[i]) <= leg_number(
                    #[trigger] legs[j],
                )
            &&& at_key(legs, |row: Tree| leg_number(row), k) == at_key(
                rows_of_bundle(rows, app, id),
                |row: Tree| leg_number(row),
                k,
            )
            &&& swap_of(rows, app, id) == swap_entry(id, legs)
        },
        ({
            let ids = bundle_ids(rows, app);
            at_key(swaps_in(rows, app), |swap: Tree| -(time_of(swap) as int), k) == at_key(
                Seq::new(ids.len(), |i: int| swap_of(rows, app, ids[i])),
                |swap: Tree| -(time_of(swap) as int),
                k,
            )
        }),
        forall|swap: Tree|
            #[trigger] time_of(swap) == match swap.get("timestamp"@) {
                Some(Tree::Float(bits)) => bits,
                _ => 0,
            },
{
    let bundle = rows_of_bundle(rows, app, id);
    law_ordered(bundle, by_leg());
    let legs = ordered(bundle, by_leg());
    lemma_fields(id, legs);
    assert(by_leg() =~= (|row: Tree| leg_number(row)));
    assert(by_newest() =~= (|swap: Tree| -(time_of(swap) as int)));
    let ids = bundle_ids(rows, app);
    law_ordered(Seq::new(ids.len(), |i: int| swap_of(rows, app, ids[i])), by_newest());
    assert forall|i: int, j: int| 0 <= i <= j < legs.len() implies leg_number(#[trigger] legs[i])
        <= leg_number(#[trigger] legs[j]) by {
        let key = by_leg();
        assert(key(legs[i]) <= key(legs[j]));
    }
}

/// A `send_status` reply is the end of the swap where the sender says so itself; where it says
/// nothing of it, where it says yes and the swap neither waits for approval nor is broadcasting.
pub proof fn law_when_a_swap_has_ended(reply: Tree)
    ensures
        ended(reply) == match reply.get("final"@) {
            Some(Tree::Bool(end)) => end,
            _ => reply.get("ok"@) == Some(Tree::Bool(true)) && written_under(reply, "status"@)
                != "awaitingApproval"@ && written_under(reply, "status"@) != "broadcasting"@,
        },
{
}

} // verus!
