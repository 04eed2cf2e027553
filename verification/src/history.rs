//! The app's swaps out of the sender's history: which rows are its own, how they group into
//! bundles, how a bundle stands, and what a settled swap delivered.
use crate::digits::{digits, lemma_digits_trim, lemma_numeral, numeral, value};
use crate::floats::{float_bits, lemma_fits};
use crate::form::{chars_in, decimals_at, decimals_of, is_native, native};
use crate::json::{empty_object, trees, Json, Tree};
use crate::order::{ordered, sort_by_keys};
use crate::requests::{exact_or_nothing, exact_text, shown_or_nothing, shown_text};
use crate::text::{same, same_but_case, same_ignoring_case, trimmed};
use crate::units::{add_base, is_digits};
use crate::wire::bits_of;
use vstd::prelude::*;

verus! {

/// Some leg has that status.
pub open spec fn some_status(legs: Seq<Tree>, status: Seq<char>) -> bool {
    exists|i: int| 0 <= i < legs.len() && (#[trigger] legs[i]).text_at("status"@) == status
}

/// Some leg says yes to that.
pub open spec fn some_flag(legs: Seq<Tree>, flag: Seq<char>) -> bool {
    exists|i: int| 0 <= i < legs.len() && (#[trigger] legs[i]).bool_at(flag) == Some(true)
}

/// Whether a leg still moves: it neither failed, landed, nor was replaced.
pub open spec fn moving(leg: Tree) -> bool {
    let status = leg.text_at("status"@);
    status != "failed"@ && status != "confirmed"@ && status != "replaced"@
}

/// Some leg still moves.
pub open spec fn some_moving(legs: Seq<Tree>) -> bool {
    exists|i: int| 0 <= i < legs.len() && moving(#[trigger] legs[i])
}

/// The status of a bundle: that of its worst leg.
pub open spec fn status_of(legs: Seq<Tree>) -> Seq<char> {
    if some_status(legs, "failed"@) {
        "failed"@
    } else if some_flag(legs, "verificationBlocked"@) {
        "blocked"@
    } else if some_flag(legs, "stalled"@) {
        "stalled"@
    } else if some_moving(legs) {
        "pending"@
    } else if legs.len() > 0 && legs.last().text_at("status"@) == "replaced"@ {
        "replaced"@
    } else {
        "confirmed"@
    }
}

/// The status of a bundle from its legs. The worst leg wins: a swap whose approval landed and
/// whose swap reverted is a failed swap, not a half-confirmed one. A replaced leg was never
/// mined, so it decides the bundle only as its last leg, the swap itself, once nothing moves.
pub fn bundle_status(legs: &[Json]) -> (r: &'static str)
    ensures
        r@ == status_of(trees(legs@)),
{
    let ghost all = trees(legs@);
    let mut failed = false;
    let mut pending = false;
    let mut stalled = false;
    let mut blocked = false;
    let mut i: usize = 0;
    let n: usize = legs.len();
    while i < n
        invariant
            i <= n,
            n == legs@.len(),
            all == trees(legs@),
            failed == some_status(all.take(i as int), "failed"@),
            pending == some_moving(all.take(i as int)),
            stalled == some_flag(all.take(i as int), "stalled"@),
            blocked == some_flag(all.take(i as int), "verificationBlocked"@),
        decreases n - i,
    {
        let leg = &legs[i];
        proof {
            lemma_one_more(all, i as int);
            reveal_strlit("failed");
            reveal_strlit("confirmed");
            reveal_strlit("replaced");
            assert("failed"@.len() == 6);
            assert("confirmed"@.len() == 9);
            assert("replaced"@.len() == 8);
        }
        let status = leg.str_of("status");
        if same(status, "failed") {
            failed = true;
        } else if !same(status, "confirmed") && !same(status, "replaced") {
            pending = true;
        }
        if let Some(true) = leg.bool_of("stalled") {
            stalled = true;
        }
        if let Some(true) = leg.bool_of("verificationBlocked") {
            blocked = true;
        }
        i += 1;
    }
    assert(all.take(n as int) =~= all);
    if failed {
        return "failed";
    }
    if blocked {
        return "blocked";
    }
    if stalled {
        return "stalled";
    }
    if pending {
        return "pending";
    }
    if n > 0 && same(legs[n - 1].str_of("status"), "replaced") {
        return "replaced";
    }
    "confirmed"
}

/// What one more leg adds to what some leg is.
proof fn lemma_one_more(legs: Seq<Tree>, i: int)
    requires
        0 <= i < legs.len(),
    ensures
        forall|s: Seq<char>| #[trigger]
            some_status(legs.take(i + 1), s) <==> some_status(legs.take(i), s) || legs[i].text_at(
                "status"@,
            ) == s,
        forall|k: Seq<char>| #[trigger]
            some_flag(legs.take(i + 1), k) <==> some_flag(legs.take(i), k) || legs[i].bool_at(k)
                == Some(true),
        some_moving(legs.take(i + 1)) <==> some_moving(legs.take(i)) || moving(legs[i]),
{
    let before = legs.take(i);
    let after = legs.take(i + 1);
    assert(after[i] == legs[i]);
    assert forall|s: Seq<char>| #[trigger]
        some_status(after, s) <==> some_status(before, s) || legs[i].text_at("status"@) == s by {
        if some_status(before, s) {
            let k = choose|k: int|
                0 <= k < before.len() && (#[trigger] before[k]).text_at("status"@) == s;
            assert(after[k] == before[k]);
        }
        if some_status(after, s) {
            let k = choose|k: int|
                0 <= k < after.len() && (#[trigger] after[k]).text_at("status"@) == s;
            if k < i {
                assert(before[k] == after[k]);
            }
        }
    }
    assert forall|f: Seq<char>| #[trigger]
        some_flag(after, f) <==> some_flag(before, f) || legs[i].bool_at(f) == Some(true) by {
        if some_flag(before, f) {
            let k = choose|k: int|
                0 <= k < before.len() && (#[trigger] before[k]).bool_at(f) == Some(true);
            assert(after[k] == before[k]);
        }
        if some_flag(after, f) {
            let k = choose|k: int|
                0 <= k < after.len() && (#[trigger] after[k]).bool_at(f) == Some(true);
            if k < i {
                assert(before[k] == after[k]);
            }
        }
    }
    if some_moving(before) {
        let k = choose|k: int| 0 <= k < before.len() && moving(#[trigger] before[k]);
        assert(after[k] == before[k]);
    }
    if some_moving(after) {
        let k = choose|k: int| 0 <= k < after.len() && moving(#[trigger] after[k]);
        if k < i {
            assert(before[k] == after[k]);
        }
    }
}

/// Whether a leg is the swap itself.
pub open spec fn is_swap_leg(leg: Tree) -> bool {
    leg.get("meta"@) matches Some(m) && m.text_at("kind"@) == "swap"@
}

/// The first leg that is the swap itself, if there is one.
pub open spec fn swap_leg(legs: Seq<Tree>) -> Option<Tree>
    decreases legs.len(),
{
    if legs.len() == 0 {
        None
    } else if is_swap_leg(legs[0]) {
        Some(legs[0])
    } else {
        swap_leg(legs.drop_first())
    }
}

/// Where a swap delivers: to the recipient it names, else to the account.
pub open spec fn recipient_of(meta: Tree, account: Seq<char>) -> Seq<char> {
    let named = meta.text_at("recipient"@);
    if named.len() == 0 {
        account
    } else {
        named
    }
}

/// Whether a transfer is of the token bought, to that recipient.
pub open spec fn counts(transfer: Tree, token: Seq<char>, recipient: Seq<char>) -> bool {
    &&& native(token) || same_but_case(transfer.text_at("contract"@), token)
    &&& same_but_case(transfer.text_at("to"@), recipient)
}

/// The amounts of the transfers that count, in order.
pub open spec fn delivered(
    transfers: Seq<Tree>,
    token: Seq<char>,
    recipient: Seq<char>,
) -> Seq<Seq<char>>
    decreases transfers.len(),
{
    if transfers.len() == 0 {
        Seq::empty()
    } else {
        let before = delivered(transfers.drop_last(), token, recipient);
        if counts(transfers.last(), token, recipient) {
            before.push(transfers.last().text_at("amount"@))
        } else {
            before
        }
    }
}

/// Every amount is in decimal digits.
pub open spec fn in_figures(amounts: Seq<Seq<char>>) -> bool {
    forall|i: int| 0 <= i < amounts.len() ==> digits(trimmed(#[trigger] amounts[i]))
}

/// The sum of the amounts.
pub open spec fn sum(amounts: Seq<Seq<char>>) -> nat
    decreases amounts.len(),
{
    if amounts.len() == 0 {
        0
    } else {
        sum(amounts.drop_last()) + value(trimmed(amounts.last()))
    }
}

/// What a swap delivered, off its swap leg.
pub open spec fn got(leg: Tree, meta: Tree) -> Option<Seq<char>> {
    let account = leg.text_at("from"@);
    let recipient = recipient_of(meta, account);
    let token = meta.text_at("tokenOut"@);
    if leg.text_at("status"@) != "confirmed"@ {
        None
    } else if native(token) && same_but_case(recipient, account) {
        let total = leg.text_at("nativeReceivedWei"@);
        if digits(total) {
            Some(total)
        } else {
            None
        }
    } else {
        let (list, more) = if native(token) {
            ("nativeTransfers"@, "nativeTransfersMore"@)
        } else {
            ("transfers"@, "transfersMore"@)
        };
        let amounts = delivered(leg.list_at(list), token, recipient);
        if leg.unsigned_at(more) matches Some(n) && n > 0 {
            None
        } else if amounts.len() == 0 || !in_figures(amounts) {
            None
        } else {
            Some(numeral(sum(amounts)))
        }
    }
}

/// What a bundle delivered.
pub open spec fn got_by(legs: Seq<Tree>, meta: Tree) -> Option<Seq<char>> {
    match swap_leg(legs) {
        Some(leg) => got(leg, meta),
        None => None,
    }
}

/// What is delivered by the first of the transfers stands at the front of what all deliver.
proof fn lemma_delivered_front(
    transfers: Seq<Tree>,
    token: Seq<char>,
    recipient: Seq<char>,
    k: int,
)
    requires
        0 <= k <= transfers.len(),
    ensures
        ({
            let part = delivered(transfers.take(k), token, recipient);
            let all = delivered(transfers, token, recipient);
            part.len() <= all.len() && forall|i: int|
                0 <= i < part.len() ==> #[trigger] part[i] == all[i]
        }),
    decreases transfers.len(),
{
    if k == transfers.len() {
        assert(transfers.take(k) =~= transfers);
    } else {
        lemma_delivered_front(transfers.drop_last(), token, recipient, k);
        assert(transfers.drop_last().take(k) =~= transfers.take(k));
    }
}

/// The sum of the amounts of the transfers that count; `None` when there are none, or one of them
/// is no amount.
fn total_of(transfers: &[Json], token: &str, recipient: &str) -> (r: Option<String>)
    ensures
        ({
            let amounts = delivered(trees(transfers@), token@, recipient@);
            chars_in(r) == if amounts.len() == 0 || !in_figures(amounts) {
                None::<Seq<char>>
            } else {
                Some(numeral(sum(amounts)))
            }
        }),
{
    let any = is_native(token);
    let ghost all = trees(transfers@);
    let mut total: Option<String> = None;
    let mut i: usize = 0;
    while i < transfers.len()
        invariant
            i <= transfers@.len(),
            all == trees(transfers@),
            any == native(token@),
            in_figures(delivered(all.take(i as int), token@, recipient@)),
            match total {
                Some(s) => delivered(all.take(i as int), token@, recipient@).len() > 0 && s@
                    == numeral(sum(delivered(all.take(i as int), token@, recipient@))),
                None => delivered(all.take(i as int), token@, recipient@).len() == 0,
            },
        decreases transfers@.len() - i,
    {
        let t = &transfers[i];
        let ghost before = delivered(all.take(i as int), token@, recipient@);
        let ghost after = delivered(all.take(i + 1), token@, recipient@);
        proof {
            assert(all.take(i + 1).drop_last() =~= all.take(i as int));
            assert(all.take(i + 1).last() == t@);
        }
        if (any || same_ignoring_case(t.str_of("contract"), token)) && same_ignoring_case(
            t.str_of("to"),
            recipient,
        ) {
            let amount = t.str_of("amount");
            assert(after == before.push(amount@));
            assert(after.drop_last() =~= before);
            let so_far = match total {
                Some(s) => s,
                None => "0".to_owned(),
            };
            proof {
                lemma_zero();
                lemma_numeral(sum(before));
                lemma_digits_trim(so_far@);
            }
            match add_base(so_far.as_str(), amount) {
                Some(s) => {
                    assert(in_figures(after)) by {
                        assert forall|j: int| 0 <= j < after.len() implies digits(
                            trimmed(#[trigger] after[j]),
                        ) by {
                            if j < before.len() {
                                assert(after[j] == before[j]);
                            }
                        }
                    }
                    total = Some(s);
                },
                None => {
                    proof {
                        lemma_delivered_front(all, token@, recipient@, i + 1);
                        let every = delivered(all, token@, recipient@);
                        assert(after[before.len() as int] == every[before.len() as int]);
                        assert(!digits(trimmed(every[before.len() as int])));
                    }
                    return None;
                },
            }
        }
        i += 1;
    }
    assert(all.take(transfers@.len() as int) =~= all);
    total
}

proof fn lemma_zero()
    ensures
        digits("0"@),
        value("0"@) == 0,
        numeral(0) == "0"@,
{
    reveal_strlit("0");
    assert("0"@ =~= seq!['0']);
    assert("0"@.drop_last() =~= Seq::<char>::empty());
    reveal_with_fuel(value, 2);
    reveal_with_fuel(numeral, 2);
    assert(numeral(0) =~= "0"@);
}

/// What a settled swap delivered, off its swap leg's decoded receipt logs: the ERC-20 Transfers
/// of `tokenOut` to the recipient, or for ether out the EIP-7708 ether logs to it. `None` while
/// the swap is unsettled and when no such log was decoded (ether before Glamsterdam, or a sender
/// that predates those logs): an amount nobody measured is not shown as one.
pub fn received(legs: &[Json], meta: &Json) -> (r: Option<String>)
    ensures
        chars_in(r) == got_by(trees(legs@), meta@),
{
    let ghost all = trees(legs@);
    assert(all.skip(0) =~= all);
    let mut i: usize = 0;
    while i < legs.len()
        invariant
            i <= legs@.len(),
            all == trees(legs@),
            swap_leg(all) == swap_leg(all.skip(i as int)),
        decreases legs@.len() - i,
    {
        let leg = &legs[i];
        assert(all.skip(i as int)[0] == leg@);
        let swap = match leg.get("meta") {
            Some(m) => same(m.str_of("kind"), "swap"),
            None => false,
        };
        if swap {
            return received_by(leg, meta);
        }
        assert(all.skip(i as int).drop_first() =~= all.skip(i + 1));
        i += 1;
    }
    None
}

/// What a swap delivered, off its swap leg.
fn received_by(leg: &Json, meta: &Json) -> (r: Option<String>)
    ensures
        chars_in(r) == got(leg@, meta@),
{
    if !same(leg.str_of("status"), "confirmed") {
        return None;
    }
    let account = leg.str_of("from");
    let named = meta.str_of("recipient");
    let recipient = if named.is_empty() {
        account
    } else {
        named
    };
    let token = meta.str_of("tokenOut");
    let ether = is_native(token);
    if ether && same_ignoring_case(recipient, account) {
        // The sender totals the ether that reached the account over every log, cap or not.
        let total = leg.str_of("nativeReceivedWei");
        return if is_digits(total) {
            Some(total.to_owned())
        } else {
            None
        };
    }
    let more = if ether {
        leg.u64_of("nativeTransfersMore")
    } else {
        leg.u64_of("transfersMore")
    };
    // The sender caps each list; a sum over a cut list could be short, so it is not a sum.
    if let Some(n) = more {
        if n > 0 {
            return None;
        }
    }
    let list = if ether {
        leg.array_of("nativeTransfers")
    } else {
        leg.array_of("transfers")
    };
    match list {
        Some(transfers) => total_of(transfers, token, recipient),
        None => None,
    }
}

/// Whether a row of the history was tagged by that app.
pub open spec fn tagged(row: Tree, app: Seq<char>) -> bool {
    row.get("meta"@) matches Some(m) && m.text_at("app"@) == app
}

/// The bundle that a row belongs to: its request, or its hash where it has none.
pub open spec fn bundle_id(row: Tree) -> Seq<char> {
    let request = row.text_at("requestId"@);
    if request.len() == 0 {
        row.text_at("hash"@)
    } else {
        request
    }
}

/// The bundles of an app, each once, in the order in which the rows name them first.
pub open spec fn bundle_ids(rows: Seq<Tree>, app: Seq<char>) -> Seq<Seq<char>>
    decreases rows.len(),
{
    if rows.len() == 0 {
        Seq::empty()
    } else {
        let before = bundle_ids(rows.drop_last(), app);
        let row = rows.last();
        if tagged(row, app) && !before.contains(bundle_id(row)) {
            before.push(bundle_id(row))
        } else {
            before
        }
    }
}

/// The rows of one bundle of an app, as they stand in the history.
pub open spec fn rows_of_bundle(rows: Seq<Tree>, app: Seq<char>, id: Seq<char>) -> Seq<Tree> {
    rows.filter(|row: Tree| tagged(row, app) && bundle_id(row) == id)
}

/// A row's place in its bundle.
pub open spec fn leg_number(row: Tree) -> int {
    row.signed_at("leg"@).unwrap_or(0) as int
}

pub open spec fn by_leg() -> spec_fn(Tree) -> int {
    |row: Tree| leg_number(row)
}

/// A row's meta; an object without fields where it has none.
pub open spec fn meta_of_row(row: Tree) -> Tree {
    match row.get("meta"@) {
        Some(m) => m,
        None => empty_object(),
    }
}

/// What a bundle is titled by, meta and label: its last swap leg, else the first leg whose meta
/// says anything.
pub open spec fn title(legs: Seq<Tree>) -> (Tree, Seq<char>)
    decreases legs.len(),
{
    if legs.len() == 0 {
        (empty_object(), Seq::empty())
    } else {
        let before = title(legs.drop_last());
        let meta = meta_of_row(legs.last());
        if meta.text_at("kind"@) == "swap"@ || before.0 == empty_object() {
            (meta, legs.last().text_at("label"@))
        } else {
            before
        }
    }
}

/// The hashes that the legs have, in order.
pub open spec fn hashes(legs: Seq<Tree>) -> Seq<Tree>
    decreases legs.len(),
{
    if legs.len() == 0 {
        Seq::empty()
    } else {
        let before = hashes(legs.drop_last());
        let hash = legs.last().text_at("hash"@);
        if hash.len() > 0 {
            before.push(Tree::Text(hash))
        } else {
            before
        }
    }
}

/// The bits of infinity: above them a float with its sign bit clear is no number.
pub const INFINITY_BITS: u64 = 0x7ff0_0000_0000_0000;

/// When a row was recorded, by the bits of a float that is not below zero. For these the order of
/// the bits is that of the floats. No time at all, and a time below zero, count as zero.
pub open spec fn recorded(row: Tree) -> u64 {
    match row.get("timestamp"@) {
        Some(Tree::Unsigned(n)) => float_bits(n),
        Some(Tree::Float(bits)) => if bits <= INFINITY_BITS {
            bits
        } else {
            0
        },
        _ => 0,
    }
}

/// When the newest leg was recorded.
pub open spec fn newest(legs: Seq<Tree>) -> u64
    decreases legs.len(),
{
    if legs.len() == 0 {
        0
    } else {
        let before = newest(legs.drop_last());
        let last = recorded(legs.last());
        if last > before {
            last
        } else {
            before
        }
    }
}

/// The first leg; null where there is none.
pub open spec fn first_leg(legs: Seq<Tree>) -> Tree {
    if legs.len() > 0 {
        legs[0]
    } else {
        Tree::Null
    }
}

/// One bundle as a swap, its legs in order.
pub open spec fn swap_entry(id: Seq<char>, legs: Seq<Tree>) -> Tree {
    let (swap, label) = title(legs);
    let first = first_leg(legs);
    let g = empty_object().with("requestId"@, Tree::Text(id)).with(
        "status"@,
        Tree::Text(status_of(legs)),
    ).with("timestamp"@, Tree::Float(newest(legs))).with(
        "hashes"@,
        Tree::Array(hashes(legs)),
    ).with("swap"@, swap).with("label"@, Tree::Text(label)).with(
        "origin"@,
        Tree::Text(first.text_at("origin"@)),
    ).with("via"@, Tree::Text(meta_of_row(first).text_at("via"@))).with(
        "legs"@,
        Tree::Array(legs),
    );
    match got_by(legs, swap) {
        None => g,
        Some(base) => {
            let g = match decimals_at(swap, "decimalsOut"@) {
                Some(d) => g.with(
                    "receivedDisplay"@,
                    Tree::Text(shown_or_nothing(base, d)),
                ).with("receivedExact"@, Tree::Text(exact_or_nothing(base, d))),
                None => g,
            };
            g.with("received"@, Tree::Text(base))
        },
    }
}

/// The swap that a bundle of an app is.
pub open spec fn swap_of(rows: Seq<Tree>, app: Seq<char>, id: Seq<char>) -> Tree {
    swap_entry(id, ordered(rows_of_bundle(rows, app, id), by_leg()))
}

/// When a swap was recorded, by the bits of its time.
pub open spec fn time_of(swap: Tree) -> u64 {
    match swap.get("timestamp"@) {
        Some(Tree::Float(bits)) => bits,
        _ => 0,
    }
}

pub open spec fn by_newest() -> spec_fn(Tree) -> int {
    |swap: Tree| -(time_of(swap) as int)
}

/// The swaps of an app, newest first.
pub open spec fn swaps_in(rows: Seq<Tree>, app: Seq<char>) -> Seq<Tree> {
    let ids = bundle_ids(rows, app);
    ordered(Seq::new(ids.len(), |i: int| swap_of(rows, app, ids[i])), by_newest())
}

fn recorded_at(row: &Json) -> (r: u64)
    ensures
        r == recorded(row@),
        r <= INFINITY_BITS,
{
    match row.get("timestamp") {
        Some(Json::Unsigned(n)) => {
            proof {
                lemma_fits(*n);
            }
            bits_of(*n)
        },
        Some(Json::Float(bits)) => if *bits <= INFINITY_BITS {
            *bits
        } else {
            0
        },
        _ => 0,
    }
}

/// The legs of a bundle in order.
fn legs_in_order(legs: Vec<Json>) -> (r: Vec<Json>)
    ensures
        trees(r@) == ordered(trees(legs@), by_leg()),
{
    let mut keys: Vec<i128> = Vec::new();
    let mut i: usize = 0;
    while i < legs.len()
        invariant
            i <= legs@.len(),
            keys@.len() == i,
            forall|k: int| 0 <= k < i ==> #[trigger] keys@[k] == leg_number(legs@[k]@),
        decreases legs@.len() - i,
    {
        let n: i64 = legs[i].i64_of("leg").unwrap_or(0);
        keys.push(n as i128);
        i += 1;
    }
    sort_by_keys(legs, &keys, Ghost(by_leg()))
}

/// The swaps with the newest first.
fn newest_first(swaps: Vec<Json>) -> (r: Vec<Json>)
    ensures
        trees(r@) == ordered(trees(swaps@), by_newest()),
{
    let mut keys: Vec<i128> = Vec::new();
    let mut i: usize = 0;
    while i < swaps.len()
        invariant
            i <= swaps@.len(),
            keys@.len() == i,
            forall|k: int| 0 <= k < i ==> #[trigger] keys@[k] == -(time_of(swaps@[k]@) as int),
        decreases swaps@.len() - i,
    {
        let bits: u64 = match swaps[i].get("timestamp") {
            Some(Json::Float(bits)) => *bits,
            _ => 0,
        };
        keys.push(-(bits as i128));
        i += 1;
    }
    sort_by_keys(swaps, &keys, Ghost(by_newest()))
}

/// What stands in the entry of a bundle besides its legs: hashes, title and time.
fn summary(legs: &Vec<Json>) -> (r: (Vec<Json>, Json, String, u64))
    ensures
        trees(r.0@) == hashes(trees(legs@)),
        (r.1@, r.2@) == title(trees(legs@)),
        r.3 == newest(trees(legs@)),
{
    let ghost all = trees(legs@);
    let mut named: Vec<Json> = Vec::new();
    let mut swap = Json::object();
    let mut label = String::new();
    let mut time: u64 = 0;
    let mut i: usize = 0;
    assert(trees(named@) =~= Seq::<Tree>::empty());
    while i < legs.len()
        invariant
            i <= legs@.len(),
            all == trees(legs@),
            trees(named@) == hashes(all.take(i as int)),
            (swap@, label@) == title(all.take(i as int)),
            time == newest(all.take(i as int)),
        decreases legs@.len() - i,
    {
        let leg = &legs[i];
        proof {
            assert(all.take(i + 1).drop_last() =~= all.take(i as int));
            assert(all.take(i + 1).last() == leg@);
        }
        let hash = leg.str_of("hash");
        if !hash.is_empty() {
            let ghost before = named@;
            named.push(Json::text(hash));
            assert(trees(named@) =~= trees(before).push(Tree::Text(hash@)));
        }
        let meta = match leg.get("meta") {
            Some(m) => m.clone(),
            None => Json::object(),
        };
        if same(meta.str_of("kind"), "swap") || (swap.is_object() && !swap.has_fields()) {
            label = leg.str_of("label").to_owned();
            swap = meta;
        }
        let at: u64 = recorded_at(leg);
        if at > time {
            time = at;
        }
        i += 1;
    }
    assert(all.take(legs@.len() as int) =~= all);
    (named, swap, label, time)
}

/// One bundle as a swap, from its id and its legs in order.
fn entry_of(id: &str, legs: Vec<Json>) -> (r: Json)
    ensures
        r@ == swap_entry(id@, trees(legs@)),
{
    let (named, swap, label, time) = summary(&legs);
    let status = bundle_status(&legs);
    let measured = received(&legs, &swap);
    let (origin, via) = if legs.len() > 0 {
        let via = match legs[0].get("meta") {
            Some(m) => m.str_of("via").to_owned(),
            None => String::new(),
        };
        (legs[0].str_of("origin").to_owned(), via)
    } else {
        (String::new(), String::new())
    };
    let places = decimals_of(&swap, "decimalsOut");
    let mut g = Json::object().with("requestId", Json::text(id)).with(
        "status",
        Json::text(status),
    ).with("timestamp", Json::Float(time)).with("hashes", Json::array(named)).with(
        "swap",
        swap,
    ).with("label", Json::Text(label)).with("origin", Json::Text(origin)).with(
        "via",
        Json::Text(via),
    ).with("legs", Json::array(legs));
    if let Some(base) = measured {
        if let Some(d) = places {
            g = g.with("receivedDisplay", Json::Text(shown_text(base.as_str(), d)));
            g = g.with("receivedExact", Json::Text(exact_text(base.as_str(), d)));
        }
        g = g.with("received", Json::Text(base));
    }
    g
}

/// Whether the history's groups are those of the rows.
spec fn grouped(groups: Seq<(String, Vec<Json>)>, rows: Seq<Tree>, app: Seq<char>) -> bool {
    &&& groups.len() == bundle_ids(rows, app).len()
    &&& forall|k: int|
        0 <= k < groups.len() ==> (#[trigger] groups[k]).0@ == bundle_ids(rows, app)[k] && trees(
            groups[k].1@,
        ) == rows_of_bundle(rows, app, groups[k].0@)
}

/// The rows of a bundle with one more row behind them all.
proof fn lemma_one_more_row(rows: Seq<Tree>, row: Tree, app: Seq<char>, id: Seq<char>)
    ensures
        rows_of_bundle(rows.push(row), app, id) == (if tagged(row, app) && bundle_id(row) == id {
            rows_of_bundle(rows, app, id).push(row)
        } else {
            rows_of_bundle(rows, app, id)
        }),
{
    reveal(Seq::filter);
    assert(rows.push(row).drop_last() =~= rows);
}

/// A bundle that no row names has no rows.
proof fn lemma_unnamed(rows: Seq<Tree>, app: Seq<char>, id: Seq<char>)
    requires
        !bundle_ids(rows, app).contains(id),
    ensures
        rows_of_bundle(rows, app, id) == Seq::<Tree>::empty(),
    decreases rows.len(),
{
    reveal(Seq::filter);
    if rows.len() > 0 {
        let head = rows.drop_last();
        let ids = bundle_ids(rows, app);
        let before = bundle_ids(head, app);
        assert(rows =~= head.push(rows.last()));
        lemma_one_more_row(head, rows.last(), app, id);
        if before.contains(id) {
            let k = choose|k: int| 0 <= k < before.len() && before[k] == id;
            assert(ids[k] == id);
        }
        lemma_unnamed(head, app, id);
        if tagged(rows.last(), app) && bundle_id(rows.last()) == id {
            assert(ids.last() == id);
        }
    }
}

/// The place of the group of that id.
fn find_group(groups: &Vec<(String, Vec<Json>)>, id: &str) -> (r: Option<usize>)
    ensures
        match r {
            Some(k) => k < groups@.len() && groups@[k as int].0@ == id@,
            None => forall|k: int| 0 <= k < groups@.len() ==> (#[trigger] groups@[k]).0@ != id@,
        },
{
    let mut k: usize = 0;
    while k < groups.len()
        invariant
            k <= groups@.len(),
            forall|j: int| 0 <= j < k ==> (#[trigger] groups@[j]).0@ != id@,
        decreases groups@.len() - k,
    {
        if same(groups[k].0.as_str(), id) {
            return Some(k);
        }
        k += 1;
    }
    None
}

/// This app's swaps out of the sender's rows: the rows it tagged, grouped by bundle, newest
/// first. A row with no request id is a bundle of its own, keyed by its hash.
pub fn group_swaps(rows: &[Json], app: &str) -> (r: Vec<Json>)
    ensures
        trees(r@) == swaps_in(trees(rows@), app@),
{
    let groups = groups_of(rows, app);
    let ghost all = trees(rows@);
    let ghost ids = bundle_ids(all, app@);
    let ghost given = groups@;
    let mut entries: Vec<Json> = Vec::new();
    for group in it: groups.into_iter()
        invariant
            it.seq() == given,
            ids == bundle_ids(all, app@),
            grouped(given, all, app@),
            entries@.len() == it.index(),
            forall|j: int|
                0 <= j < it.index() ==> (#[trigger] entries@[j])@ == swap_of(all, app@, ids[j]),
    {
        assert(group == given[it.index() as int]);
        let (id, legs) = group;
        let legs = legs_in_order(legs);
        entries.push(entry_of(id.as_str(), legs));
    }
    assert(trees(entries@) =~= Seq::new(ids.len(), |i: int| swap_of(all, app@, ids[i])));
    newest_first(entries)
}

/// The rows that the app tagged, by bundle.
fn groups_of(rows: &[Json], app: &str) -> (groups: Vec<(String, Vec<Json>)>)
    ensures
        grouped(groups@, trees(rows@), app@),
{
    let ghost all = trees(rows@);
    let mut groups: Vec<(String, Vec<Json>)> = Vec::new();
    let mut i: usize = 0;
    while i < rows.len()
        invariant
            i <= rows@.len(),
            all == trees(rows@),
            grouped(groups@, all.take(i as int), app@),
        decreases rows@.len() - i,
    {
        let row = &rows[i];
        let ghost before = all.take(i as int);
        let ghost after = all.take(i + 1);
        let ghost held = groups@;
        proof {
            assert(after =~= before.push(row@));
            assert(after.drop_last() =~= before);
            assert(after.last() == row@);
            assert forall|k: int| 0 <= k < held.len() implies rows_of_bundle(
                after,
                app@,
                (#[trigger] held[k]).0@,
            ) == (if tagged(row@, app@) && bundle_id(row@) == held[k].0@ {
                rows_of_bundle(before, app@, held[k].0@).push(row@)
            } else {
                rows_of_bundle(before, app@, held[k].0@)
            }) by {
                lemma_one_more_row(before, row@, app@, held[k].0@);
            }
        }
        let own = match row.get("meta") {
            Some(m) => same(m.str_of("app"), app),
            None => false,
        };
        if own {
            let request = row.str_of("requestId");
            let id = if request.is_empty() {
                row.str_of("hash")
            } else {
                request
            };
            match find_group(&groups, id) {
                Some(k) => {
                    proof {
                        lemma_ids_distinct(before, app@);
                        assert(bundle_ids(before, app@)[k as int] == id@);
                    }
                    groups[k].1.push(row.clone());
                    assert(trees(groups@[k as int].1@) =~= trees(held[k as int].1@).push(row@));
                    assert forall|j: int| 0 <= j < groups@.len() implies (
                    #[trigger] groups@[j]).0@ == bundle_ids(after, app@)[j] && trees(groups@[j].1@)
                        == rows_of_bundle(after, app@, groups@[j].0@) by {
                        assert(held[j].0@ == bundle_ids(before, app@)[j]);
                    }
                },
                None => {
                    proof {
                        assert forall|k: int| 0 <= k < bundle_ids(before, app@).len() implies
                            bundle_ids(before, app@)[k] != id@ by {
                            assert(held[k].0@ != id@);
                        }
                        lemma_unnamed(before, app@, id@);
                        lemma_one_more_row(before, row@, app@, id@);
                    }
                    let mut legs: Vec<Json> = Vec::new();
                    legs.push(row.clone());
                    assert(trees(legs@) =~= Seq::<Tree>::empty().push(row@));
                    groups.push((id.to_owned(), legs));
                    assert forall|j: int| 0 <= j < groups@.len() implies (
                    #[trigger] groups@[j]).0@ == bundle_ids(after, app@)[j] && trees(groups@[j].1@)
                        == rows_of_bundle(after, app@, groups@[j].0@) by {
                        if j < held.len() {
                            assert(groups@[j] == held[j]);
                        }
                    }
                },
            }
        } else {
            assert forall|j: int| 0 <= j < groups@.len() implies (#[trigger] groups@[j]).0@
                == bundle_ids(after, app@)[j] && trees(groups@[j].1@) == rows_of_bundle(
                after,
                app@,
                groups@[j].0@,
            ) by {
                assert(groups@[j] == held[j]);
            }
        }
        i += 1;
    }
    assert(all.take(rows@.len() as int) =~= all);
    groups
}

/// No bundle is listed twice.
pub proof fn lemma_ids_distinct(rows: Seq<Tree>, app: Seq<char>)
    ensures
        bundle_ids(rows, app).no_duplicates(),
    decreases rows.len(),
{
    if rows.len() > 0 {
        lemma_ids_distinct(rows.drop_last(), app);
        let before = bundle_ids(rows.drop_last(), app);
        let ids = bundle_ids(rows, app);
        assert forall|i: int, j: int| 0 <= i < j < ids.len() implies ids[i] != ids[j] by {
            if j == before.len() {
                assert(before[i] == ids[i]);
            }
        }
    }
}

/// Whether a `send_status` reply is the end of the swap.
pub open spec fn ended(reply: Tree) -> bool {
    match reply.bool_at("final"@) {
        Some(f) => f,
        None => reply.bool_at("ok"@) == Some(true) && reply.text_at("status"@)
            != "awaitingApproval"@ && reply.text_at("status"@) != "broadcasting"@,
    }
}

/// Whether a `send_status` reply is the end of the swap: the sender's own `final`. A sender that
/// predates it is read the way it behaves — `awaitingApproval` (held by the verified gate
/// included) and `broadcasting` still move — and none of its refusals is final, because it
/// cannot say which of them is.
pub fn is_final(reply: &Json) -> (r: bool)
    ensures
        r == ended(reply@),
{
    if let Some(f) = reply.bool_of("final") {
        return f;
    }
    let ok = match reply.bool_of("ok") {
        Some(b) => b,
        None => false,
    };
    let status = reply.str_of("status");
    ok && !same(status, "awaitingApproval") && !same(status, "broadcasting")
}

} // verus!
