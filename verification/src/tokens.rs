//! Token rows: what a caller adds to those offered, and the picker's pages with the native row.
use crate::json::{copies, trees, Json, Tree};
use crate::text::{
    contains_text, holds_text, lower_chars, lowered, same_but_case, same_ignoring_case, trim,
    trim_chars, trimmed,
};
use crate::wire::{json_read, read};
use vstd::prelude::*;

verus! {

/// Every one is an object.
pub open spec fn all_objects(rows: Seq<Tree>) -> bool {
    forall|i: int| 0 <= i < rows.len() ==> #[trigger] rows[i] is Object
}

/// The token rows that a value lists, or why it lists none.
pub open spec fn tokens_at(t: Tree) -> Result<Seq<Tree>, Seq<char>> {
    match t.as_array() {
        None => Err("a token list must be a JSON array"@),
        Some(rows) => if all_objects(rows) {
            Ok(rows)
        } else {
            Err("every token in the list must be an object"@)
        },
    }
}

/// The token rows that a text lists, or why it lists none.
pub open spec fn tokens_read(text: Seq<char>) -> Result<Seq<Tree>, Seq<char>> {
    if trimmed(text).len() == 0 {
        Ok(Seq::empty())
    } else {
        match json_read(text) {
            Ok(t) => tokens_at(t),
            Err(e) => Err("invalid token list: "@ + e),
        }
    }
}

/// The trees of the rows that a call answered.
pub open spec fn rows_answer(r: Result<Vec<Json>, String>) -> Result<Seq<Tree>, Seq<char>> {
    match r {
        Ok(rows) => Ok(trees(rows@)),
        Err(e) => Err(e@),
    }
}

/// A caller's token list, from the value that its text spells: an array of objects.
pub fn tokens_of(v: &Json) -> (r: Result<Vec<Json>, String>)
    ensures
        rows_answer(r) == tokens_at(v@),
{
    match v.as_array() {
        None => Err("a token list must be a JSON array".to_owned()),
        Some(rows) => {
            let ghost all = trees(rows@);
            let mut i: usize = 0;
            while i < rows.len()
                invariant
                    i <= rows@.len(),
                    all == trees(rows@),
                    v@.as_array() == Some(all),
                    forall|j: int| 0 <= j < i ==> #[trigger] all[j] is Object,
                decreases rows@.len() - i,
            {
                if !rows[i].is_object() {
                    assert(!(all[i as int] is Object));
                    return Err("every token in the list must be an object".to_owned());
                }
                i += 1;
            }
            Ok(copies(rows))
        },
    }
}

/// A caller's token list: an array of objects, or nothing at all.
pub fn parse_tokens(tokens_json: &str) -> (r: Result<Vec<Json>, String>)
    ensures
        rows_answer(r) == tokens_read(tokens_json@),
{
    if trim_chars(tokens_json).len() == 0 {
        let none: Vec<Json> = Vec::new();
        assert(trees(none@) =~= Seq::<Tree>::empty());
        return Ok(none);
    }
    match read(tokens_json) {
        Ok(v) => tokens_of(&v),
        Err(e) => {
            let mut why = "invalid token list: ".to_owned();
            why.append(e.as_str());
            Err(why)
        },
    }
}

/// Whether a row of that address is among them.
pub open spec fn holds_address(rows: Seq<Tree>, address: Seq<char>) -> bool {
    exists|i: int|
        0 <= i < rows.len() && same_but_case((#[trigger] rows[i]).text_at("address"@), address)
}

/// The offered rows, then the extra ones whose address is not yet among them.
pub open spec fn joined(offered: Seq<Tree>, extra: Seq<Tree>) -> Seq<Tree>
    decreases extra.len(),
{
    if extra.len() == 0 {
        offered
    } else {
        let before = joined(offered, extra.drop_last());
        if holds_address(before, extra.last().text_at("address"@)) {
            before
        } else {
            before.push(extra.last())
        }
    }
}

fn has_address(rows: &Vec<Json>, address: &str) -> (r: bool)
    ensures
        r == holds_address(trees(rows@), address@),
{
    let ghost all = trees(rows@);
    let mut i: usize = 0;
    while i < rows.len()
        invariant
            i <= rows@.len(),
            all == trees(rows@),
            forall|j: int|
                0 <= j < i ==> !same_but_case((#[trigger] all[j]).text_at("address"@), address@),
        decreases rows@.len() - i,
    {
        assert(all[i as int] == rows@[i as int]@);
        if same_ignoring_case(rows[i].str_of("address"), address) {
            return true;
        }
        i += 1;
    }
    false
}

/// The offered rows, then any extra the caller named that they do not already hold.
pub fn union_tokens(offered: Vec<Json>, extra: Vec<Json>) -> (r: Vec<Json>)
    ensures
        trees(r@) == joined(trees(offered@), trees(extra@)),
{
    let ghost first = trees(offered@);
    let ghost more = trees(extra@);
    let mut out = offered;
    let mut i: usize = 0;
    while i < extra.len()
        invariant
            i <= extra@.len(),
            more == trees(extra@),
            trees(out@) == joined(first, more.take(i as int)),
        decreases extra@.len() - i,
    {
        let t = &extra[i];
        proof {
            assert(more.take(i + 1).drop_last() =~= more.take(i as int));
            assert(more.take(i + 1).last() == t@);
        }
        if !has_address(&out, t.str_of("address")) {
            let ghost before = out@;
            let row = t.clone();
            out.push(row);
            assert(trees(out@) =~= trees(before).push(t@));
        }
        i += 1;
    }
    assert(more.take(extra@.len() as int) =~= more);
    out
}

/// Whether the native row answers a picker query.
pub open spec fn answers(native: Tree, query: Seq<char>) -> bool {
    let needle = lowered(trimmed(query));
    ||| needle.len() == 0
    ||| holds_text(lowered(native.text_at("symbol"@)), needle)
    ||| holds_text(lowered(native.text_at("name"@)), needle)
}

/// Whether the native row answers a picker query: symbol or name, case-insensitive substring.
pub fn native_matches(native: &Json, query: &str) -> (r: bool)
    ensures
        r == answers(native@, query@),
{
    let needle = lower_chars(trim(query).as_str());
    needle.len() == 0 || contains_text(&lower_chars(native.str_of("symbol")), &needle)
        || contains_text(&lower_chars(native.str_of("name")), &needle)
}

/// The picker's offset in token_list's own rows.
pub open spec fn listed_offset(native_matches: bool, offset: int) -> int {
    if offset <= 0 {
        0
    } else if native_matches {
        offset - 1
    } else {
        offset
    }
}

/// token_list's offset for the picker's `offset`: the native row takes slot 0 of page 0.
pub fn provider_offset(native_matches: bool, offset: i64) -> (r: i64)
    ensures
        r == listed_offset(native_matches, offset as int),
{
    if offset <= 0 {
        0
    } else if native_matches {
        offset - 1
    } else {
        offset
    }
}

/// Rows marked as tokens, not the native coin.
pub open spec fn as_tokens(rows: Seq<Tree>) -> Seq<Tree> {
    Seq::new(rows.len(), |i: int| rows[i].with("native"@, Tree::Bool(false)))
}

/// Rows with the native row in front where the page is the first one.
pub open spec fn with_native(
    native: Tree,
    native_matches: bool,
    rows: Seq<Tree>,
    offset: int,
    limit: int,
) -> Seq<Tree> {
    if native_matches && offset <= 0 && limit != 0 {
        seq![native] + rows
    } else {
        rows
    }
}

/// At most `limit` rows, where there is a limit.
pub open spec fn cut(rows: Seq<Tree>, limit: int) -> Seq<Tree> {
    if 0 < limit < rows.len() {
        rows.take(limit)
    } else {
        rows
    }
}

/// How many rows there are to page through.
pub open spec fn total_rows(page: Tree, native_matches: bool) -> int {
    page.unsigned_at("total"@).unwrap_or(0) + if native_matches {
        1int
    } else {
        0int
    }
}

/// The rows of the picker's page.
pub open spec fn page_rows(
    native: Tree,
    native_matches: bool,
    page: Tree,
    offset: int,
    limit: int,
) -> Seq<Tree> {
    let listed = as_tokens(page.list_at("tokens"@));
    cut(with_native(native, native_matches, listed, offset, limit), limit)
}

/// token_list's page with the native row merged in.
pub open spec fn merged_page(
    native: Tree,
    native_matches: bool,
    page: Tree,
    offset: int,
    limit: int,
) -> Tree {
    let rows = page_rows(native, native_matches, page, offset, limit);
    let from = if offset < 0 {
        0
    } else {
        offset
    };
    let total = total_rows(page, native_matches);
    page.with("total"@, Tree::Unsigned(total as u64)).with(
        "offset"@,
        Tree::Unsigned(from as u64),
    ).with("shown"@, Tree::Unsigned(rows.len() as u64)).with(
        "hasMore"@,
        Tree::Bool(from + rows.len() < total),
    ).with("tokens"@, Tree::Array(rows))
}

/// Whether a page can take the native row: it and each of its rows take fields, and one more row
/// can be counted.
pub open spec fn mergeable(page: Tree, native_matches: bool) -> bool {
    &&& page.takes_fields()
    &&& total_rows(page, native_matches) <= u64::MAX
    &&& forall|i: int|
        0 <= i < page.list_at("tokens"@).len() ==> (#[trigger] page.list_at(
            "tokens"@,
        )[i]).takes_fields()
}

/// Whether a page can take the native row.
pub fn can_merge(page: &Json, native_matches: bool) -> (r: bool)
    ensures
        r == mergeable(page@, native_matches),
{
    if !page.takes_fields() {
        return false;
    }
    let total: u64 = page.u64_of("total").unwrap_or(0);
    if native_matches && total == u64::MAX {
        return false;
    }
    match page.array_of("tokens") {
        None => true,
        Some(rows) => {
            let ghost all = trees(rows@);
            let mut i: usize = 0;
            while i < rows.len()
                invariant
                    i <= rows@.len(),
                    all == trees(rows@),
                    page@.list_at("tokens"@) == all,
                    forall|j: int| 0 <= j < i ==> (#[trigger] all[j]).takes_fields(),
                decreases rows@.len() - i,
            {
                assert(all[i as int] == rows@[i as int]@);
                if !rows[i].takes_fields() {
                    return false;
                }
                i += 1;
            }
            true
        },
    }
}

/// The rows of a page, marked as tokens.
fn token_rows(page: &Json) -> (r: Vec<Json>)
    requires
        forall|i: int|
            0 <= i < page@.list_at("tokens"@).len() ==> (#[trigger] page@.list_at(
                "tokens"@,
            )[i]).takes_fields(),
    ensures
        trees(r@) == as_tokens(page@.list_at("tokens"@)),
{
    let given = page.list_of("tokens");
    let ghost all = page@.list_at("tokens"@);
    let mut rows: Vec<Json> = Vec::new();
    let mut i: usize = 0;
    while i < given.len()
        invariant
            i <= given@.len(),
            trees(given@) == all,
            rows@.len() == i,
            forall|j: int| 0 <= j < all.len() ==> (#[trigger] all[j]).takes_fields(),
            forall|j: int|
                0 <= j < i ==> (#[trigger] rows@[j])@ == all[j].with("native"@, Tree::Bool(false)),
        decreases given@.len() - i,
    {
        assert(all[i as int] == given@[i as int]@);
        rows.push(given[i].clone().with("native", Json::Bool(false)));
        i += 1;
    }
    assert(given@.len() == all.len());
    assert(trees(rows@) =~= as_tokens(all));
    rows
}

/// token_list's page with the native row merged in, counts included.
pub fn merge_native_page(
    native: &Json,
    native_matches: bool,
    page: Json,
    offset: i64,
    limit: i64,
) -> (r: Json)
    requires
        mergeable(page@, native_matches),
    ensures
        r@ == merged_page(native@, native_matches, page@, offset as int, limit as int),
        r@ is Object,
{
    let provider_total: u64 = page.u64_of("total").unwrap_or(0);
    let mut rows = token_rows(&page);
    let ghost marked = as_tokens(page@.list_at("tokens"@));
    let ghost merged = with_native(native@, native_matches, marked, offset as int, limit as int);
    if native_matches && offset <= 0 && limit != 0 {
        let ghost before = rows@;
        rows.insert(0, native.clone());
        assert(trees(rows@) =~= seq![native@] + trees(before));
    }
    assert(trees(rows@) == merged);
    if limit > 0 {
        let ghost before = rows@;
        if (limit as u64) < rows.len() as u64 {
            rows.truncate(limit as usize);
            assert(trees(rows@) =~= trees(before).take(limit as int));
        }
    }
    assert(trees(rows@).len() == rows@.len());
    let from: u64 = if offset < 0 {
        0
    } else {
        offset as u64
    };
    let total: u64 = if native_matches {
        provider_total + 1
    } else {
        provider_total
    };
    let shown: u64 = rows.len() as u64;
    let more: bool = from.saturating_add(shown) < total;
    page.with("total", Json::Unsigned(total)).with("offset", Json::Unsigned(from)).with(
        "shown",
        Json::Unsigned(shown),
    ).with("hasMore", Json::Bool(more)).with("tokens", Json::array(rows))
}

/// The offered rows come first and as they are, and every address that the caller names is there.
/// Nothing is there twice on the caller's account: an extra row has an address that no row before
/// it has.
pub proof fn law_offered_rows_win(offered: Seq<Tree>, extra: Seq<Tree>)
    ensures
        ({
            let all = joined(offered, extra);
            &&& offered.len() <= all.len()
            &&& all.take(offered.len() as int) == offered
            &&& forall|i: int|
                0 <= i < extra.len() ==> holds_address(
                    all,
                    (#[trigger] extra[i]).text_at("address"@),
                )
            &&& forall|i: int|
                offered.len() <= i < all.len() ==> extra.contains(#[trigger] all[i])
                    && !holds_address(all.take(i), all[i].text_at("address"@))
        }),
    decreases extra.len(),
{
    let all = joined(offered, extra);
    if extra.len() == 0 {
        assert(all.take(offered.len() as int) =~= offered);
    } else {
        let head = extra.drop_last();
        let before = joined(offered, head);
        law_offered_rows_win(offered, head);
        assert(all.take(offered.len() as int) =~= before.take(offered.len() as int));
        assert forall|i: int| 0 <= i < extra.len() implies holds_address(
            all,
            (#[trigger] extra[i]).text_at("address"@),
        ) by {
            let address = extra[i].text_at("address"@);
            if i < head.len() {
                assert(head[i] == extra[i]);
            }
            if holds_address(before, address) {
                let k = choose|k: int|
                    0 <= k < before.len() && same_but_case(
                        (#[trigger] before[k]).text_at("address"@),
                        address,
                    );
                assert(all[k] == before[k]);
            } else {
                assert(all.last() == extra.last());
                assert(all[all.len() - 1].text_at("address"@) == address);
            }
        }
        assert forall|i: int| offered.len() <= i < all.len() implies extra.contains(
            #[trigger] all[i],
        ) && !holds_address(all.take(i), all[i].text_at("address"@)) by {
            assert(all.take(i) =~= before.take(i));
            if i < before.len() {
                assert(all[i] == before[i]);
                let k = choose|k: int| 0 <= k < head.len() && head[k] == before[i];
                assert(extra[k] == before[i]);
            } else {
                assert(extra[extra.len() - 1] == all[i]);
                assert(before.take(i) =~= before);
            }
        }
    }
}

/// Every row that the picker pages through: the native row where it answers, then the tokens.
pub open spec fn all_rows(native: Tree, native_matches: bool, listed: Seq<Tree>) -> Seq<Tree> {
    if native_matches {
        seq![native] + as_tokens(listed)
    } else {
        as_tokens(listed)
    }
}

/// The rows from `from` on, at most `limit` of them.
pub open spec fn window(rows: Seq<Tree>, from: int, limit: int) -> Seq<Tree> {
    let start = if from < rows.len() {
        from
    } else {
        rows.len() as int
    };
    let end = if start + limit < rows.len() {
        start + limit
    } else {
        rows.len() as int
    };
    rows.subrange(start, end)
}

/// The picker's pages tile: where token_list pages through its own rows from the offset it is asked
/// for, the picker pages through the native row and those rows, from its own offset, and counts
/// them all. So the native row takes slot 0 of the first page, and no slot of a later one.
pub proof fn law_picker_pages(
    native: Tree,
    native_matches: bool,
    listed: Seq<Tree>,
    page: Tree,
    offset: int,
    limit: int,
)
    requires
        offset >= 0,
        limit > 0,
        page.list_at("tokens"@) == window(listed, listed_offset(native_matches, offset), limit),
        page.unsigned_at("total"@) == Some(listed.len() as u64),
        listed.len() <= u64::MAX,
    ensures
        ({
            let rows = page_rows(native, native_matches, page, offset, limit);
            &&& rows == window(all_rows(native, native_matches, listed), offset, limit)
            &&& total_rows(page, native_matches) == all_rows(native, native_matches, listed).len()
        }),
{
    let rows = page_rows(native, native_matches, page, offset, limit);
    let all = all_rows(native, native_matches, listed);
    let given = page.list_at("tokens"@);
    let marked = as_tokens(given);
    let merged = with_native(native, native_matches, marked, offset, limit);
    assert(rows =~= window(all, offset, limit));
}

/// What a page says of itself: how many rows there are, where it starts, how many it shows, and
/// whether there are more behind it.
pub proof fn law_page_counts(
    native: Tree,
    native_matches: bool,
    page: Tree,
    offset: int,
    limit: int,
)
    requires
        mergeable(page, native_matches),
    ensures
        ({
            let merged = merged_page(native, native_matches, page, offset, limit);
            let rows = page_rows(native, native_matches, page, offset, limit);
            let total = total_rows(page, native_matches);
            let from = if offset < 0 {
                0
            } else {
                offset
            };
            &&& merged.list_at("tokens"@) == rows
            &&& merged.get("total"@) == Some(Tree::Unsigned(total as u64))
            &&& merged.get("offset"@) == Some(Tree::Unsigned(from as u64))
            &&& merged.get("shown"@) == Some(Tree::Unsigned(rows.len() as u64))
            &&& merged.get("hasMore"@) == Some(Tree::Bool(from + rows.len() < total))
            &&& limit > 0 ==> rows.len() <= limit
        }),
{
    reveal_strlit("total");
    reveal_strlit("offset");
    reveal_strlit("shown");
    reveal_strlit("hasMore");
    reveal_strlit("tokens");
    assert("total"@.len() == 5 && "total"@[0] == 't');
    assert("offset"@.len() == 6 && "offset"@[0] == 'o');
    assert("shown"@.len() == 5 && "shown"@[0] == 's');
    assert("hasMore"@.len() == 7);
    assert("tokens"@.len() == 6 && "tokens"@[0] == 't');
}

/// The caller's rows are taken in their order: each is added behind what is there, unless a row is
/// there of its address, whatever the case; then it is left out.
pub proof fn law_how_extra_rows_are_added(offered: Seq<Tree>, extra: Seq<Tree>, row: Tree)
    ensures
        joined(offered, Seq::empty()) == offered,
        ({
            let there = joined(offered, extra);
            let held = exists|i: int|
                0 <= i < there.len() && same_but_case(
                    (#[trigger] there[i]).text_at("address"@),
                    row.text_at("address"@),
                );
            &&& held ==> joined(offered, extra.push(row)) == there
            &&& !held ==> joined(offered, extra.push(row)) == there.push(row)
        }),
{
    assert(extra.push(row).drop_last() =~= extra);
}

} // verus!
