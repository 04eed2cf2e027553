//! eth_rpc's verified-proxy verdict as this backend relays it. eth_rpc owns the verdict; the
//! one thing added here is the verdict to report when eth_rpc cannot be read at all.
use crate::json::{empty_object, Json, Tree};
use vstd::prelude::*;

verus! {

/// The verdict for an eth_rpc that cannot be read.
pub open spec fn unknown(chain_id: u64, why: Seq<char>) -> Tree {
    empty_object().with("ok"@, Tree::Bool(false)).with("error"@, Tree::Text(why)).with(
        "chainId"@,
        Tree::Unsigned(chain_id),
    ).with("mode"@, Tree::Text("unknown"@)).with("state"@, Tree::Text("unhealthy"@)).with(
        "usable"@,
        Tree::Bool(false),
    ).with("blocking"@, Tree::Bool(true)).with(
        "message"@,
        Tree::Text("The verified-proxy state could not be read."@),
    ).with("action"@, Tree::Text("restart_or_reload"@)).with("detail"@, Tree::Text(why))
}

/// The verdict for an eth_rpc that did not answer or answered a shape we cannot read.
/// Unknown blocks: defaulting to `off` here would be a false assurance.
pub fn unknown_verdict(chain_id: u64, why: &str) -> (r: Json)
    ensures
        r@ == unknown(chain_id, why@),
{
    Json::object().with("ok", Json::Bool(false)).with("error", Json::text(why)).with(
        "chainId",
        Json::Unsigned(chain_id),
    ).with("mode", Json::text("unknown")).with("state", Json::text("unhealthy")).with(
        "usable",
        Json::Bool(false),
    ).with("blocking", Json::Bool(true)).with(
        "message",
        Json::text("The verified-proxy state could not be read."),
    ).with("action", Json::text("restart_or_reload")).with("detail", Json::text(why))
}

/// Whether a verdict says how it stands and whether it blocks.
pub open spec fn is_readable(v: Tree) -> bool {
    v.get("state"@) matches Some(Tree::Text(_)) && v.bool_at("blocking"@) is Some
}

/// A verdict is readable only when it carries BOTH a `state` and a boolean `blocking`.
pub fn readable(v: &Json) -> (r: bool)
    ensures
        r == is_readable(v@),
{
    let stated = match v.get("state") {
        Some(Json::Text(_)) => true,
        _ => false,
    };
    let blocks = match v.bool_of("blocking") {
        Some(_) => true,
        None => false,
    };
    stated && blocks
}

/// The verdict to report for what eth_rpc answered.
pub open spec fn normalized(chain_id: u64, raw: Tree) -> Tree {
    if is_readable(raw) {
        raw
    } else {
        unknown(
            chain_id,
            match raw.get("error"@) {
                Some(Tree::Text(why)) => why,
                _ => "eth_rpc returned no usable verdict"@,
            },
        )
    }
}

/// `raw` when it is readable, else a blocking unknown verdict carrying `raw`'s own error.
pub fn normalize(chain_id: u64, raw: &Json) -> (r: Json)
    ensures
        r@ == normalized(chain_id, raw@),
{
    if readable(raw) {
        return raw.clone();
    }
    match raw.get("error") {
        Some(Json::Text(why)) => unknown_verdict(chain_id, why.as_str()),
        _ => unknown_verdict(chain_id, "eth_rpc returned no usable verdict"),
    }
}

/// What the verdict for an unreadable answer says: unknown, and blocking.
pub proof fn lemma_unknown(chain_id: u64, why: Seq<char>)
    ensures
        is_readable(unknown(chain_id, why)),
        unknown(chain_id, why).bool_at("ok"@) == Some(false),
        unknown(chain_id, why).text_at("mode"@) == "unknown"@,
        unknown(chain_id, why).bool_at("blocking"@) == Some(true),
        unknown(chain_id, why).bool_at("usable"@) == Some(false),
        unknown(chain_id, why).unsigned_at("chainId"@) == Some(chain_id),
        unknown(chain_id, why).text_at("detail"@) == why,
{
    reveal_strlit("ok");
    reveal_strlit("error");
    reveal_strlit("chainId");
    reveal_strlit("mode");
    reveal_strlit("state");
    reveal_strlit("usable");
    reveal_strlit("blocking");
    reveal_strlit("message");
    reveal_strlit("action");
    reveal_strlit("detail");
    assert("ok"@.len() == 2);
    assert("error"@.len() == 5 && "error"@[0] == 'e');
    assert("chainId"@.len() == 7 && "chainId"@[0] == 'c');
    assert("mode"@.len() == 4);
    assert("state"@.len() == 5 && "state"@[0] == 's');
    assert("usable"@.len() == 6 && "usable"@[0] == 'u');
    assert("blocking"@.len() == 8);
    assert("message"@.len() == 7 && "message"@[0] == 'm');
    assert("action"@.len() == 6 && "action"@[0] == 'a');
    assert("detail"@.len() == 6 && "detail"@[0] == 'd');
}

/// A readable verdict passes through and anything else blocks: what is reported is always readable,
/// and where eth_rpc's answer was not, it is an unknown one that blocks, never `off`.
pub proof fn law_unreadable_blocks(chain_id: u64, raw: Tree)
    ensures
        is_readable(normalized(chain_id, raw)),
        is_readable(raw) ==> normalized(chain_id, raw) == raw,
        !is_readable(raw) ==> normalized(chain_id, raw).text_at("mode"@) == "unknown"@
            && normalized(chain_id, raw).bool_at("blocking"@) == Some(true) && normalized(
            chain_id,
            raw,
        ).unsigned_at("chainId"@) == Some(chain_id),
{
    let why = match raw.get("error"@) {
        Some(Tree::Text(why)) => why,
        _ => "eth_rpc returned no usable verdict"@,
    };
    lemma_unknown(chain_id, why);
}

} // verus!
