//! The consumer half of the ask-then-initialize convention: what a dependency's
//! `config_status` answer tells this module to do next. The rule that matters is the one a bool
//! could not express: "I could not ask" and "I asked and it has no config" are different answers,
//! and only the second one licenses a write.
use crate::json::{Json, Tree};
use crate::text::same;
use crate::wire::{json_read, read};
use vstd::prelude::*;

verus! {

/// What to do after reading a dependency's `config_status`.
#[derive(Clone, Copy, Debug, PartialEq, Eq, Structural)]
pub enum Next {
    /// Nothing has ever been configured. Apply the dependency's own defaults, once.
    Initialize,
    /// A config is already set, or we just wrote one. Stop asking, permanently.
    Settled,
    /// The module has not finished starting, or did not answer intelligibly. Ask later —
    /// a call that did not arrive is not evidence of an empty config.
    AskAgain,
}

/// What a `config_status` reply says to do.
pub open spec fn step_for(status: Tree) -> Next {
    match status.get("state"@) {
        Some(Tree::Text(s)) => if s == "unconfigured"@ {
            Next::Initialize
        } else if s == "configured"@ {
            Next::Settled
        } else {
            Next::AskAgain
        },
        _ => Next::AskAgain,
    }
}

/// Read one `config_status` reply, once it is read as a value.
pub fn next_step_of(status: &Json) -> (r: Next)
    ensures
        r == step_for(status@),
{
    match status.get("state") {
        Some(Json::Text(s)) => if same(s.as_str(), "unconfigured") {
            Next::Initialize
        } else if same(s.as_str(), "configured") {
            Next::Settled
        } else {
            Next::AskAgain
        },
        _ => Next::AskAgain,
    }
}

/// Read one `config_status` reply. Anything but a `state` this convention defines is
/// `AskAgain`: an unrecognised answer must never be read as permission to write.
pub fn next_step(status_json: &str) -> (r: Next)
    ensures
        r == match json_read(status_json@) {
            Ok(status) => step_for(status),
            Err(_) => Next::AskAgain,
        },
{
    match read(status_json) {
        Ok(status) => next_step_of(&status),
        Err(_) => Next::AskAgain,
    }
}

/// A module answered `{ ok: true, ... }`.
pub open spec fn says_ok(reply: Tree) -> bool {
    reply.bool_at("ok"@) == Some(true)
}

/// A module answered `{ ok: true, ... }`, once its answer is read as a value.
pub fn ok_of(reply: &Json) -> (r: bool)
    ensures
        r == says_ok(reply@),
{
    match reply.bool_of("ok") {
        Some(b) => b,
        None => false,
    }
}

/// A module answered `{ ok: true, ... }`. `init_defaults` answering `applied: false` is
/// such an answer — another consumer got there first, which is a race won, not a failure.
pub fn reply_ok(raw: &str) -> (r: bool)
    ensures
        r == match json_read(raw@) {
            Ok(reply) => says_ok(reply),
            Err(_) => false,
        },
{
    match read(raw) {
        Ok(reply) => ok_of(&reply),
        Err(_) => false,
    }
}

/// Only a `state` that says so licenses a write, whatever else the answer says.
pub proof fn law_only_unconfigured_licenses_a_write(status: Tree)
    ensures
        step_for(status) is Initialize <==> status.get("state"@) == Some(
            Tree::Text("unconfigured"@),
        ),
        step_for(status) is Settled <==> status.get("state"@) == Some(Tree::Text("configured"@)),
{
    reveal_strlit("unconfigured");
    reveal_strlit("configured");
    assert("unconfigured"@.len() == 12);
    assert("configured"@.len() == 10);
}

} // verus!
