//! What a dependency answered, and what the caller of this module is told of it.
use crate::depinit::{ok_of, says_ok};
use crate::json::{empty_object, floatless, nested_within, plain, Json, Tree};
use crate::verified::{lemma_unknown, normalize, normalized, unknown, unknown_verdict};
use crate::wire::{
    json_read, json_text, read, read_and_rewrite, rereads, spell, MOST_NESTED,
};
use vstd::prelude::*;

verus! {

/// What came back from a call.
#[verifier::ext_equal]
pub enum Word {
    /// The text `raw`, which spells `value`, and which is written as `written`.
    Value { raw: Seq<char>, value: Tree, written: Seq<char> },
    /// The text `raw`, which is no JSON, and why.
    Unreadable { raw: Seq<char>, why: Seq<char> },
    /// Nothing, and what the transport said of it.
    Unreachable { why: Seq<char> },
}

/// What came back from a call.
#[derive(Debug, PartialEq)]
pub enum Reply {
    /// The text `raw`, which spells `value`, and which is written as `written`.
    Value { raw: String, value: Json, written: String },
    /// The text `raw`, which is no JSON, and why.
    Unreadable { raw: String, why: String },
    /// Nothing, and what the transport said of it.
    Unreachable { why: String },
}

impl View for Reply {
    type V = Word;

    open spec fn view(&self) -> Word {
        match *self {
            Reply::Value { raw, value, written } => Word::Value {
                raw: raw@,
                value: value@,
                written: written@,
            },
            Reply::Unreadable { raw, why } => Word::Unreadable { raw: raw@, why: why@ },
            Reply::Unreachable { why } => Word::Unreachable { why: why@ },
        }
    }
}

/// The word that a transport brought home: a text, or what it said of the failure.
pub open spec fn word_of(raw: Result<String, String>) -> Word {
    match raw {
        Err(why) => Word::Unreachable { why: why@ },
        Ok(text) => match json_read(text@) {
            Ok(value) => Word::Value { raw: text@, value, written: json_text(value) },
            Err(why) => Word::Unreadable { raw: text@, why },
        },
    }
}

/// A dependency's reply, read. What is written of it is read again as it was, unless it holds a
/// float.
pub fn read_reply(raw: Result<String, String>) -> (r: Reply)
    ensures
        r@ == word_of(raw),
        r matches Reply::Value { value, written, .. } ==> (floatless(value@) ==> plain(value)
            && json_read(written@) == Ok::<Tree, Seq<char>>(value@)),
{
    match raw {
        Err(why) => Reply::Unreachable { why },
        Ok(raw) => match read_and_rewrite(raw.as_str()) {
            Ok((value, written)) => Reply::Value { raw, value, written },
            Err(why) => Reply::Unreadable { raw, why },
        },
    }
}

/// A refusal in words, as an object.
pub open spec fn refused(words: Seq<char>) -> Tree {
    empty_object().with("ok"@, Tree::Bool(false)).with("error"@, Tree::Text(words))
}

/// A refusal in words, as an object, whatever the words may spell.
pub(crate) fn worded(words: &str) -> (r: Json)
    ensures
        r@ == refused(words@),
        plain(r),
{
    Json::object().with("ok", Json::Bool(false)).with("error", Json::text(words))
}

/// The refusal that a message is: the object that it spells, whole, where that says no; else the
/// message in words.
pub open spec fn refusal_for(message: Seq<char>) -> Tree {
    match json_read(message) {
        Ok(v) => if v.bool_at("ok"@) == Some(false) {
            v
        } else {
            refused(message)
        },
        Err(_) => refused(message),
    }
}

/// A refusal as an object: one a dependency already worded passes through whole, verdicts
/// included; anything else is wrapped.
pub fn refusal(message: &str) -> (r: Json)
    ensures
        r@ == refusal_for(message@),
        floatless(r@) ==> plain(r),
{
    if let Ok(v) = read(message) {
        if let Some(false) = v.bool_of("ok") {
            return v;
        }
    }
    worded(message)
}

/// A refusal as text: one a dependency already worded passes through whole, anything else is
/// wrapped. Unless it holds a float, it is read again as the refusal that it is.
pub fn err(message: &str) -> (r: String)
    ensures
        r@ == json_text(refusal_for(message@)),
        floatless(refusal_for(message@)) ==> json_read(r@) == Ok::<Tree, Seq<char>>(
            refusal_for(message@),
        ) && refusal_for(r@) == refusal_for(message@),
{
    proof {
        lemma_refused(message@);
        lemma_refused_rereads(message@);
    }
    if let Ok((v, written)) = read_and_rewrite(message) {
        if let Some(false) = v.bool_of("ok") {
            return written;
        }
    }
    spell(&worded(message)).unwrap()
}

/// A refusal in words holds no float, and is nested one deep.
proof fn lemma_refused_rereads(words: Seq<char>)
    ensures
        rereads(refused(words)),
{
    let m = refused(words)->Object_0;
    reveal_with_fuel(nested_within, 2);
    assert forall|k: Seq<char>| m.dom().contains(k) implies floatless(#[trigger] m[k])
        && nested_within(m[k], (MOST_NESTED - 1) as nat) by {
        assert(m[k] == Tree::Bool(false) || m[k] == Tree::Text(words));
    }
}

/// A message that spells a refusal passes through whole; any other is wrapped. Either way what
/// comes of it says no.
pub proof fn law_refusal_passes_whole(message: Seq<char>)
    ensures
        refusal_for(message).bool_at("ok"@) == Some(false),
        json_read(message) matches Ok(v) ==> (v.bool_at("ok"@) == Some(false) ==> refusal_for(
            message,
        ) == v),
        !(json_read(message) matches Ok(v) && v.bool_at("ok"@) == Some(false)) ==> refusal_for(
            message,
        ) == refused(message),
{
    lemma_refused(message);
}

/// What `who` is said to have failed with.
pub open spec fn said_of(who: Seq<char>, why: Seq<char>) -> Seq<char> {
    who + ": "@ + why
}

pub(crate) fn told(who: &str, why: &str) -> (r: String)
    ensures
        r@ == said_of(who@, why@),
{
    let mut out = who.to_owned();
    out.append(": ");
    out.append(why);
    out
}

/// What `who` answered, or the refusal to pass on: the one it worded itself, whole, or one that
/// says what it answered, or that it did not.
pub open spec fn heard(word: Word, who: Seq<char>) -> Result<Tree, Tree> {
    match word {
        Word::Value { value, written, .. } => if says_ok(value) {
            Ok(value)
        } else if value.bool_at("ok"@) == Some(false) {
            Err(value)
        } else {
            Err(refused(written))
        },
        Word::Unreadable { why, .. } => Err(refused(said_of(who, why))),
        Word::Unreachable { why } => Err(refused(said_of(who, why))),
    }
}

/// The trees of an answer and of a refusal.
pub open spec fn outcome(r: Result<Json, Json>) -> Result<Tree, Tree> {
    match r {
        Ok(v) => Ok(v@),
        Err(v) => Err(v@),
    }
}

/// A dependency's reply, with its refusal kept as the object it was. A transport error names the
/// module, so a module that is down reads differently from one that said no.
pub fn reply(word: Reply, who: &str) -> (r: Result<Json, Json>)
    ensures
        outcome(r) == heard(word@, who@),
{
    match word {
        Reply::Value { raw: _, value, written } => {
            if ok_of(&value) {
                return Ok(value);
            }
            match value.bool_of("ok") {
                Some(_) => Err(value),
                None => Err(worded(written.as_str())),
            }
        },
        Reply::Unreadable { raw: _, why } => Err(worded(told(who, why.as_str()).as_str())),
        Reply::Unreachable { why } => Err(worded(told(who, why.as_str()).as_str())),
    }
}

/// What the caller of this module gets: a value, or a dependency's own text.
#[verifier::ext_equal]
pub enum Outcome {
    Value(Tree),
    Verbatim(Seq<char>),
}

/// What the caller of this module gets: a value, or a dependency's own text.
#[derive(Debug, PartialEq)]
pub enum Answer {
    Value(Json),
    Verbatim(String),
}

impl View for Answer {
    type V = Outcome;

    open spec fn view(&self) -> Outcome {
        match *self {
            Answer::Value(v) => Outcome::Value(v@),
            Answer::Verbatim(text) => Outcome::Verbatim(text@),
        }
    }
}

/// The text that the caller of this module gets.
pub open spec fn spoken(outcome: Outcome) -> Seq<char> {
    match outcome {
        Outcome::Value(v) => json_text(v),
        Outcome::Verbatim(text) => text,
    }
}

impl Answer {
    /// The text that the caller of this module gets; `None` for a value that is not plain.
    pub fn text(&self) -> (r: Option<String>)
        ensures
            match r {
                Some(text) => text@ == spoken(self@),
                None => *self matches Answer::Value(v) && !plain(v),
            },
            *self matches Answer::Value(v) && plain(v) ==> r is Some,
    {
        match self {
            Answer::Value(v) => spell(v),
            Answer::Verbatim(text) => Some(text.clone()),
        }
    }
}

/// What is passed on of what `who` answered: its text, refusals included, or that it did not
/// answer.
pub open spec fn relayed(word: Word, who: Seq<char>) -> Outcome {
    match word {
        Word::Value { raw, .. } => Outcome::Verbatim(raw),
        Word::Unreadable { raw, .. } => Outcome::Verbatim(raw),
        Word::Unreachable { why } => Outcome::Value(refused(said_of(who, why))),
    }
}

/// A reply relayed verbatim, refusals included.
pub fn relay(word: Reply, who: &str) -> (r: Answer)
    ensures
        r@ == relayed(word@, who@),
{
    match word {
        Reply::Value { raw, value: _, written: _ } => Answer::Verbatim(raw),
        Reply::Unreadable { raw, why: _ } => Answer::Verbatim(raw),
        Reply::Unreachable { why } => Answer::Value(worded(told(who, why.as_str()).as_str())),
    }
}

/// The verdict on a chain, from what eth_rpc answered.
pub open spec fn verdict_from(chain_id: u64, word: Word) -> Tree {
    match word {
        Word::Value { value, .. } => normalized(chain_id, value),
        Word::Unreadable { why, .. } => unknown(chain_id, said_of("eth_rpc_module"@, why)),
        Word::Unreachable { why } => unknown(chain_id, said_of("eth_rpc_module"@, why)),
    }
}

/// The verdict on a chain: eth_rpc's own, or a blocking unknown one where it cannot be read.
pub fn verdict_of(chain_id: u64, word: Reply) -> (r: Json)
    ensures
        r@ == verdict_from(chain_id, word@),
{
    match word {
        Reply::Value { raw: _, value, written: _ } => normalize(chain_id, &value),
        Reply::Unreadable { raw: _, why } => unknown_verdict(
            chain_id,
            told("eth_rpc_module", why.as_str()).as_str(),
        ),
        Reply::Unreachable { why } => unknown_verdict(
            chain_id,
            told("eth_rpc_module", why.as_str()).as_str(),
        ),
    }
}

/// The module that called this one, as the runtime attests it.
#[derive(Debug, PartialEq)]
pub enum Caller {
    Module { name: String },
    HostAnchor,
    Derived { parent: String, leaf: String },
    Operator { name: String },
    Unknown,
}

/// How a caller is named.
pub open spec fn name_of_caller(caller: Caller) -> Seq<char> {
    match caller {
        Caller::Module { name } => name@,
        Caller::HostAnchor => "host"@,
        Caller::Derived { parent, leaf } => parent@ + "/"@ + leaf@,
        Caller::Operator { name } => "operator:"@ + name@,
        Caller::Unknown => Seq::empty(),
    }
}

/// The module that called this one, as the runtime attested it. Named on the swap and in the
/// purpose the human reads; never trusted for anything else.
pub fn caller_name(caller: &Caller) -> (r: String)
    ensures
        r@ == name_of_caller(*caller),
{
    match caller {
        Caller::Module { name } => name.clone(),
        Caller::HostAnchor => "host".to_owned(),
        Caller::Derived { parent, leaf } => {
            let mut out = parent.clone();
            out.append("/");
            out.append(leaf.as_str());
            out
        },
        Caller::Operator { name } => {
            let mut out = "operator:".to_owned();
            out.append(name.as_str());
            out
        },
        Caller::Unknown => String::new(),
    }
}

pub proof fn lemma_refused(words: Seq<char>)
    ensures
        refused(words).bool_at("ok"@) == Some(false),
        refused(words).text_at("error"@) == words,
        refused(words) is Object,
{
    reveal_strlit("ok");
    reveal_strlit("error");
    assert("ok"@.len() == 2);
    assert("error"@.len() == 5);
}

/// An answer that is taken says yes, and is an object; one that is not is passed on as a refusal
/// that says no. A refusal that the dependency worded itself passes through whole.
pub proof fn law_refusals_say_no(word: Word, who: Seq<char>)
    ensures
        heard(word, who) matches Ok(v) ==> v is Object && says_ok(v),
        heard(word, who) matches Err(v) ==> v.bool_at("ok"@) == Some(false),
        (word matches Word::Value { value, .. } && value.bool_at("ok"@) == Some(false)) ==> heard(
            word,
            who,
        ) == Err::<Tree, Tree>(word->value),
{
    match word {
        Word::Value { written, .. } => lemma_refused(written),
        Word::Unreadable { why, .. } => lemma_refused(said_of(who, why)),
        Word::Unreachable { why } => lemma_refused(said_of(who, why)),
    }
}

/// A value that does not say yes is passed on as the refusal that its written text is.
pub proof fn law_refusal_of_what_was_written(word: Word, who: Seq<char>)
    requires
        word matches Word::Value { value, written, .. } && json_read(written) == Ok::<
            Tree,
            Seq<char>,
        >(value) && !says_ok(value),
    ensures
        heard(word, who) == Err::<Tree, Tree>(refusal_for(word->written)),
{
}

/// A verdict that cannot be read is a blocking unknown one, never `off`, whether eth_rpc was
/// silent, spoke no JSON, or said nothing of its state.
pub proof fn law_silence_blocks(chain_id: u64, word: Word)
    ensures
        !(word is Value) ==> verdict_from(chain_id, word).text_at("mode"@) == "unknown"@
            && verdict_from(chain_id, word).bool_at("blocking"@) == Some(true),
        word matches Word::Value { value, .. } ==> verdict_from(chain_id, word) == normalized(
            chain_id,
            value,
        ),
{
    match word {
        Word::Value { .. } => {},
        Word::Unreadable { why, .. } => lemma_unknown(
            chain_id,
            said_of("eth_rpc_module"@, why),
        ),
        Word::Unreachable { why } => lemma_unknown(chain_id, said_of("eth_rpc_module"@, why)),
    }
}

/// A caller is named by the module it is, "host" for the host, a parent and its leaf with a stroke
/// between them, an operator behind "operator:", and by nothing where it is not known.
pub proof fn law_how_a_caller_is_named(name: String, leaf: String)
    ensures
        name_of_caller(Caller::Module { name }) == name@,
        name_of_caller(Caller::HostAnchor) == "host"@,
        name_of_caller(Caller::Derived { parent: name, leaf }) == name@ + "/"@ + leaf@,
        name_of_caller(Caller::Operator { name }) == "operator:"@ + name@,
        name_of_caller(Caller::Unknown).len() == 0,
{
}

/// What a transport brought home is the text it brought, whole, with what that spells and how it is
/// written, or why it spells nothing; or else what it said of its failure.
pub proof fn law_what_was_brought_home(text: String, why: String)
    ensures
        json_read(text@) matches Ok(v) ==> word_of(Ok(text)) == (Word::Value {
            raw: text@,
            value: v,
            written: json_text(v),
        }),
        json_read(text@) matches Err(e) ==> word_of(Ok(text)) == (Word::Unreadable {
            raw: text@,
            why: e,
        }),
        word_of(Err(why)) == (Word::Unreachable { why: why@ }),
        spoken(Outcome::Verbatim(text@)) == text@,
        forall|v: Tree| #[trigger] spoken(Outcome::Value(v)) == json_text(v),
{
}

/// A reply and an answer are spoken of as they are: each part under its own name.
pub proof fn law_replies_are_spoken_of_as_they_are(reply: Reply, answer: Answer)
    ensures
        match reply {
            Reply::Value { raw, value, written } => reply@ == (Word::Value {
                raw: raw@,
                value: value@,
                written: written@,
            }),
            Reply::Unreadable { raw, why } => reply@ == (Word::Unreadable { raw: raw@, why: why@ }),
            Reply::Unreachable { why } => reply@ == (Word::Unreachable { why: why@ }),
        },
        match answer {
            Answer::Value(v) => answer@ == Outcome::Value(v@),
            Answer::Verbatim(text) => answer@ == Outcome::Verbatim(text@),
        },
{
}

} // verus!
