//! What uniswap_module and the sender are asked for a swap, what the human is told of it, and the
//! quote a view renders.
use crate::digits::{decimal, digits, lemma_stripped, numeral, value};
use crate::form::{Form, SwapForm};
use crate::json::{empty_object, number, plain, trees, Json, Tree};
use crate::text::trimmed;
use crate::unit_laws::lemma_exact;
use crate::units::{
    base_value, below, canonical, compare_base, exact, from_base_units, from_base_units_exact, is_digits,
    lemma_below_is_less, shown,
};
use std::cmp::Ordering;
use vstd::prelude::*;

verus! {

/// How this app tags the calls it asks the sender to make, so it finds its rows in a history
/// it shares with the wallet. Its own claim; who really asked is the sender's `origin`.
pub const APP: &'static str = "uniswap_ui";

/// What uniswap_module is asked for a form.
pub open spec fn module_request(f: Form, deadline: u64) -> Tree {
    let o = empty_object().with("tokenIn"@, Tree::Text(f.token_in)).with(
        "tokenOut"@,
        Tree::Text(f.token_out),
    ).with("amountIn"@, Tree::Text(f.amount_in)).with("owner"@, Tree::Text(f.from)).with(
        "symbolIn"@,
        Tree::Text(f.symbol_in),
    ).with("symbolOut"@, Tree::Text(f.symbol_out)).with(
        "slippageBps"@,
        number(f.slippage_bps as int),
    );
    let o = if f.recipient.len() > 0 {
        o.with("recipient"@, Tree::Text(f.recipient))
    } else {
        o
    };
    if deadline > 0 {
        o.with("deadline"@, Tree::Unsigned(deadline))
    } else {
        o
    }
}

/// What uniswap_module is asked. `owner` makes its batch read the balance and the allowance;
/// a deadline of zero is a quote, which asks for none.
pub fn swap_module_request(f: &SwapForm, deadline: u64) -> (r: Json)
    ensures
        r@ == module_request(f@, deadline),
        r@ is Object,
        plain(r),
{
    let mut o = Json::object().with("tokenIn", Json::text(f.token_in.as_str())).with(
        "tokenOut",
        Json::text(f.token_out.as_str()),
    ).with("amountIn", Json::text(f.amount_in.as_str())).with(
        "owner",
        Json::text(f.from.as_str()),
    ).with("symbolIn", Json::text(f.symbol_in.as_str())).with(
        "symbolOut",
        Json::text(f.symbol_out.as_str()),
    ).with("slippageBps", Json::signed(f.slippage_bps));
    if !f.recipient.as_str().is_empty() {
        o = o.with("recipient", Json::text(f.recipient.as_str()));
    }
    if deadline > 0 {
        o = o.with("deadline", Json::Unsigned(deadline));
    }
    o
}

/// A number of decimal places, or null where it is not known.
pub open spec fn places(d: Option<u32>) -> Tree {
    match d {
        Some(d) => Tree::Unsigned(d as u64),
        None => Tree::Null,
    }
}

fn places_json(d: Option<u32>) -> (r: Json)
    ensures
        r@ == places(d),
        plain(r),
{
    match d {
        Some(d) => Json::Unsigned(d as u64),
        None => Json::Null,
    }
}

/// The route of a built swap; an object without fields where it names none.
pub open spec fn route(built: Tree) -> Tree {
    match built.get("route"@) {
        Some(r) => r,
        None => empty_object(),
    }
}

/// How one call of a built swap is tagged.
pub open spec fn call_meta(built: Tree, f: Form, via: Seq<char>, call: Tree) -> Tree {
    let meta = empty_object().with("app"@, Tree::Text(APP@)).with("via"@, Tree::Text(via)).with(
        "kind"@,
        Tree::Text(call.text_at("kind"@)),
    ).with("tokenIn"@, Tree::Text(f.token_in)).with("tokenOut"@, Tree::Text(f.token_out)).with(
        "symbolIn"@,
        Tree::Text(f.symbol_in),
    ).with("symbolOut"@, Tree::Text(f.symbol_out)).with("decimalsIn"@, places(f.decimals_in)).with(
        "decimalsOut"@,
        places(f.decimals_out),
    ).with("amountIn"@, Tree::Text(f.amount_in)).with(
        "amountOut"@,
        Tree::Text(built.text_at("amountOut"@)),
    ).with("amountOutMin"@, Tree::Text(built.text_at("amountOutMin"@))).with(
        "route"@,
        route(built),
    );
    if f.recipient.len() > 0 {
        meta.with("recipient"@, Tree::Text(f.recipient))
    } else {
        meta
    }
}

/// One call of a built swap as the sender is asked to make it.
pub open spec fn sent_call(
    built: Tree,
    f: Form,
    via: Seq<char>,
    call: Tree,
    gas_limit: Option<Seq<char>>,
) -> Tree {
    let c = empty_object().with("to"@, Tree::Text(call.text_at("to"@))).with(
        "value"@,
        Tree::Text(call.text_at("value"@)),
    ).with("data"@, Tree::Text(call.text_at("data"@))).with(
        "label"@,
        Tree::Text(call.text_at("label"@)),
    ).with("meta"@, call_meta(built, f, via, call));
    match gas_limit {
        Some(g) => c.with("gasLimit"@, Tree::Text(g)),
        None => c,
    }
}

/// The gas limit that the user set for the call at `i`.
pub open spec fn limit_for(f: Form, i: int) -> Option<Seq<char>> {
    if 0 <= i < f.gas_limits.len() {
        f.gas_limits[i]
    } else {
        None
    }
}

/// The calls of a built swap as the sender is asked to make them, in order.
pub open spec fn sent_calls(built: Tree, f: Form, via: Seq<char>) -> Seq<Tree> {
    let calls = built.list_at("calls"@);
    Seq::new(calls.len(), |i: int| sent_call(built, f, via, calls[i], limit_for(f, i)))
}

/// `o` with `v` under that name, where there is a `v`.
pub open spec fn with_text(o: Tree, key: Seq<char>, v: Option<Seq<char>>) -> Tree {
    match v {
        Some(v) => o.with(key, Tree::Text(v)),
        None => o,
    }
}

/// The sender's request for a built swap, or why there is none.
pub open spec fn request_for(
    built: Tree,
    f: Form,
    via: Seq<char>,
    purpose: Seq<char>,
) -> Result<Tree, Seq<char>> {
    let n = built.list_at("calls"@).len();
    if f.gas_limits.len() > 0 && f.gas_limits.len() != n {
        Err(
            "gas limits were set for "@ + numeral(f.gas_limits.len())
                + " calls, but the swap is now "@ + numeral(n) + " — review it again"@,
        )
    } else {
        let req = empty_object().with("chainId"@, number(f.chain_id as int)).with(
            "from"@,
            Tree::Text(f.from),
        ).with("purpose"@, Tree::Text(purpose)).with(
            "calls"@,
            Tree::Array(sent_calls(built, f, via)),
        ).with("tier"@, Tree::Text(f.tier));
        let req = with_text(req, "maxFeePerGas"@, f.max_fee_per_gas);
        let req = with_text(req, "maxPriorityFeePerGas"@, f.max_priority_fee_per_gas);
        Ok(
            match f.nonce {
                Some(n) => req.with("nonce"@, Tree::Unsigned(n)),
                None => req,
            },
        )
    }
}

fn meta_of(built: &Json, f: &SwapForm, via: &str, call: &Json) -> (r: Json)
    ensures
        r@ == call_meta(built@, f@, via@, call@),
        plain(*built) ==> plain(r),
{
    let way = match built.get("route") {
        Some(r) => r.clone(),
        None => Json::object(),
    };
    let mut meta = Json::object().with("app", Json::text(APP)).with("via", Json::text(via)).with(
        "kind",
        Json::text(call.str_of("kind")),
    ).with("tokenIn", Json::text(f.token_in.as_str())).with(
        "tokenOut",
        Json::text(f.token_out.as_str()),
    ).with("symbolIn", Json::text(f.symbol_in.as_str())).with(
        "symbolOut",
        Json::text(f.symbol_out.as_str()),
    ).with("decimalsIn", places_json(f.decimals_in)).with(
        "decimalsOut",
        places_json(f.decimals_out),
    ).with("amountIn", Json::text(f.amount_in.as_str())).with(
        "amountOut",
        Json::text(built.str_of("amountOut")),
    ).with("amountOutMin", Json::text(built.str_of("amountOutMin"))).with("route", way);
    // Absent means the account itself, which is where `received` then looks.
    if !f.recipient.as_str().is_empty() {
        meta = meta.with("recipient", Json::text(f.recipient.as_str()));
    }
    meta
}

fn call_of(built: &Json, f: &SwapForm, via: &str, call: &Json, i: usize) -> (r: Json)
    ensures
        r@ == sent_call(built@, f@, via@, call@, limit_for(f@, i as int)),
        plain(*built) ==> plain(r),
{
    let c = Json::object().with("to", Json::text(call.str_of("to"))).with(
        "value",
        Json::text(call.str_of("value")),
    ).with("data", Json::text(call.str_of("data"))).with(
        "label",
        Json::text(call.str_of("label")),
    ).with("meta", meta_of(built, f, via, call));
    if i < f.gas_limits.len() {
        match &f.gas_limits[i] {
            Some(g) => {
                return c.with("gasLimit", Json::text(g.as_str()));
            },
            None => {},
        }
    }
    c
}

/// The sender's request for a built swap, with the user's own fees, gas limits and nonce. A leg
/// carries a gas limit only when the user set one: `fee_module` estimates the swap behind its
/// approval, and a limit invented here would only stand in its way.
pub fn sender_request(built: &Json, f: &SwapForm, via: &str, purpose: &str) -> (r: Result<
    Json,
    String,
>)
    ensures
        match r {
            Ok(v) => request_for(built@, f@, via@, purpose@) == Ok::<Tree, Seq<char>>(v@) && v@ is
                Object,
            Err(e) => request_for(built@, f@, via@, purpose@) == Err::<Tree, Seq<char>>(e@),
        },
        plain(*built) ==> (r matches Ok(v) ==> plain(v)),
{
    let none: Vec<Json> = Vec::new();
    assert(trees(none@) =~= Seq::<Tree>::empty());
    let built_calls: &Vec<Json> = match built.get("calls") {
        Some(c) => match c.as_array() {
            Some(a) => a,
            None => &none,
        },
        None => &none,
    };
    let ghost calls = built@.list_at("calls"@);
    assert(trees(built_calls@) == calls);
    let n: usize = built_calls.len();
    // Limits set for another build of the swap would land on the wrong calls.
    if f.gas_limits.len() > 0 && f.gas_limits.len() != n {
        let mut why = "gas limits were set for ".to_owned();
        why.append(decimal(f.gas_limits.len() as u64).as_str());
        why.append(" calls, but the swap is now ");
        why.append(decimal(n as u64).as_str());
        why.append(" — review it again");
        return Err(why);
    }
    let mut sent: Vec<Json> = Vec::new();
    let mut i: usize = 0;
    while i < n
        invariant
            i <= n,
            n == built_calls@.len(),
            trees(built_calls@) == calls,
            sent@.len() == i,
            forall|k: int|
                0 <= k < i ==> (#[trigger] sent@[k])@ == sent_call(
                    built@,
                    f@,
                    via@,
                    calls[k],
                    limit_for(f@, k),
                ),
            forall|k: int| 0 <= k < i && plain(*built) ==> plain(#[trigger] sent@[k]),
        decreases n - i,
    {
        assert(calls[i as int] == built_calls@[i as int]@);
        sent.push(call_of(built, f, via, &built_calls[i], i));
        i += 1;
    }
    let list = Json::Array(sent);
    assert(list@->Array_0 =~= sent_calls(built@, f@, via@));
    let mut req = Json::object().with("chainId", Json::signed(f.chain_id)).with(
        "from",
        Json::text(f.from.as_str()),
    ).with("purpose", Json::text(purpose)).with("calls", list).with(
        "tier",
        Json::text(f.tier.as_str()),
    );
    if let Some(v) = &f.max_fee_per_gas {
        req = req.with("maxFeePerGas", Json::text(v.as_str()));
    }
    if let Some(v) = &f.max_priority_fee_per_gas {
        req = req.with("maxPriorityFeePerGas", Json::text(v.as_str()));
    }
    if let Some(n) = f.nonce {
        req = req.with("nonce", Json::Unsigned(n));
    }
    Ok(req)
}

/// A base-unit amount in token units, every digit; nothing where it is no amount.
pub open spec fn exact_or_nothing(base: Seq<char>, decimals: u32) -> Seq<char> {
    if digits(trimmed(base)) {
        exact(trimmed(base), decimals as nat)
    } else {
        Seq::empty()
    }
}

/// A base-unit amount in token units as it is displayed; nothing where it is no amount.
pub open spec fn shown_or_nothing(base: Seq<char>, decimals: u32) -> Seq<char> {
    if digits(trimmed(base)) {
        shown(trimmed(base), decimals as nat)
    } else {
        Seq::empty()
    }
}

pub fn exact_text(base: &str, decimals: u32) -> (r: String)
    ensures
        r@ == exact_or_nothing(base@, decimals),
{
    match from_base_units_exact(base, decimals) {
        Some(s) => s,
        None => String::new(),
    }
}

pub fn shown_text(base: &str, decimals: u32) -> (r: String)
    ensures
        r@ == shown_or_nothing(base@, decimals),
{
    match from_base_units(base, decimals) {
        Some(s) => s,
        None => String::new(),
    }
}

/// How a human knows a token: by its symbol, or as it was asked for where it has none.
pub open spec fn named(symbol: Seq<char>, token: Seq<char>) -> Seq<char> {
    if symbol.len() == 0 {
        token
    } else {
        symbol
    }
}

/// The sentence that a human approves.
pub open spec fn purpose(f: Form, built: Tree, via: Seq<char>) -> Seq<char> {
    let sold = exact_or_nothing(f.amount_in, f.decimals_in.unwrap_or(18));
    let least = exact_or_nothing(built.text_at("amountOutMin"@), f.decimals_out.unwrap_or(18));
    let sentence = "Swap "@ + sold + " "@ + named(f.symbol_in, f.token_in) + " for at least "@
        + least + " "@ + named(f.symbol_out, f.token_out) + " on Uniswap"@;
    if via.len() == 0 {
        sentence
    } else {
        sentence + ", via "@ + via
    }
}

fn name_of<'a>(symbol: &'a str, token: &'a str) -> (r: &'a str)
    ensures
        r@ == named(symbol@, token@),
{
    if symbol.is_empty() {
        token
    } else {
        symbol
    }
}

/// The sentence the keystore shows the human and the sender records: what leaves, what at
/// least comes back, and who asked this module. Every digit: "<0.00001" is not a claim.
pub fn swap_purpose(f: &SwapForm, built: &Json, via: &str) -> (r: String)
    ensures
        r@ == purpose(f@, built@, via@),
{
    let sold = exact_text(f.amount_in.as_str(), f.decimals_in.unwrap_or(18));
    let least = exact_text(built.str_of("amountOutMin"), f.decimals_out.unwrap_or(18));
    let mut out = "Swap ".to_owned();
    out.append(sold.as_str());
    out.append(" ");
    out.append(name_of(f.symbol_in.as_str(), f.token_in.as_str()));
    out.append(" for at least ");
    out.append(least.as_str());
    out.append(" ");
    out.append(name_of(f.symbol_out.as_str(), f.token_out.as_str()));
    out.append(" on Uniswap");
    if !via.is_empty() {
        out.append(", via ");
        out.append(via);
    }
    out
}

/// What stands under `fee`: the sender's pricing, or that it did not answer.
pub open spec fn fee_or_silence(fee: Tree) -> Tree {
    if fee.has_fields() {
        fee
    } else {
        empty_object().with("ok"@, Tree::Bool(false)).with(
            "error"@,
            Tree::Text("the sender did not answer"@),
        )
    }
}

/// The quote a view renders.
pub open spec fn quote_for(
    built: Tree,
    fee: Tree,
    f: Form,
    rate: Seq<char>,
    rate_inverse: Seq<char>,
) -> Tree {
    let din = f.decimals_in.unwrap_or(18);
    let dout = f.decimals_out.unwrap_or(18);
    let out = built.text_at("amountOut"@);
    let least = built.text_at("amountOutMin"@);
    let balance = built.text_at("balanceIn"@);
    let q = built.with("from"@, Tree::Text(f.from)).with(
        "amountInDisplay"@,
        Tree::Text(shown_or_nothing(f.amount_in, din)),
    ).with("amountOutDisplay"@, Tree::Text(shown_or_nothing(out, dout))).with(
        "amountOutExact"@,
        Tree::Text(exact_or_nothing(out, dout)),
    ).with("amountOutMinDisplay"@, Tree::Text(shown_or_nothing(least, dout))).with(
        "amountOutMinExact"@,
        Tree::Text(exact_or_nothing(least, dout)),
    ).with("rate"@, Tree::Text(rate)).with("rateInverse"@, Tree::Text(rate_inverse));
    let q = if digits(balance) {
        q.with("balanceInDisplay"@, Tree::Text(shown_or_nothing(balance, din))).with(
            "insufficientBalance"@,
            Tree::Bool(below(canonical(balance), canonical(f.amount_in))),
        )
    } else {
        q
    };
    q.with("fee"@, fee_or_silence(fee))
}

fn falls_short(balance: &str, needed: &str) -> (r: bool)
    ensures
        r == below(canonical(balance@), canonical(needed@)),
{
    match compare_base(balance, needed) {
        Ordering::Less => true,
        _ => false,
    }
}

/// The quote a view renders: the built swap, the sender's pricing of it under `fee` (`Null`
/// when the sender did not answer), the rate line both ways, and the display strings derived from
/// base units.
pub fn merged_quote(
    built: &Json,
    fee: &Json,
    f: &SwapForm,
    rate: &str,
    rate_inverse: &str,
) -> (r: Json)
    requires
        built@.takes_fields(),
    ensures
        r@ == quote_for(built@, fee@, f@, rate@, rate_inverse@),
        r@ is Object,
        plain(*built) && plain(*fee) ==> plain(r),
{
    let din: u32 = f.decimals_in.unwrap_or(18);
    let dout: u32 = f.decimals_out.unwrap_or(18);
    let out = built.str_of("amountOut");
    let least = built.str_of("amountOutMin");
    let balance = built.str_of("balanceIn");
    let mut q = built.clone().with("from", Json::text(f.from.as_str())).with(
        "amountInDisplay",
        Json::Text(shown_text(f.amount_in.as_str(), din)),
    ).with("amountOutDisplay", Json::Text(shown_text(out, dout))).with(
        "amountOutExact",
        Json::Text(exact_text(out, dout)),
    ).with("amountOutMinDisplay", Json::Text(shown_text(least, dout))).with(
        "amountOutMinExact",
        Json::Text(exact_text(least, dout)),
    ).with("rate", Json::text(rate)).with("rateInverse", Json::text(rate_inverse));
    if is_digits(balance) {
        q = q.with("balanceInDisplay", Json::Text(shown_text(balance, din))).with(
            "insufficientBalance",
            Json::Bool(falls_short(balance, f.amount_in.as_str())),
        );
    }
    let priced = if fee.has_fields() {
        fee.clone()
    } else {
        Json::object().with("ok", Json::Bool(false)).with(
            "error",
            Json::text("the sender did not answer"),
        )
    };
    q.with("fee", priced)
}

/// A text under a name, where there is one.
pub open spec fn optional_text(v: Option<Seq<char>>) -> Option<Tree> {
    match v {
        Some(v) => Some(Tree::Text(v)),
        None => None,
    }
}

pub proof fn lemma_meta_fields(built: Tree, f: Form, via: Seq<char>, call: Tree)
    ensures
        ({
            let m = call_meta(built, f, via, call);
            &&& m is Object
            &&& m.get("app"@) == Some(Tree::Text(APP@))
            &&& m.get("via"@) == Some(Tree::Text(via))
            &&& m.get("kind"@) == Some(Tree::Text(call.text_at("kind"@)))
            &&& m.get("tokenOut"@) == Some(Tree::Text(f.token_out))
            &&& m.get("decimalsOut"@) == Some(places(f.decimals_out))
            &&& m.get("recipient"@) == (if f.recipient.len() > 0 {
                Some(Tree::Text(f.recipient))
            } else {
                None
            })
        }),
{
    reveal_strlit("app");
    reveal_strlit("via");
    reveal_strlit("kind");
    reveal_strlit("tokenIn");
    reveal_strlit("tokenOut");
    reveal_strlit("symbolIn");
    reveal_strlit("symbolOut");
    reveal_strlit("decimalsIn");
    reveal_strlit("decimalsOut");
    reveal_strlit("amountIn");
    reveal_strlit("amountOut");
    reveal_strlit("amountOutMin");
    reveal_strlit("route");
    reveal_strlit("recipient");
    assert("app"@.len() == 3 && "app"@[0] == 'a');
    assert("via"@.len() == 3 && "via"@[0] == 'v');
    assert("kind"@.len() == 4);
    assert("tokenIn"@.len() == 7);
    assert("tokenOut"@.len() == 8 && "tokenOut"@[0] == 't');
    assert("symbolIn"@.len() == 8 && "symbolIn"@[0] == 's');
    assert("symbolOut"@.len() == 9 && "symbolOut"@[0] == 's');
    assert("decimalsIn"@.len() == 10);
    assert("decimalsOut"@.len() == 11);
    assert("amountIn"@.len() == 8 && "amountIn"@[0] == 'a');
    assert("amountOut"@.len() == 9 && "amountOut"@[0] == 'a');
    assert("amountOutMin"@.len() == 12);
    assert("route"@.len() == 5);
    assert("recipient"@.len() == 9 && "recipient"@[0] == 'r');
}

proof fn lemma_call_fields(
    built: Tree,
    f: Form,
    via: Seq<char>,
    call: Tree,
    gas_limit: Option<Seq<char>>,
)
    ensures
        ({
            let c = sent_call(built, f, via, call, gas_limit);
            &&& c.get("to"@) == Some(Tree::Text(call.text_at("to"@)))
            &&& c.get("value"@) == Some(Tree::Text(call.text_at("value"@)))
            &&& c.get("data"@) == Some(Tree::Text(call.text_at("data"@)))
            &&& c.get("label"@) == Some(Tree::Text(call.text_at("label"@)))
            &&& c.get("meta"@) == Some(call_meta(built, f, via, call))
            &&& c.get("gasLimit"@) == optional_text(gas_limit)
        }),
{
    reveal_strlit("to");
    reveal_strlit("value");
    reveal_strlit("data");
    reveal_strlit("label");
    reveal_strlit("meta");
    reveal_strlit("gasLimit");
    assert("to"@.len() == 2);
    assert("value"@.len() == 5 && "value"@[0] == 'v');
    assert("data"@.len() == 4 && "data"@[0] == 'd');
    assert("label"@.len() == 5 && "label"@[0] == 'l');
    assert("meta"@.len() == 4 && "meta"@[0] == 'm');
    assert("gasLimit"@.len() == 8);
}

/// The sender is asked for every call of the build, in order and as built. Each carries the tag of
/// this app, who asked, and the recipient where it is not the account; and a gas limit exactly
/// where the user set one.
pub proof fn law_every_call_tagged(built: Tree, f: Form, via: Seq<char>, purpose: Seq<char>, i: int)
    requires
        0 <= i < built.list_at("calls"@).len(),
    ensures
        request_for(built, f, via, purpose) matches Ok(req) ==> {
            let call = built.list_at("calls"@)[i];
            let sent = req.list_at("calls"@);
            let meta = sent[i].get("meta"@);
            &&& sent.len() == built.list_at("calls"@).len()
            &&& sent[i].get("to"@) == Some(Tree::Text(call.text_at("to"@)))
            &&& sent[i].get("value"@) == Some(Tree::Text(call.text_at("value"@)))
            &&& sent[i].get("data"@) == Some(Tree::Text(call.text_at("data"@)))
            &&& sent[i].get("gasLimit"@) == optional_text(limit_for(f, i))
            &&& meta matches Some(m) && m.get("app"@) == Some(Tree::Text(APP@)) && m.get("via"@)
                == Some(Tree::Text(via)) && m.get("kind"@) == Some(
                Tree::Text(call.text_at("kind"@)),
            ) && m.get("recipient"@) == (if f.recipient.len() > 0 {
                Some(Tree::Text(f.recipient))
            } else {
                None
            })
        },
{
    let calls = built.list_at("calls"@);
    lemma_meta_fields(built, f, via, calls[i]);
    lemma_call_fields(built, f, via, calls[i], limit_for(f, i));
    lemma_request_fields(built, f, via, purpose);
}

proof fn lemma_request_fields(built: Tree, f: Form, via: Seq<char>, purpose: Seq<char>)
    ensures
        request_for(built, f, via, purpose) matches Ok(req) ==> {
            &&& req is Object
            &&& req.get("chainId"@) == Some(number(f.chain_id as int))
            &&& req.get("from"@) == Some(Tree::Text(f.from))
            &&& req.get("purpose"@) == Some(Tree::Text(purpose))
            &&& req.get("calls"@) == Some(Tree::Array(sent_calls(built, f, via)))
            &&& req.get("tier"@) == Some(Tree::Text(f.tier))
            &&& req.get("maxFeePerGas"@) == optional_text(f.max_fee_per_gas)
            &&& req.get("maxPriorityFeePerGas"@) == optional_text(f.max_priority_fee_per_gas)
            &&& req.get("nonce"@) == (match f.nonce {
                Some(n) => Some(Tree::Unsigned(n)),
                None => None,
            })
        },
{
    reveal_strlit("chainId");
    reveal_strlit("from");
    reveal_strlit("purpose");
    reveal_strlit("calls");
    reveal_strlit("tier");
    reveal_strlit("maxFeePerGas");
    reveal_strlit("maxPriorityFeePerGas");
    reveal_strlit("nonce");
    assert("chainId"@.len() == 7 && "chainId"@[0] == 'c');
    assert("from"@.len() == 4 && "from"@[0] == 'f');
    assert("purpose"@.len() == 7 && "purpose"@[0] == 'p');
    assert("calls"@.len() == 5 && "calls"@[0] == 'c');
    assert("tier"@.len() == 4 && "tier"@[0] == 't');
    assert("maxFeePerGas"@.len() == 12);
    assert("maxPriorityFeePerGas"@.len() == 20);
    assert("nonce"@.len() == 5 && "nonce"@[0] == 'n');
}

/// The user's own fees, nonce and tier reach the sender as given, and are left to it where the user
/// gave none; the words that the human approves reach it as they were composed.
pub proof fn law_user_fields_as_given(built: Tree, f: Form, via: Seq<char>, words: Seq<char>)
    ensures
        request_for(built, f, via, words) matches Ok(req) ==> {
            &&& req.get("chainId"@) == Some(number(f.chain_id as int))
            &&& req.get("from"@) == Some(Tree::Text(f.from))
            &&& req.get("purpose"@) == Some(Tree::Text(words))
            &&& req.get("tier"@) == Some(Tree::Text(f.tier))
            &&& req.get("maxFeePerGas"@) == optional_text(f.max_fee_per_gas)
            &&& req.get("maxPriorityFeePerGas"@) == optional_text(f.max_priority_fee_per_gas)
            &&& req.get("nonce"@) == (match f.nonce {
                Some(n) => Some(Tree::Unsigned(n)),
                None => None,
            })
        },
{
    lemma_request_fields(built, f, via, words);
}

/// Gas limits are set for one build of the swap: those of another are refused, and those of this
/// one, or none at all, are not.
pub proof fn law_gas_limits_fit_the_build(
    built: Tree,
    f: Form,
    via: Seq<char>,
    words: Seq<char>,
)
    ensures
        request_for(built, f, via, words) is Ok <==> f.gas_limits.len() == 0 || f.gas_limits.len()
            == built.list_at("calls"@).len(),
{
}

/// Only a swap asks for a deadline: a quote, whose deadline is zero, names none. Either names the
/// owner, the amount and the slippage of the form.
pub proof fn law_only_a_swap_has_a_deadline(f: Form, deadline: u64)
    ensures
        module_request(f, deadline).get("deadline"@) == (if deadline > 0 {
            Some(Tree::Unsigned(deadline))
        } else {
            None
        }),
        module_request(f, deadline).get("owner"@) == Some(Tree::Text(f.from)),
        module_request(f, deadline).get("amountIn"@) == Some(Tree::Text(f.amount_in)),
        module_request(f, deadline).get("slippageBps"@) == Some(number(f.slippage_bps as int)),
        module_request(f, deadline).get("recipient"@) == (if f.recipient.len() > 0 {
            Some(Tree::Text(f.recipient))
        } else {
            None
        }),
{
    reveal_strlit("tokenIn");
    reveal_strlit("tokenOut");
    reveal_strlit("amountIn");
    reveal_strlit("owner");
    reveal_strlit("symbolIn");
    reveal_strlit("symbolOut");
    reveal_strlit("slippageBps");
    reveal_strlit("recipient");
    reveal_strlit("deadline");
    assert("tokenIn"@.len() == 7);
    assert("tokenOut"@.len() == 8 && "tokenOut"@[0] == 't');
    assert("amountIn"@.len() == 8 && "amountIn"@[0] == 'a');
    assert("owner"@.len() == 5);
    assert("symbolIn"@.len() == 8 && "symbolIn"@[0] == 's');
    assert("symbolOut"@.len() == 9 && "symbolOut"@[0] == 's');
    assert("slippageBps"@.len() == 11);
    assert("recipient"@.len() == 9 && "recipient"@[0] == 'r');
    assert("deadline"@.len() == 8 && "deadline"@[0] == 'd');
}

/// The balance verdict is a comparison of numbers: a balance in digits falls short exactly when it
/// is less than a settled amount.
pub proof fn law_balance_verdict(balance: Seq<char>, amount: Seq<char>)
    requires
        digits(trimmed(balance)),
        digits(trimmed(amount)),
    ensures
        below(canonical(balance), canonical(amount)) <==> value(trimmed(balance)) < value(
            trimmed(amount),
        ),
{
    lemma_stripped(trimmed(balance));
    lemma_stripped(trimmed(amount));
    lemma_below_is_less(value(trimmed(balance)), value(trimmed(amount)));
}

/// A quote is the build with figures added: what the build says stands, but for the figures
/// themselves, and whether it is a yes does not depend on the sender's pricing, which stands under
/// `fee` where the sender answered.
pub proof fn law_quote_keeps_the_build(
    built: Tree,
    fee: Tree,
    f: Form,
    rate: Seq<char>,
    rate_inverse: Seq<char>,
    key: Seq<char>,
)
    requires
        built is Object,
    ensures
        ({
            let q = quote_for(built, fee, f, rate, rate_inverse);
            &&& q.get("fee"@) == Some(fee_or_silence(fee))
            &&& q.get("from"@) == Some(Tree::Text(f.from))
            &&& q.get("rate"@) == Some(Tree::Text(rate))
            &&& q.get("rateInverse"@) == Some(Tree::Text(rate_inverse))
            &&& q.get("ok"@) == built.get("ok"@)
            &&& digits(built.text_at("balanceIn"@)) ==> q.get("insufficientBalance"@) == Some(
                Tree::Bool(
                    below(canonical(built.text_at("balanceIn"@)), canonical(f.amount_in)),
                ),
            )
            &&& !figure(key) ==> q.get(key) == built.get(key)
        }),
{
    reveal_strlit("from");
    reveal_strlit("amountInDisplay");
    reveal_strlit("amountOutDisplay");
    reveal_strlit("amountOutExact");
    reveal_strlit("amountOutMinDisplay");
    reveal_strlit("amountOutMinExact");
    reveal_strlit("rate");
    reveal_strlit("rateInverse");
    reveal_strlit("balanceInDisplay");
    reveal_strlit("insufficientBalance");
    reveal_strlit("fee");
    reveal_strlit("ok");
    assert("from"@.len() == 4 && "from"@[0] == 'f');
    assert("amountInDisplay"@.len() == 15);
    assert("amountOutDisplay"@.len() == 16 && "amountOutDisplay"@[0] == 'a');
    assert("amountOutExact"@.len() == 14);
    assert("amountOutMinDisplay"@.len() == 19 && "amountOutMinDisplay"@[0] == 'a');
    assert("amountOutMinExact"@.len() == 17);
    assert("rate"@.len() == 4 && "rate"@[0] == 'r');
    assert("rateInverse"@.len() == 11);
    assert("balanceInDisplay"@.len() == 16 && "balanceInDisplay"@[0] == 'b');
    assert("insufficientBalance"@.len() == 19 && "insufficientBalance"@[0] == 'i');
    assert("fee"@.len() == 3);
    assert("ok"@.len() == 2);
}

/// What a quote adds to its build.
pub open spec fn figure(key: Seq<char>) -> bool {
    key == "from"@ || key == "amountInDisplay"@ || key == "amountOutDisplay"@ || key
        == "amountOutExact"@ || key == "amountOutMinDisplay"@ || key == "amountOutMinExact"@ || key
        == "rate"@ || key == "rateInverse"@ || key == "balanceInDisplay"@ || key
        == "insufficientBalance"@ || key == "fee"@
}

/// The words that a human approves name every digit: the amount in them, and the least that comes
/// back, are the base units that leave and that are asked for, exactly. They end with who asked,
/// where that is known.
pub proof fn law_purpose_names_every_digit(f: Form, built: Tree, via: Seq<char>)
    requires
        digits(trimmed(f.amount_in)),
        digits(trimmed(built.text_at("amountOutMin"@))),
    ensures
        ({
            let (din, dout) = (f.decimals_in.unwrap_or(18), f.decimals_out.unwrap_or(18));
            let sold = exact_or_nothing(f.amount_in, din);
            let least = exact_or_nothing(built.text_at("amountOutMin"@), dout);
            &&& base_value(sold, din as nat) == value(trimmed(f.amount_in))
            &&& base_value(least, dout as nat) == value(
                trimmed(built.text_at("amountOutMin"@)),
            )
            &&& purpose(f, built, via) == "Swap "@ + sold + " "@ + named(f.symbol_in, f.token_in)
                + " for at least "@ + least + " "@ + named(f.symbol_out, f.token_out)
                + " on Uniswap"@ + (if via.len() == 0 {
                Seq::empty()
            } else {
                ", via "@ + via
            })
        }),
{
    let (din, dout) = (f.decimals_in.unwrap_or(18), f.decimals_out.unwrap_or(18));
    lemma_exact(trimmed(f.amount_in), din as nat);
    lemma_exact(trimmed(built.text_at("amountOutMin"@)), dout as nat);
    let sentence = purpose(f, built, Seq::empty());
    if via.len() == 0 {
        assert(sentence + Seq::<char>::empty() =~= sentence);
    } else {
        assert(sentence + ", via "@ + via =~= sentence + (", via "@ + via));
    }
}

} // verus!
