//! What a swap request is read as, what it is settled to, and what is asked and told of it, field
//! by field.
use crate::digits::{
    all_zeros, digits, lemma_digits_trim, lemma_numeral, lemma_value_zeros, lemma_zero_value,
    numeral, value,
};
use crate::form::{form_at, form_read, gas_limit, gas_limits, native, scaled, Form};
use crate::json::{empty_object, Tree};
use crate::requests::{
    call_meta, law_balance_verdict, limit_for, module_request, purpose, quote_for, request_for,
    sent_call, sent_calls,
};
use crate::text::{same_but_case, trimmed};
use crate::units::{amount, base_value, exact, shown};
use crate::wire::json_read;
use vstd::prelude::*;

verus! {

/// Whether a field can stand for a whole number that the user may leave out.
pub open spec fn left_out_or_whole(v: Option<Tree>) -> bool {
    match v {
        None => true,
        Some(Tree::Null) => true,
        Some(Tree::Unsigned(_)) => true,
        Some(Tree::Text(s)) => trimmed(s).len() == 0 || digits(trimmed(s)),
        Some(_) => false,
    }
}

/// Whether a field that may be left out was given as those digits, or left out.
pub open spec fn given_as(v: Option<Tree>, n: Option<Seq<char>>) -> bool {
    match v {
        None => n is None,
        Some(Tree::Null) => n is None,
        Some(Tree::Unsigned(k)) => n matches Some(d) && digits(d) && value(d) == k && (d.len() > 1
            ==> d[0] != '0'),
        Some(Tree::Text(s)) => if trimmed(s).len() == 0 {
            n is None
        } else {
            n == Some(trimmed(s)) && digits(trimmed(s))
        },
        Some(_) => false,
    }
}

/// Whether a field is given, and given as zero.
pub open spec fn given_as_zero(g: Tree) -> bool {
    match g {
        Tree::Unsigned(n) => n == 0,
        Tree::Text(s) => digits(trimmed(s)) && value(trimmed(s)) == 0,
        _ => false,
    }
}

/// Whether a list of gas limits can be taken: each is left out, or a whole number above zero.
pub open spec fn fit_limits(a: Seq<Tree>) -> bool {
    forall|i: int|
        0 <= i < a.len() ==> left_out_or_whole(Some(#[trigger] a[i])) && !given_as_zero(a[i])
}

/// The number of decimal places that a field gives.
pub open spec fn places_given(v: Option<Tree>) -> Option<u32> {
    match v {
        Some(Tree::Unsigned(n)) => if n <= 0xffff_ffff {
            Some(n as u32)
        } else {
            None
        },
        _ => None,
    }
}

proof fn lemma_zero(d: Seq<char>)
    requires
        digits(d),
    ensures
        all_zeros(d) <==> value(d) == 0,
{
    if all_zeros(d) {
        lemma_value_zeros(d);
    }
    if value(d) == 0 {
        lemma_zero_value(d);
    }
}

proof fn lemma_limit(g: Tree)
    ensures
        left_out_or_whole(Some(g)) && !given_as_zero(g) ==> (gas_limit(g) matches Ok(n) && given_as(
            Some(g),
            n,
        ) && (n matches Some(d) ==> value(d) > 0)),
        given_as_zero(g) ==> gas_limit(g) == Err::<Option<Seq<char>>, Seq<char>>(
            "a gas limit must be more than zero"@,
        ),
        !left_out_or_whole(Some(g)) ==> gas_limit(g) == Err::<Option<Seq<char>>, Seq<char>>(
            "a gas limit"@ + " must be a whole number in decimal digits"@,
        ),
{
    if let Tree::Unsigned(n) = g {
        lemma_numeral(n as nat);
        lemma_zero(numeral(n as nat));
    }
    if let Tree::Text(s) = g {
        if digits(trimmed(s)) {
            lemma_zero(trimmed(s));
        }
    }
}

proof fn lemma_limits(a: Seq<Tree>)
    ensures
        fit_limits(a) ==> (gas_limits(a) matches Ok(g) && g.len() == a.len() && forall|i: int|
            0 <= i < a.len() ==> given_as(Some(a[i]), #[trigger] g[i]) && (g[i] matches Some(d)
                ==> value(d) > 0)),
        !fit_limits(a) ==> gas_limits(a) is Err,
    decreases a.len(),
{
    if a.len() > 0 {
        let head = a.drop_last();
        lemma_limits(head);
        lemma_limit(a.last());
        assert(forall|i: int| 0 <= i < head.len() ==> head[i] == a[i]);
        if fit_limits(a) {
            assert forall|i: int| 0 <= i < head.len() implies left_out_or_whole(
                Some(#[trigger] head[i]),
            ) && !given_as_zero(head[i]) by {
                assert(left_out_or_whole(Some(a[i])));
            }
            assert(a[a.len() - 1] == a.last());
            let g = gas_limits(a)->Ok_0;
            let before = gas_limits(head)->Ok_0;
            assert forall|i: int| 0 <= i < a.len() implies given_as(Some(a[i]), #[trigger] g[i]) && (
            g[i] matches Some(d) ==> value(d) > 0) by {
                if i < head.len() {
                    assert(g[i] == before[i]);
                    assert(given_as(Some(head[i]), before[i]));
                }
            }
        } else if fit_limits(head) {
            assert(!(left_out_or_whole(Some(a.last())) && !given_as_zero(a.last()))) by {
                if left_out_or_whole(Some(a.last())) && !given_as_zero(a.last()) {
                    assert forall|i: int| 0 <= i < a.len() implies left_out_or_whole(
                        Some(#[trigger] a[i]),
                    ) && !given_as_zero(a[i]) by {
                        if i < head.len() {
                            assert(left_out_or_whole(Some(head[i])));
                        }
                    }
                }
            }
        }
    }
}

/// The first gas limit that cannot be taken says why the request is refused, whatever stands behind
/// it.
pub proof fn law_first_unfit_limit_is_named(t: Tree, a: Seq<Tree>, i: int)
    requires
        t.get("gasLimits"@) == Some(Tree::Array(a)),
        0 <= i < a.len(),
        fit_limits(a.take(i)),
    ensures
        given_as_zero(a[i]) ==> form_at(t) == Err::<Form, Seq<char>>(
            "a gas limit must be more than zero"@,
        ),
        !left_out_or_whole(Some(a[i])) ==> form_at(t) == Err::<Form, Seq<char>>(
            "a gas limit"@ + " must be a whole number in decimal digits"@,
        ),
{
    lemma_limit(a[i]);
    if gas_limit(a[i]) is Err {
        lemma_limits(a.take(i));
        assert(a.take(i + 1).drop_last() =~= a.take(i));
        lemma_rest(a, i + 1);
    }
}

proof fn lemma_rest(a: Seq<Tree>, k: int)
    requires
        0 <= k <= a.len(),
        gas_limits(a.take(k)) is Err,
    ensures
        gas_limits(a) == gas_limits(a.take(k)),
    decreases a.len(),
{
    if k == a.len() {
        assert(a.take(k) =~= a);
    } else {
        assert(a.drop_last().take(k) =~= a.take(k));
        lemma_rest(a.drop_last(), k);
    }
}

/// Whether a request's fees, gas limits and nonce can be taken.
pub open spec fn fit_choices(t: Tree) -> bool {
    &&& match t.get("gasLimits"@) {
        None => true,
        Some(Tree::Null) => true,
        Some(Tree::Array(a)) => fit_limits(a),
        Some(_) => false,
    }
    &&& left_out_or_whole(t.get("nonce"@))
    &&& t.get("nonce"@) matches Some(Tree::Text(s)) ==> value(trimmed(s)) <= u64::MAX
    &&& left_out_or_whole(t.get("maxFeePerGas"@))
    &&& left_out_or_whole(t.get("maxPriorityFeePerGas"@))
}

/// The whole number that a field gives, with its sign; `otherwise` where it gives none.
pub open spec fn number_given(v: Option<Tree>, otherwise: i64) -> int {
    match v {
        Some(Tree::Unsigned(n)) => if n <= 0x7fff_ffff_ffff_ffff {
            n as int
        } else {
            otherwise as int
        },
        Some(Tree::Negative(n)) => n as int,
        _ => otherwise as int,
    }
}

/// The text that a field gives, without the white space around it; nothing where it gives none.
pub open spec fn words_given(v: Option<Tree>) -> Seq<char> {
    match v {
        Some(Tree::Text(s)) => trimmed(s),
        _ => Seq::empty(),
    }
}

proof fn lemma_nothing_trimmed()
    ensures
        trimmed(Seq::empty()) == Seq::<char>::empty(),
{
}

/// A request is read as it is written: every field of the form is the field of that name, the
/// slippage is half a percent, the deadline half an hour and the tier "normal" where they are left
/// out, and a fee, a gas limit or a nonce is left to others where it is left out.
pub proof fn law_form_is_read_as_written(t: Tree)
    ensures
        form_at(t) matches Ok(f) ==> {
            &&& f.chain_id == number_given(t.get("chainId"@), 0)
            &&& f.from == words_given(t.get("from"@))
            &&& f.token_in == words_given(t.get("tokenIn"@))
            &&& f.token_out == words_given(t.get("tokenOut"@))
            &&& f.symbol_in == words_given(t.get("symbolIn"@))
            &&& f.symbol_out == words_given(t.get("symbolOut"@))
            &&& f.decimals_in == places_given(t.get("decimalsIn"@))
            &&& f.decimals_out == places_given(t.get("decimalsOut"@))
            &&& f.amount_units == words_given(t.get("amountUnits"@))
            &&& f.amount_in == words_given(t.get("amountIn"@))
            &&& words_given(t.get("tier"@)).len() > 0 ==> f.tier == words_given(t.get("tier"@))
            &&& words_given(t.get("tier"@)).len() == 0 ==> f.tier == seq![
                'n',
                'o',
                'r',
                'm',
                'a',
                'l',
            ]
            &&& f.slippage_bps == number_given(t.get("slippageBps"@), 50)
            &&& f.deadline_mins == number_given(t.get("deadlineMins"@), 30)
            &&& f.recipient == words_given(t.get("recipient"@))
            &&& given_as(t.get("maxFeePerGas"@), f.max_fee_per_gas)
            &&& given_as(t.get("maxPriorityFeePerGas"@), f.max_priority_fee_per_gas)
            &&& match t.get("gasLimits"@) {
                Some(Tree::Array(a)) => f.gas_limits.len() == a.len() && forall|i: int|
                    0 <= i < a.len() ==> given_as(Some(a[i]), #[trigger] f.gas_limits[i]),
                _ => f.gas_limits.len() == 0,
            }
            &&& match t.get("nonce"@) {
                Some(Tree::Unsigned(n)) => f.nonce == Some(n),
                Some(Tree::Text(s)) => if trimmed(s).len() == 0 {
                    f.nonce is None
                } else {
                    digits(trimmed(s)) && (f.nonce matches Some(n) && n == value(trimmed(s)))
                },
                _ => f.nonce is None,
            }
        },
{
    reveal_strlit("normal");
    assert("normal"@ =~= seq!['n', 'o', 'r', 'm', 'a', 'l']);
    lemma_nothing_trimmed();
    if let Some(Tree::Unsigned(n)) = t.get("maxFeePerGas"@) {
        lemma_numeral(n as nat);
    }
    if let Some(Tree::Unsigned(n)) = t.get("maxPriorityFeePerGas"@) {
        lemma_numeral(n as nat);
    }
    if let Some(Tree::Unsigned(n)) = t.get("nonce"@) {
        lemma_numeral(n as nat);
    }
    if let Some(Tree::Array(a)) = t.get("gasLimits"@) {
        lemma_limits(a);
    }
}

/// Why a request is refused. The fees, gas limits and nonce are read first; then a request needs a
/// chain, an account, two tokens that are not one, a slippage up to half, a deadline from a minute
/// to three days, and one amount, in digits where it is in base units. One that has all this is
/// taken.
pub proof fn law_why_a_request_is_refused(t: Tree)
    ensures
        !(t is Object) ==> form_at(t) == Err::<Form, Seq<char>>(
            "a swap request must be a JSON object"@,
        ),
        !fit_choices(t) ==> form_at(t) is Err,
        t is Object && fit_choices(t) ==> {
            let (a, b) = (words_given(t.get("tokenIn"@)), words_given(t.get("tokenOut"@)));
            let (units, base) = (
                words_given(t.get("amountUnits"@)),
                words_given(t.get("amountIn"@)),
            );
            if number_given(t.get("chainId"@), 0) <= 0 {
                form_at(t) == Err::<Form, Seq<char>>("chainId is required"@)
            } else if words_given(t.get("from"@)).len() == 0 {
                form_at(t) == Err::<Form, Seq<char>>("no account is selected"@)
            } else if a.len() == 0 || b.len() == 0 {
                form_at(t) == Err::<Form, Seq<char>>("both tokens are required"@)
            } else if native(a) && native(b) || same_but_case(a, b) {
                form_at(t) == Err::<Form, Seq<char>>("the two tokens are the same"@)
            } else if !(0 <= number_given(t.get("slippageBps"@), 50) <= 5000) {
                form_at(t) == Err::<Form, Seq<char>>(
                    "slippage must be between 0 and 5000 basis points"@,
                )
            } else if !(1 <= number_given(t.get("deadlineMins"@), 30) <= 4320) {
                form_at(t) == Err::<Form, Seq<char>>(
                    "the deadline must be between 1 minute and 3 days"@,
                )
            } else if units.len() == 0 && base.len() == 0 {
                form_at(t) == Err::<Form, Seq<char>>("the amount is missing"@)
            } else if units.len() > 0 && base.len() > 0 {
                form_at(t) == Err::<Form, Seq<char>>("give amountUnits or amountIn, not both"@)
            } else if base.len() > 0 && !digits(base) {
                form_at(t) == Err::<Form, Seq<char>>(
                    "amountIn must be base units in decimal digits"@,
                )
            } else {
                form_at(t) is Ok
            }
        },
{
    lemma_nothing_trimmed();
    if let Some(Tree::Unsigned(n)) = t.get("nonce"@) {
        lemma_numeral(n as nat);
    }
    if let Some(Tree::Array(a)) = t.get("gasLimits"@) {
        lemma_limits(a);
    }
}

/// What is said of a fee, a nonce or a list of gas limits that cannot be taken: the gas limits
/// first, then the nonce, then the fees.
pub proof fn law_what_is_said_of_unfit_choices(t: Tree)
    requires
        t is Object,
    ensures
        ({
            let limits = t.get("gasLimits"@);
            let fit = match limits {
                None => true,
                Some(Tree::Null) => true,
                Some(Tree::Array(a)) => fit_limits(a),
                Some(_) => false,
            };
            let nonce = t.get("nonce"@);
            &&& (limits matches Some(g) && !(g is Null) && !(g is Array)) ==> form_at(t) == Err::<
                Form,
                Seq<char>,
            >("gasLimits must list one gas limit, or null, per call"@)
            &&& fit && !left_out_or_whole(nonce) ==> form_at(t) == Err::<Form, Seq<char>>(
                "nonce"@ + " must be a whole number in decimal digits"@,
            )
            &&& fit && (nonce matches Some(Tree::Text(s)) && digits(trimmed(s)) && value(trimmed(s))
                > u64::MAX) ==> form_at(t) == Err::<Form, Seq<char>>("nonce is out of range"@)
            &&& fit && left_out_or_whole(nonce) && (nonce matches Some(Tree::Text(s)) ==> value(
                trimmed(s),
            ) <= u64::MAX) ==> {
                &&& !left_out_or_whole(t.get("maxFeePerGas"@)) ==> form_at(t) == Err::<
                    Form,
                    Seq<char>,
                >("maxFeePerGas"@ + " must be a whole number in decimal digits"@)
                &&& left_out_or_whole(t.get("maxFeePerGas"@)) && !left_out_or_whole(
                    t.get("maxPriorityFeePerGas"@),
                ) ==> form_at(t) == Err::<Form, Seq<char>>(
                    "maxPriorityFeePerGas"@ + " must be a whole number in decimal digits"@,
                )
            }
        }),
{
    if let Some(Tree::Unsigned(n)) = t.get("nonce"@) {
        lemma_numeral(n as nat);
    }
    if let Some(Tree::Array(a)) = t.get("gasLimits"@) {
        lemma_limits(a);
    }
}

/// A text that spells no value is refused with the reader's own sentence, and one that does is
/// taken for what it spells.
pub proof fn law_a_text_is_taken_for_what_it_spells(text: Seq<char>)
    ensures
        json_read(text) matches Err(e) ==> form_read(text) == Err::<Form, Seq<char>>(
            "invalid swap request: "@ + e,
        ),
        json_read(text) matches Ok(t) ==> form_read(text) == form_at(t),
{
}

/// An amount in token units is settled by the decimals of the token sold, and by those alone: the
/// base units are worth the amount that was typed times ten to as many places as the token has, and
/// are spelled without a zero in front. One that is no amount, or has more places than that, is
/// refused, and so is nothing. An amount in base units stands as it was given. Nothing else
/// changes.
pub proof fn law_amount_is_scaled_by_the_tokens_own_decimals(f: Form)
    ensures
        ({
            let (g, r) = scaled(f);
            let typed = trimmed(f.amount_units);
            &&& g == (Form { amount_in: g.amount_in, ..f })
            &&& f.amount_in.len() > 0 ==> g.amount_in == f.amount_in
            &&& (f.amount_in.len() == 0 && f.decimals_in is None) ==> g.amount_in == f.amount_in
                && r == Err::<(), Seq<char>>("the sell token's decimals are unknown"@)
            &&& (f.amount_in.len() == 0 && f.decimals_in is Some) ==> {
                let d = f.decimals_in->0;
                if d <= 77 && amount(typed, d as nat) {
                    &&& digits(g.amount_in)
                    &&& value(g.amount_in) == base_value(typed, d as nat)
                    &&& g.amount_in.len() > 1 ==> g.amount_in[0] != '0'
                } else {
                    &&& g.amount_in == f.amount_in
                    &&& r == Err::<(), Seq<char>>(
                        "the amount must be a number with at most "@ + numeral(d as nat)
                            + " decimal places"@,
                    )
                }
            }
            &&& digits(g.amount_in) && value(g.amount_in) == 0 ==> r == Err::<(), Seq<char>>(
                "there is nothing to swap"@,
            )
            &&& digits(g.amount_in) && value(g.amount_in) > 0 ==> r is Ok
            &&& (exists|i: int| 0 <= i < f.amount_in.len() && #[trigger] f.amount_in[i] != '0')
                ==> r is Ok
        }),
{
    if let Some(d) = f.decimals_in {
        let n = base_value(trimmed(f.amount_units), d as nat);
        lemma_numeral(n);
    }
    let g = scaled(f).0;
    if digits(g.amount_in) {
        lemma_zero(g.amount_in);
    }
}

/// uniswap_module is asked for the tokens of the form, the one sold and the one bought each under
/// its own name and with its own symbol, for the amount, the account and the slippage of the form,
/// for the recipient and the deadline where there is one, and for nothing else. That holds of a
/// quote and of a swap alike.
pub proof fn law_what_uniswap_is_asked(f: Form, deadline: u64, key: Seq<char>)
    ensures
        ({
            let r = module_request(f, deadline);
            &&& r.get("tokenIn"@) == Some(Tree::Text(f.token_in))
            &&& r.get("tokenOut"@) == Some(Tree::Text(f.token_out))
            &&& r.get("amountIn"@) == Some(Tree::Text(f.amount_in))
            &&& r.get("owner"@) == Some(Tree::Text(f.from))
            &&& r.get("symbolIn"@) == Some(Tree::Text(f.symbol_in))
            &&& r.get("symbolOut"@) == Some(Tree::Text(f.symbol_out))
            &&& f.slippage_bps >= 0 ==> r.get("slippageBps"@) == Some(
                Tree::Unsigned(f.slippage_bps as u64),
            )
            &&& f.slippage_bps < 0 ==> r.get("slippageBps"@) == Some(
                Tree::Negative(f.slippage_bps),
            )
            &&& f.recipient.len() > 0 ==> r.get("recipient"@) == Some(Tree::Text(f.recipient))
            &&& f.recipient.len() == 0 ==> r.get("recipient"@) is None
            &&& deadline > 0 ==> r.get("deadline"@) == Some(Tree::Unsigned(deadline))
            &&& deadline == 0 ==> r.get("deadline"@) is None
            &&& r.get(key) is Some ==> key == "tokenIn"@ || key == "tokenOut"@ || key == "amountIn"@
                || key == "owner"@ || key == "symbolIn"@ || key == "symbolOut"@ || key
                == "slippageBps"@ || key == "recipient"@ || key == "deadline"@
        }),
{
    reveal_strlit("tokenIn");
    reveal_strlit("tokenOut");
    reveal_strlit("amountIn");
    reveal_strlit("owner");
    reveal_strlit("symbolIn");
    reveal_strlit("symbolOut");
    reveal_strlit("slippageBps");
    reveal_strlit("recipient");
    reveal_strlit("deadline");
    assert("tokenIn"@.len() == 7);
    assert("tokenOut"@.len() == 8 && "tokenOut"@[0] == 't');
    assert("amountIn"@.len() == 8 && "amountIn"@[0] == 'a');
    assert("owner"@.len() == 5);
    assert("symbolIn"@.len() == 8 && "symbolIn"@[0] == 's');
    assert("symbolOut"@.len() == 9 && "symbolOut"@[0] == 's');
    assert("slippageBps"@.len() == 11);
    assert("recipient"@.len() == 9 && "recipient"@[0] == 'r');
    assert("deadline"@.len() == 8 && "deadline"@[0] == 'd');
}

/// A call of a build is tagged with what the swap is: this app and who asked, the kind of the call,
/// the tokens, symbols, decimals and amount of the form, what the build gives for them, at least
/// and by which route, and the recipient where it is not the account.
pub proof fn law_how_a_call_is_tagged(
    built: Tree,
    f: Form,
    via: Seq<char>,
    call: Tree,
    key: Seq<char>,
)
    ensures
        ({
            let m = call_meta(built, f, via, call);
            &&& m.get("app"@) == Some(Tree::Text("uniswap_ui"@))
            &&& m.get("via"@) == Some(Tree::Text(via))
            &&& m.get("kind"@) == Some(Tree::Text(call.text_at("kind"@)))
            &&& m.get("tokenIn"@) == Some(Tree::Text(f.token_in))
            &&& m.get("tokenOut"@) == Some(Tree::Text(f.token_out))
            &&& m.get("symbolIn"@) == Some(Tree::Text(f.symbol_in))
            &&& m.get("symbolOut"@) == Some(Tree::Text(f.symbol_out))
            &&& m.get("decimalsIn"@) == Some(
                match f.decimals_in {
                    Some(d) => Tree::Unsigned(d as u64),
                    None => Tree::Null,
                },
            )
            &&& m.get("decimalsOut"@) == Some(
                match f.decimals_out {
                    Some(d) => Tree::Unsigned(d as u64),
                    None => Tree::Null,
                },
            )
            &&& m.get("amountIn"@) == Some(Tree::Text(f.amount_in))
            &&& m.get("amountOut"@) == Some(Tree::Text(built.text_at("amountOut"@)))
            &&& m.get("amountOutMin"@) == Some(Tree::Text(built.text_at("amountOutMin"@)))
            &&& built.get("route"@) is Some ==> m.get("route"@) == built.get("route"@)
            &&& built.get("route"@) is None ==> m.get("route"@) == Some(empty_object())
            &&& f.recipient.len() > 0 ==> m.get("recipient"@) == Some(Tree::Text(f.recipient))
            &&& f.recipient.len() == 0 ==> m.get("recipient"@) is None
            &&& m.get(key) is Some ==> key == "app"@ || key == "via"@ || key == "kind"@ || key
                == "tokenIn"@ || key == "tokenOut"@ || key == "symbolIn"@ || key == "symbolOut"@
                || key == "decimalsIn"@ || key == "decimalsOut"@ || key == "amountIn"@ || key
                == "amountOut"@ || key == "amountOutMin"@ || key == "route"@ || key == "recipient"@
        }),
{
    reveal_strlit("app");
    reveal_strlit("via");
    reveal_strlit("kind");
    reveal_strlit("tokenIn");
    reveal_strlit("tokenOut");
    reveal_strlit("symbolIn");
    reveal_strlit("symbolOut");
    reveal_strlit("decimalsIn");
    reveal_strlit("decimalsOut");
    reveal_strlit("amountIn");
    reveal_strlit("amountOut");
    reveal_strlit("amountOutMin");
    reveal_strlit("route");
    reveal_strlit("recipient");
    assert("app"@.len() == 3 && "app"@[0] == 'a');
    assert("via"@.len() == 3 && "via"@[0] == 'v');
    assert("kind"@.len() == 4);
    assert("tokenIn"@.len() == 7);
    assert("tokenOut"@.len() == 8 && "tokenOut"@[0] == 't');
    assert("symbolIn"@.len() == 8 && "symbolIn"@[0] == 's');
    assert("symbolOut"@.len() == 9 && "symbolOut"@[0] == 's');
    assert("decimalsIn"@.len() == 10);
    assert("decimalsOut"@.len() == 11);
    assert("amountIn"@.len() == 8 && "amountIn"@[0] == 'a');
    assert("amountOut"@.len() == 9 && "amountOut"@[0] == 'a');
    assert("amountOutMin"@.len() == 12);
    assert("route"@.len() == 5);
    assert("recipient"@.len() == 9 && "recipient"@[0] == 'r');
}

/// The sender is asked for each call of the build as it was built, in the order of the build: where
/// it goes, what it carries and how it is called, with its tag; and with the gas limit that the
/// user set for the call in that place, where there is one. There is nothing else in it.
pub proof fn law_calls_are_sent_as_built(
    built: Tree,
    f: Form,
    via: Seq<char>,
    words: Seq<char>,
    i: int,
    key: Seq<char>,
)
    requires
        request_for(built, f, via, words) is Ok,
        0 <= i < built.list_at("calls"@).len(),
    ensures
        ({
            let call = built.list_at("calls"@)[i];
            let sent = request_for(built, f, via, words)->Ok_0.list_at("calls"@);
            &&& sent.len() == built.list_at("calls"@).len()
            &&& sent[i].get("to"@) == Some(Tree::Text(call.text_at("to"@)))
            &&& sent[i].get("value"@) == Some(Tree::Text(call.text_at("value"@)))
            &&& sent[i].get("data"@) == Some(Tree::Text(call.text_at("data"@)))
            &&& sent[i].get("label"@) == Some(Tree::Text(call.text_at("label"@)))
            &&& sent[i].get("meta"@) == Some(call_meta(built, f, via, call))
            &&& (i < f.gas_limits.len() && f.gas_limits[i] is Some) ==> sent[i].get("gasLimit"@)
                == Some(Tree::Text(f.gas_limits[i]->0))
            &&& !(i < f.gas_limits.len() && f.gas_limits[i] is Some) ==> sent[i].get("gasLimit"@)
                is None
            &&& sent[i].get(key) is Some ==> key == "to"@ || key == "value"@ || key == "data"@
                || key == "label"@ || key == "meta"@ || key == "gasLimit"@
        }),
{
    law_what_the_sender_is_asked(built, f, via, words, key);
    assert(sent_calls(built, f, via)[i] == sent_call(
        built,
        f,
        via,
        built.list_at("calls"@)[i],
        limit_for(f, i),
    ));
    reveal_strlit("to");
    reveal_strlit("value");
    reveal_strlit("data");
    reveal_strlit("label");
    reveal_strlit("meta");
    reveal_strlit("gasLimit");
    assert("to"@.len() == 2);
    assert("value"@.len() == 5 && "value"@[0] == 'v');
    assert("data"@.len() == 4 && "data"@[0] == 'd');
    assert("label"@.len() == 5 && "label"@[0] == 'l');
    assert("meta"@.len() == 4 && "meta"@[0] == 'm');
    assert("gasLimit"@.len() == 8);
}

/// The sender is asked for the chain and the account of the form, in the words that the human
/// approves, at the tier of the form, with the user's own fees and nonce where they are given, and
/// for nothing else beside the calls. It is not asked where gas limits were set for another number
/// of calls, and it is said for how many they were set and how many there are.
pub proof fn law_what_the_sender_is_asked(
    built: Tree,
    f: Form,
    via: Seq<char>,
    words: Seq<char>,
    key: Seq<char>,
)
    ensures
        ({
            let n = built.list_at("calls"@).len();
            let r = request_for(built, f, via, words);
            &&& f.gas_limits.len() > 0 && f.gas_limits.len() != n ==> r == Err::<Tree, Seq<char>>(
                "gas limits were set for "@ + numeral(f.gas_limits.len())
                    + " calls, but the swap is now "@ + numeral(n) + " — review it again"@,
            )
            &&& f.gas_limits.len() == 0 || f.gas_limits.len() == n ==> {
                &&& r matches Ok(req)
                &&& req is Object
                &&& f.chain_id >= 0 ==> req.get("chainId"@) == Some(
                    Tree::Unsigned(f.chain_id as u64),
                )
                &&& f.chain_id < 0 ==> req.get("chainId"@) == Some(Tree::Negative(f.chain_id))
                &&& req.get("from"@) == Some(Tree::Text(f.from))
                &&& req.get("purpose"@) == Some(Tree::Text(words))
                &&& req.get("calls"@) matches Some(Tree::Array(sent)) && sent.len() == n && sent
                    == sent_calls(built, f, via)
                &&& req.get("tier"@) == Some(Tree::Text(f.tier))
                &&& f.max_fee_per_gas matches Some(v) ==> req.get("maxFeePerGas"@) == Some(
                    Tree::Text(v),
                )
                &&& f.max_fee_per_gas is None ==> req.get("maxFeePerGas"@) is None
                &&& f.max_priority_fee_per_gas matches Some(v) ==> req.get("maxPriorityFeePerGas"@)
                    == Some(Tree::Text(v))
                &&& f.max_priority_fee_per_gas is None ==> req.get("maxPriorityFeePerGas"@) is None
                &&& f.nonce matches Some(v) ==> req.get("nonce"@) == Some(Tree::Unsigned(v))
                &&& f.nonce is None ==> req.get("nonce"@) is None
                &&& req.get(key) is Some ==> key == "chainId"@ || key == "from"@ || key
                    == "purpose"@ || key == "calls"@ || key == "tier"@ || key == "maxFeePerGas"@
                    || key == "maxPriorityFeePerGas"@ || key == "nonce"@
            }
        }),
{
    reveal_strlit("chainId");
    reveal_strlit("from");
    reveal_strlit("purpose");
    reveal_strlit("calls");
    reveal_strlit("tier");
    reveal_strlit("maxFeePerGas");
    reveal_strlit("maxPriorityFeePerGas");
    reveal_strlit("nonce");
    assert("chainId"@.len() == 7 && "chainId"@[0] == 'c');
    assert("from"@.len() == 4 && "from"@[0] == 'f');
    assert("purpose"@.len() == 7 && "purpose"@[0] == 'p');
    assert("calls"@.len() == 5 && "calls"@[0] == 'c');
    assert("tier"@.len() == 4 && "tier"@[0] == 't');
    assert("maxFeePerGas"@.len() == 12);
    assert("maxPriorityFeePerGas"@.len() == 20);
    assert("nonce"@.len() == 5 && "nonce"@[0] == 'n');
}

/// How many decimal places a side is taken to have: those it names, else eighteen.
pub open spec fn places_of(d: Option<u32>) -> u32 {
    match d {
        Some(d) => d,
        None => 18,
    }
}

/// A base-unit amount in token units, every digit, where it is one.
pub open spec fn every_digit(base: Seq<char>, d: Option<u32>) -> Seq<char> {
    if digits(trimmed(base)) {
        exact(trimmed(base), places_of(d) as nat)
    } else {
        Seq::empty()
    }
}

/// A base-unit amount in token units as it is displayed, where it is one.
pub open spec fn at_a_glance(base: Seq<char>, d: Option<u32>) -> Seq<char> {
    if digits(trimmed(base)) {
        shown(trimmed(base), places_of(d) as nat)
    } else {
        Seq::empty()
    }
}

/// The words that the human approves: what leaves, in the decimals of the token sold, then what at
/// least comes back, in the decimals of the token bought, each by its symbol or, where it has none,
/// as it was asked for; then who asked, where that is known.
pub proof fn law_what_the_human_approves(f: Form, built: Tree, via: Seq<char>)
    ensures
        ({
            let sold = if f.symbol_in.len() > 0 {
                f.symbol_in
            } else {
                f.token_in
            };
            let bought = if f.symbol_out.len() > 0 {
                f.symbol_out
            } else {
                f.token_out
            };
            let words = "Swap "@ + every_digit(f.amount_in, f.decimals_in) + " "@ + sold
                + " for at least "@ + every_digit(built.text_at("amountOutMin"@), f.decimals_out)
                + " "@ + bought + " on Uniswap"@;
            &&& via.len() == 0 ==> purpose(f, built, via) == words
            &&& via.len() > 0 ==> purpose(f, built, via) == words + ", via "@ + via
        }),
{
}

/// A quote shows the amount sold in the decimals of the token sold, what comes back, and what at
/// least does, in those of the token bought, the balance where the build names one and whether it
/// falls short, as numbers; the rate lines, the account and the sender's pricing. All else is as
/// built.
pub proof fn law_what_a_quote_shows(
    built: Tree,
    fee: Tree,
    f: Form,
    rate: Seq<char>,
    inverse: Seq<char>,
    key: Seq<char>,
)
    requires
        built is Object,
    ensures
        ({
            let q = quote_for(built, fee, f, rate, inverse);
            let (out, least) = (built.text_at("amountOut"@), built.text_at("amountOutMin"@));
            let balance = built.text_at("balanceIn"@);
            &&& q.get("from"@) == Some(Tree::Text(f.from))
            &&& q.get("amountInDisplay"@) == Some(
                Tree::Text(at_a_glance(f.amount_in, f.decimals_in)),
            )
            &&& q.get("amountOutDisplay"@) == Some(Tree::Text(at_a_glance(out, f.decimals_out)))
            &&& q.get("amountOutExact"@) == Some(Tree::Text(every_digit(out, f.decimals_out)))
            &&& q.get("amountOutMinDisplay"@) == Some(
                Tree::Text(at_a_glance(least, f.decimals_out)),
            )
            &&& q.get("amountOutMinExact"@) == Some(Tree::Text(every_digit(least, f.decimals_out)))
            &&& q.get("rate"@) == Some(Tree::Text(rate))
            &&& q.get("rateInverse"@) == Some(Tree::Text(inverse))
            &&& digits(balance) ==> q.get("balanceInDisplay"@) == Some(
                Tree::Text(at_a_glance(balance, f.decimals_in)),
            )
            &&& digits(balance) && digits(trimmed(f.amount_in)) ==> q.get("insufficientBalance"@)
                == Some(Tree::Bool(value(trimmed(balance)) < value(trimmed(f.amount_in))))
            &&& !digits(balance) ==> q.get("balanceInDisplay"@) == built.get("balanceInDisplay"@)
                && q.get("insufficientBalance"@) == built.get("insufficientBalance"@)
            &&& (fee matches Tree::Object(m) && m != Map::<Seq<char>, Tree>::empty()) ==> q.get(
                "fee"@,
            ) == Some(fee)
            &&& !(fee matches Tree::Object(m) && m != Map::<Seq<char>, Tree>::empty()) ==> (q.get(
                "fee"@,
            ) matches Some(said) && said.get("ok"@) == Some(Tree::Bool(false)) && said.get(
                "error"@,
            ) == Some(Tree::Text("the sender did not answer"@)))
            &&& !(key == "from"@ || key == "amountInDisplay"@ || key == "amountOutDisplay"@ || key
                == "amountOutExact"@ || key == "amountOutMinDisplay"@ || key == "amountOutMinExact"@
                || key == "rate"@ || key == "rateInverse"@ || key == "balanceInDisplay"@ || key
                == "insufficientBalance"@ || key == "fee"@) ==> q.get(key) == built.get(key)
        }),
{
    let balance = built.text_at("balanceIn"@);
    if digits(balance) {
        lemma_digits_trim(balance);
        if digits(trimmed(f.amount_in)) {
            law_balance_verdict(balance, f.amount_in);
        }
    }
    reveal_strlit("from");
    reveal_strlit("amountInDisplay");
    reveal_strlit("amountOutDisplay");
    reveal_strlit("amountOutExact");
    reveal_strlit("amountOutMinDisplay");
    reveal_strlit("amountOutMinExact");
    reveal_strlit("rate");
    reveal_strlit("rateInverse");
    reveal_strlit("balanceInDisplay");
    reveal_strlit("insufficientBalance");
    reveal_strlit("fee");
    reveal_strlit("ok");
    reveal_strlit("error");
    assert("from"@.len() == 4 && "from"@[0] == 'f');
    assert("amountInDisplay"@.len() == 15);
    assert("amountOutDisplay"@.len() == 16 && "amountOutDisplay"@[0] == 'a');
    assert("amountOutExact"@.len() == 14);
    assert("amountOutMinDisplay"@.len() == 19 && "amountOutMinDisplay"@[0] == 'a');
    assert("amountOutMinExact"@.len() == 17);
    assert("rate"@.len() == 4 && "rate"@[0] == 'r');
    assert("rateInverse"@.len() == 11);
    assert("balanceInDisplay"@.len() == 16 && "balanceInDisplay"@[0] == 'b');
    assert("insufficientBalance"@.len() == 19 && "insufficientBalance"@[0] == 'i');
    assert("fee"@.len() == 3);
    assert("ok"@.len() == 2);
    assert("error"@.len() == 5);
}

} // verus!
