//! A swap request: what the form means, and why one that is not a swap is refused.
use crate::digits::{
    all_zeros, decimal, digits, lemma_numeral, lemma_zero_value, numeral, parse_u64, value,
};
use crate::json::{tree_of, trees, Json, Tree};
use crate::text::{
    chars_of, same_but_case, same_ignoring_case, text_of, trim, trim_chars, trimmed,
};
use crate::units::{amount, base_value, is_digits, to_base_units, MAX_DECIMALS};
use crate::wire::{json_read, read};
use vstd::prelude::*;

verus! {

pub const MAX_SLIPPAGE_BPS: i64 = 5_000;

/// One minute to three days, the bounds the Settings page offers.
pub const MAX_DEADLINE_MINS: i64 = 4_320;

/// A swap request. Tokens are an address, or the native coin as "ETH", "native" or nothing.
#[derive(Debug, Default, PartialEq)]
pub struct SwapForm {
    pub chain_id: i64,
    pub from: String,
    pub token_in: String,
    pub token_out: String,
    pub symbol_in: String,
    pub symbol_out: String,
    /// `None` until the caller or a token lookup names them.
    pub decimals_in: Option<u32>,
    pub decimals_out: Option<u32>,
    pub amount_units: String,
    /// Base units, once known.
    pub amount_in: String,
    pub tier: String,
    pub slippage_bps: i64,
    pub deadline_mins: i64,
    pub recipient: String,
    /// Fees the user set, wei in decimal digits. `None` leaves the field to the tier.
    pub max_fee_per_gas: Option<String>,
    pub max_priority_fee_per_gas: Option<String>,
    /// One per call, in the order the swap is built; `None` leaves that call estimated.
    pub gas_limits: Vec<Option<String>>,
    /// A number to replace the transaction pending at. The sender refuses it for a bundle.
    pub nonce: Option<u64>,
}

/// What a swap request holds.
#[verifier::ext_equal]
pub struct Form {
    pub chain_id: i64,
    pub from: Seq<char>,
    pub token_in: Seq<char>,
    pub token_out: Seq<char>,
    pub symbol_in: Seq<char>,
    pub symbol_out: Seq<char>,
    pub decimals_in: Option<u32>,
    pub decimals_out: Option<u32>,
    pub amount_units: Seq<char>,
    pub amount_in: Seq<char>,
    pub tier: Seq<char>,
    pub slippage_bps: i64,
    pub deadline_mins: i64,
    pub recipient: Seq<char>,
    pub max_fee_per_gas: Option<Seq<char>>,
    pub max_priority_fee_per_gas: Option<Seq<char>>,
    pub gas_limits: Seq<Option<Seq<char>>>,
    pub nonce: Option<u64>,
}

/// The characters of an optional string.
pub open spec fn chars_in(s: Option<String>) -> Option<Seq<char>> {
    match s {
        Some(s) => Some(s@),
        None => None,
    }
}

/// The characters of each string of a list.
pub open spec fn limits(s: Seq<Option<String>>) -> Seq<Option<Seq<char>>> {
    Seq::new(s.len(), |i: int| chars_in(s[i]))
}

impl View for SwapForm {
    type V = Form;

    open spec fn view(&self) -> Form {
        Form {
            chain_id: self.chain_id,
            from: self.from@,
            token_in: self.token_in@,
            token_out: self.token_out@,
            symbol_in: self.symbol_in@,
            symbol_out: self.symbol_out@,
            decimals_in: self.decimals_in,
            decimals_out: self.decimals_out,
            amount_units: self.amount_units@,
            amount_in: self.amount_in@,
            tier: self.tier@,
            slippage_bps: self.slippage_bps,
            deadline_mins: self.deadline_mins,
            recipient: self.recipient@,
            max_fee_per_gas: chars_in(self.max_fee_per_gas),
            max_priority_fee_per_gas: chars_in(self.max_priority_fee_per_gas),
            gas_limits: limits(self.gas_limits@),
            nonce: self.nonce,
        }
    }
}

fn copy_of(s: &Option<String>) -> (r: Option<String>)
    ensures
        chars_in(r) == chars_in(*s),
{
    match s {
        Some(s) => Some(s.clone()),
        None => None,
    }
}

impl Clone for SwapForm {
    fn clone(&self) -> (r: Self)
        ensures
            r@ == self@,
    {
        let mut gas_limits: Vec<Option<String>> = Vec::new();
        let mut i: usize = 0;
        while i < self.gas_limits.len()
            invariant
                i <= self.gas_limits@.len(),
                gas_limits@.len() == i,
                forall|j: int|
                    0 <= j < i ==> chars_in(#[trigger] gas_limits@[j]) == chars_in(
                        self.gas_limits@[j],
                    ),
            decreases self.gas_limits@.len() - i,
        {
            gas_limits.push(copy_of(&self.gas_limits[i]));
            i += 1;
        }
        assert(limits(gas_limits@) =~= limits(self.gas_limits@));
        SwapForm {
            chain_id: self.chain_id,
            from: self.from.clone(),
            token_in: self.token_in.clone(),
            token_out: self.token_out.clone(),
            symbol_in: self.symbol_in.clone(),
            symbol_out: self.symbol_out.clone(),
            decimals_in: self.decimals_in,
            decimals_out: self.decimals_out,
            amount_units: self.amount_units.clone(),
            amount_in: self.amount_in.clone(),
            tier: self.tier.clone(),
            slippage_bps: self.slippage_bps,
            deadline_mins: self.deadline_mins,
            recipient: self.recipient.clone(),
            max_fee_per_gas: copy_of(&self.max_fee_per_gas),
            max_priority_fee_per_gas: copy_of(&self.max_priority_fee_per_gas),
            gas_limits,
            nonce: self.nonce,
        }
    }
}

/// What a call answered, its strings by their characters.
pub open spec fn answer<T: View>(r: Result<T, String>) -> Result<T::V, Seq<char>> {
    match r {
        Ok(v) => Ok(v@),
        Err(e) => Err(e@),
    }
}

/// "0x" in front, in either case.
pub open spec fn hex_prefix(t: Seq<char>) -> bool {
    t[0] == '0' && (t[1] == 'x' || t[1] == 'X')
}

/// The address that is nothing but zeros.
pub open spec fn zero_address(t: Seq<char>) -> bool {
    &&& t.len() == 42
    &&& hex_prefix(t)
    &&& forall|i: int| 2 <= i < t.len() ==> #[trigger] t[i] == '0'
}

pub open spec fn is_hex_digit(c: char) -> bool {
    '0' <= c <= '9' || 'a' <= c <= 'f' || 'A' <= c <= 'F'
}

/// Whether a token is spelled as the native coin.
pub open spec fn native(token: Seq<char>) -> bool {
    let t = trimmed(token);
    ||| t.len() == 0
    ||| same_but_case(t, "eth"@)
    ||| same_but_case(t, "native"@)
    ||| zero_address(t)
}

/// Whether a token is spelled as an address: "0x" and forty hex digits.
pub open spec fn address(token: Seq<char>) -> bool {
    let t = trimmed(token);
    &&& t.len() == 42
    &&& hex_prefix(t)
    &&& forall|i: int| 2 <= i < t.len() ==> is_hex_digit(#[trigger] t[i])
}

/// Whether two tokens are one and the same.
pub open spec fn one_token(a: Seq<char>, b: Seq<char>) -> bool {
    (native(a) && native(b)) || same_but_case(a, b)
}

/// The native coin, as uniswap_module spells it.
pub fn is_native(token: &str) -> (r: bool)
    ensures
        r == native(token@),
{
    let t = trim_chars(token);
    if t.len() == 0 {
        return true;
    }
    let name = text_of(&t);
    if same_ignoring_case(name.as_str(), "eth") || same_ignoring_case(name.as_str(), "native") {
        return true;
    }
    if t.len() != 42 || t[0] != '0' || (t[1] != 'x' && t[1] != 'X') {
        return false;
    }
    let mut i: usize = 2;
    while i < t.len()
        invariant
            2 <= i <= t@.len(),
            t@.len() == 42,
            t@ == trimmed(token@),
            !same_but_case(t@, "eth"@),
            !same_but_case(t@, "native"@),
            forall|j: int| 2 <= j < i ==> #[trigger] t@[j] == '0',
        decreases t@.len() - i,
    {
        if t[i] != '0' {
            return false;
        }
        i += 1;
    }
    true
}

pub fn is_address(token: &str) -> (r: bool)
    ensures
        r == address(token@),
{
    let t = trim_chars(token);
    if t.len() != 42 || t[0] != '0' || (t[1] != 'x' && t[1] != 'X') {
        return false;
    }
    let mut i: usize = 2;
    while i < t.len()
        invariant
            2 <= i <= t@.len(),
            t@.len() == 42,
            t@ == trimmed(token@),
            forall|j: int| 2 <= j < i ==> is_hex_digit(#[trigger] t@[j]),
        decreases t@.len() - i,
    {
        let c: char = t[i];
        if !(('0' <= c && c <= '9') || ('a' <= c && c <= 'f') || ('A' <= c && c <= 'F')) {
            return false;
        }
        i += 1;
    }
    true
}

pub fn same_token(a: &str, b: &str) -> (r: bool)
    ensures
        r == one_token(a@, b@),
{
    (is_native(a) && is_native(b)) || same_ignoring_case(a, b)
}

/// The text under that name, without the white space around it.
pub fn text(o: &Json, key: &str) -> (r: String)
    ensures
        r@ == trimmed(o@.text_at(key@)),
{
    trim(o.str_of(key))
}

/// The number of decimal places under that name, if there is one.
pub open spec fn decimals_at(t: Tree, key: Seq<char>) -> Option<u32> {
    match t.unsigned_at(key) {
        Some(n) => if n <= u32::MAX {
            Some(n as u32)
        } else {
            None
        },
        None => None,
    }
}

pub fn decimals_of(o: &Json, key: &str) -> (r: Option<u32>)
    ensures
        r == decimals_at(o@, key@),
{
    match o.u64_of(key) {
        Some(n) => if n <= u32::MAX as u64 {
            Some(n as u32)
        } else {
            None
        },
        None => None,
    }
}

/// A whole number that the user may leave out, in decimal digits.
pub open spec fn wei(v: Option<Tree>, what: Seq<char>) -> Result<Option<Seq<char>>, Seq<char>> {
    match v {
        None | Some(Tree::Null) => Ok(None),
        Some(Tree::Text(t)) if trimmed(t).len() == 0 => Ok(None),
        Some(Tree::Text(t)) if digits(trimmed(t)) => Ok(Some(trimmed(t))),
        Some(Tree::Unsigned(n)) => Ok(Some(numeral(n as nat))),
        _ => Err(what + " must be a whole number in decimal digits"@),
    }
}

/// The characters of an optional string that a call answered.
pub open spec fn wei_answer(r: Result<Option<String>, String>) -> Result<
    Option<Seq<char>>,
    Seq<char>,
> {
    match r {
        Ok(v) => Ok(chars_in(v)),
        Err(e) => Err(e@),
    }
}

fn whole_number(v: Option<&Json>, what: &str) -> (r: Result<Option<String>, String>)
    ensures
        wei_answer(r) == wei(tree_of(v), what@),
        r matches Ok(Some(n)) ==> digits(n@),
{
    match v {
        None => {
            return Ok(None);
        },
        Some(Json::Null) => {
            return Ok(None);
        },
        Some(Json::Text(t)) => {
            let t = trim(t.as_str());
            if t.as_str().is_empty() {
                return Ok(None);
            }
            if is_digits(t.as_str()) {
                return Ok(Some(t));
            }
        },
        Some(Json::Unsigned(n)) => {
            proof {
                lemma_numeral(*n as nat);
            }
            return Ok(Some(decimal(*n)));
        },
        Some(_) => {},
    }
    let mut why = what.to_owned();
    why.append(" must be a whole number in decimal digits");
    Err(why)
}

/// A gas limit for one call: left out, or a number above zero.
pub open spec fn gas_limit(g: Tree) -> Result<Option<Seq<char>>, Seq<char>> {
    match wei(Some(g), "a gas limit"@) {
        Ok(Some(v)) if all_zeros(v) => Err("a gas limit must be more than zero"@),
        r => r,
    }
}

/// A gas limit per call; the first that is none decides the refusal.
pub open spec fn gas_limits(a: Seq<Tree>) -> Result<Seq<Option<Seq<char>>>, Seq<char>>
    decreases a.len(),
{
    if a.len() == 0 {
        Ok(Seq::empty())
    } else {
        match gas_limits(a.drop_last()) {
            Err(e) => Err(e),
            Ok(v) => match gas_limit(a.last()) {
                Err(e) => Err(e),
                Ok(g) => Ok(v.push(g)),
            },
        }
    }
}

/// The gas limits of a request.
pub open spec fn gas_limits_at(t: Tree) -> Result<Seq<Option<Seq<char>>>, Seq<char>> {
    match t.get("gasLimits"@) {
        None | Some(Tree::Null) => Ok(Seq::empty()),
        Some(Tree::Array(a)) => gas_limits(a),
        Some(_) => Err("gasLimits must list one gas limit, or null, per call"@),
    }
}

/// The nonce of a request.
pub open spec fn nonce_at(t: Tree) -> Result<Option<u64>, Seq<char>> {
    match wei(t.get("nonce"@), "nonce"@) {
        Err(e) => Err(e),
        Ok(None) => Ok(None),
        Ok(Some(n)) => if value(n) <= u64::MAX {
            Ok(Some(value(n) as u64))
        } else {
            Err("nonce is out of range"@)
        },
    }
}

/// Why a request is no swap; `None` for one that is.
pub open spec fn refused(f: Form) -> Option<Seq<char>> {
    if f.chain_id <= 0 {
        Some("chainId is required"@)
    } else if f.from.len() == 0 {
        Some("no account is selected"@)
    } else if f.token_in.len() == 0 || f.token_out.len() == 0 {
        Some("both tokens are required"@)
    } else if one_token(f.token_in, f.token_out) {
        Some("the two tokens are the same"@)
    } else if !(0 <= f.slippage_bps <= MAX_SLIPPAGE_BPS) {
        Some("slippage must be between 0 and 5000 basis points"@)
    } else if !(1 <= f.deadline_mins <= MAX_DEADLINE_MINS) {
        Some("the deadline must be between 1 minute and 3 days"@)
    } else if f.amount_units.len() == 0 && f.amount_in.len() == 0 {
        Some("the amount is missing"@)
    } else if f.amount_units.len() > 0 && f.amount_in.len() > 0 {
        Some("give amountUnits or amountIn, not both"@)
    } else if f.amount_in.len() > 0 && !digits(f.amount_in) {
        Some("amountIn must be base units in decimal digits"@)
    } else {
        None
    }
}

/// The form that a request spells, once its fees, gas limits and nonce are read.
pub open spec fn filled(
    t: Tree,
    gas_limits: Seq<Option<Seq<char>>>,
    nonce: Option<u64>,
    max_fee: Option<Seq<char>>,
    max_priority: Option<Seq<char>>,
) -> Form {
    let tier = trimmed(t.text_at("tier"@));
    Form {
        chain_id: t.signed_at("chainId"@).unwrap_or(0),
        from: trimmed(t.text_at("from"@)),
        token_in: trimmed(t.text_at("tokenIn"@)),
        token_out: trimmed(t.text_at("tokenOut"@)),
        symbol_in: trimmed(t.text_at("symbolIn"@)),
        symbol_out: trimmed(t.text_at("symbolOut"@)),
        decimals_in: decimals_at(t, "decimalsIn"@),
        decimals_out: decimals_at(t, "decimalsOut"@),
        amount_units: trimmed(t.text_at("amountUnits"@)),
        amount_in: trimmed(t.text_at("amountIn"@)),
        tier: if tier.len() == 0 {
            "normal"@
        } else {
            tier
        },
        slippage_bps: t.signed_at("slippageBps"@).unwrap_or(50),
        deadline_mins: t.signed_at("deadlineMins"@).unwrap_or(30),
        recipient: trimmed(t.text_at("recipient"@)),
        max_fee_per_gas: max_fee,
        max_priority_fee_per_gas: max_priority,
        gas_limits,
        nonce,
    }
}

/// The form that a request spells, or why it is refused.
pub open spec fn form_at(t: Tree) -> Result<Form, Seq<char>> {
    if !(t is Object) {
        Err("a swap request must be a JSON object"@)
    } else {
        match (
            gas_limits_at(t),
            nonce_at(t),
            wei(t.get("maxFeePerGas"@), "maxFeePerGas"@),
            wei(t.get("maxPriorityFeePerGas"@), "maxPriorityFeePerGas"@),
        ) {
            (Err(e), _, _, _) => Err(e),
            (_, Err(e), _, _) => Err(e),
            (_, _, Err(e), _) => Err(e),
            (_, _, _, Err(e)) => Err(e),
            (Ok(gas), Ok(nonce), Ok(fee), Ok(priority)) => {
                let f = filled(t, gas, nonce, fee, priority);
                match refused(f) {
                    Some(why) => Err(why),
                    None => Ok(f),
                }
            },
        }
    }
}

/// The form that a request's text spells, or why it is refused.
pub open spec fn form_read(text: Seq<char>) -> Result<Form, Seq<char>> {
    match json_read(text) {
        Ok(t) => form_at(t),
        Err(e) => Err("invalid swap request: "@ + e),
    }
}

pub(crate) fn is_zeros(s: &str) -> (r: bool)
    ensures
        r == all_zeros(s@),
{
    let v = chars_of(s);
    let mut i: usize = 0;
    while i < v.len()
        invariant
            i <= v@.len(),
            v@ == s@,
            forall|j: int| 0 <= j < i ==> #[trigger] v@[j] == '0',
        decreases v@.len() - i,
    {
        if v[i] != '0' {
            assert(s@[i as int] != '0');
            return false;
        }
        i += 1;
    }
    true
}

fn one_gas_limit(g: &Json) -> (r: Result<Option<String>, String>)
    ensures
        wei_answer(r) == gas_limit(g@),
{
    match whole_number(Some(g), "a gas limit") {
        Ok(Some(v)) => if is_zeros(v.as_str()) {
            Err("a gas limit must be more than zero".to_owned())
        } else {
            Ok(Some(v))
        },
        r => r,
    }
}

fn all_gas_limits(a: &Vec<Json>) -> (r: Result<Vec<Option<String>>, String>)
    ensures
        match r {
            Ok(v) => gas_limits(trees(a@)) == Ok::<Seq<Option<Seq<char>>>, Seq<char>>(limits(v@)),
            Err(e) => gas_limits(trees(a@)) == Err::<Seq<Option<Seq<char>>>, Seq<char>>(e@),
        },
{
    let mut out: Vec<Option<String>> = Vec::new();
    let mut i: usize = 0;
    let ghost all = trees(a@);
    assert(limits(out@) =~= Seq::<Option<Seq<char>>>::empty());
    while i < a.len()
        invariant
            i <= a@.len(),
            all == trees(a@),
            gas_limits(all.take(i as int)) == Ok::<Seq<Option<Seq<char>>>, Seq<char>>(limits(out@)),
        decreases a@.len() - i,
    {
        let ghost next = all.take(i + 1);
        assert(next.drop_last() =~= all.take(i as int));
        assert(next.last() == a@[i as int]@);
        match one_gas_limit(&a[i]) {
            Ok(g) => {
                let ghost before = out@;
                out.push(g);
                assert(limits(out@) =~= limits(before).push(chars_in(g)));
            },
            Err(e) => {
                proof {
                    lemma_first_refusal(all, i + 1);
                }
                return Err(e);
            },
        }
        i += 1;
    }
    assert(all.take(a@.len() as int) =~= all);
    Ok(out)
}

/// A refusal within the first of the limits stands whatever follows.
proof fn lemma_first_refusal(a: Seq<Tree>, k: int)
    requires
        0 <= k <= a.len(),
        gas_limits(a.take(k)) is Err,
    ensures
        gas_limits(a) == gas_limits(a.take(k)),
    decreases a.len(),
{
    if k == a.len() {
        assert(a.take(k) =~= a);
    } else {
        assert(a.drop_last().take(k) =~= a.take(k));
        lemma_first_refusal(a.drop_last(), k);
    }
}

fn gas_limits_of(r: &Json) -> (g: Result<Vec<Option<String>>, String>)
    ensures
        match g {
            Ok(v) => gas_limits_at(r@) == Ok::<Seq<Option<Seq<char>>>, Seq<char>>(limits(v@)),
            Err(e) => gas_limits_at(r@) == Err::<Seq<Option<Seq<char>>>, Seq<char>>(e@),
        },
{
    let none: Vec<Option<String>> = Vec::new();
    assert(limits(none@) =~= Seq::<Option<Seq<char>>>::empty());
    match r.get("gasLimits") {
        None => Ok(none),
        Some(Json::Null) => Ok(none),
        Some(g) => match g.as_array() {
            Some(a) => all_gas_limits(a),
            None => Err("gasLimits must list one gas limit, or null, per call".to_owned()),
        },
    }
}

fn refuse(why: &str) -> (r: Result<SwapForm, String>)
    ensures
        r matches Err(e) && e@ == why@,
{
    Err(why.to_owned())
}

/// The request, validated as far as it can be without asking any module, from the value that its
/// text spells.
pub fn form_of(r: &Json) -> (f: Result<SwapForm, String>)
    ensures
        answer(f) == form_at(r@),
{
    if !r.is_object() {
        return refuse("a swap request must be a JSON object");
    }
    let gas_limits = match gas_limits_of(r) {
        Ok(v) => v,
        Err(e) => {
            return Err(e);
        },
    };
    let nonce: Option<u64> = match whole_number(r.get("nonce"), "nonce") {
        Ok(Some(n)) => match parse_u64(&chars_of(n.as_str())) {
            Some(n) => Some(n),
            None => {
                return refuse("nonce is out of range");
            },
        },
        Ok(None) => None,
        Err(e) => {
            return Err(e);
        },
    };
    let max_fee_per_gas = match whole_number(r.get("maxFeePerGas"), "maxFeePerGas") {
        Ok(v) => v,
        Err(e) => {
            return Err(e);
        },
    };
    let max_priority_fee_per_gas = match whole_number(
        r.get("maxPriorityFeePerGas"),
        "maxPriorityFeePerGas",
    ) {
        Ok(v) => v,
        Err(e) => {
            return Err(e);
        },
    };
    let tier = text(r, "tier");
    let f = SwapForm {
        chain_id: r.i64_of("chainId").unwrap_or(0),
        from: text(r, "from"),
        token_in: text(r, "tokenIn"),
        token_out: text(r, "tokenOut"),
        symbol_in: text(r, "symbolIn"),
        symbol_out: text(r, "symbolOut"),
        decimals_in: decimals_of(r, "decimalsIn"),
        decimals_out: decimals_of(r, "decimalsOut"),
        amount_units: text(r, "amountUnits"),
        amount_in: text(r, "amountIn"),
        tier: if tier.as_str().is_empty() {
            "normal".to_owned()
        } else {
            tier
        },
        slippage_bps: r.i64_of("slippageBps").unwrap_or(50),
        deadline_mins: r.i64_of("deadlineMins").unwrap_or(30),
        recipient: text(r, "recipient"),
        max_fee_per_gas,
        max_priority_fee_per_gas,
        gas_limits,
        nonce,
    };
    assert(f@ == filled(
        r@,
        limits(gas_limits@),
        nonce,
        chars_in(max_fee_per_gas),
        chars_in(max_priority_fee_per_gas),
    ));
    if f.chain_id <= 0 {
        return refuse("chainId is required");
    }
    if f.from.as_str().is_empty() {
        return refuse("no account is selected");
    }
    if f.token_in.as_str().is_empty() || f.token_out.as_str().is_empty() {
        return refuse("both tokens are required");
    }
    if same_token(f.token_in.as_str(), f.token_out.as_str()) {
        return refuse("the two tokens are the same");
    }
    if !(0 <= f.slippage_bps && f.slippage_bps <= MAX_SLIPPAGE_BPS) {
        return refuse("slippage must be between 0 and 5000 basis points");
    }
    if !(1 <= f.deadline_mins && f.deadline_mins <= MAX_DEADLINE_MINS) {
        return refuse("the deadline must be between 1 minute and 3 days");
    }
    let units: bool = f.amount_units.as_str().is_empty();
    let base: bool = f.amount_in.as_str().is_empty();
    if units && base {
        return refuse("the amount is missing");
    }
    if !units && !base {
        return refuse("give amountUnits or amountIn, not both");
    }
    if !base && !is_digits(f.amount_in.as_str()) {
        return refuse("amountIn must be base units in decimal digits");
    }
    Ok(f)
}

/// The request, validated as far as it can be without asking any module. A request that is
/// not a swap is refused in words the user can act on, never sent on as zero.
pub fn parse_form(request_json: &str) -> (r: Result<SwapForm, String>)
    ensures
        answer(r) == form_read(request_json@),
{
    match read(request_json) {
        Ok(v) => form_of(&v),
        Err(e) => {
            let mut why = "invalid swap request: ".to_owned();
            why.append(e.as_str());
            Err(why)
        },
    }
}

/// Why the amount of a form cannot be settled, and the form with its amount as far as it was.
pub open spec fn scaled(f: Form) -> (Form, Result<(), Seq<char>>) {
    if f.amount_in.len() > 0 {
        (f, something(f.amount_in))
    } else {
        match f.decimals_in {
            None => (f, Err("the sell token's decimals are unknown"@)),
            Some(d) => if d <= MAX_DECIMALS && amount(trimmed(f.amount_units), d as nat) {
                let base = numeral(base_value(trimmed(f.amount_units), d as nat));
                (Form { amount_in: base, ..f }, something(base))
            } else {
                (
                    f,
                    Err(
                        "the amount must be a number with at most "@ + numeral(d as nat)
                            + " decimal places"@,
                    ),
                )
            },
        }
    }
}

/// An amount of nothing is no swap.
pub open spec fn something(base: Seq<char>) -> Result<(), Seq<char>> {
    if all_zeros(base) {
        Err("there is nothing to swap"@)
    } else {
        Ok(())
    }
}

/// Settle the base-unit amount once the sell token's decimals are known.
pub fn scale(f: &mut SwapForm) -> (r: Result<(), String>)
    ensures
        final(f)@ == scaled(old(f)@).0,
        answer(r) == scaled(old(f)@).1,
        old(f).amount_in@.len() == 0 && r is Ok ==> {
            &&& old(f).decimals_in matches Some(d)
            &&& amount(trimmed(old(f).amount_units@), d as nat)
            &&& digits(final(f).amount_in@)
            &&& value(final(f).amount_in@) == base_value(trimmed(old(f).amount_units@), d as nat)
        },
        old(f).amount_in@.len() > 0 ==> final(f).amount_in@ == old(f).amount_in@,
{
    if f.amount_in.as_str().is_empty() {
        let d: u32 = match f.decimals_in {
            Some(d) => d,
            None => {
                return Err("the sell token's decimals are unknown".to_owned());
            },
        };
        match to_base_units(f.amount_units.as_str(), d) {
            Some(base) => {
                proof {
                    lemma_numeral(
                        base_value(trimmed(f.amount_units@), d as nat),
                    );
                }
                f.amount_in = base;
            },
            None => {
                let mut why = "the amount must be a number with at most ".to_owned();
                why.append(decimal(d as u64).as_str());
                why.append(" decimal places");
                return Err(why);
            },
        }
    }
    if is_zeros(f.amount_in.as_str()) {
        return Err("there is nothing to swap".to_owned());
    }
    Ok(())
}

/// A fee, gas limit or nonce that is given at all is given in decimal digits.
pub open spec fn in_digits(v: Option<Seq<char>>) -> bool {
    v matches Some(n) ==> digits(n)
}

proof fn lemma_wei(v: Option<Tree>, what: Seq<char>)
    ensures
        wei(v, what) matches Ok(n) ==> in_digits(n),
{
    if let Some(Tree::Unsigned(n)) = v {
        lemma_numeral(n as nat);
    }
}

proof fn lemma_gas_limits(a: Seq<Tree>)
    ensures
        gas_limits(a) matches Ok(g) ==> g.len() == a.len() && forall|i: int|
            0 <= i < g.len() ==> ((#[trigger] g[i]) matches Some(n) ==> digits(n) && value(n) > 0),
    decreases a.len(),
{
    if a.len() > 0 {
        lemma_gas_limits(a.drop_last());
        lemma_wei(Some(a.last()), "a gas limit"@);
        if let Ok(Some(n)) = gas_limit(a.last()) {
            if value(n) == 0 {
                lemma_zero_value(n);
            }
        }
    }
}

/// A request that is taken for a swap names a chain, an account, two different tokens and one
/// amount, keeps slippage and deadline within their bounds, and sets no gas limit of zero.
pub proof fn law_accepted_form(t: Tree)
    ensures
        form_at(t) matches Ok(f) ==> {
            &&& f.chain_id > 0
            &&& f.from.len() > 0
            &&& f.token_in.len() > 0
            &&& f.token_out.len() > 0
            &&& !one_token(f.token_in, f.token_out)
            &&& 0 <= f.slippage_bps <= MAX_SLIPPAGE_BPS
            &&& 1 <= f.deadline_mins <= MAX_DEADLINE_MINS
            &&& f.amount_units.len() > 0 <==> f.amount_in.len() == 0
            &&& f.amount_in.len() > 0 ==> digits(f.amount_in)
            &&& in_digits(f.max_fee_per_gas)
            &&& in_digits(f.max_priority_fee_per_gas)
            &&& forall|i: int|
                0 <= i < f.gas_limits.len() ==> ((#[trigger] f.gas_limits[i]) matches Some(n)
                    ==> digits(n) && value(n) > 0)
        },
{
    lemma_wei(t.get("maxFeePerGas"@), "maxFeePerGas"@);
    lemma_wei(t.get("maxPriorityFeePerGas"@), "maxPriorityFeePerGas"@);
    if let Some(Tree::Array(a)) = t.get("gasLimits"@) {
        lemma_gas_limits(a);
    }
}

/// A form whose amount is settled sells something: its base units are digits, and not zero. All
/// else that it says stays as it was.
pub proof fn law_never_zero(t: Tree)
    ensures
        form_at(t) matches Ok(f) ==> {
            let (g, settled) = scaled(f);
            &&& settled is Ok ==> digits(g.amount_in) && value(g.amount_in) > 0
            &&& g == (Form { amount_in: g.amount_in, ..f })
        },
{
    law_accepted_form(t);
    if let Ok(f) = form_at(t) {
        if let Some(d) = f.decimals_in {
            lemma_numeral(base_value(trimmed(f.amount_units), d as nat));
        }
        let g = scaled(f).0;
        if scaled(f).1 is Ok && value(g.amount_in) == 0 {
            lemma_zero_value(g.amount_in);
        }
    }
}

/// A form is spoken of as it is: each field under its own name.
pub proof fn law_a_form_is_spoken_of_as_it_is(f: SwapForm, i: int)
    ensures
        f@.chain_id == f.chain_id,
        f@.from == f.from@,
        f@.token_in == f.token_in@,
        f@.token_out == f.token_out@,
        f@.symbol_in == f.symbol_in@,
        f@.symbol_out == f.symbol_out@,
        f@.decimals_in == f.decimals_in,
        f@.decimals_out == f.decimals_out,
        f@.amount_units == f.amount_units@,
        f@.amount_in == f.amount_in@,
        f@.tier == f.tier@,
        f@.slippage_bps == f.slippage_bps,
        f@.deadline_mins == f.deadline_mins,
        f@.recipient == f.recipient@,
        f.max_fee_per_gas matches Some(v) ==> f@.max_fee_per_gas == Some(v@),
        f.max_fee_per_gas is None ==> f@.max_fee_per_gas is None,
        f.max_priority_fee_per_gas matches Some(v) ==> f@.max_priority_fee_per_gas == Some(v@),
        f.max_priority_fee_per_gas is None ==> f@.max_priority_fee_per_gas is None,
        f@.gas_limits.len() == f.gas_limits@.len(),
        0 <= i < f.gas_limits@.len() ==> (match f.gas_limits@[i] {
            Some(v) => f@.gas_limits[i] == Some(v@),
            None => f@.gas_limits[i] is None,
        }),
        f@.nonce == f.nonce,
{
}

} // verus!
