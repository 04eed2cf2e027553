//! Token amounts as strings of decimal digits. A swap moves base units, a human types token
//! units, and the shift between them is exact integer work, never a float, which cannot hold
//! 18 decimal places.
use crate::digits::{
    all_zeros, digit_char, digits, digits_between, digits_or_empty, is_digit, lemma_numeral,
    lemma_stripped, lemma_ten_to_add, lemma_ten_to_positive, lemma_value_bound, lemma_value_concat,
    lemma_value_zeros, numeral, strip_leading_zeros, stripped, ten_to, value, zeros,
};
use crate::text::{chars_of, text_between, trim_chars, trimmed};
use std::cmp::Ordering;
use vstd::prelude::*;
use vstd::utf8::encode_utf8;

verus! {

/// Where the first point of `t` stands; behind its end where it has none.
pub open spec fn first_dot(t: Seq<char>) -> int
    decreases t.len(),
{
    if t.len() == 0 || t[0] == '.' {
        0
    } else {
        1 + first_dot(t.drop_first())
    }
}

/// What stands in front of the first point.
pub open spec fn whole(t: Seq<char>) -> Seq<char> {
    t.take(first_dot(t))
}

/// What stands behind the first point.
pub open spec fn fraction(t: Seq<char>) -> Seq<char> {
    if first_dot(t) < t.len() {
        t.skip(first_dot(t) + 1)
    } else {
        Seq::empty()
    }
}

/// `t` is an amount of a token with `decimals` places: digits, around at most one point, and no
/// more of them behind it than the token has places.
pub open spec fn amount(t: Seq<char>, decimals: nat) -> bool {
    &&& digits_or_empty(whole(t))
    &&& digits_or_empty(fraction(t))
    &&& whole(t).len() + fraction(t).len() > 0
    &&& fraction(t).len() <= decimals
}

/// How many base units an amount is.
pub open spec fn base_value(t: Seq<char>, decimals: nat) -> nat {
    value(whole(t)) * ten_to(decimals) + value(fraction(t)) * ten_to(
        (decimals - fraction(t).len()) as nat,
    )
}

/// The most decimal places a token can have.
pub const MAX_DECIMALS: u32 = 77;

pub proof fn lemma_first_dot(t: Seq<char>, k: int)
    requires
        0 <= k <= t.len(),
        forall|i: int| 0 <= i < k ==> t[i] != '.',
        k < t.len() ==> t[k] == '.',
    ensures
        first_dot(t) == k,
    decreases t.len(),
{
    if k > 0 {
        assert(t[0] != '.');
        lemma_first_dot(t.drop_first(), k - 1);
    }
}

/// Where the first point of `t` stands; behind its end where it has none.
fn find_dot(t: &Vec<char>) -> (r: usize)
    ensures
        r == first_dot(t@),
        r <= t@.len(),
        r < t@.len() ==> t@[r as int] == '.',
{
    let mut k: usize = 0;
    while k < t.len() && t[k] != '.'
        invariant
            k <= t@.len(),
            forall|i: int| 0 <= i < k ==> t@[i] != '.',
        decreases t@.len() - k,
    {
        k += 1;
    }
    proof {
        lemma_first_dot(t@, k as int);
    }
    k
}

/// "1.5" with 6 decimals is "1500000". `None` when the text is not an amount: not digits, more
/// fractional places than the token has, or nothing at all. "0" is a valid amount of nothing.
pub fn to_base_units(units: &str, decimals: u32) -> (r: Option<String>)
    ensures
        match r {
            Some(s) => decimals <= MAX_DECIMALS && amount(trimmed(units@), decimals as nat) && s@
                == numeral(base_value(trimmed(units@), decimals as nat)),
            None => decimals > MAX_DECIMALS || !amount(trimmed(units@), decimals as nat),
        },
{
    let t = trim_chars(units);
    if decimals > MAX_DECIMALS {
        return None;
    }
    let dot = find_dot(&t);
    let end: usize = t.len();
    let behind: usize = if dot < end {
        dot + 1
    } else {
        end
    };
    assert(t@.subrange(0, dot as int) =~= whole(t@));
    assert(t@.subrange(behind as int, end as int) =~= fraction(t@));
    if dot == 0 && behind == end {
        return None;
    }
    if !digits_between(&t, 0, dot) || !digits_between(&t, behind, end) || end - behind
        > decimals as usize {
        return None;
    }
    let mut run: Vec<char> = Vec::new();
    let mut i: usize = 0;
    while i < dot
        invariant
            i <= dot <= t@.len(),
            run@ == t@.take(i as int),
        decreases dot - i,
    {
        run.push(t[i]);
        i += 1;
        assert(t@.take(i as int) =~= t@.take(i - 1).push(t@[i - 1]));
    }
    let mut j: usize = behind;
    while j < end
        invariant
            behind <= j <= end,
            end == t@.len(),
            dot <= t@.len(),
            run@ == t@.take(dot as int) + t@.subrange(behind as int, j as int),
        decreases end - j,
    {
        run.push(t[j]);
        j += 1;
        assert(t@.subrange(behind as int, j as int) =~= t@.subrange(behind as int, j - 1).push(
            t@[j - 1],
        ));
        assert(run@ =~= t@.take(dot as int) + t@.subrange(behind as int, j as int));
    }
    let ghost head = whole(t@);
    let ghost tail = fraction(t@);
    assert(run@ =~= head + tail);
    let pad: usize = decimals as usize - (end - behind);
    push_zeros(&mut run, pad);
    proof {
        let d = decimals as nat;
        lemma_value_concat(head + tail, zeros(pad as nat));
        lemma_value_zeros(zeros(pad as nat));
        lemma_value_concat(head, tail);
        lemma_ten_to_add(tail.len(), pad as nat);
        let (h, f, a, b) = (
            value(head) as int,
            value(tail) as int,
            ten_to(tail.len()) as int,
            ten_to(pad as nat) as int,
        );
        assert((h * a + f) * b == h * (a * b) + f * b) by (nonlinear_arith);
        assert(value(run@) == base_value(t@, d));
        assert forall|k: int| 0 <= k < run@.len() implies is_digit(#[trigger] run@[k]) by {
            if k < head.len() {
                assert(run@[k] == head[k]);
            } else if k < head.len() + tail.len() {
                assert(run@[k] == tail[k - head.len()]);
            }
        }
        lemma_stripped(run@);
    }
    Some(strip_leading_zeros(&run))
}

fn push_zeros(run: &mut Vec<char>, count: usize)
    ensures
        final(run)@ == old(run)@ + zeros(count as nat),
{
    let ghost start = run@;
    let mut n: usize = 0;
    assert(run@ =~= start + zeros(0));
    while n < count
        invariant
            n <= count,
            run@ == start + zeros(n as nat),
        decreases count - n,
    {
        run.push('0');
        n += 1;
        assert(run@ =~= start + zeros(n as nat));
    }
}

/// `s` without the characters `c` that it ends with.
pub open spec fn no_trailing(s: Seq<char>, c: char) -> Seq<char>
    decreases s.len(),
{
    if s.len() > 0 && s.last() == c {
        no_trailing(s.drop_last(), c)
    } else {
        s
    }
}

/// `t` behind enough zeros to leave a digit in front of `decimals` places.
pub open spec fn padded(t: Seq<char>, decimals: nat) -> Seq<char> {
    if t.len() <= decimals {
        zeros((decimals - t.len() + 1) as nat) + t
    } else {
        t
    }
}

/// Every digit of a base-unit amount in token units.
pub open spec fn exact(t: Seq<char>, decimals: nat) -> Seq<char> {
    let p = padded(t, decimals);
    let point = p.len() - decimals;
    let places = no_trailing(p.skip(point), '0');
    if places.len() == 0 {
        p.take(point)
    } else {
        p.take(point) + seq!['.'] + places
    }
}

pub fn is_digits(s: &str) -> (r: bool)
    ensures
        r == digits(s@),
{
    let v = chars_of(s);
    let end: usize = v.len();
    assert(v@.subrange(0, end as int) =~= v@);
    end > 0 && digits_between(&v, 0, end)
}

/// Where `s`, from `from` up to `to`, ends once its trailing `c` are gone.
pub(crate) fn end_without(s: &Vec<char>, from: usize, to: usize, c: char) -> (r: usize)
    requires
        from <= to <= s@.len(),
    ensures
        from <= r <= to,
        s@.subrange(from as int, r as int) == no_trailing(s@.subrange(from as int, to as int), c),
{
    let mut hi: usize = to;
    while from < hi && s[hi - 1] == c
        invariant
            from <= hi <= to <= s@.len(),
            no_trailing(s@.subrange(from as int, to as int), c) == no_trailing(
                s@.subrange(from as int, hi as int),
                c,
            ),
        decreases hi - from,
    {
        assert(s@.subrange(from as int, hi as int).drop_last() =~= s@.subrange(
            from as int,
            hi - 1,
        ));
        hi -= 1;
    }
    hi
}

/// Every digit of a base-unit amount in token units, with no trailing zeros: "1500000" at 6
/// decimals is "1.5"; "1" at 18 is "0.000000000000000001". `None` for a string that is not digits.
pub fn from_base_units_exact(base: &str, decimals: u32) -> (r: Option<String>)
    ensures
        match r {
            Some(s) => digits(trimmed(base@)) && s@ == exact(trimmed(base@), decimals as nat),
            None => !digits(trimmed(base@)),
        },
{
    let t = trim_chars(base);
    let len: usize = t.len();
    assert(t@.subrange(0, len as int) =~= t@);
    if len == 0 || !digits_between(&t, 0, len) {
        return None;
    }
    let d: usize = decimals as usize;
    let mut run: Vec<char> = Vec::new();
    if len <= d {
        push_zeros(&mut run, d - len + 1);
    }
    let ghost front = run@;
    let mut i: usize = 0;
    while i < len
        invariant
            i <= len,
            len == t@.len(),
            run@ == front + t@.take(i as int),
        decreases len - i,
    {
        run.push(t[i]);
        i += 1;
        assert(run@ =~= front + t@.take(i as int));
    }
    assert(run@ =~= padded(t@, decimals as nat));
    let end: usize = run.len();
    let point: usize = end - d;
    let cut = end_without(&run, point, end, '0');
    assert(run@.subrange(point as int, end as int) =~= run@.skip(point as int));
    assert(run@.subrange(0, point as int) =~= run@.take(point as int));
    let mut out = text_between(&run, 0, point);
    if cut > point {
        out.push('.');
        out.append(text_between(&run, point, cut).as_str());
    }
    assert(out@ =~= exact(t@, decimals as nat));
    Some(out)
}

/// The most fractional digits that a display shows.
pub const PLACES: usize = 5;

/// An exact figure cut to at most five fractional digits.
pub open spec fn cut_short(e: Seq<char>) -> Seq<char> {
    no_trailing(no_trailing(e.take(first_dot(e) + 1 + PLACES), '0'), '.')
}

/// An amount that is not nothing, but of which a display's five places show nothing.
pub open spec fn sliver(t: Seq<char>, decimals: nat) -> bool {
    let e = exact(t, decimals);
    e.len() - first_dot(e) - 1 > PLACES && all_zeros(cut_short(e))
}

/// A base-unit amount in token units as it is displayed.
pub open spec fn shown(t: Seq<char>, decimals: nat) -> Seq<char> {
    let e = exact(t, decimals);
    if e.len() - first_dot(e) - 1 <= PLACES {
        e
    } else if sliver(t, decimals) {
        "<0.00001"@
    } else {
        cut_short(e)
    }
}

/// A bounded display: at most five fractional digits, TRUNCATED rather than rounded so a figure
/// never reads as more than it is, and "<0.00001" for an amount that is not nothing but would
/// print as if it were.
pub fn from_base_units(base: &str, decimals: u32) -> (r: Option<String>)
    ensures
        match r {
            Some(s) => digits(trimmed(base@)) && s@ == shown(trimmed(base@), decimals as nat),
            None => !digits(trimmed(base@)),
        },
{
    let text = match from_base_units_exact(base, decimals) {
        Some(s) => s,
        None => {
            return None;
        },
    };
    let e = chars_of(text.as_str());
    let dot = find_dot(&e);
    let end: usize = e.len();
    if dot == end || end - dot - 1 <= PLACES {
        return Some(text);
    }
    let stop: usize = dot + 1 + PLACES;
    assert(e@.subrange(0, stop as int) =~= e@.take(first_dot(e@) + 1 + PLACES));
    let hi = end_without(&e, 0, stop, '0');
    let hi = end_without(&e, 0, hi, '.');
    let ghost cut = cut_short(e@);
    assert(cut == e@.subrange(0, hi as int));
    let mut k: usize = 0;
    while k < hi
        invariant
            k <= hi <= e@.len(),
            cut == e@.subrange(0, hi as int),
            cut == cut_short(e@),
            text@ == e@,
            e@ == exact(trimmed(base@), decimals as nat),
            digits(trimmed(base@)),
            e@.len() - first_dot(e@) - 1 > PLACES,
            forall|i: int| 0 <= i < k ==> e@[i] == '0',
        decreases hi - k,
    {
        if e[k] != '0' {
            assert(cut[k as int] != '0');
            return Some(text_between(&e, 0, hi));
        }
        k += 1;
    }
    assert(all_zeros(cut));
    Some("<0.00001".to_owned())
}

/// Whether `x` stands before `y` in a dictionary of characters.
pub open spec fn earlier(x: Seq<char>, y: Seq<char>) -> bool
    decreases x.len(),
{
    if y.len() == 0 {
        false
    } else if x.len() == 0 {
        true
    } else if x[0] != y[0] {
        x[0] < y[0]
    } else {
        earlier(x.drop_first(), y.drop_first())
    }
}

/// Whether the spelling `x` is below the spelling `y`: fewer bytes, or as many and earlier.
pub open spec fn below(x: Seq<char>, y: Seq<char>) -> bool {
    ||| encode_utf8(x).len() < encode_utf8(y).len()
    ||| encode_utf8(x).len() == encode_utf8(y).len() && earlier(x, y)
}

/// An amount as it is compared: trimmed, and without its leading zeros.
pub open spec fn canonical(s: Seq<char>) -> Seq<char> {
    stripped(trimmed(s))
}

/// Two texts with equal beginnings are ordered by what follows.
proof fn lemma_earlier_skip(x: Seq<char>, y: Seq<char>, i: int)
    requires
        0 <= i <= x.len(),
        i <= y.len(),
        forall|j: int| 0 <= j < i ==> x[j] == y[j],
    ensures
        earlier(x, y) == earlier(x.skip(i), y.skip(i)),
    decreases i,
{
    if i == 0 {
        assert(x.skip(0) =~= x);
        assert(y.skip(0) =~= y);
    } else {
        assert(x[0] == y[0]);
        lemma_earlier_skip(x.drop_first(), y.drop_first(), i - 1);
        assert(x.drop_first().skip(i - 1) =~= x.skip(i));
        assert(y.drop_first().skip(i - 1) =~= y.skip(i));
    }
}

/// Dictionary order of two texts: whether the first stands before the second, and whether they
/// are the same.
fn compare_text(x: &Vec<char>, y: &Vec<char>) -> (r: (bool, bool))
    ensures
        r.0 == earlier(x@, y@),
        r.1 == (x@ == y@),
        !r.0 && !r.1 ==> earlier(y@, x@),
        r.0 ==> !earlier(y@, x@),
        r.1 ==> !earlier(y@, x@),
{
    let mut i: usize = 0;
    while i < x.len() && i < y.len() && x[i] == y[i]
        invariant
            i <= x@.len(),
            i <= y@.len(),
            forall|j: int| 0 <= j < i ==> x@[j] == y@[j],
        decreases x@.len() - i,
    {
        i += 1;
    }
    proof {
        lemma_earlier_skip(x@, y@, i as int);
        lemma_earlier_skip(y@, x@, i as int);
        if i == x@.len() && i == y@.len() {
            assert(x@ =~= y@);
        }
    }
    if i == y.len() {
        (false, i == x.len())
    } else if i == x.len() {
        (true, false)
    } else {
        (x[i] < y[i], false)
    }
}

/// Digits are a byte each.
proof fn lemma_digit_bytes(s: Seq<char>)
    requires
        digits_or_empty(s),
    ensures
        encode_utf8(s).len() == s.len(),
{
    assert forall|i: int| 0 <= i < s.len() implies s[i] as u32 <= 127 by {
        assert(is_digit(s[i]));
    }
    vstd::utf8::is_ascii_chars_encode_utf8(s);
}

/// Among digits of one length the dictionary's order is that of the numbers.
proof fn lemma_earlier_is_less(x: Seq<char>, y: Seq<char>)
    requires
        digits_or_empty(x),
        digits_or_empty(y),
        x.len() == y.len(),
    ensures
        earlier(x, y) <==> value(x) < value(y),
    decreases x.len(),
{
    if x.len() > 0 {
        let (p, q) = (x.drop_first(), y.drop_first());
        let (a, b) = (seq![x[0]], seq![y[0]]);
        assert(forall|i: int| 0 <= i < p.len() ==> p[i] == x[i + 1] && q[i] == y[i + 1]);
        assert(is_digit(x[0]) && is_digit(y[0]));
        assert(x =~= a + p);
        assert(y =~= b + q);
        lemma_value_concat(a, p);
        lemma_value_concat(b, q);
        lemma_earlier_is_less(p, q);
        lemma_value_bound(p);
        lemma_value_bound(q);
        assert(a.drop_last() =~= Seq::<char>::empty());
        assert(b.drop_last() =~= Seq::<char>::empty());
        reveal_with_fuel(value, 2);
        let (u, v, t) = (value(a) as int, value(b) as int, ten_to(p.len()) as int);
        if x[0] < y[0] {
            assert(u + 1 <= v);
            assert((u + 1) * t <= v * t) by (nonlinear_arith)
                requires
                    u + 1 <= v,
                    t >= 0,
            ;
            assert((u + 1) * t == u * t + t) by (nonlinear_arith);
        } else if x[0] > y[0] {
            assert(v + 1 <= u);
            assert((v + 1) * t <= u * t) by (nonlinear_arith)
                requires
                    v + 1 <= u,
                    t >= 0,
            ;
            assert((v + 1) * t == v * t + t) by (nonlinear_arith);
        }
    }
}

/// A number with fewer digits is the smaller one.
proof fn lemma_shorter_is_less(m: nat, n: nat)
    requires
        numeral(m).len() < numeral(n).len(),
    ensures
        m < n,
{
    let (x, y) = (numeral(m), numeral(n));
    lemma_numeral(m);
    lemma_numeral(n);
    lemma_value_bound(x);
    let (a, q) = (seq![y[0]], y.drop_first());
    assert(y =~= a + q);
    assert(is_digit(y[0]));
    lemma_value_concat(a, q);
    assert(a.drop_last() =~= Seq::<char>::empty());
    reveal_with_fuel(value, 2);
    let k = (q.len() - x.len()) as nat;
    lemma_ten_to_add(x.len(), k);
    lemma_ten_to_positive(k);
    lemma_ten_to_positive(x.len());
    let (t, u) = (ten_to(x.len()) as int, ten_to(k) as int);
    assert(t * u >= t) by (nonlinear_arith)
        requires
            t >= 1,
            u >= 1,
    ;
    if n == 0 {
        assert(numeral(0).len() == 1);
        assert(x.len() >= 1);
    }
    let d = value(a) as int;
    assert(d >= 1);
    let w = ten_to(q.len()) as int;
    assert(d * w >= w) by (nonlinear_arith)
        requires
            d >= 1,
            w >= 0,
    ;
}

/// The order of two spellings without leading zeros is that of the numbers they stand for.
pub proof fn lemma_below_is_less(m: nat, n: nat)
    ensures
        below(numeral(m), numeral(n)) <==> m < n,
{
    let (x, y) = (numeral(m), numeral(n));
    lemma_numeral(m);
    lemma_numeral(n);
    lemma_digit_bytes(x);
    lemma_digit_bytes(y);
    if x.len() < y.len() {
        lemma_shorter_is_less(m, n);
    } else if y.len() < x.len() {
        lemma_shorter_is_less(n, m);
    } else {
        lemma_earlier_is_less(x, y);
    }
}

/// Numeric order of two base-unit amounts. Callers check both are digits first; texts that are
/// not are ordered by length, then as a dictionary would.
pub fn compare_base(a: &str, b: &str) -> (r: Ordering)
    ensures
        r is Less <==> below(canonical(a@), canonical(b@)),
        r is Greater <==> below(canonical(b@), canonical(a@)),
        r is Equal <==> canonical(a@) == canonical(b@),
        digits(trimmed(a@)) && digits(trimmed(b@)) ==> {
            &&& r is Less <==> value(trimmed(a@)) < value(trimmed(b@))
            &&& r is Greater <==> value(trimmed(a@)) > value(trimmed(b@))
            &&& r is Equal <==> value(trimmed(a@)) == value(trimmed(b@))
        },
{
    let x = strip_leading_zeros(&trim_chars(a));
    let y = strip_leading_zeros(&trim_chars(b));
    proof {
        if digits(trimmed(a@)) && digits(trimmed(b@)) {
            lemma_stripped(trimmed(a@));
            lemma_stripped(trimmed(b@));
            lemma_below_is_less(value(trimmed(a@)), value(trimmed(b@)));
            lemma_below_is_less(value(trimmed(b@)), value(trimmed(a@)));
            lemma_numeral(value(trimmed(a@)));
            lemma_numeral(value(trimmed(b@)));
        }
    }
    let m: usize = x.as_str().as_bytes().len();
    let n: usize = y.as_str().as_bytes().len();
    if m < n {
        return Ordering::Less;
    }
    if n < m {
        return Ordering::Greater;
    }
    let (first, equal) = compare_text(&chars_of(x.as_str()), &chars_of(y.as_str()));
    if first {
        Ordering::Less
    } else if equal {
        Ordering::Equal
    } else {
        Ordering::Greater
    }
}

/// The digit of `s` that stands `i` places from its end, and zero in front of its first.
fn digit_from_end(s: &Vec<char>, i: usize) -> (r: u8)
    requires
        digits(s@),
    ensures
        r <= 9,
        i < s@.len() ==> value(s@.take(s@.len() - i)) == value(s@.take(s@.len() - i - 1)) * 10 + r,
        i >= s@.len() ==> r == 0,
{
    let end: usize = s.len();
    if i < end {
        let c: char = s[end - 1 - i];
        assert(is_digit(s@[end - 1 - i]));
        let ghost part = s@.take(end - i);
        assert(part.drop_last() =~= s@.take(end - i - 1));
        c as u8 - '0' as u8
    } else {
        0
    }
}

/// What is left of `s` once its last `i` digits are taken off.
spec fn rest(s: Seq<char>, i: nat) -> nat {
    if i < s.len() {
        value(s.take(s.len() - i))
    } else {
        0
    }
}

/// `out`, written from its last digit to its first.
spec fn backwards(out: Seq<char>) -> Seq<char> {
    Seq::new(out.len(), |i: int| out[out.len() - 1 - i])
}

/// The sum of two base-unit amounts, added digit by digit so it is exact at any size. `None`
/// when either is not digits.
pub fn add_base(a: &str, b: &str) -> (r: Option<String>)
    ensures
        match r {
            Some(s) => digits(trimmed(a@)) && digits(trimmed(b@)) && s@ == numeral(
                value(trimmed(a@)) + value(trimmed(b@)),
            ),
            None => !digits(trimmed(a@)) || !digits(trimmed(b@)),
        },
{
    let x = trim_chars(a);
    let y = trim_chars(b);
    let m: usize = x.len();
    let n: usize = y.len();
    assert(x@.subrange(0, m as int) =~= x@);
    assert(y@.subrange(0, n as int) =~= y@);
    if m == 0 || n == 0 || !digits_between(&x, 0, m) || !digits_between(&y, 0, n) {
        return None;
    }
    let longest: usize = if m > n {
        m
    } else {
        n
    };
    let mut out: Vec<char> = Vec::new();
    let mut carry: u8 = 0;
    let mut i: usize = 0;
    let ghost total = value(x@) + value(y@);
    assert(x@.take(m as int) =~= x@);
    assert(y@.take(n as int) =~= y@);
    assert(backwards(out@) =~= Seq::<char>::empty());
    while i < longest
        invariant
            m == x@.len(),
            n == y@.len(),
            m <= longest,
            n <= longest,
            i <= longest,
            digits(x@),
            digits(y@),
            carry <= 1,
            out@.len() == i,
            digits_or_empty(backwards(out@)),
            value(backwards(out@)) + (carry + rest(x@, i as nat) + rest(y@, i as nat)) * ten_to(
                i as nat,
            ) == total,
        decreases longest - i,
    {
        let p = digit_from_end(&x, i);
        let q = digit_from_end(&y, i);
        let sum: u8 = p + q + carry;
        let ghost before = out@;
        out.push(('0' as u8 + sum % 10) as char);
        proof {
            let (r, s) = (rest(x@, i as nat), rest(y@, i as nat));
            let (r2, s2) = (rest(x@, i as nat + 1), rest(y@, i as nat + 1));
            if i + 1 == m {
                assert(x@.take(0) =~= Seq::<char>::empty());
            }
            if i + 1 == n {
                assert(y@.take(0) =~= Seq::<char>::empty());
            }
            assert(r == r2 * 10 + p);
            assert(s == s2 * 10 + q);
            lemma_carry(before, (sum % 10) as nat, (sum / 10) as nat, r2 + s2);
            assert(carry + r + s == sum % 10 + 10 * (sum / 10 + r2 + s2));
        }
        carry = sum / 10;
        i += 1;
    }
    let ghost before = out@;
    if carry > 0 {
        out.push('1');
        proof {
            lemma_carry(before, 1, 0, 0);
        }
    }
    let mut run: Vec<char> = Vec::new();
    let mut k: usize = out.len();
    while k > 0
        invariant
            k <= out@.len(),
            run@.len() == out@.len() - k,
            forall|j: int| 0 <= j < run@.len() ==> run@[j] == out@[out@.len() - 1 - j],
        decreases k,
    {
        k -= 1;
        run.push(out[k]);
    }
    assert(run@ =~= backwards(out@));
    proof {
        assert(0 * ten_to(i as nat) == 0);
        lemma_stripped(run@);
    }
    Some(strip_leading_zeros(&run))
}

/// One more digit in front of those written, worth `d` of its place, with `c` carried on.
proof fn lemma_carry(out: Seq<char>, d: nat, c: nat, left: nat)
    requires
        d <= 9,
        digits_or_empty(backwards(out)),
    ensures
        ({
            let next = backwards(out.push(digit_char(d)));
            let t = ten_to(out.len());
            &&& digits_or_empty(next)
            &&& value(next) == d * t + value(backwards(out))
            &&& value(next) + (c + left) * ten_to(out.len() + 1) == value(backwards(out)) + (d + 10
                * (c + left)) * t
        }),
{
    let old_run = backwards(out);
    let next = backwards(out.push(digit_char(d)));
    let head = seq![digit_char(d)];
    assert(next =~= head + old_run);
    assert(forall|i: int| 0 < i < next.len() ==> next[i] == old_run[i - 1]);
    assert(is_digit(next[0]));
    assert forall|i: int| 0 <= i < next.len() implies is_digit(#[trigger] next[i]) by {
        if i > 0 {
            assert(is_digit(old_run[i - 1]));
        }
    }
    lemma_value_concat(head, old_run);
    assert(head.drop_last() =~= Seq::<char>::empty());
    reveal_with_fuel(value, 2);
    assert(value(head) == d);
    let (t, w) = (ten_to(out.len()) as int, (c + left) as int);
    assert(ten_to(out.len() + 1) == 10 * t);
    assert(w * (10 * t) == (10 * w) * t) by (nonlinear_arith);
    assert((d + 10 * w) * t == d * t + (10 * w) * t) by (nonlinear_arith);
}

/// Texts that are compared as amounts: by how many bytes they have, and where they have as many, as
/// in a dictionary. Two texts stand there by the first characters in which they differ, and one in
/// front of any that goes on from it.
pub proof fn law_how_texts_are_ordered(
    front: Seq<char>,
    x: Seq<char>,
    y: Seq<char>,
    c: char,
    d: char,
)
    ensures
        below(x, y) <==> encode_utf8(x).len() < encode_utf8(y).len() || (encode_utf8(x).len()
            == encode_utf8(y).len() && earlier(x, y)),
        c != d ==> (earlier(front + seq![c] + x, front + seq![d] + y) <==> c < d),
        earlier(front, front + seq![c] + x),
        !earlier(front + seq![c] + x, front),
        !earlier(front, front),
{
    let (a, b) = (front + seq![c] + x, front + seq![d] + y);
    let n = front.len() as int;
    lemma_earlier_skip(a, b, n);
    lemma_earlier_skip(front, a, n);
    lemma_earlier_skip(a, front, n);
    lemma_earlier_skip(front, front, n);
    assert(a.skip(n)[0] == c && b.skip(n)[0] == d);
    assert(front.skip(n).len() == 0);
}

/// An amount is compared without the white space around it and without the zeros in front of it,
/// all of them but the last character.
pub proof fn law_what_is_left_to_compare(s: Seq<char>) -> (k: int)
    ensures
        ({
            let t = trimmed(s);
            &&& 0 <= k <= t.len()
            &&& canonical(s) == t.skip(k)
            &&& forall|i: int| 0 <= i < k ==> #[trigger] t[i] == '0'
            &&& t.len() > 0 ==> k < t.len()
            &&& k + 1 < t.len() ==> t[k] != '0'
        }),
{
    lemma_zeros_gone(trimmed(s))
}

proof fn lemma_zeros_gone(t: Seq<char>) -> (k: int)
    ensures
        0 <= k <= t.len(),
        stripped(t) == t.skip(k),
        forall|i: int| 0 <= i < k ==> #[trigger] t[i] == '0',
        t.len() > 0 ==> k < t.len(),
        k + 1 < t.len() ==> t[k] != '0',
    decreases t.len(),
{
    if t.len() > 1 && t[0] == '0' {
        let rest = t.drop_first();
        let k = lemma_zeros_gone(rest);
        assert(rest.skip(k) =~= t.skip(k + 1));
        assert forall|i: int| 0 <= i < k + 1 implies #[trigger] t[i] == '0' by {
            if i > 0 {
                assert(rest[i - 1] == '0');
            }
        }
        k + 1
    } else {
        assert(t.skip(0) =~= t);
        0
    }
}

} // verus!
