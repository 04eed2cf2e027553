//! What trimming, letter case, amounts and the spellings of a token come to, character by
//! character.
use crate::digits::{digits, digits_or_empty, is_digit, lemma_numeral, numeral, ten_to, value};
use crate::digits::{lemma_ten_to_add, lemma_value_concat, lemma_value_zeros};
use crate::form::{address, native, one_token};
use crate::text::{
    holds_text, is_space, lower, lowered, same_but_case, trimmed, trimmed_end, trimmed_start,
};
use crate::unit_laws::lemma_exact;
use crate::units::{
    amount, base_value, exact, first_dot, fraction, lemma_first_dot, no_trailing, padded, whole,
};
use vstd::prelude::*;

verus! {

/// White space, by its code points.
pub open spec fn blank(c: char) -> bool {
    let n = c as int;
    9 <= n <= 13 || n == 32 || n == 133 || n == 160 || n == 5760 || 8192 <= n <= 8202 || n == 8232
        || n == 8233 || n == 8239 || n == 8287 || n == 12288
}

proof fn lemma_start(s: Seq<char>) -> (lo: int)
    ensures
        0 <= lo <= s.len(),
        trimmed_start(s) == s.skip(lo),
        forall|i: int| 0 <= i < lo ==> blank(#[trigger] s[i]),
        lo < s.len() ==> !blank(s[lo]),
    decreases s.len(),
{
    if s.len() > 0 && is_space(s[0]) {
        let rest = s.drop_first();
        let lo = lemma_start(rest);
        assert(rest.skip(lo) =~= s.skip(lo + 1));
        assert forall|i: int| 0 <= i < lo + 1 implies blank(#[trigger] s[i]) by {
            if i > 0 {
                assert(blank(rest[i - 1]));
            }
        }
        if lo < rest.len() {
            assert(rest[lo] == s[lo + 1]);
        }
        lo + 1
    } else {
        assert(s.skip(0) =~= s);
        0
    }
}

proof fn lemma_end(s: Seq<char>) -> (hi: int)
    ensures
        0 <= hi <= s.len(),
        trimmed_end(s) == s.take(hi),
        forall|i: int| hi <= i < s.len() ==> blank(#[trigger] s[i]),
        hi > 0 ==> !blank(s[hi - 1]),
    decreases s.len(),
{
    if s.len() > 0 && is_space(s.last()) {
        let rest = s.drop_last();
        let hi = lemma_end(rest);
        assert(rest.take(hi) =~= s.take(hi));
        assert forall|i: int| hi <= i < s.len() implies blank(#[trigger] s[i]) by {
            if i < rest.len() {
                assert(blank(rest[i]));
            }
        }
        if hi > 0 {
            assert(rest[hi - 1] == s[hi - 1]);
        }
        hi
    } else {
        assert(s.take(s.len() as int) =~= s);
        s.len() as int
    }
}

/// Trimming takes white space off both ends, all of it, and nothing else.
pub proof fn law_trimming_takes_the_ends(s: Seq<char>) -> (ends: (int, int))
    ensures
        0 <= ends.0 <= ends.1 <= s.len(),
        trimmed(s) == s.subrange(ends.0, ends.1),
        forall|i: int| 0 <= i < ends.0 || ends.1 <= i < s.len() ==> blank(#[trigger] s[i]),
        ends.0 < ends.1 ==> !blank(s[ends.0]) && !blank(s[ends.1 - 1]),
{
    let lo = lemma_start(s);
    let rest = s.skip(lo);
    let hi = lemma_end(rest);
    assert(rest.take(hi) =~= s.subrange(lo, lo + hi));
    assert forall|i: int| 0 <= i < lo || lo + hi <= i < s.len() implies blank(#[trigger] s[i]) by {
        if lo + hi <= i {
            assert(blank(rest[i - lo]));
        }
    }
    if hi > 0 {
        assert(rest[hi - 1] == s[lo + hi - 1]);
    }
    (lo, lo + hi)
}

/// Two characters that are one letter in either case, or the same.
pub open spec fn alike(x: char, y: char) -> bool {
    ||| x == y
    ||| 65 <= x as int <= 90 && y as int == x as int + 32
    ||| 65 <= y as int <= 90 && x as int == y as int + 32
}

/// Two texts are the same but for case exactly when they are as long as one another and alike in
/// every place. Only the letters from A to Z have a case.
pub proof fn law_only_case_is_ignored(a: Seq<char>, b: Seq<char>)
    ensures
        same_but_case(a, b) <==> a.len() == b.len() && forall|i: int|
            0 <= i < a.len() ==> alike(#[trigger] a[i], b[i]),
{
    if same_but_case(a, b) {
        assert(lowered(a).len() == a.len() && lowered(b).len() == b.len());
        assert forall|i: int| 0 <= i < a.len() implies alike(#[trigger] a[i], b[i]) by {
            assert(lowered(a)[i] == lower(a[i]) && lowered(b)[i] == lower(b[i]));
            lemma_lower(a[i], b[i]);
        }
    }
    if a.len() == b.len() && forall|i: int| 0 <= i < a.len() ==> alike(#[trigger] a[i], b[i]) {
        assert forall|i: int| 0 <= i < a.len() implies lowered(a)[i] == lowered(b)[i] by {
            assert(alike(a[i], b[i]));
            lemma_lower(a[i], b[i]);
        }
        assert(lowered(a) =~= lowered(b));
    }
}

proof fn lemma_lower(x: char, y: char)
    ensures
        lower(x) == lower(y) <==> alike(x, y),
{
}

/// A text is found in another exactly where that one is something, then the text, then something.
pub proof fn law_found_text_stands_there(hay: Seq<char>, needle: Seq<char>)
    ensures
        holds_text(hay, needle) <==> exists|before: Seq<char>, behind: Seq<char>|
            hay == #[trigger] (before + needle + behind),
{
    if holds_text(hay, needle) {
        let i = choose|i: int|
            0 <= i <= hay.len() - needle.len() && #[trigger] hay.subrange(i, i + needle.len())
                == needle;
        let (before, behind) = (hay.take(i), hay.skip(i + needle.len()));
        assert(hay =~= before + hay.subrange(i, i + needle.len()) + behind);
        assert(hay == before + needle + behind);
    }
    if exists|before: Seq<char>, behind: Seq<char>| hay == #[trigger] (before + needle + behind) {
        let (before, behind) = choose|before: Seq<char>, behind: Seq<char>|
            hay == #[trigger] (before + needle + behind);
        let i = before.len() as int;
        assert(hay.subrange(i, i + needle.len()) =~= needle);
    }
}

/// A token is the native coin exactly where, but for white space around it, it is nothing at all,
/// "eth" or "native" in any case, or "0x" and forty zeros.
pub proof fn law_what_the_native_coin_is_called(token: Seq<char>)
    ensures
        native(token) <==> {
            let t = trimmed(token);
            ||| t.len() == 0
            ||| same_but_case(t, seq!['e', 't', 'h'])
            ||| same_but_case(t, seq!['n', 'a', 't', 'i', 'v', 'e'])
            ||| t.len() == 42 && t[0] == '0' && (t[1] == 'x' || t[1] == 'X') && forall|i: int|
                2 <= i < 42 ==> #[trigger] t[i] == '0'
        },
{
    reveal_strlit("eth");
    reveal_strlit("native");
    assert("eth"@ =~= seq!['e', 't', 'h']);
    assert("native"@ =~= seq!['n', 'a', 't', 'i', 'v', 'e']);
}

/// A token is an address exactly where, but for white space around it, it is "0x" and forty hex
/// digits.
pub proof fn law_what_an_address_is(token: Seq<char>)
    ensures
        address(token) <==> {
            let t = trimmed(token);
            &&& t.len() == 42
            &&& t[0] == '0'
            &&& t[1] == 'x' || t[1] == 'X'
            &&& forall|i: int|
                2 <= i < 42 ==> 48 <= (#[trigger] t[i]) as int <= 57 || 65 <= t[i] as int <= 70
                    || 97 <= t[i] as int <= 102
        },
{
}

/// Two tokens are one and the same exactly where both are the native coin, however it is spelled,
/// or they differ in nothing but case.
pub proof fn law_when_two_tokens_are_one(a: Seq<char>, b: Seq<char>)
    ensures
        native(a) && native(b) ==> one_token(a, b),
        !(native(a) && native(b)) ==> (one_token(a, b) <==> same_but_case(a, b)),
{
}

/// What digits are worth: each one ten times what stands before it, and itself; and only the digits
/// from zero to nine are digits.
pub proof fn law_what_digits_are_worth(s: Seq<char>, c: char)
    ensures
        value(Seq::empty()) == 0,
        48 <= c as int <= 57 ==> value(s.push(c)) == 10 * value(s) + (c as int - 48),
        is_digit(c) <==> 48 <= c as int <= 57,
        digits(s.push(c)) <==> digits_or_empty(s) && is_digit(c),
{
    assert(s.push(c).drop_last() =~= s);
    if digits(s.push(c)) {
        assert(forall|i: int| 0 <= i < s.len() ==> s.push(c)[i] == s[i]);
        assert(is_digit(s.push(c)[s.len() as int]));
    }
}

/// A number is spelled in digits that are worth it, without a zero in front.
pub proof fn law_how_a_number_is_spelled(n: nat)
    ensures
        digits(numeral(n)),
        value(numeral(n)) == n,
        numeral(n).len() > 1 ==> numeral(n)[0] != '0',
{
    lemma_numeral(n);
}

/// Digits, a point and digits are an amount where there is a digit at all, and no more of them
/// behind the point than the token has places. It is as many base units as those digits are worth,
/// filled up with zeros to the token's places.
pub proof fn law_amount_with_a_point(w: Seq<char>, f: Seq<char>, decimals: nat)
    requires
        digits_or_empty(w),
        digits_or_empty(f),
    ensures
        amount(w + seq!['.'] + f, decimals) <==> w.len() + f.len() > 0 && f.len() <= decimals,
        f.len() <= decimals ==> base_value(w + seq!['.'] + f, decimals) == value(
            w + f + Seq::new((decimals - f.len()) as nat, |i: int| '0'),
        ),
{
    let t = w + seq!['.'] + f;
    assert forall|i: int| 0 <= i < w.len() implies t[i] != '.' by {
        assert(is_digit(w[i]));
    }
    lemma_first_dot(t, w.len() as int);
    assert(whole(t) =~= w);
    assert(fraction(t) =~= f);
    if f.len() <= decimals {
        lemma_filled(w, f, decimals);
    }
}

/// Digits alone are an amount of as many base units as they are worth, filled up with zeros to the
/// token's places.
pub proof fn law_amount_without_a_point(w: Seq<char>, decimals: nat)
    requires
        digits_or_empty(w),
    ensures
        amount(w, decimals) <==> w.len() > 0,
        base_value(w, decimals) == value(w + Seq::new(decimals, |i: int| '0')),
{
    assert forall|i: int| 0 <= i < w.len() implies w[i] != '.' by {
        assert(is_digit(w[i]));
    }
    lemma_first_dot(w, w.len() as int);
    assert(whole(w) =~= w);
    let none = Seq::<char>::empty();
    assert(fraction(w) =~= none);
    lemma_filled(w, none, decimals);
    assert(w + none + Seq::new(decimals, |i: int| '0') =~= w + Seq::new(decimals, |i: int| '0'));
}

proof fn lemma_filled(w: Seq<char>, f: Seq<char>, decimals: nat)
    requires
        f.len() <= decimals,
    ensures
        value(w + f + Seq::new((decimals - f.len()) as nat, |i: int| '0')) == value(w) * ten_to(
            decimals,
        ) + value(f) * ten_to((decimals - f.len()) as nat),
{
    let pad = (decimals - f.len()) as nat;
    let z = Seq::new(pad, |i: int| '0');
    lemma_value_concat(w + f, z);
    lemma_value_concat(w, f);
    lemma_value_zeros(z);
    lemma_ten_to_add(f.len(), pad);
    let (h, v, a, b) = (
        value(w) as int,
        value(f) as int,
        ten_to(f.len()) as int,
        ten_to(pad) as int,
    );
    assert((h * a + v) * b == h * (a * b) + v * b) by (nonlinear_arith);
}

/// Nothing else is an amount: one is digits, with one point among them or none.
pub proof fn law_nothing_else_is_an_amount(t: Seq<char>, decimals: nat)
    requires
        amount(t, decimals),
    ensures
        digits(t) || exists|w: Seq<char>, f: Seq<char>|
            digits_or_empty(w) && digits_or_empty(f) && t == #[trigger] (w + seq!['.'] + f),
{
    lemma_dot_within(t);
    let (w, f) = (whole(t), fraction(t));
    if first_dot(t) < t.len() {
        assert(t =~= w + seq!['.'] + f);
    } else {
        assert(w =~= t);
    }
}

proof fn lemma_dot_within(t: Seq<char>)
    ensures
        0 <= first_dot(t) <= t.len(),
        first_dot(t) < t.len() ==> t[first_dot(t)] == '.',
    decreases t.len(),
{
    if t.len() > 0 && t[0] != '.' {
        lemma_dot_within(t.drop_first());
    }
}

/// Every digit of a base-unit amount, in token units: as many in front of the point as are left of
/// the token's places, or one; behind it no zero at the end; and worth those base units. There is
/// one such spelling.
pub proof fn law_every_digit_is_spelled(base: Seq<char>, decimals: nat)
    requires
        digits(base),
    ensures
        ({
            let e = exact(base, decimals);
            &&& digits(whole(e))
            &&& digits_or_empty(fraction(e))
            &&& whole(e).len() == (if base.len() > decimals {
                (base.len() - decimals) as nat
            } else {
                1
            })
            &&& fraction(e).len() <= decimals
            &&& fraction(e).len() > 0 ==> fraction(e).last() != '0'
            &&& e == (if fraction(e).len() == 0 {
                whole(e)
            } else {
                whole(e) + seq!['.'] + fraction(e)
            })
            &&& base_value(e, decimals) == value(base)
        }),
{
    lemma_exact(base, decimals);
    let e = exact(base, decimals);
    let p = padded(base, decimals);
    let point = p.len() - decimals;
    let places = no_trailing(p.skip(point), '0');
    assert(first_dot(e) == whole(e).len());
    assert(e.len() == point + (if places.len() == 0 {
        0
    } else {
        1 + places.len() as int
    }));
    if fraction(e).len() > 0 {
        assert(whole(e).len() < e.len());
        assert(e[first_dot(e)] == '.');
        assert forall|i: int| 0 <= i < point implies e[i] != '.' by {
            let pad = p.len() - base.len();
            assert(e[i] == p[i]);
            if i >= pad {
                assert(is_digit(base[i - pad]));
                assert(p[i] == base[i - pad]);
            }
        }
        lemma_first_dot(e, point);
    } else {
        assert(whole(e) == e);
        if places.len() > 0 {
            lemma_dot_within(e);
            assert(e[point] == '.');
            assert(digits_or_empty(whole(e)));
            assert(is_digit(e[point]));
        }
    }
}

} // verus!
