//! What holds of amounts as a whole: that they read back exactly, and that a display never says
//! more than there is.
use crate::digits::{
    all_zeros, digits, digits_or_empty, is_digit, lemma_numeral, lemma_ten_to_add,
    lemma_ten_to_positive, lemma_value_bound, lemma_value_concat, lemma_value_zeros,
    lemma_zero_value, numeral, ten_to, value, zeros,
};
use crate::text::{is_space, trimmed};
use crate::units::{
    amount, base_value, cut_short, exact, first_dot, fraction, lemma_first_dot, no_trailing, padded,
    shown, sliver, whole, PLACES,
};
use vstd::prelude::*;

verus! {

proof fn lemma_no_trailing(s: Seq<char>, c: char)
    ensures
        no_trailing(s, c).len() <= s.len(),
        no_trailing(s, c) == s.take(no_trailing(s, c).len() as int),
        no_trailing(s, c).len() > 0 ==> no_trailing(s, c).last() != c,
        forall|i: int| no_trailing(s, c).len() <= i < s.len() ==> s[i] == c,
    decreases s.len(),
{
    if s.len() > 0 && s.last() == c {
        lemma_no_trailing(s.drop_last(), c);
        let n = no_trailing(s, c).len() as int;
        assert(s.drop_last().take(n) =~= s.take(n));
        assert forall|i: int| n <= i < s.len() implies s[i] == c by {
            if i < s.len() - 1 {
                assert(s.drop_last()[i] == c);
            }
        }
    } else {
        assert(s.take(s.len() as int) =~= s);
    }
}

/// Trailing zeros behind the point are worth nothing.
proof fn lemma_places(s: Seq<char>)
    requires
        digits_or_empty(s),
    ensures
        digits_or_empty(no_trailing(s, '0')),
        value(s) == value(no_trailing(s, '0')) * ten_to(
            (s.len() - no_trailing(s, '0').len()) as nat,
        ),
        no_trailing(s, '0').len() > 0 ==> value(no_trailing(s, '0')) > 0,
{
    let n = no_trailing(s, '0');
    lemma_no_trailing(s, '0');
    let z = s.skip(n.len() as int);
    assert(s =~= n + z);
    lemma_value_concat(n, z);
    assert(all_zeros(z)) by {
        assert forall|i: int| 0 <= i < z.len() implies #[trigger] z[i] == '0' by {
            assert(s[n.len() + i] == '0');
        }
    }
    lemma_value_zeros(z);
    assert(forall|i: int| 0 <= i < n.len() ==> n[i] == s[i]);
    if n.len() > 0 {
        assert(is_digit(n.last()));
        if value(n) == 0 {
            lemma_zero_value(n);
        }
    }
}

/// Text that neither starts nor ends with white space is trimmed already.
proof fn lemma_trimmed(s: Seq<char>)
    requires
        s.len() > 0 ==> !is_space(s[0]) && !is_space(s.last()),
    ensures
        trimmed(s) == s,
{
}

/// An exact figure in its parts: the digits in front of the point and those behind it, which
/// together are the amount it was made of.
pub proof fn lemma_exact(t: Seq<char>, decimals: nat)
    requires
        digits(t),
    ensures
        ({
            let e = exact(t, decimals);
            &&& trimmed(e) == e
            &&& amount(e, decimals)
            &&& whole(e).len() > 0
            &&& fraction(e).len() > 0 ==> fraction(e).last() != '0' && value(fraction(e)) > 0
            &&& base_value(e, decimals) == value(t)
            &&& e == (if fraction(e).len() == 0 {
                whole(e)
            } else {
                whole(e) + seq!['.'] + fraction(e)
            })
            &&& first_dot(e) == whole(e).len()
        }),
{
    let p = padded(t, decimals);
    let point = p.len() - decimals;
    let (head, tail) = (p.take(point), p.skip(point));
    let places = no_trailing(tail, '0');
    let e = exact(t, decimals);
    assert(digits(p)) by {
        assert forall|i: int| 0 <= i < p.len() implies is_digit(#[trigger] p[i]) by {
            let pad = p.len() - t.len();
            if i >= pad {
                assert(p[i] == t[i - pad]);
            }
        }
    }
    if t.len() <= decimals {
        let z = zeros((decimals - t.len() + 1) as nat);
        lemma_value_concat(z, t);
        lemma_value_zeros(z);
        assert(0 * ten_to(t.len()) == 0);
    }
    assert(value(p) == value(t));
    assert(p =~= head + tail);
    lemma_value_concat(head, tail);
    assert(forall|i: int| 0 <= i < head.len() ==> head[i] == p[i]);
    assert(forall|i: int| 0 <= i < tail.len() ==> tail[i] == p[point + i]);
    lemma_places(tail);
    lemma_no_trailing(tail, '0');
    assert(is_digit(head[0]));
    assert forall|i: int| 0 <= i < point implies e[i] != '.' by {
        assert(e[i] == head[i]);
        assert(is_digit(head[i]));
    }
    assert(is_digit(e[0]) && is_digit(e.last())) by {
        assert(e[0] == head[0]);
        if places.len() == 0 {
            assert(e.last() == head.last());
            assert(is_digit(head[head.len() - 1]));
        } else {
            assert(e.last() == places.last());
            assert(is_digit(places[places.len() - 1]));
        }
    }
    lemma_trimmed(e);
    lemma_first_dot(e, point);
    assert(whole(e) =~= head);
    assert(fraction(e) =~= places);
    assert(e =~= (if places.len() == 0 {
        head
    } else {
        head + seq!['.'] + places
    }));
}

/// Base units read back exactly: what they are in token units, taken as an amount of that token,
/// is those base units again.
pub proof fn law_read_back(base: Seq<char>, decimals: nat)
    requires
        digits(base),
    ensures
        amount(trimmed(exact(base, decimals)), decimals),
        base_value(trimmed(exact(base, decimals)), decimals) == value(base),
        numeral(base_value(trimmed(exact(base, decimals)), decimals)) == numeral(value(base)),
{
    lemma_exact(base, decimals);
}

/// An amount that a human types, put into base units and back into token units, is the same amount.
pub proof fn law_typed_amount_survives(units: Seq<char>, decimals: nat)
    requires
        amount(trimmed(units), decimals),
    ensures
        ({
            let base = numeral(base_value(trimmed(units), decimals));
            &&& digits(base)
            &&& amount(trimmed(exact(base, decimals)), decimals)
            &&& base_value(trimmed(exact(base, decimals)), decimals) == base_value(
                trimmed(units),
                decimals,
            )
        }),
{
    let n = base_value(trimmed(units), decimals);
    lemma_numeral(n);
    law_read_back(numeral(n), decimals);
}

/// Cutting what ends a text, behind a part that does not end so, leaves that part alone.
proof fn lemma_no_trailing_behind(a: Seq<char>, b: Seq<char>, c: char)
    requires
        a.len() > 0,
        a.last() != c,
    ensures
        no_trailing(a + b, c) == a + no_trailing(b, c),
    decreases b.len(),
{
    if b.len() == 0 {
        assert(a + b =~= a);
        assert(a + no_trailing(b, c) =~= a);
    } else {
        assert((a + b).last() == b.last());
        if b.last() == c {
            assert((a + b).drop_last() =~= a + b.drop_last());
            lemma_no_trailing_behind(a, b.drop_last(), c);
        }
    }
}

/// What a figure with more than five places is cut to: its whole part, and the first five places
/// without the zeros they end with.
proof fn lemma_cut(t: Seq<char>, decimals: nat)
    requires
        digits(t),
        fraction(exact(t, decimals)).len() > PLACES,
    ensures
        ({
            let e = exact(t, decimals);
            let cut = cut_short(e);
            let five = fraction(e).take(PLACES as int);
            let places = no_trailing(five, '0');
            &&& whole(cut) == whole(e)
            &&& fraction(cut) == places
            &&& digits_or_empty(five)
            &&& all_zeros(cut) <==> value(whole(e)) == 0 && value(five) == 0
            &&& value(five) == value(places) * ten_to((PLACES - places.len()) as nat)
            &&& places.len() <= PLACES
            &&& digits_or_empty(places)
        }),
{
    let e = exact(t, decimals);
    let cut = cut_short(e);
    let w = whole(e);
    let f = fraction(e);
    let five = f.take(PLACES as int);
    let places = no_trailing(five, '0');
    lemma_exact(t, decimals);
    assert(forall|i: int| 0 <= i < five.len() ==> five[i] == f[i]);
    let front = w + seq!['.'];
    assert(e.take(first_dot(e) + 1 + PLACES) =~= front + five);
    lemma_no_trailing_behind(front, five, '0');
    lemma_places(five);
    lemma_no_trailing(five, '0');
    assert(is_digit(w[w.len() - 1]));
    if places.len() == 0 {
        assert(front + places =~= front);
        assert(front.drop_last() =~= w);
        assert(w.last() != '.');
        assert(no_trailing(w, '.') == w);
        assert(no_trailing(front, '.') == no_trailing(w, '.'));
        assert(cut =~= w);
        assert forall|i: int| 0 <= i < w.len() implies cut[i] != '.' by {
            assert(is_digit(w[i]));
        }
        lemma_first_dot(cut, w.len() as int);
        assert(whole(cut) =~= w);
        assert(fraction(cut) =~= places);
        assert(value(places) == 0);
        assert(0 * ten_to((PLACES - places.len()) as nat) == 0);
        if all_zeros(w) {
            lemma_value_zeros(w);
        }
        if value(w) == 0 {
            lemma_zero_value(w);
        }
    } else {
        assert((front + places).last() == places.last());
        assert(is_digit(places[places.len() - 1]));
        assert(cut =~= front + places);
        assert forall|i: int| 0 <= i < w.len() implies cut[i] != '.' by {
            assert(is_digit(w[i]));
        }
        lemma_first_dot(cut, w.len() as int);
        assert(whole(cut) =~= w);
        assert(fraction(cut) =~= places);
        assert(cut[w.len() as int] == '.');
        lemma_ten_to_positive((PLACES - places.len()) as nat);
        assert(value(five) > 0) by (nonlinear_arith)
            requires
                value(five) == value(places) * ten_to((PLACES - places.len()) as nat),
                value(places) > 0,
                ten_to((PLACES - places.len()) as nat) >= 1,
        ;
    }
}

/// What cutting to five places leaves out, and what it leaves.
proof fn lemma_cut_value(t: Seq<char>, decimals: nat)
    requires
        digits(t),
        fraction(exact(t, decimals)).len() > PLACES,
    ensures
        ({
            let e = exact(t, decimals);
            let five = fraction(e).take(PLACES as int);
            let unit = ten_to((decimals - PLACES) as nat);
            let kept = value(whole(e)) * ten_to(decimals) + value(five) * unit;
            &&& decimals > PLACES
            &&& base_value(cut_short(e), decimals) == kept
            &&& kept <= value(t) < kept + unit
        }),
{
    let e = exact(t, decimals);
    let f = fraction(e);
    lemma_exact(t, decimals);
    lemma_cut(t, decimals);
    let (five, more) = (f.take(PLACES as int), f.skip(PLACES as int));
    let places = fraction(cut_short(e));
    assert(f =~= five + more);
    assert(digits_or_empty(more)) by {
        assert forall|i: int| 0 <= i < more.len() implies is_digit(#[trigger] more[i]) by {
            assert(is_digit(f[PLACES + i]));
        }
    }
    lemma_value_concat(five, more);
    lemma_value_bound(more);
    let (a, b, c, u) = (
        (decimals - f.len()) as nat,
        more.len(),
        (PLACES - places.len()) as nat,
        (decimals - PLACES) as nat,
    );
    assert(b + a == u);
    assert(c + u == decimals - places.len());
    lemma_ten_to_add(b, a);
    lemma_ten_to_add(c, u);
    lemma_ten_to_positive(a);
    lemma_cut_arithmetic(
        value(five) as int,
        value(more) as int,
        value(places) as int,
        ten_to(a) as int,
        ten_to(b) as int,
        ten_to(c) as int,
    );
    let head = value(whole(e)) * ten_to(decimals);
    assert(value(t) == head + value(f) * ten_to(a));
    assert(base_value(cut_short(e), decimals) == head + value(places) * ten_to(
        (decimals - places.len()) as nat,
    ));
}

proof fn lemma_cut_arithmetic(v: int, m: int, p: int, ta: int, tb: int, tc: int)
    requires
        v == p * tc,
        0 <= m < tb,
        ta >= 1,
    ensures
        v * (tb * ta) <= (v * tb + m) * ta < v * (tb * ta) + tb * ta,
        p * (tc * (tb * ta)) == v * (tb * ta),
{
    assert((v * tb + m) * ta == v * (tb * ta) + m * ta) by (nonlinear_arith);
    assert(0 <= m * ta < tb * ta) by (nonlinear_arith)
        requires
            0 <= m < tb,
            ta >= 1,
    ;
    assert(p * (tc * (tb * ta)) == (p * tc) * (tb * ta)) by (nonlinear_arith);
}

/// A display never reads as more than there is. It falls short of the amount by less than one in
/// the fifth place; and "<0.00001" is shown for exactly the amounts that are not nothing and yet
/// less than that.
pub proof fn law_display_truncates(base: Seq<char>, decimals: nat)
    requires
        digits(base),
    ensures
        sliver(base, decimals) <==> 0 < value(base) && value(base) * ten_to(5) < ten_to(decimals),
        sliver(base, decimals) ==> shown(base, decimals) == "<0.00001"@,
        !sliver(base, decimals) ==> {
            let s = shown(base, decimals);
            &&& amount(s, decimals)
            &&& fraction(s).len() <= 5
            &&& base_value(s, decimals) <= value(base)
            &&& (value(base) - base_value(s, decimals)) * ten_to(5) < ten_to(decimals)
        },
{
    let e = exact(base, decimals);
    let (w, f) = (whole(e), fraction(e));
    let n = value(base);
    lemma_exact(base, decimals);
    lemma_ten_to_positive(decimals);
    assert(e.len() == w.len() + (if f.len() == 0 {
        0
    } else {
        1 + f.len()
    }));
    if f.len() > PLACES {
        lemma_cut(base, decimals);
        lemma_cut_value(base, decimals);
        let five = f.take(PLACES as int);
        let unit = ten_to((decimals - PLACES) as nat) as int;
        lemma_ten_to_add((decimals - PLACES) as nat, 5);
        let (x, y, full) = (value(w) as int, value(five) as int, ten_to(decimals) as int);
        let kept = x * full + y * unit;
        assert(full == unit * ten_to(5));
        assert(ten_to(5) == 100000) by {
            reveal_with_fuel(ten_to, 6);
        }
        assert((n - kept) * 100000 < full);
        // The amount is not nothing: its last place is not a zero.
        lemma_ten_to_positive((decimals - f.len()) as nat);
        assert(n > 0) by (nonlinear_arith)
            requires
                n == x * full + value(f) * ten_to((decimals - f.len()) as nat),
                value(f) > 0,
                ten_to((decimals - f.len()) as nat) >= 1,
                x >= 0,
                full >= 1,
        ;
        if x == 0 && y == 0 {
            assert(kept == 0) by (nonlinear_arith)
                requires
                    kept == x * full + y * unit,
                    x == 0,
                    y == 0,
            ;
        } else {
            assert(kept >= unit) by (nonlinear_arith)
                requires
                    kept == x * full + y * unit,
                    x >= 1 || y >= 1,
                    x >= 0,
                    y >= 0,
                    full == unit * 100000,
                    unit >= 1,
            ;
        }
    } else {
        assert(ten_to(5) == 100000) by {
            reveal_with_fuel(ten_to, 6);
        }
        if 0 < n {
            let rest = (decimals - f.len()) as nat;
            lemma_ten_to_add(rest, f.len());
            lemma_ten_to_positive(rest);
            lemma_ten_to_add(f.len(), (5 - f.len()) as nat);
            lemma_ten_to_positive((5 - f.len()) as nat);
            let (x, y, t, u, k) = (
                value(w) as int,
                value(f) as int,
                ten_to(rest) as int,
                ten_to(f.len()) as int,
                ten_to((5 - f.len()) as nat) as int,
            );
            let full = ten_to(decimals) as int;
            assert(n == x * full + y * t);
            assert(n >= t) by (nonlinear_arith)
                requires
                    n == x * full + y * t,
                    n > 0,
                    full == t * u,
                    t >= 1,
                    u >= 1,
                    x >= 0,
                    y >= 0,
            ;
            assert(n * 100000 >= full) by (nonlinear_arith)
                requires
                    n >= t,
                    full == t * u,
                    u * k == 100000,
                    u >= 1,
                    k >= 1,
                    t >= 1,
            ;
        }
    }
}

/// What a display shows of an amount: "<0.00001" of one that is not nothing and yet less than that;
/// else its digits in front of the point, all of them, and of those behind it the first five,
/// without the zeros that they end with.
pub proof fn law_what_a_display_shows(base: Seq<char>, decimals: nat)
    requires
        digits(base),
    ensures
        ({
            let (e, s) = (exact(base, decimals), shown(base, decimals));
            if 0 < value(base) && value(base) * 100000 < ten_to(decimals) {
                s == "<0.00001"@
            } else {
                let n = fraction(s).len() as int;
                &&& whole(s) == whole(e)
                &&& n <= 5
                &&& n <= fraction(e).len()
                &&& fraction(s) == fraction(e).take(n)
                &&& n > 0 ==> fraction(s).last() != '0'
                &&& forall|i: int|
                    n <= i < 5 && i < fraction(e).len() ==> #[trigger] fraction(e)[i] == '0'
                &&& s == (if n == 0 {
                    whole(s)
                } else {
                    whole(s) + seq!['.'] + fraction(s)
                })
            }
        }),
{
    let (e, s) = (exact(base, decimals), shown(base, decimals));
    lemma_exact(base, decimals);
    law_display_truncates(base, decimals);
    assert(ten_to(5) == 100000) by {
        reveal_with_fuel(ten_to, 6);
    }
    if !sliver(base, decimals) {
        assert(e.len() - first_dot(e) - 1 <= PLACES <==> fraction(e).len() <= PLACES);
        if fraction(e).len() <= PLACES {
            assert(s == e);
            assert(fraction(e).take(fraction(e).len() as int) =~= fraction(e));
        } else {
            lemma_cut(base, decimals);
            let five = fraction(e).take(PLACES as int);
            lemma_no_trailing(five, '0');
            let n = fraction(s).len() as int;
            assert(five.take(n) =~= fraction(e).take(n));
            assert forall|i: int| n <= i < 5 && i < fraction(e).len() implies #[trigger] fraction(
                e,
            )[i] == '0' by {
                assert(five[i] == '0');
            }
            lemma_cut_spelled(base, decimals);
        }
    }
}

proof fn lemma_cut_spelled(t: Seq<char>, decimals: nat)
    requires
        digits(t),
        fraction(exact(t, decimals)).len() > PLACES,
    ensures
        ({
            let cut = cut_short(exact(t, decimals));
            cut == (if fraction(cut).len() == 0 {
                whole(cut)
            } else {
                whole(cut) + seq!['.'] + fraction(cut)
            })
        }),
{
    let e = exact(t, decimals);
    let cut = cut_short(e);
    let w = whole(e);
    let five = fraction(e).take(PLACES as int);
    let places = no_trailing(five, '0');
    lemma_exact(t, decimals);
    lemma_cut(t, decimals);
    let front = w + seq!['.'];
    assert(e.take(first_dot(e) + 1 + PLACES) =~= front + five);
    lemma_no_trailing_behind(front, five, '0');
    assert(is_digit(w[w.len() - 1]));
    if places.len() == 0 {
        assert(front + places =~= front);
        assert(front.drop_last() =~= w);
        assert(no_trailing(w, '.') == w);
        assert(cut =~= w);
    } else {
        assert((front + places).last() == places.last());
        assert(is_digit(places[places.len() - 1]));
        assert(cut =~= front + places);
    }
}

} // verus!
