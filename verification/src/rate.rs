//! The rate line, around the one float that it is worked out in: which amounts have a rate, how
//! many places it is written to, and how it is spelled once it is written.
use crate::digits::{
    all_zeros, digits, digits_between, lemma_digits_trim, lemma_value_zeros, lemma_zero_value,
    parse_u64, value,
};
use crate::form::is_zeros;
use crate::text::{chars_of, text_between};
use crate::unit_laws::lemma_exact;
use crate::units::{base_value, end_without, exact, from_base_units_exact, is_digits, no_trailing};
use vstd::prelude::*;

verus! {

/// The two amounts of a rate in token units, every digit, where both are amounts and neither is
/// nothing.
pub open spec fn terms(
    amount_in: Seq<char>,
    decimals_in: u32,
    amount_out: Seq<char>,
    decimals_out: u32,
) -> Option<(Seq<char>, Seq<char>)> {
    if digits(amount_in) && digits(amount_out) && !all_zeros(amount_in) && !all_zeros(
        amount_out,
    ) {
        Some((exact(amount_in, decimals_in as nat), exact(amount_out, decimals_out as nat)))
    } else {
        None
    }
}

/// The two amounts of a rate in token units, every digit. `None` where one of them is no amount, or
/// is nothing: that has no rate.
pub fn rate_terms(amount_in: &str, decimals_in: u32, amount_out: &str, decimals_out: u32) -> (r:
    Option<(String, String)>)
    ensures
        match r {
            Some(t) => terms(amount_in@, decimals_in, amount_out@, decimals_out) == Some(
                (t.0@, t.1@),
            ),
            None => terms(amount_in@, decimals_in, amount_out@, decimals_out) is None,
        },
{
    if !is_digits(amount_in) || !is_digits(amount_out) || is_zeros(amount_in) || is_zeros(
        amount_out,
    ) {
        return None;
    }
    proof {
        lemma_digits_trim(amount_in@);
        lemma_digits_trim(amount_out@);
    }
    match (
        from_base_units_exact(amount_in, decimals_in),
        from_base_units_exact(amount_out, decimals_out),
    ) {
        (Some(i), Some(o)) => Some((i, o)),
        _ => None,
    }
}

/// Two amounts have a rate exactly when both are numbers above zero, and its terms are those
/// amounts, exactly.
pub proof fn law_which_amounts_have_a_rate(
    amount_in: Seq<char>,
    decimals_in: u32,
    amount_out: Seq<char>,
    decimals_out: u32,
)
    ensures
        terms(amount_in, decimals_in, amount_out, decimals_out) is Some <==> digits(amount_in)
            && digits(amount_out) && value(amount_in) > 0 && value(amount_out) > 0,
        terms(amount_in, decimals_in, amount_out, decimals_out) matches Some(t) ==> base_value(
            t.0,
            decimals_in as nat,
        ) == value(amount_in) && base_value(t.1, decimals_out as nat) == value(amount_out),
{
    if digits(amount_in) && digits(amount_out) {
        lemma_exact(amount_in, decimals_in as nat);
        lemma_exact(amount_out, decimals_out as nat);
        lemma_nothing(amount_in);
        lemma_nothing(amount_out);
    }
}

proof fn lemma_nothing(s: Seq<char>)
    requires
        digits(s),
    ensures
        all_zeros(s) <==> value(s) == 0,
{
    if all_zeros(s) {
        lemma_value_zeros(s);
    }
    if value(s) == 0 {
        lemma_zero_value(s);
    }
}

/// What stands behind the last 'e'; the whole text where it has none.
pub open spec fn behind_e(s: Seq<char>) -> Seq<char>
    decreases s.len(),
{
    if s.len() == 0 {
        s
    } else if s.last() == 'e' {
        Seq::empty()
    } else {
        behind_e(s.drop_last()).push(s.last())
    }
}

/// The number that a text spells, digits behind a sign or none, where 32 bits hold it; zero for any
/// other text.
pub open spec fn small_number(s: Seq<char>) -> int {
    let negative = s.len() > 0 && s[0] == '-';
    let figures = if s.len() > 0 && (s[0] == '-' || s[0] == '+') {
        s.skip(1)
    } else {
        s
    };
    if !digits(figures) {
        0
    } else if negative && value(figures) <= 0x8000_0000 {
        -(value(figures) as int)
    } else if !negative && value(figures) <= 0x7fff_ffff {
        value(figures) as int
    } else {
        0
    }
}

/// How many places a rate of that exponent is written to: enough for six significant digits, and
/// twelve where an exponent would have to be spelled.
pub open spec fn places_for(exponent: int) -> int {
    if -4 <= exponent < 6 {
        5 - exponent
    } else {
        12
    }
}

/// Where the text behind the last 'e' starts.
fn after_e(s: &Vec<char>) -> (r: usize)
    ensures
        r <= s@.len(),
        s@.skip(r as int) == behind_e(s@),
{
    let end: usize = s.len();
    let mut i: usize = end;
    assert(s@.skip(end as int) =~= Seq::<char>::empty());
    assert(s@.take(end as int) =~= s@);
    while i > 0 && s[i - 1] != 'e'
        invariant
            i <= end,
            end == s@.len(),
            behind_e(s@) == behind_e(s@.take(i as int)) + s@.skip(i as int),
        decreases i,
    {
        proof {
            let head = s@.take(i as int);
            assert(head.drop_last() =~= s@.take(i - 1));
            assert(head.last() == s@[i - 1]);
            assert(behind_e(head) == behind_e(s@.take(i - 1)).push(s@[i - 1]));
            assert(behind_e(s@.take(i - 1)).push(s@[i - 1]) + s@.skip(i as int) =~= behind_e(
                s@.take(i - 1),
            ) + s@.skip(i - 1));
        }
        i -= 1;
    }
    assert(behind_e(s@.take(i as int)) =~= Seq::<char>::empty());
    assert(behind_e(s@) =~= s@.skip(i as int));
    i
}

/// How many places a rate is written to, from how it reads in scientific notation.
pub fn rate_places(scientific: &str) -> (r: usize)
    ensures
        r == places_for(small_number(behind_e(scientific@))),
{
    let s = chars_of(scientific);
    let end: usize = s.len();
    let from: usize = after_e(&s);
    let ghost tail = behind_e(s@);
    let negative: bool = from < end && s[from] == '-';
    let start: usize = if from < end && (s[from] == '-' || s[from] == '+') {
        from + 1
    } else {
        from
    };
    let mut figures: Vec<char> = Vec::new();
    let mut i: usize = start;
    while i < end
        invariant
            start <= i <= end,
            end == s@.len(),
            figures@ == s@.subrange(start as int, i as int),
        decreases end - i,
    {
        figures.push(s[i]);
        i += 1;
        assert(figures@ =~= s@.subrange(start as int, i as int));
    }
    proof {
        assert(tail.len() == end - from);
        if tail.len() > 0 {
            assert(tail[0] == s@[from as int]);
        }
        if start > from {
            assert(figures@ =~= tail.skip(1));
        } else {
            assert(figures@ =~= tail);
        }
    }
    let len: usize = figures.len();
    assert(figures@.subrange(0, len as int) =~= figures@);
    if len == 0 || !digits_between(&figures, 0, len) {
        return 5;
    }
    let n: u64 = match parse_u64(&figures) {
        Some(n) => n,
        None => {
            return 5;
        },
    };
    if negative {
        if n <= 4 {
            return 5 + n as usize;
        }
        if n <= 0x8000_0000 {
            return 12;
        }
        return 5;
    }
    if n < 6 {
        return 5 - n as usize;
    }
    if n <= 0x7fff_ffff {
        return 12;
    }
    5
}

/// A rate as it is shown: without the zeros it ends with behind its point, and without a point that
/// ends it.
pub open spec fn tidied(fixed: Seq<char>) -> Seq<char> {
    if fixed.contains('.') {
        no_trailing(no_trailing(fixed, '0'), '.')
    } else {
        fixed
    }
}

/// A rate as it is shown, from how it reads to a fixed number of places.
pub fn rate_text(fixed: &str) -> (r: String)
    ensures
        r@ == tidied(fixed@),
{
    let s = chars_of(fixed);
    let end: usize = s.len();
    let mut i: usize = 0;
    while i < end && s[i] != '.'
        invariant
            i <= end,
            end == s@.len(),
            forall|j: int| 0 <= j < i ==> s@[j] != '.',
        decreases end - i,
    {
        i += 1;
    }
    assert(s@.subrange(0, end as int) =~= s@);
    if i == end {
        assert(!s@.contains('.'));
        return text_between(&s, 0, end);
    }
    assert(s@[i as int] == '.');
    let zeros_gone: usize = end_without(&s, 0, end, '0');
    let point_gone: usize = end_without(&s, 0, zeros_gone, '.');
    text_between(&s, 0, point_gone)
}

/// The exponent of a rate in scientific notation is what stands behind its last "e".
pub proof fn law_the_exponent_stands_behind_the_e(front: Seq<char>, back: Seq<char>)
    requires
        forall|i: int| 0 <= i < back.len() ==> back[i] != 'e',
    ensures
        behind_e(front + seq!['e'] + back) == back,
        behind_e(back) == back,
    decreases back.len(),
{
    let s = front + seq!['e'] + back;
    if back.len() == 0 {
        assert(s.last() == 'e');
        assert(behind_e(s) =~= back);
    } else {
        let head = back.drop_last();
        assert(forall|i: int| 0 <= i < head.len() ==> head[i] == back[i]);
        law_the_exponent_stands_behind_the_e(front, head);
        assert(s.drop_last() =~= front + seq!['e'] + head);
        assert(s.last() == back.last());
        assert(back.last() == back[back.len() - 1]);
        assert(behind_e(s) =~= back);
        assert(behind_e(back) =~= back);
    }
}

/// Digits are the exponent they are worth, behind a minus the one below zero, and behind a plus the
/// same as without; what 32 bits do not hold is an exponent of zero.
pub proof fn law_what_an_exponent_is(figures: Seq<char>)
    requires
        digits(figures),
    ensures
        value(figures) <= 0x7fff_ffff ==> small_number(figures) == value(figures) && small_number(
            seq!['+'] + figures,
        ) == value(figures),
        value(figures) > 0x7fff_ffff ==> small_number(figures) == 0 && small_number(
            seq!['+'] + figures,
        ) == 0,
        value(figures) <= 0x8000_0000 ==> small_number(seq!['-'] + figures) == -(value(
            figures,
        ) as int),
        value(figures) > 0x8000_0000 ==> small_number(seq!['-'] + figures) == 0,
        small_number(Seq::empty()) == 0,
{
    assert((seq!['+'] + figures).skip(1) =~= figures);
    assert((seq!['-'] + figures).skip(1) =~= figures);
    assert(crate::digits::is_digit(figures[0]));
}

/// A text that is no digits, behind a sign or without one, is an exponent of zero.
pub proof fn law_what_no_exponent_is(s: Seq<char>)
    requires
        !digits(s),
    ensures
        small_number(seq!['+'] + s) == 0,
        small_number(seq!['-'] + s) == 0,
        s.len() > 0 && s[0] != '+' && s[0] != '-' ==> small_number(s) == 0,
{
    assert((seq!['+'] + s).skip(1) =~= s);
    assert((seq!['-'] + s).skip(1) =~= s);
}

/// A rate is written to six significant digits, as many places as that takes; where it is a million
/// or more, or less than a ten-thousandth, to twelve places.
pub proof fn law_how_many_places_a_rate_has(exponent: int)
    ensures
        -4 <= exponent <= 5 ==> places_for(exponent) + exponent == 5,
        exponent < -4 || exponent > 5 ==> places_for(exponent) == 12,
{
}

proof fn lemma_cut_off(s: Seq<char>, c: char)
    ensures
        no_trailing(s, c).len() <= s.len(),
        no_trailing(s, c) == s.take(no_trailing(s, c).len() as int),
        no_trailing(s, c).len() > 0 ==> no_trailing(s, c).last() != c,
        forall|i: int| no_trailing(s, c).len() <= i < s.len() ==> s[i] == c,
    decreases s.len(),
{
    if s.len() > 0 && s.last() == c {
        lemma_cut_off(s.drop_last(), c);
        let n = no_trailing(s, c).len() as int;
        assert(s.drop_last().take(n) =~= s.take(n));
        assert forall|i: int| n <= i < s.len() implies s[i] == c by {
            if i < s.len() - 1 {
                assert(s.drop_last()[i] == c);
            }
        }
    } else {
        assert(s.take(s.len() as int) =~= s);
    }
}

/// A rate without a point is shown as it is. One with a point is shown without the zeros it ends
/// with, all of them, and then without the point where that is what it ends with; nothing else is
/// taken off.
pub proof fn law_what_is_taken_off_a_rate(fixed: Seq<char>) -> (points: int)
    ensures
        !fixed.contains('.') ==> tidied(fixed) == fixed,
        fixed.contains('.') ==> {
            let n = tidied(fixed).len() as int;
            &&& n <= points <= fixed.len()
            &&& tidied(fixed) == fixed.take(n)
            &&& forall|i: int| n <= i < points ==> #[trigger] fixed[i] == '.'
            &&& forall|i: int| points <= i < fixed.len() ==> #[trigger] fixed[i] == '0'
            &&& points > 0 ==> fixed[points - 1] != '0'
            &&& n > 0 ==> fixed[n - 1] != '.'
        },
{
    let bare = no_trailing(fixed, '0');
    lemma_cut_off(fixed, '0');
    lemma_cut_off(bare, '.');
    let n = no_trailing(bare, '.').len() as int;
    assert(bare.take(n) =~= fixed.take(n));
    assert forall|i: int| n <= i < bare.len() implies #[trigger] fixed[i] == '.' by {
        assert(bare[i] == '.');
    }
    if bare.len() > 0 {
        assert(bare.last() == fixed[bare.len() - 1]);
    }
    if n > 0 {
        assert(no_trailing(bare, '.').last() == fixed[n - 1]);
    }
    bare.len() as int
}

} // verus!
