//! Whole numbers in decimal digits: what a run of digits is worth, and how a number is spelled.
use crate::text::{text_between, text_of, trimmed};
use vstd::prelude::*;

verus! {

pub open spec fn is_digit(c: char) -> bool {
    '0' <= c <= '9'
}

/// Every character of `s` is a decimal digit. Nothing at all is such a text.
pub open spec fn digits_or_empty(s: Seq<char>) -> bool {
    forall|i: int| 0 <= i < s.len() ==> is_digit(#[trigger] s[i])
}

/// One decimal digit or more, and nothing else.
pub open spec fn digits(s: Seq<char>) -> bool {
    s.len() > 0 && digits_or_empty(s)
}

pub open spec fn digit_value(c: char) -> nat {
    (c as nat - '0' as nat) as nat
}

pub open spec fn digit_char(d: nat) -> char {
    ('0' as nat + d) as char
}

/// The number that a run of decimal digits stands for; nothing at all stands for zero.
pub open spec fn value(s: Seq<char>) -> nat
    decreases s.len(),
{
    if s.len() == 0 {
        0
    } else {
        value(s.drop_last()) * 10 + digit_value(s.last())
    }
}

/// The one spelling of a number in decimal digits that has no leading zero.
pub open spec fn numeral(n: nat) -> Seq<char>
    decreases n,
{
    if n < 10 {
        seq![digit_char(n)]
    } else {
        numeral(n / 10).push(digit_char(n % 10))
    }
}

/// `10` to the power `k`.
pub open spec fn ten_to(k: nat) -> nat
    decreases k,
{
    if k == 0 {
        1
    } else {
        10 * ten_to((k - 1) as nat)
    }
}

/// `k` zeros.
pub open spec fn zeros(k: nat) -> Seq<char> {
    Seq::new(k, |i: int| '0')
}

pub open spec fn all_zeros(s: Seq<char>) -> bool {
    forall|i: int| 0 <= i < s.len() ==> #[trigger] s[i] == '0'
}

/// A number's own spelling is digits, and stands for that number.
pub proof fn lemma_numeral(n: nat)
    ensures
        digits(numeral(n)),
        value(numeral(n)) == n,
        n > 0 ==> numeral(n)[0] != '0',
    decreases n,
{
    reveal_with_fuel(value, 2);
    if n < 10 {
        assert(numeral(n).drop_last() =~= Seq::<char>::empty());
    } else {
        lemma_numeral(n / 10);
        assert(numeral(n).drop_last() =~= numeral(n / 10));
        assert(numeral(n)[0] == numeral(n / 10)[0]);
    }
}

/// Digits that do not start with a zero are the spelling of the number they stand for.
pub proof fn lemma_numeral_of_value(s: Seq<char>)
    requires
        digits(s),
        s.len() == 1 || s[0] != '0',
    ensures
        numeral(value(s)) == s,
        s[0] != '0' ==> value(s) > 0,
    decreases s.len(),
{
    reveal_with_fuel(value, 2);
    let head = s.drop_last();
    assert(is_digit(s.last()));
    assert(digit_char(digit_value(s.last())) == s.last());
    if s.len() == 1 {
        assert(head =~= Seq::<char>::empty());
        assert(value(s) == digit_value(s.last()));
        assert(numeral(value(s)) =~= s);
    } else {
        assert(head[0] == s[0]);
        lemma_numeral_of_value(head);
        assert(value(s) / 10 == value(head));
        assert(value(s) % 10 == digit_value(s.last()));
        assert(value(s) >= 10);
        assert(numeral(value(s)) =~= s);
    }
}

/// What `a` followed by `b` is worth.
pub proof fn lemma_value_concat(a: Seq<char>, b: Seq<char>)
    ensures
        value(a + b) == value(a) * ten_to(b.len()) + value(b),
    decreases b.len(),
{
    reveal_with_fuel(value, 2);
    if b.len() == 0 {
        assert(a + b =~= a);
        assert(value(a) * ten_to(0) == value(a)) by (nonlinear_arith)
            requires
                ten_to(0) == 1,
        ;
    } else {
        let c = b.drop_last();
        lemma_value_concat(a, c);
        assert((a + b).drop_last() =~= a + c);
        assert((a + b).last() == b.last());
        let (v, t, w) = (value(a) as int, ten_to(c.len()) as int, value(c) as int);
        assert((v * t + w) * 10 == v * (10 * t) + w * 10) by (nonlinear_arith);
    }
}

pub proof fn lemma_value_zeros(s: Seq<char>)
    requires
        all_zeros(s),
    ensures
        value(s) == 0,
    decreases s.len(),
{
    if s.len() > 0 {
        lemma_value_zeros(s.drop_last());
        assert(s.last() == '0');
    }
}

/// Digits worth nothing are zeros.
pub proof fn lemma_zero_value(s: Seq<char>)
    requires
        digits_or_empty(s),
        value(s) == 0,
    ensures
        all_zeros(s),
    decreases s.len(),
{
    if s.len() > 0 {
        let head = s.drop_last();
        assert(is_digit(s.last()));
        assert(forall|i: int| 0 <= i < head.len() ==> head[i] == s[i]);
        lemma_zero_value(head);
        assert forall|i: int| 0 <= i < s.len() implies #[trigger] s[i] == '0' by {
            if i < head.len() {
                assert(head[i] == '0');
            }
        }
    }
}

/// `n` digits are worth less than `10` to the power `n`.
pub proof fn lemma_value_bound(s: Seq<char>)
    requires
        digits_or_empty(s),
    ensures
        value(s) < ten_to(s.len()),
    decreases s.len(),
{
    if s.len() > 0 {
        let head = s.drop_last();
        assert(is_digit(s.last()));
        assert(forall|i: int| 0 <= i < head.len() ==> head[i] == s[i]);
        lemma_value_bound(head);
    }
}

pub proof fn lemma_ten_to_add(a: nat, b: nat)
    ensures
        ten_to(a + b) == ten_to(a) * ten_to(b),
    decreases b,
{
    if b == 0 {
        assert(ten_to(a) * 1 == ten_to(a));
    } else {
        lemma_ten_to_add(a, (b - 1) as nat);
        let (x, y) = (ten_to(a) as int, ten_to((b - 1) as nat) as int);
        assert(10 * (x * y) == x * (10 * y)) by (nonlinear_arith);
    }
}

pub proof fn lemma_ten_to_positive(k: nat)
    ensures
        ten_to(k) >= 1,
    decreases k,
{
    if k > 0 {
        lemma_ten_to_positive((k - 1) as nat);
    }
}

/// `s` without its leading zeros, but for the last digit of a run of nothing but zeros.
pub open spec fn stripped(s: Seq<char>) -> Seq<char>
    decreases s.len(),
{
    if s.len() > 1 && s[0] == '0' {
        stripped(s.drop_first())
    } else {
        s
    }
}

/// Stripping digits of their leading zeros leaves the spelling of the number they stand for.
pub proof fn lemma_stripped(s: Seq<char>)
    requires
        digits(s),
    ensures
        stripped(s) == numeral(value(s)),
    decreases s.len(),
{
    if s.len() > 1 && s[0] == '0' {
        let rest = s.drop_first();
        assert(forall|i: int| 0 <= i < rest.len() ==> rest[i] == s[i + 1]);
        lemma_stripped(rest);
        let zero = seq!['0'];
        assert(s =~= zero + rest);
        lemma_value_concat(zero, rest);
        lemma_value_zeros(zero);
        assert(0 * ten_to(rest.len()) == 0);
    } else {
        lemma_numeral_of_value(s);
    }
}

pub fn digit(c: char) -> (r: bool)
    ensures
        r == is_digit(c),
{
    '0' <= c && c <= '9'
}

/// Whether `s`, from `from` up to `to`, is nothing but digits.
pub fn digits_between(s: &Vec<char>, from: usize, to: usize) -> (r: bool)
    requires
        from <= to <= s@.len(),
    ensures
        r == digits_or_empty(s@.subrange(from as int, to as int)),
{
    let ghost part = s@.subrange(from as int, to as int);
    let mut i: usize = from;
    while i < to
        invariant
            from <= i <= to <= s@.len(),
            part == s@.subrange(from as int, to as int),
            forall|j: int| 0 <= j < i - from ==> is_digit(#[trigger] part[j]),
        decreases to - i,
    {
        if !digit(s[i]) {
            assert(!is_digit(part[i - from]));
            return false;
        }
        i += 1;
    }
    true
}

/// Where `s` starts once its leading zeros are gone, the last digit kept.
pub fn strip_leading_zeros(s: &Vec<char>) -> (r: String)
    ensures
        r@ == stripped(s@),
{
    let end: usize = s.len();
    let mut lo: usize = 0;
    assert(s@.subrange(0, s@.len() as int) == s@);
    while lo + 1 < end && s[lo] == '0'
        invariant
            lo <= s@.len(),
            end == s@.len(),
            lo < s@.len() || lo == 0,
            stripped(s@) == stripped(s@.subrange(lo as int, s@.len() as int)),
        decreases s@.len() - lo,
    {
        let ghost rest = s@.subrange(lo as int, s@.len() as int);
        assert(rest.drop_first() == s@.subrange(lo + 1, s@.len() as int));
        lo += 1;
    }
    text_between(s, lo, end)
}

/// A whole number with its sign: a minus in front of a negative one, nothing in front of another.
pub open spec fn signed(n: int) -> Seq<char> {
    if n < 0 {
        seq!['-'] + numeral((-n) as nat)
    } else {
        numeral(n as nat)
    }
}

fn decimal_chars(n: u64) -> (r: Vec<char>)
    ensures
        r@ == numeral(n as nat),
    decreases n,
{
    if n < 10 {
        let c: char = ('0' as u8 + n as u8) as char;
        let mut out: Vec<char> = Vec::new();
        out.push(c);
        assert(out@ =~= numeral(n as nat));
        out
    } else {
        let c: char = ('0' as u8 + (n % 10) as u8) as char;
        let mut out = decimal_chars(n / 10);
        out.push(c);
        out
    }
}

/// `n` in decimal digits.
pub fn decimal(n: u64) -> (r: String)
    ensures
        r@ == numeral(n as nat),
{
    text_of(&decimal_chars(n))
}

/// `n` in decimal digits, behind a minus where it is negative.
pub fn signed_decimal(n: i64) -> (r: String)
    ensures
        r@ == signed(n as int),
{
    if n >= 0 {
        return decimal(n as u64);
    }
    let size: u64 = if n == i64::MIN {
        0x8000_0000_0000_0000
    } else {
        (-n) as u64
    };
    let mut out = String::new();
    out.push('-');
    out.append(decimal(size).as_str());
    assert(out@ =~= signed(n as int));
    out
}

/// Digits have no white space around them.
pub proof fn lemma_digits_trim(s: Seq<char>)
    requires
        digits(s),
    ensures
        trimmed(s) == s,
{
}

/// A longer run of digits is worth no less.
proof fn lemma_value_prefix(s: Seq<char>, k: int)
    requires
        0 <= k <= s.len(),
    ensures
        value(s.take(k)) <= value(s),
    decreases s.len(),
{
    if k == s.len() {
        assert(s.take(k) =~= s);
    } else {
        lemma_value_prefix(s.drop_last(), k);
        assert(s.drop_last().take(k) =~= s.take(k));
    }
}

/// The number that `s` stands for, where 64 bits hold it.
pub fn parse_u64(s: &Vec<char>) -> (r: Option<u64>)
    requires
        digits_or_empty(s@),
    ensures
        match r {
            Some(n) => n == value(s@),
            None => value(s@) > u64::MAX,
        },
{
    let mut n: u64 = 0;
    let mut i: usize = 0;
    while i < s.len()
        invariant
            i <= s@.len(),
            digits_or_empty(s@),
            n == value(s@.take(i as int)),
        decreases s@.len() - i,
    {
        let c: char = s[i];
        assert(is_digit(s@[i as int]));
        let d: u64 = (c as u8 - '0' as u8) as u64;
        let ghost next = s@.take(i + 1);
        assert(next.drop_last() =~= s@.take(i as int));
        assert(value(next) == n * 10 + d);
        proof {
            lemma_value_prefix(s@, i + 1);
        }
        if n > 1844674407370955161 || (n == 1844674407370955161 && d > 5) {
            return None;
        }
        n = n * 10 + d;
        i += 1;
    }
    assert(s@.take(s@.len() as int) =~= s@);
    Some(n)
}

} // verus!
