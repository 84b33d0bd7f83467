//! Decimal numbers: written as text, and read back as ports.
use vstd::prelude::*;

use crate::text::chars_of;

verus! {

/// The character of a decimal digit.
pub open spec fn digit(d: nat) -> char {
    (48 + d) as char
}

/// `c` is one of the characters `0` to `9`.
pub open spec fn is_digit(c: char) -> bool {
    '0' <= c <= '9'
}

/// What the digit `c` stands for.
pub open spec fn digit_value(c: char) -> nat {
    (c as int - 48) as nat
}

/// `n` in decimal, without leading zeros.
pub open spec fn decimal(n: nat) -> Seq<char>
    decreases n,
{
    if n < 10 {
        seq![digit(n)]
    } else {
        decimal(n / 10).push(digit(n % 10))
    }
}

/// Every character of `s` is a digit.
pub open spec fn all_digits(s: Seq<char>) -> bool {
    forall|i: int| 0 <= i < s.len() ==> is_digit(#[trigger] s[i])
}

/// The number that a sequence of digits stands for.
pub open spec fn value(s: Seq<char>) -> nat
    decreases s.len(),
{
    if s.len() == 0 {
        0
    } else {
        value(s.drop_last()) * 10 + digit_value(s.last())
    }
}

/// `s` without a plus sign in front.
pub open spec fn unsigned_part(s: Seq<char>) -> Seq<char> {
    if s.len() > 0 && s[0] == '+' {
        s.drop_first()
    } else {
        s
    }
}

/// The port that `s` writes: an optional plus sign and then digits only, at least one, whose
/// number is at most 65535. Any other text is no port.
pub open spec fn port_in(s: Seq<char>) -> Option<u16> {
    let digits = unsigned_part(s);
    if digits.len() > 0 && all_digits(digits) && value(digits) <= u16::MAX {
        Some(value(digits) as u16)
    } else {
        None
    }
}

fn digit_text(d: u64) -> (s: &'static str)
    requires
        d < 10,
    ensures
        s@ == seq![digit(d as nat)],
{
    proof {
        reveal_strlit("0");
        reveal_strlit("1");
        reveal_strlit("2");
        reveal_strlit("3");
        reveal_strlit("4");
        reveal_strlit("5");
        reveal_strlit("6");
        reveal_strlit("7");
        reveal_strlit("8");
        reveal_strlit("9");
    }
    if d == 0 {
        "0"
    } else if d == 1 {
        "1"
    } else if d == 2 {
        "2"
    } else if d == 3 {
        "3"
    } else if d == 4 {
        "4"
    } else if d == 5 {
        "5"
    } else if d == 6 {
        "6"
    } else if d == 7 {
        "7"
    } else if d == 8 {
        "8"
    } else {
        "9"
    }
}

/// Writes `n` in decimal.
pub fn to_decimal(n: u64) -> (s: String)
    ensures
        s@ == decimal(n as nat),
    decreases n,
{
    if n < 10 {
        digit_text(n).to_string()
    } else {
        let mut s = to_decimal(n / 10);
        s.append(digit_text(n % 10));
        assert(s@ =~= decimal((n / 10) as nat).push(digit((n % 10) as nat)));
        s
    }
}

proof fn lemma_value_grows(s: Seq<char>, k: int)
    requires
        0 <= k <= s.len(),
    ensures
        value(s.take(k)) <= value(s),
    decreases s.len(),
{
    if k == s.len() {
        assert(s.take(k) =~= s);
    } else {
        assert(s.drop_last().take(k) =~= s.take(k));
        lemma_value_grows(s.drop_last(), k);
    }
}

/// Reads a port.
pub fn parse_port(s: &str) -> (r: Option<u16>)
    ensures
        r == port_in(s@),
{
    let v = chars_of(s);
    let n: usize = v.len();
    let start: usize = if n > 0 && v[0] == '+' {
        1
    } else {
        0
    };
    let ghost digits = unsigned_part(s@);
    assert(digits =~= s@.skip(start as int));
    if start == n {
        return None;
    }
    let mut acc: u32 = 0;
    let mut i: usize = start;
    while i < n
        invariant
            start <= i <= n,
            n == v@.len(),
            v@ == s@,
            digits == s@.skip(start as int),
            digits == unsigned_part(s@),
            acc == value(digits.take(i - start)),
            acc <= 65535,
            forall|j: int| 0 <= j < i - start ==> is_digit(#[trigger] digits[j]),
        decreases n - i,
    {
        let c = v[i];
        assert(c == digits[i - start]);
        if c < '0' || '9' < c {
            return None;
        }
        let ghost upto = digits.take(i + 1 - start);
        assert(upto.drop_last() =~= digits.take(i - start));
        acc = acc * 10 + (c as u32 - 48);
        assert(acc == value(upto));
        if acc > 65535 {
            proof {
                lemma_value_grows(digits, i + 1 - start);
            }
            return None;
        }
        i += 1;
    }
    assert(digits.take(n - start) =~= digits);
    Some(acc as u16)
}

proof fn lemma_decimal(n: nat)
    ensures
        decimal(n).len() > 0,
        all_digits(decimal(n)),
        value(decimal(n)) == n,
    decreases n,
{
    if n < 10 {
        reveal_with_fuel(value, 2);
        assert(decimal(n).drop_last() =~= Seq::<char>::empty());
    } else {
        lemma_decimal(n / 10);
        assert(decimal(n).drop_last() =~= decimal(n / 10));
    }
}

/// A port that was written in decimal reads back as itself.
pub proof fn lemma_port_round_trip(port: u16)
    ensures
        port_in(decimal(port as nat)) == Some(port),
{
    lemma_decimal(port as nat);
    assert(is_digit(decimal(port as nat)[0]));
}

/// The digits of a number, counted from the right, are its ones, tens, hundreds and so on; there
/// are as many as the number needs.
pub proof fn lemma_digits_by_place(n: nat, i: int)
    ensures
        n < vstd::arithmetic::power::pow(10, decimal(n).len()),
        decimal(n).len() >= 1,
        decimal(n).len() > 1 ==> vstd::arithmetic::power::pow(10, (decimal(n).len() - 1) as nat)
            <= n,
        0 <= i < decimal(n).len() ==> decimal(n)[decimal(n).len() - 1 - i] as int == 48 + (n as int
            / vstd::arithmetic::power::pow(10, i as nat)) % 10,
    decreases n,
{
    let len = decimal(n).len();
    vstd::arithmetic::power::lemma_pow0(10);
    vstd::arithmetic::power::lemma_pow1(10);
    if n >= 10 {
        let q = n / 10;
        lemma_digits_by_place(q, i - 1);
        assert(decimal(n) == decimal(q).push(digit(n % 10)));
        vstd::arithmetic::power::lemma_pow_adds(10, 1, (len - 1) as nat);
        assert(vstd::arithmetic::power::pow(10, len) == 10 * vstd::arithmetic::power::pow(
            10,
            (len - 1) as nat,
        ));
        if len - 1 > 1 {
            vstd::arithmetic::power::lemma_pow_adds(10, 1, (len - 2) as nat);
        }
        if 0 < i < len {
            let p = vstd::arithmetic::power::pow(10, (i - 1) as nat);
            vstd::arithmetic::power::lemma_pow_positive(10, (i - 1) as nat);
            vstd::arithmetic::power::lemma_pow_adds(10, 1, (i - 1) as nat);
            assert(vstd::arithmetic::power::pow(10, i as nat) == 10 * p);
            vstd::arithmetic::div_mod::lemma_div_denominator(n as int, 10, p);
            assert(decimal(n)[len - 1 - i] == decimal(q)[decimal(q).len() - 1 - (i - 1)]);
        }
    }
}

/// So many zeros.
pub open spec fn zeros(k: nat) -> Seq<char> {
    Seq::new(k, |i: int| '0')
}

proof fn lemma_zeros_add_nothing(k: nat, s: Seq<char>)
    ensures
        value(zeros(k) + s) == value(s),
    decreases k + s.len(),
{
    let all = zeros(k) + s;
    if s.len() > 0 {
        assert(all.drop_last() =~= zeros(k) + s.drop_last());
        lemma_zeros_add_nothing(k, s.drop_last());
    } else if k > 0 {
        let fewer = (k - 1) as nat;
        assert(all.drop_last() =~= zeros(fewer) + s);
        lemma_zeros_add_nothing(fewer, s);
        assert(all.last() == '0');
    } else {
        assert(all =~= s);
    }
}

/// A port is read from its decimal digits, with any number of zeros and a plus sign before them
/// or without.
pub proof fn lemma_port_is_read(zero_count: nat, port: u16)
    ensures
        port_in(zeros(zero_count) + decimal(port as nat)) == Some(port),
        port_in(seq!['+'] + (zeros(zero_count) + decimal(port as nat))) == Some(port),
{
    let digits = zeros(zero_count) + decimal(port as nat);
    lemma_decimal(port as nat);
    lemma_zeros_add_nothing(zero_count, decimal(port as nat));
    assert forall|i: int| 0 <= i < digits.len() implies is_digit(#[trigger] digits[i]) by {
        if i >= zero_count {
            assert(digits[i] == decimal(port as nat)[i - zero_count]);
        }
    }
    assert(is_digit(digits[0]));
    assert((seq!['+'] + digits).drop_first() =~= digits);
}

proof fn lemma_digits_are_decimal(s: Seq<char>) -> (k: nat)
    requires
        s.len() > 0,
        all_digits(s),
    ensures
        s == zeros(k) + decimal(value(s)),
    decreases s.len(),
{
    let last = digit_value(s.last());
    assert(is_digit(s[s.len() - 1]));
    assert(s.last() == digit(last));
    if s.len() == 1 {
        reveal_with_fuel(value, 2);
        assert(s =~= zeros(0) + decimal(value(s)));
        0
    } else {
        let head = s.drop_last();
        assert forall|i: int| 0 <= i < head.len() implies is_digit(#[trigger] head[i]) by {
            assert(is_digit(s[i]));
        }
        let k = lemma_digits_are_decimal(head);
        assert(s =~= head.push(s.last()));
        if value(head) > 0 {
            assert(value(s) / 10 == value(head) && value(s) % 10 == last);
            assert(s =~= zeros(k) + decimal(value(s)));
            k
        } else {
            assert(value(s) == last);
            assert(s =~= zeros(k + 1) + decimal(value(s)));
            k + 1
        }
    }
}

/// Whatever is read as a port is that port in decimal, with zeros and a plus sign before it at
/// most.
pub proof fn lemma_only_ports_are_read(s: Seq<char>) -> (zero_count: nat)
    requires
        port_in(s) is Some,
    ensures
        s == zeros(zero_count) + decimal(port_in(s)->0 as nat) || s == seq!['+'] + (zeros(
            zero_count,
        ) + decimal(port_in(s)->0 as nat)),
{
    let digits = unsigned_part(s);
    let k = lemma_digits_are_decimal(digits);
    if s[0] == '+' {
        assert(s =~= seq!['+'] + digits);
    }
    k
}

} // verus!
