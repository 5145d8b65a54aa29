//! Unsigned integers in decimal notation: the text of a number, and the
//! number that a text denotes.

use vstd::prelude::*;

verus! {

/// Whether `c` is one of the ten decimal digits.
pub open spec fn is_digit(c: char) -> bool {
    '0' <= c <= '9'
}

/// The digit that stands for `d`, where `d < 10`.
pub open spec fn digit_char(d: nat) -> char {
    (('0' as u8) + (d as u8)) as char
}

/// The value of the digit `c`, and 0 for any other character.
pub open spec fn digit_value(c: char) -> nat {
    if is_digit(c) {
        (c as u32 - '0' as u32) as nat
    } else {
        0
    }
}

/// The shortest decimal text of `n`: no sign, and no leading zero but for 0.
pub open spec fn decimal(n: nat) -> Seq<char>
    decreases n,
{
    if n < 10 {
        seq![digit_char(n)]
    } else {
        decimal(n / 10).push(digit_char(n % 10))
    }
}

/// The number that the digits of `s` denote, read from the left.
pub open spec fn number(s: Seq<char>) -> nat
    decreases s.len(),
{
    if s.len() == 0 {
        0
    } else {
        number(s.drop_last()) * 10 + digit_value(s.last())
    }
}

/// Whether every character of `s` is a decimal digit.
pub open spec fn all_digits(s: Seq<char>) -> bool {
    forall|i: int| 0 <= i < s.len() ==> is_digit(#[trigger] s[i])
}

/// `s` without one leading plus sign.
pub open spec fn unsigned_part(s: Seq<char>) -> Seq<char> {
    if s.len() > 0 && s[0] == '+' {
        s.skip(1)
    } else {
        s
    }
}

/// The number that `s` denotes if it is one optional plus sign followed by
/// at least one digit and nothing else, and the number is at most `max`.
pub open spec fn parse_decimal(s: Seq<char>, max: nat) -> Option<nat> {
    let d = unsigned_part(s);
    if d.len() > 0 && all_digits(d) && number(d) <= max {
        Some(number(d))
    } else {
        None
    }
}

/// A prefix of a text denotes at most what the whole text denotes.
pub proof fn lemma_number_prefix(s: Seq<char>, k: int)
    requires
        0 <= k <= s.len(),
    ensures
        number(s.take(k)) <= number(s),
    decreases s.len() - k,
{
    if k == s.len() {
        assert(s.take(k) =~= s);
    } else {
        lemma_number_prefix(s, k + 1);
        let t = s.take(k + 1);
        assert(t.drop_last() =~= s.take(k));
        assert(number(t) == number(s.take(k)) * 10 + digit_value(t.last()));
    }
}

/// The decimal text of a number is made of digits, holds no space, and
/// denotes that number.
pub proof fn lemma_decimal(n: nat)
    ensures
        decimal(n).len() >= 1,
        all_digits(decimal(n)),
        number(decimal(n)) == n,
        !decimal(n).contains(' '),
        decimal(n)[0] != '+',
    decreases n,
{
    let s = decimal(n);
    if n < 10 {
        assert(s.drop_last() =~= Seq::<char>::empty());
        assert(number(s.drop_last()) == 0);
        assert(is_digit(digit_char(n)));
        assert(digit_value(digit_char(n)) == n);
    } else {
        let p = decimal(n / 10);
        lemma_decimal(n / 10);
        assert(s.drop_last() =~= p);
        assert(is_digit(digit_char(n % 10)));
        assert(digit_value(digit_char(n % 10)) == n % 10);
        assert(s[0] == p[0]);
    }
    assert(!s.contains(' ')) by {
        if s.contains(' ') {
            let i = choose|i: int| 0 <= i < s.len() && s[i] == ' ';
            assert(is_digit(s[i]));
        }
    }
}

/// The decimal text of a number holds no character that is not a digit.
pub proof fn lemma_decimal_lacks(n: nat, c: char)
    requires
        !is_digit(c),
    ensures
        !decimal(n).contains(c),
{
    lemma_decimal(n);
    let s = decimal(n);
    if s.contains(c) {
        let i = choose|i: int| 0 <= i < s.len() && s[i] == c;
        assert(is_digit(s[i]));
    }
}

/// Reading the decimal text of a number gives the number back.
pub proof fn lemma_parse_decimal(n: nat, max: nat)
    requires
        n <= max,
    ensures
        parse_decimal(decimal(n), max) == Some(n),
{
    lemma_decimal(n);
}

/// Appends the decimal text of `n` to `v`.
pub fn push_decimal(v: &mut Vec<char>, n: u128)
    ensures
        final(v)@ == old(v)@ + decimal(n as nat),
    decreases n,
{
    if n >= 10 {
        push_decimal(v, n / 10);
    }
    let d: u8 = (n % 10) as u8;
    v.push((48u8 + d) as char);
    proof {
        if n >= 10 {
            assert(v@ =~= old(v)@ + decimal((n / 10) as nat).push(digit_char((n % 10) as nat)));
        } else {
            assert(v@ =~= old(v)@ + seq![digit_char(n as nat)]);
        }
    }
}

/// The decimal text of `n`.
pub fn render_decimal(n: u128) -> (v: Vec<char>)
    ensures
        v@ == decimal(n as nat),
{
    let mut v: Vec<char> = Vec::new();
    push_decimal(&mut v, n);
    assert(v@ =~= decimal(n as nat));
    v
}

/// Reads a decimal number of at most `max` from `v`.
pub fn parse_number(v: &Vec<char>, max: u64) -> (r: Option<u64>)
    ensures
        r == match parse_decimal(v@, max as nat) {
            Some(n) => Some(n as u64),
            None => None,
        },
{
    let start: usize = if v.len() > 0 && v[0] == '+' { 1 } else { 0 };
    let ghost d = unsigned_part(v@);
    assert(d =~= v@.skip(start as int));
    if start == v.len() {
        return None;
    }
    let mut acc: u64 = 0;
    let mut i: usize = start;
    while i < v.len()
        invariant
            start <= i <= v.len(),
            d == v@.skip(start as int),
            d == unsigned_part(v@),
            acc == number(d.take(i - start)),
            acc <= max,
            all_digits(d.take(i - start)),
        decreases v.len() - i,
    {
        let c = v[i];
        let ghost t = d.take(i - start + 1);
        proof {
            assert(t.drop_last() =~= d.take(i - start));
            assert(t.last() == c);
        }
        if !(c >= '0' && c <= '9') {
            assert(!is_digit(d[i - start]));
            return None;
        }
        let digit: u64 = (c as u32 - '0' as u32) as u64;
        if digit > max || acc > (max - digit) / 10 {
            proof {
                assert(number(t) == acc * 10 + digit);
                assert(number(t) > max);
                lemma_number_prefix(d, i - start + 1);
            }
            return None;
        }
        acc = acc * 10 + digit;
        proof {
            assert forall|j: int| 0 <= j < t.len() implies is_digit(#[trigger] t[j]) by {
                if j < t.len() - 1 {
                    assert(t[j] == d.take(i - start)[j]);
                }
            }
        }
        i += 1;
    }
    assert(d.take(i - start) =~= d);
    Some(acc)
}

} // verus!
