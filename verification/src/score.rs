//! The text form of the best score: a non-negative whole number in decimal
//! digits, as it is kept between sessions.

use vstd::prelude::*;

verus! {

/// The byte is one of the digits `0` to `9`.
pub open spec fn is_digit(b: u8) -> bool {
    48 <= b <= 57
}

/// Every byte is a digit.
pub open spec fn all_digits(s: Seq<u8>) -> bool {
    forall|i: int| 0 <= i < s.len() ==> is_digit(#[trigger] s[i])
}

/// The number that a run of digits spells, the first digit weighing most.
pub open spec fn digits_value(s: Seq<u8>) -> nat
    decreases s.len(),
{
    if s.len() == 0 {
        0
    } else {
        10 * digits_value(s.drop_last()) + (s.last() - 48) as nat
    }
}

/// The text without the plus sign that may stand at its start.
pub open spec fn unsigned_part(s: Seq<u8>) -> Seq<u8> {
    if s.len() > 0 && s[0] == 43 {
        s.subrange(1, s.len() as int)
    } else {
        s
    }
}

/// The score that a text stands for. A text counts if it is one or more
/// digits, after an optional plus sign, that spell a number within the
/// range of the score; any other text stands for 0.
pub open spec fn parsed_score(s: Seq<u8>) -> nat {
    let d = unsigned_part(s);
    if d.len() > 0 && all_digits(d) && digits_value(d) <= u128::MAX {
        digits_value(d)
    } else {
        0
    }
}

/// The decimal digits of a number, without leading zeros.
pub open spec fn decimal(n: nat) -> Seq<u8>
    decreases n,
{
    if n < 10 {
        seq![(48 + n) as u8]
    } else {
        decimal(n / 10).push((48 + n % 10) as u8)
    }
}

proof fn lemma_digits_grow(s: Seq<u8>, k: int)
    requires
        all_digits(s),
        0 <= k <= s.len(),
    ensures
        digits_value(s.take(k)) <= digits_value(s),
    decreases s.len() - k,
{
    if k < s.len() {
        lemma_digits_grow(s, k + 1);
        assert(s.take(k + 1).drop_last() =~= s.take(k));
        assert(is_digit(s[k]));
    } else {
        assert(s.take(k) =~= s);
    }
}

/// Reads a score from its text. Anything but a decimal number in range
/// reads as 0.
pub fn parse_score(text: &[u8]) -> (n: u128)
    ensures
        n == parsed_score(text@),
{
    let len = text.len();
    let start: usize = if len > 0 && text[0] == 43 {
        1
    } else {
        0
    };
    let ghost d = unsigned_part(text@);
    if start == len {
        return 0;
    }
    let mut acc: u128 = 0;
    let mut i: usize = start;
    assert(d.take(0) =~= Seq::<u8>::empty());
    while i < len
        invariant
            start <= i <= len,
            len == text@.len(),
            d == unsigned_part(text@),
            d.len() == len - start,
            d.len() > 0,
            forall|k: int| 0 <= k < d.len() ==> d[k] == text@[start + k],
            all_digits(d.take(i - start)),
            acc == digits_value(d.take(i - start)),
        decreases len - i,
    {
        let c = text[i];
        let ghost k = i - start;
        assert(d.take(k + 1).drop_last() =~= d.take(k));
        assert(d.take(k + 1).last() == c);
        if c < 48 || c > 57 {
            assert(!is_digit(d[k]));
            return 0;
        }
        let v = (c - 48) as u128;
        if acc > (u128::MAX - v) / 10 {
            proof {
                if all_digits(d) {
                    lemma_digits_grow(d, k + 1);
                }
            }
            return 0;
        }
        acc = acc * 10 + v;
        i += 1;
    }
    assert(d.take(len - start) =~= d);
    acc
}

/// Writes a score as text: its decimal digits, without leading zeros.
pub fn format_score(n: u128) -> (text: Vec<u8>)
    ensures
        text@ == decimal(n as nat),
    decreases n,
{
    if n < 10 {
        let mut text: Vec<u8> = Vec::new();
        text.push(48 + n as u8);
        assert(text@ =~= decimal(n as nat));
        text
    } else {
        let mut text = format_score(n / 10);
        text.push(48 + (n % 10) as u8);
        text
    }
}

/// The digits of a number are digits, do not start with a sign, and spell
/// the number.
pub proof fn lemma_decimal_spells(n: nat)
    ensures
        decimal(n).len() > 0,
        all_digits(decimal(n)),
        digits_value(decimal(n)) == n,
    decreases n,
{
    if n < 10 {
        assert(decimal(n).drop_last() =~= Seq::<u8>::empty());
        reveal_with_fuel(digits_value, 2);
    } else {
        lemma_decimal_spells(n / 10);
        assert(decimal(n).drop_last() =~= decimal(n / 10));
    }
}

/// A score that is written and read again is the same score.
pub proof fn lemma_score_round_trip(n: u128)
    ensures
        parsed_score(decimal(n as nat)) == n,
{
    lemma_decimal_spells(n as nat);
    assert(is_digit(decimal(n as nat)[0]));
}

} // verus!
