use vstd::prelude::*;

verus! {

pub const DIGIT_ZERO: u8 = 48;

/// An ASCII decimal digit.
pub open spec fn is_digit(b: u8) -> bool {
    48 <= b <= 57
}

/// Every byte of `s` is an ASCII decimal digit.
pub open spec fn all_digits(s: Seq<u8>) -> bool {
    forall|i: int| 0 <= i < s.len() ==> is_digit(#[trigger] s[i])
}

/// The number that the digits `s` write in base ten.
pub open spec fn decimal_value(s: Seq<u8>) -> nat
    decreases s.len(),
{
    if s.len() == 0 {
        0
    } else {
        10 * decimal_value(s.drop_last()) + (s.last() - 48) as nat
    }
}

/// The unsigned integer that `s` writes: one or more decimal digits, and
/// nothing else, whose value fits the machine word. Anything else, the empty
/// sequence and a number with a sign too, writes no number.
pub open spec fn parse_number(s: Seq<u8>) -> Option<usize> {
    if s.len() > 0 && all_digits(s) && decimal_value(s) <= usize::MAX {
        Some(decimal_value(s) as usize)
    } else {
        None
    }
}

/// The shortest way to write `n` in decimal digits.
pub open spec fn digits_of(n: nat) -> Seq<u8>
    decreases n,
{
    if n < 10 {
        seq![(48 + n) as u8]
    } else {
        digits_of(n / 10).push((48 + n % 10) as u8)
    }
}

/// The value of a prefix of a number's digits is no larger than the number.
pub proof fn lemma_decimal_value_prefix(s: Seq<u8>, k: int)
    requires
        0 <= k <= s.len(),
    ensures
        decimal_value(s.take(k)) <= decimal_value(s),
    decreases s.len() - k,
{
    if k < s.len() {
        lemma_decimal_value_prefix(s, k + 1);
        assert(s.take(k + 1).drop_last() =~= s.take(k));
    } else {
        assert(s.take(k) =~= s);
    }
}

/// What `digits_of` writes is one or more digits.
pub proof fn lemma_digits_of_are_digits(n: nat)
    ensures
        digits_of(n).len() > 0,
        all_digits(digits_of(n)),
    decreases n,
{
    if n >= 10 {
        lemma_digits_of_are_digits(n / 10);
    }
}

/// What `digits_of` writes has the value that was written.
pub proof fn lemma_value_of_digits(n: nat)
    ensures
        decimal_value(digits_of(n)) == n,
    decreases n,
{
    if n < 10 {
        assert(digits_of(n).drop_last() =~= Seq::<u8>::empty());
        assert(decimal_value(Seq::<u8>::empty()) == 0);
    } else {
        lemma_value_of_digits(n / 10);
        assert(digits_of(n).drop_last() =~= digits_of(n / 10));
    }
}

/// A number that fits the machine word is read back from its own digits.
pub proof fn lemma_parse_digits_of(n: nat)
    requires
        n <= usize::MAX,
    ensures
        parse_number(digits_of(n)) == Some(n as usize),
{
    lemma_digits_of_are_digits(n);
    lemma_value_of_digits(n);
}

/// Reads an unsigned decimal number: digits only. `None` where `s` is no
/// such number or the number does not fit.
pub fn parse_decimal(s: &[u8]) -> (res: Option<usize>)
    ensures
        res == parse_number(s@),
{
    if s.len() == 0 {
        return None;
    }
    let mut acc: usize = 0;
    let mut i: usize = 0;
    assert(s@.take(0) =~= Seq::<u8>::empty());
    while i < s.len()
        invariant
            i <= s@.len(),
            all_digits(s@.take(i as int)),
            acc as nat == decimal_value(s@.take(i as int)),
        decreases s@.len() - i,
    {
        let b = s[i];
        if b < DIGIT_ZERO || b > 57 {
            return None;
        }
        let digit: usize = (b - DIGIT_ZERO) as usize;
        proof {
            assert(s@.take(i + 1).drop_last() =~= s@.take(i as int));
            assert(s@.take(i + 1).last() == b);
            lemma_decimal_value_prefix(s@, i + 1);
        }
        if acc > (usize::MAX - digit) / 10 {
            return None;
        }
        acc = acc * 10 + digit;
        i = i + 1;
        assert forall|j: int| 0 <= j < s@.take(i as int).len() implies is_digit(
            #[trigger] s@.take(i as int)[j],
        ) by {
            if j < i - 1 {
                assert(s@.take(i - 1)[j] == s@[j]);
            }
        }
    }
    assert(s@.take(i as int) =~= s@);
    Some(acc)
}

/// Writes `n` in decimal digits, the shortest way.
pub fn decimal_digits(n: usize) -> (res: Vec<u8>)
    ensures
        res@ == digits_of(n as nat),
    decreases n,
{
    if n < 10 {
        let mut v: Vec<u8> = Vec::new();
        v.push(DIGIT_ZERO + n as u8);
        assert(v@ =~= digits_of(n as nat));
        v
    } else {
        let mut v = decimal_digits(n / 10);
        v.push(DIGIT_ZERO + (n % 10) as u8);
        v
    }
}

} // verus!
