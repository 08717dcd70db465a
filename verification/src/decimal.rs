//! Decimal notation for non-negative integers.

use vstd::prelude::*;

verus! {

/// The character that writes the digit `d`, for `d` below ten.
pub open spec fn digit_char(d: nat) -> char {
    (d + 48) as char
}

/// Whether `c` is one of `'0'` to `'9'`.
pub open spec fn is_digit(c: char) -> bool {
    '0' <= c && c <= '9'
}

/// The digit that `c` writes.
pub open spec fn digit_of(c: char) -> nat {
    (c as nat - 48) as nat
}

/// Whether every character of `s` is a decimal digit.
pub open spec fn all_digits(s: Seq<char>) -> bool {
    forall|i: int| 0 <= i < s.len() ==> is_digit(#[trigger] s[i])
}

/// The shortest decimal notation of `n`: no leading zero, `"0"` for zero.
pub open spec fn decimal_text(n: nat) -> Seq<char>
    decreases n,
{
    if n < 10 {
        seq![digit_char(n)]
    } else {
        decimal_text(n / 10).push(digit_char(n % 10))
    }
}

/// The number that the digits of `s` write, most significant first; zero for
/// the empty sequence.
pub open spec fn digits_value(s: Seq<char>) -> nat
    decreases s.len(),
{
    if s.len() == 0 {
        0
    } else {
        digits_value(s.drop_last()) * 10 + digit_of(s.last())
    }
}

/// Writing a number and reading the digits back gives the number.
pub proof fn lemma_decimal_text_value(n: nat)
    ensures
        decimal_text(n).len() >= 1,
        all_digits(decimal_text(n)),
        digits_value(decimal_text(n)) == n,
    decreases n,
{
    if n < 10 {
        let s = decimal_text(n);
        assert(s.drop_last() =~= Seq::<char>::empty());
        assert(digits_value(s.drop_last()) == 0);
    } else {
        lemma_decimal_text_value(n / 10);
        let s = decimal_text(n);
        assert(s.drop_last() =~= decimal_text(n / 10));
    }
}

/// A longer run of digits writes a number at least as large as any of its
/// prefixes does.
pub proof fn lemma_digits_value_prefix(s: Seq<char>, k: int)
    requires
        0 <= k <= s.len(),
    ensures
        digits_value(s.subrange(0, k)) <= digits_value(s),
    decreases s.len(),
{
    if k == s.len() {
        assert(s.subrange(0, k) =~= s);
    } else {
        lemma_digits_value_prefix(s.drop_last(), k);
        assert(s.drop_last().subrange(0, k) =~= s.subrange(0, k));
    }
}

/// The number that `s` writes in decimal, where `s` is a non-empty run of
/// digits whose value fits in 64 bits.
pub open spec fn decimal_value(s: Seq<char>) -> Option<u64> {
    if s.len() > 0 && all_digits(s) && digits_value(s) <= u64::MAX {
        Some(digits_value(s) as u64)
    } else {
        None
    }
}

/// Reads `chars[from..to]` as a decimal number.
pub fn parse_decimal(chars: &Vec<char>, from: usize, to: usize) -> (value: Option<u64>)
    requires
        from <= to <= chars.len(),
    ensures
        value == decimal_value(chars@.subrange(from as int, to as int)),
{
    let ghost whole = chars@.subrange(from as int, to as int);
    if from == to {
        return None;
    }
    let mut value: u64 = 0;
    let mut i: usize = from;
    proof {
        assert(whole.subrange(0, 0) =~= Seq::<char>::empty());
    }
    while i < to
        invariant
            from <= i <= to <= chars.len(),
            whole == chars@.subrange(from as int, to as int),
            all_digits(whole.subrange(0, i - from)),
            value == digits_value(whole.subrange(0, i - from)),
        decreases to - i,
    {
        let c = chars[i];
        if c < '0' || c > '9' {
            assert(!is_digit(whole[i - from]));
            return None;
        }
        let digit: u64 = (c as u32 - 48) as u64;
        let ghost next = whole.subrange(0, i - from + 1);
        proof {
            assert(next.drop_last() =~= whole.subrange(0, i - from));
            assert(next.last() == c);
            assert(digits_value(next) == value * 10 + digit);
            lemma_digits_value_prefix(whole, i - from + 1);
            assert forall|k: int| 0 <= k < next.len() implies is_digit(#[trigger] next[k]) by {
                if k < i - from {
                    assert(whole.subrange(0, i - from)[k] == next[k]);
                }
            }
        }
        let tens: u64 = match value.checked_mul(10) {
            Some(t) => t,
            None => {
                return None;
            },
        };
        value = match tens.checked_add(digit) {
            Some(v) => v,
            None => {
                return None;
            },
        };
        i = i + 1;
    }
    proof {
        assert(whole.subrange(0, to - from) =~= whole);
    }
    Some(value)
}

/// Appends the decimal notation of `n` to `out`.
pub fn push_decimal(out: &mut Vec<char>, n: u128)
    ensures
        final(out)@ == old(out)@ + decimal_text(n as nat),
{
    let mut digits: Vec<char> = Vec::new();
    let mut rest: u128 = n;
    // Least significant digit first.
    while rest >= 10
        invariant
            decimal_text(n as nat) == decimal_text(rest as nat) + digits@.reverse(),
        decreases rest,
    {
        let d: u8 = (rest % 10) as u8;
        let c: char = (d + 48) as char;
        proof {
            let r = rest as nat;
            assert(decimal_text(r) == decimal_text(r / 10).push(digit_char(r % 10)));
            assert(digits@.push(c).reverse() =~= seq![c] + digits@.reverse());
            assert(decimal_text(r / 10).push(c) + digits@.reverse() =~= decimal_text(r / 10) + (
            seq![c] + digits@.reverse()));
        }
        digits.push(c);
        rest = rest / 10;
    }
    let lead: char = ((rest as u8) + 48) as char;
    out.push(lead);
    let ghost base = old(out)@;
    let mut i: usize = digits.len();
    while i > 0
        invariant
            0 <= i <= digits.len(),
            out@ == base + seq![lead] + digits@.reverse().subrange(0, digits.len() - i),
        decreases i,
    {
        i = i - 1;
        let c = digits[i];
        proof {
            let rev = digits@.reverse();
            let j: int = digits.len() - i - 1;
            assert(rev[j] == c);
            assert(rev.subrange(0, j + 1) =~= rev.subrange(0, j).push(c));
        }
        out.push(c);
    }
    proof {
        let rev = digits@.reverse();
        assert(rev.subrange(0, digits.len() as int) =~= rev);
        assert(decimal_text(rest as nat) =~= seq![lead]);
        assert(base + seq![lead] + rev =~= base + (seq![lead] + rev));
    }
}

} // verus!
