//! Decimal rendering of numbers for messages.

use vstd::prelude::*;

verus! {

/// The character of a decimal digit.
pub open spec fn digit_char(d: nat) -> char {
    if d == 0 { '0' }
    else if d == 1 { '1' }
    else if d == 2 { '2' }
    else if d == 3 { '3' }
    else if d == 4 { '4' }
    else if d == 5 { '5' }
    else if d == 6 { '6' }
    else if d == 7 { '7' }
    else if d == 8 { '8' }
    else { '9' }
}

/// The decimal representation of `n`, without sign or leading zeros.
pub open spec fn decimal(n: nat) -> Seq<char>
    decreases n,
{
    if n < 10 {
        seq![digit_char(n)]
    } else {
        decimal(n / 10).push(digit_char(n % 10))
    }
}

fn digit_str(d: usize) -> (s: &'static str)
    requires
        d < 10,
    ensures
        s@ == seq![digit_char(d as nat)],
{
    proof {
        reveal_strlit("0");
        reveal_strlit("1");
        reveal_strlit("2");
        reveal_strlit("3");
        reveal_strlit("4");
        reveal_strlit("5");
        reveal_strlit("6");
        reveal_strlit("7");
        reveal_strlit("8");
        reveal_strlit("9");
    }
    if d == 0 { "0" }
    else if d == 1 { "1" }
    else if d == 2 { "2" }
    else if d == 3 { "3" }
    else if d == 4 { "4" }
    else if d == 5 { "5" }
    else if d == 6 { "6" }
    else if d == 7 { "7" }
    else if d == 8 { "8" }
    else { "9" }
}

/// The number a string of decimal digits stands for, most significant first
/// (each character counted by its distance from `'0'`).
pub open spec fn digits_value(s: Seq<char>) -> int
    decreases s.len(),
{
    if s.len() == 0 {
        0
    } else {
        10 * digits_value(s.drop_last()) + (s.last() as int - '0' as int)
    }
}

/// Whether a character is one of `'0'` to `'9'`.
pub open spec fn is_digit(c: char) -> bool {
    '0' as int <= c as int <= '9' as int
}

/// The decimal rendering of `n` is a non-empty string of digits that stands
/// for `n`, with no leading zero unless `n` is 0.
pub proof fn lemma_decimal_stands_for(n: nat)
    ensures
        decimal(n).len() > 0,
        forall|i: int| 0 <= i < decimal(n).len() ==> is_digit(#[trigger] decimal(n)[i]),
        digits_value(decimal(n)) == n,
        n > 0 ==> decimal(n)[0] != '0',
        n == 0 ==> decimal(n) == seq!['0'],
    decreases n,
{
    if n < 10 {
        let one = seq![digit_char(n)];
        assert(one.drop_last() =~= Seq::<char>::empty());
        assert(digits_value(Seq::<char>::empty()) == 0);
        assert(digit_char(n) as int - '0' as int == n);
        assert(digits_value(one) == 10 * digits_value(one.drop_last()) + (one.last() as int - '0' as int));
    } else {
        lemma_decimal_stands_for(n / 10);
        let head = decimal(n / 10);
        let d = digit_char(n % 10);
        assert(head.push(d).drop_last() =~= head);
        assert(d as int - '0' as int == n % 10);
        assert(10 * (n / 10) + n % 10 == n);
        assert(head.push(d)[0] == head[0]);
        assert(decimal(n) == head.push(d));
        assert(head.push(d).last() == d);
        assert(digits_value(head.push(d)) == 10 * digits_value(head.push(d).drop_last()) + (head.push(d).last() as int - '0' as int));
    }
}

/// Renders `n` in decimal.
pub fn decimal_string(n: usize) -> (s: String)
    ensures
        s@ == decimal(n as nat),
        s@.len() > 0,
        forall|i: int| 0 <= i < s@.len() ==> is_digit(#[trigger] s@[i]),
        digits_value(s@) == n,
        n > 0 ==> s@[0] != '0',
    decreases n,
{
    proof {
        lemma_decimal_stands_for(n as nat);
    }
    if n < 10 {
        String::from_str(digit_str(n))
    } else {
        let head = decimal_string(n / 10);
        let s = head.concat(digit_str(n % 10));
        assert(s@ == decimal((n / 10) as nat).push(digit_char((n % 10) as nat)));
        s
    }
}

} // verus!
