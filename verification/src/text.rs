//! Decimal rendering of unsigned integers.

use vstd::prelude::*;

verus! {

/// The decimal digit character for `d` (expected below 10).
pub open spec fn digit_char(d: nat) -> char {
    if d == 0 { '0' }
    else if d == 1 { '1' }
    else if d == 2 { '2' }
    else if d == 3 { '3' }
    else if d == 4 { '4' }
    else if d == 5 { '5' }
    else if d == 6 { '6' }
    else if d == 7 { '7' }
    else if d == 8 { '8' }
    else { '9' }
}

/// The decimal representation of `n`, most significant digit first, with no
/// leading zeros (zero itself is `"0"`).
pub open spec fn decimal(n: nat) -> Seq<char>
    decreases n,
{
    if n < 10 {
        seq![digit_char(n)]
    } else {
        decimal(n / 10).push(digit_char(n % 10))
    }
}

/// The value of a digit character (digits only).
pub open spec fn char_value(c: char) -> nat {
    if c == '1' { 1 }
    else if c == '2' { 2 }
    else if c == '3' { 3 }
    else if c == '4' { 4 }
    else if c == '5' { 5 }
    else if c == '6' { 6 }
    else if c == '7' { 7 }
    else if c == '8' { 8 }
    else if c == '9' { 9 }
    else { 0 }
}

/// The number that a string of decimal digits denotes.
pub open spec fn digits_value(s: Seq<char>) -> nat
    decreases s.len(),
{
    if s.len() == 0 {
        0
    } else {
        digits_value(s.drop_last()) * 10 + char_value(s.last())
    }
}

fn digit_str(d: u64) -> (s: &'static str)
    requires
        d < 10,
    ensures
        s@ == seq![digit_char(d as nat)],
{
    proof {
        reveal_strlit("0");
        reveal_strlit("1");
        reveal_strlit("2");
        reveal_strlit("3");
        reveal_strlit("4");
        reveal_strlit("5");
        reveal_strlit("6");
        reveal_strlit("7");
        reveal_strlit("8");
        reveal_strlit("9");
    }
    if d == 0 { "0" }
    else if d == 1 { "1" }
    else if d == 2 { "2" }
    else if d == 3 { "3" }
    else if d == 4 { "4" }
    else if d == 5 { "5" }
    else if d == 6 { "6" }
    else if d == 7 { "7" }
    else if d == 8 { "8" }
    else { "9" }
}

/// Appends the decimal representation of `n` to `s`.
pub fn push_decimal(s: &mut String, n: u64)
    ensures
        final(s)@ == old(s)@ + decimal(n as nat),
    decreases n,
{
    if n >= 10 {
        push_decimal(s, n / 10);
    }
    s.append(digit_str(n % 10));
    assert(decimal(n as nat) =~= if n < 10 { seq![digit_char(n as nat)] } else {
        decimal((n / 10) as nat).push(digit_char((n % 10) as nat))
    });
}

/// Renders `n` in decimal, as `to_string` on an unsigned integer does.
pub fn decimal_string(n: u64) -> (s: String)
    ensures
        s@ == decimal(n as nat),
{
    let mut s = String::new();
    push_decimal(&mut s, n);
    s
}

/// The decimal representation of `n` is not empty and its digits denote `n`.
pub proof fn law_decimal_reads_back(n: nat)
    ensures
        digits_value(decimal(n)) == n,
        decimal(n).len() >= 1,
    decreases n,
{
    let d = n % 10;
    assert(char_value(digit_char(d)) == d);
    if n >= 10 {
        law_decimal_reads_back(n / 10);
        assert(decimal(n).drop_last() =~= decimal(n / 10));
        assert(decimal(n).last() == digit_char(d));
        assert(n == (n / 10) * 10 + d);
    } else {
        assert(decimal(n).drop_last() =~= Seq::<char>::empty());
        assert(digits_value(Seq::<char>::empty()) == 0);
    }
    assert(digits_value(decimal(n)) == digits_value(decimal(n).drop_last()) * 10 + char_value(
        decimal(n).last(),
    ));
}

/// Whether `c` is one of the ten decimal digits.
pub open spec fn is_digit(c: char) -> bool {
    '0' <= c && c <= '9'
}

/// The decimal representation of `n` is made of digits only, and its first
/// digit is `0` only when `n` is zero (no leading zeros).
pub proof fn law_decimal_digits(n: nat)
    ensures
        decimal(n).len() >= 1,
        forall|i: int| 0 <= i < decimal(n).len() ==> is_digit(#[trigger] decimal(n)[i]),
        n > 0 ==> decimal(n)[0] != '0',
        n == 0 ==> decimal(n) == seq!['0'],
    decreases n,
{
    if n >= 10 {
        law_decimal_digits(n / 10);
        let init = decimal(n / 10);
        assert(decimal(n) == init.push(digit_char(n % 10)));
        assert forall|i: int| 0 <= i < decimal(n).len() implies is_digit(
            #[trigger] decimal(n)[i],
        ) by {
            if i < init.len() {
                assert(decimal(n)[i] == init[i]);
            }
        }
        assert(decimal(n)[0] == init[0]);
    } else {
        assert(decimal(n) == seq![digit_char(n)]);
    }
}

/// Reading a digit string whose first digit is not `0` gives at least the
/// value of that first digit.
proof fn lemma_digits_value_at_least_first(s: Seq<char>)
    requires
        s.len() >= 1,
    ensures
        digits_value(s) >= char_value(s[0]),
    decreases s.len(),
{
    if s.len() > 1 {
        lemma_digits_value_at_least_first(s.drop_last());
        assert(s.drop_last()[0] == s[0]);
    }
    assert(digits_value(s) == digits_value(s.drop_last()) * 10 + char_value(s.last()));
    if s.len() == 1 {
        assert(s.drop_last().len() == 0);
        assert(digits_value(s.drop_last()) == 0);
    }
}

/// The decimal representation is the only digit string without leading zeros
/// that denotes `n`: any non-empty string of digits whose first digit is not
/// `0` (unless it is the single digit `0`) and that reads as `n` is
/// `decimal(n)`.
pub proof fn law_decimal_unique(s: Seq<char>, n: nat)
    requires
        s.len() >= 1,
        forall|i: int| 0 <= i < s.len() ==> is_digit(#[trigger] s[i]),
        s.len() > 1 ==> s[0] != '0',
        digits_value(s) == n,
    ensures
        s == decimal(n),
    decreases s.len(),
{
    let last = s.last();
    assert(is_digit(s[s.len() - 1]));
    let v = char_value(last);
    assert(digit_char(v) == last);
    assert(v < 10);
    assert(digits_value(s) == digits_value(s.drop_last()) * 10 + v);
    if s.len() == 1 {
        assert(s.drop_last().len() == 0);
        assert(digits_value(s.drop_last()) == 0);
        assert(n == v);
        assert(s =~= seq![digit_char(n)]);
    } else {
        let init = s.drop_last();
        let m = digits_value(init);
        assert forall|i: int| 0 <= i < init.len() implies is_digit(#[trigger] init[i]) by {
            assert(init[i] == s[i]);
        }
        assert(init[0] == s[0]);
        assert(is_digit(s[0]));
        lemma_digits_value_at_least_first(init);
        assert(char_value(s[0]) >= 1);
        assert(m >= 1);
        assert(n == m * 10 + v);
        assert(n / 10 == m && n % 10 == v) by (nonlinear_arith)
            requires
                n == m * 10 + v,
                v < 10,
        ;
        law_decimal_unique(init, m);
        assert(n >= 10);
        assert(decimal(n) == decimal(n / 10).push(digit_char(n % 10)));
        assert(s =~= init.push(last));
    }
}

} // verus!
