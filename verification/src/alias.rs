//! The aliases `dep0`, `dep1`, ... under which the dispatcher knows its
//! handler crates: the word `dep` and the position in decimal.

use vstd::prelude::*;

verus! {

/// The character of a decimal digit.
pub open spec fn digit(d: nat) -> char
    recommends
        d < 10,
{
    (0x30 + d) as char
}

/// A number in decimal, without leading zeros.
pub open spec fn decimal(n: nat) -> Seq<char>
    decreases n,
{
    if n < 10 {
        seq![digit(n)]
    } else {
        decimal(n / 10).push(digit(n % 10))
    }
}

/// The alias of the dependency at position `i`.
pub open spec fn alias(i: nat) -> Seq<char> {
    "dep"@ + decimal(i)
}

/// The number that a string of decimal digits stands for.
pub open spec fn number(s: Seq<char>) -> nat
    decreases s.len(),
{
    if s.len() == 0 {
        0
    } else {
        (number(s.drop_last()) * 10 + (s.last() as nat - 0x30)) as nat
    }
}

/// Reading a number back from its decimal form gives the number.
pub proof fn lemma_number_of_decimal(n: nat)
    ensures
        number(decimal(n)) == n,
        decimal(n).len() > 0,
    decreases n,
{
    if n < 10 {
        assert(number(decimal(n).drop_last()) == 0);
    } else {
        lemma_number_of_decimal(n / 10);
        assert(decimal(n).drop_last() =~= decimal(n / 10));
    }
}

/// Different positions have different aliases.
pub proof fn lemma_alias_injective(i: nat, j: nat)
    requires
        alias(i) == alias(j),
    ensures
        i == j,
{
    reveal_strlit("dep");
    assert(alias(i).skip(3) =~= decimal(i));
    assert(alias(j).skip(3) =~= decimal(j));
    lemma_number_of_decimal(i);
    lemma_number_of_decimal(j);
}

/// Every alias begins with the letter `d`.
pub proof fn lemma_alias_first(i: nat)
    ensures
        alias(i).len() > 3,
        alias(i)[0] == 'd',
{
    reveal_strlit("dep");
    lemma_number_of_decimal(i);
}

fn digit_text(d: usize) -> (text: &'static str)
    requires
        d < 10,
    ensures
        text@ == seq![digit(d as nat)],
{
    proof {
        reveal_strlit("0");
        reveal_strlit("1");
        reveal_strlit("2");
        reveal_strlit("3");
        reveal_strlit("4");
        reveal_strlit("5");
        reveal_strlit("6");
        reveal_strlit("7");
        reveal_strlit("8");
        reveal_strlit("9");
    }
    if d == 0 {
        "0"
    } else if d == 1 {
        "1"
    } else if d == 2 {
        "2"
    } else if d == 3 {
        "3"
    } else if d == 4 {
        "4"
    } else if d == 5 {
        "5"
    } else if d == 6 {
        "6"
    } else if d == 7 {
        "7"
    } else if d == 8 {
        "8"
    } else {
        "9"
    }
}

/// Writes a number in decimal.
pub fn decimal_text(n: usize) -> (text: String)
    ensures
        text@ == decimal(n as nat),
    decreases n,
{
    if n < 10 {
        String::from_str(digit_text(n))
    } else {
        decimal_text(n / 10).concat(digit_text(n % 10))
    }
}

/// The alias of the dependency at position `i`.
pub fn alias_text(i: usize) -> (text: String)
    ensures
        text@ == alias(i as nat),
{
    String::from_str("dep").concat(decimal_text(i).as_str())
}

} // verus!
