//! Message references: counters written in decimal.

use vstd::prelude::*;

verus! {

/// The decimal digit for `d`, with `d` below ten.
pub open spec fn digit(d: nat) -> char {
    seq!['0', '1', '2', '3', '4', '5', '6', '7', '8', '9'][d as int]
}

/// `n` in decimal, without leading zeros.
pub open spec fn decimal(n: nat) -> Seq<char>
    decreases n,
{
    if n < 10 {
        seq![digit(n)]
    } else {
        decimal(n / 10).push(digit(n % 10))
    }
}

/// Whether `text` is a reference that a counter now at `next` has handed out.
pub open spec fn issued(text: Seq<char>, next: nat) -> bool {
    exists|n: nat| n < next && #[trigger] decimal(n) == text
}

fn digit_str(d: u64) -> (res: &'static str)
    requires
        d < 10,
    ensures
        res@ == seq![digit(d as nat)],
{
    proof {
        reveal_strlit("0");
        reveal_strlit("1");
        reveal_strlit("2");
        reveal_strlit("3");
        reveal_strlit("4");
        reveal_strlit("5");
        reveal_strlit("6");
        reveal_strlit("7");
        reveal_strlit("8");
        reveal_strlit("9");
    }
    match d {
        0 => "0",
        1 => "1",
        2 => "2",
        3 => "3",
        4 => "4",
        5 => "5",
        6 => "6",
        7 => "7",
        8 => "8",
        _ => "9",
    }
}

/// Writes `n` in decimal.
pub fn decimal_string(n: u64) -> (res: String)
    ensures
        res@ == decimal(n as nat),
    decreases n,
{
    if n < 10 {
        digit_str(n).to_owned()
    } else {
        let mut res = decimal_string(n / 10);
        res.append(digit_str(n % 10));
        assert(res@ =~= decimal((n / 10) as nat).push(digit((n % 10) as nat)));
        res
    }
}

proof fn lemma_digit_injective(a: nat, b: nat)
    requires
        a < 10,
        b < 10,
        digit(a) == digit(b),
    ensures
        a == b,
{
}

/// Different numbers have different decimal texts.
pub proof fn lemma_decimal_injective(m: nat, n: nat)
    requires
        decimal(m) == decimal(n),
    ensures
        m == n,
    decreases m,
{
    lemma_decimal_len(m);
    lemma_decimal_len(n);
    if m < 10 && n < 10 {
        assert(decimal(m)[0] == digit(m));
        assert(decimal(n)[0] == digit(n));
        lemma_digit_injective(m, n);
    } else if m >= 10 && n >= 10 {
        assert(decimal(m).drop_last() =~= decimal(m / 10));
        assert(decimal(n).drop_last() =~= decimal(n / 10));
        assert(decimal(m).last() == digit(m % 10));
        assert(decimal(n).last() == digit(n % 10));
        lemma_decimal_injective(m / 10, n / 10);
        lemma_digit_injective(m % 10, n % 10);
    }
}

proof fn lemma_decimal_len(n: nat)
    ensures
        decimal(n).len() >= 1,
        n >= 10 ==> decimal(n).len() >= 2,
    decreases n,
{
    if n >= 10 {
        lemma_decimal_len(n / 10);
    }
}

} // verus!
