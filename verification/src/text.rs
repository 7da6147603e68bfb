//! Text the processors compose.
use vstd::arithmetic::div_mod::lemma_div_denominator;
use vstd::arithmetic::power::{lemma_pow0, lemma_pow1, lemma_pow_positive, pow};
use vstd::prelude::*;

verus! {

/// The decimal digit of `d`, which is below ten.
pub open spec fn digit(d: nat) -> char
    recommends
        d < 10,
{
    (48 + d) as char
}

/// The decimal writing of `n`, without leading zero.
pub open spec fn decimal(n: nat) -> Seq<char>
    decreases n,
{
    if n < 10 {
        seq![digit(n)]
    } else {
        decimal(n / 10).push(digit(n % 10))
    }
}

/// Give the digit of `d` as text.
fn digit_text(d: u64) -> (r: &'static str)
    requires
        d < 10,
    ensures
        r@ == seq![digit(d as nat)],
{
    proof {
        reveal_strlit("0");
        reveal_strlit("1");
        reveal_strlit("2");
        reveal_strlit("3");
        reveal_strlit("4");
        reveal_strlit("5");
        reveal_strlit("6");
        reveal_strlit("7");
        reveal_strlit("8");
        reveal_strlit("9");
    }
    let r = match d {
        0 => "0",
        1 => "1",
        2 => "2",
        3 => "3",
        4 => "4",
        5 => "5",
        6 => "6",
        7 => "7",
        8 => "8",
        _ => "9",
    };
    assert(r@ =~= seq![digit(d as nat)]);
    r
}

/// Write `n` in decimal.
pub fn decimal_text(n: u64) -> (r: String)
    ensures
        r@ == decimal(n as nat),
    decreases n,
{
    if n < 10 {
        digit_text(n).to_owned()
    } else {
        let mut r = decimal_text(n / 10);
        r.append(digit_text(n % 10));
        assert(r@ =~= decimal(n as nat / 10).push(digit(n as nat % 10)));
        r
    }
}

/// Put two texts one after the other.
pub fn join(left: &str, right: &str) -> (r: String)
    ensures
        r@ == left@ + right@,
{
    let mut r = left.to_owned();
    r.append(right);
    r
}

/// The decimal writing of a number shows its digits from the largest place to the units, and starts
/// with no zero unless it is the number zero.
pub proof fn law_decimal_shows_every_digit(n: nat, i: int)
    ensures
        decimal(n).len() > 0,
        n < pow(10, decimal(n).len()),
        n > 0 ==> pow(10, (decimal(n).len() - 1) as nat) <= n,
        n == 0 ==> decimal(n).len() == 1,
        0 <= i < decimal(n).len() ==> decimal(n)[i] == "0123456789"@[(n as int / pow(
            10,
            (decimal(n).len() - 1 - i) as nat,
        )) % 10],
    decreases n,
{
    lemma_pow0(10);
    lemma_pow1(10);
    reveal_strlit("0123456789");
    assert forall|d: nat| d < 10 implies #[trigger] digit(d) == "0123456789"@[d as int] by {
        assert(d == 0 || d == 1 || d == 2 || d == 3 || d == 4 || d == 5 || d == 6 || d == 7 || d
            == 8 || d == 9);
    }
    if n >= 10 {
        let front = decimal(n / 10);
        let len = front.len();
        law_decimal_shows_every_digit(n / 10, i);
        lemma_pow_positive(10, len);
        assert(pow(10, len + 1) == 10 * pow(10, len)) by {
            reveal(pow);
        }
        assert(pow(10, len) == 10 * pow(10, (len - 1) as nat)) by {
            reveal(pow);
        }
        if 0 <= i < len {
            let place = pow(10, (len - 1 - i) as nat);
            lemma_pow_positive(10, (len - 1 - i) as nat);
            assert(pow(10, (len - i) as nat) == 10 * place) by {
                reveal(pow);
            }
            lemma_div_denominator(n as int, 10, place);
            assert(decimal(n)[i] == front[i]);
        }
        assert(decimal(n)[len as int] == digit(n % 10));
        assert(n as int / 1 == n);
    } else {
        assert(decimal(n)[0] == digit(n));
        assert(n as int / 1 == n);
    }
}

} // verus!
