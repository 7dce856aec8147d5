use rand::Rng;
use vstd::prelude::*;

verus! {

/// Number of decimal digits in a generated entry identifier.
pub const ID_DIGITS: usize = 16;

/// The number written by `digits`, most significant first.
pub open spec fn decimal_value(digits: Seq<int>) -> int
    decreases digits.len(),
{
    if digits.len() == 0 {
        0
    } else {
        decimal_value(digits.drop_last()) * 10 + digits.last()
    }
}

/// Relies on rand's `thread_rng().gen_range(0..9)`: a value drawn from `0..9`.
#[verifier::external_body]
fn random_digit() -> (r: u8)
    ensures
        r < 9,
{
    rand::thread_rng().gen_range(0..9u8)
}

/// The digits of `d` as integers.
pub open spec fn digit_values(d: Seq<u8>) -> Seq<int> {
    d.map_values(|x: u8| x as int)
}

/// The number written by sixteen decimal digits, most significant first.
pub fn id_from_digits(digits: &Vec<u8>) -> (r: u64)
    requires
        digits@.len() == ID_DIGITS,
        forall|k: int| 0 <= k < digits@.len() ==> #[trigger] digits@[k] < 10,
    ensures
        r as int == decimal_value(digit_values(digits@)),
{
    let mut n: u64 = 0;
    let mut i: usize = 0;
    while i < digits.len()
        invariant
            i <= digits@.len(),
            digits@.len() == ID_DIGITS,
            forall|k: int| 0 <= k < digits@.len() ==> #[trigger] digits@[k] < 10,
            n as int == decimal_value(digit_values(digits@).subrange(0, i as int)),
            n < pow10(i as nat),
        decreases digits@.len() - i,
    {
        let digit = digits[i];
        proof {
            lemma_pow10_step(i as nat);
            lemma_pow10_mono((i + 1) as nat, 16);
            lemma_pow10_sixteen();
            let vals = digit_values(digits@);
            assert(vals.subrange(0, i + 1).drop_last() =~= vals.subrange(0, i as int));
            assert(vals.subrange(0, i + 1).last() == digit as int);
            assert(n * 10 + digit < pow10((i + 1) as nat)) by (nonlinear_arith)
                requires
                    n < pow10(i as nat),
                    digit < 10,
                    pow10((i + 1) as nat) == pow10(i as nat) * 10,
            ;
        }
        n = n * 10 + digit as u64;
        i = i + 1;
    }
    assert(digit_values(digits@).subrange(0, ID_DIGITS as int) =~= digit_values(digits@));
    n
}

/// A fresh identifier: sixteen digits drawn at random, each in `0..=8`, read as a number.
pub fn generate_random_number() -> (r: u64)
    ensures
        exists|d: Seq<u8>|
            d.len() == ID_DIGITS && (forall|k: int| 0 <= k < d.len() ==> #[trigger] d[k] < 9)
                && r as int == decimal_value(digit_values(d)),
{
    let mut digits: Vec<u8> = Vec::new();
    while digits.len() < ID_DIGITS
        invariant
            digits@.len() <= ID_DIGITS,
            forall|k: int| 0 <= k < digits@.len() ==> #[trigger] digits@[k] < 9,
        decreases ID_DIGITS - digits@.len(),
    {
        digits.push(random_digit());
    }
    id_from_digits(&digits)
}

/// Ten to the power `k`.
pub open spec fn pow10(k: nat) -> int
    decreases k,
{
    if k == 0 {
        1
    } else {
        pow10((k - 1) as nat) * 10
    }
}

proof fn lemma_pow10_step(k: nat)
    ensures
        pow10(k + 1) == pow10(k) * 10,
{
}

proof fn lemma_pow10_mono(a: nat, b: nat)
    requires
        a <= b,
    ensures
        1 <= pow10(a) <= pow10(b),
    decreases b,
{
    if b > a {
        lemma_pow10_mono(a, (b - 1) as nat);
    } else if a > 0 {
        lemma_pow10_mono((a - 1) as nat, (a - 1) as nat);
    }
}

proof fn lemma_pow10_sixteen()
    ensures
        pow10(16) == 10_000_000_000_000_000,
{
    reveal_with_fuel(pow10, 17);
}

} // verus!
