//! A queue of numbers to factor, shared out to workers one at a time.

use vstd::prelude::*;
use vstd::arithmetic::div_mod::{lemma_fundamental_div_mod, lemma_mod_multiples_basic};
use std::collections::VecDeque;
use crate::numeral::{number_of, parse_decimal};

verus! {

/// No candidate from 2 up to, but not including, the integer square root of
/// `num` divides `num`.
pub open spec fn has_no_small_factor(num: nat) -> bool {
    forall|factor: nat| 2 <= factor && (factor + 1) * (factor + 1) <= num ==> #[trigger] (num % factor) != 0
}

/// Tests `num` by trial division with the candidates from 2 up to, but not
/// including, its integer square root.
pub fn is_prime(num: u32) -> (prime: bool)
    ensures
        prime == (num > 1 && has_no_small_factor(num as nat)),
{
    if num <= 1 {
        return false;
    }
    let n: u64 = num as u64;
    let mut factor: u64 = 2;
    loop
        invariant
            n == num,
            2 <= factor <= 0x1_0000,
            forall|f: nat| 2 <= f < factor ==> #[trigger] (num as nat % f) != 0,
        ensures
            (factor + 1) * (factor + 1) > n,
        decreases 0x1_0000 - factor,
    {
        assert((factor + 1) * (factor + 1) <= 0x1_0001 * 0x1_0001) by (nonlinear_arith)
            requires
                2 <= factor <= 0x1_0000,
        ;
        let bound: u64 = (factor + 1) * (factor + 1);
        if bound > n {
            break;
        }
        if n % factor == 0 {
            assert((num as nat) % (factor as nat) == 0);
            return false;
        }
        assert(factor < 0x1_0000) by (nonlinear_arith)
            requires
                (factor + 1) * (factor + 1) <= 0xffff_ffff,
                factor >= 2,
        ;
        factor = factor + 1;
    }
    assert forall|f: nat| 2 <= f && (f + 1) * (f + 1) <= num as nat implies #[trigger] (num as nat
        % f) != 0 by {
        if f >= factor {
            assert((f + 1) * (f + 1) >= (factor + 1) * (factor + 1)) by (nonlinear_arith)
                requires
                    f >= factor,
                    factor >= 2,
            ;
        }
    }
    true
}

/// What `is_prime` answers for `num`.
pub open spec fn passes_trial_division(num: nat) -> bool {
    num > 1 && has_no_small_factor(num)
}

/// No number from 2 up to `p` itself divides `p`.
pub open spec fn indivisible(p: nat) -> bool {
    p >= 2 && forall|g: nat| 2 <= g < p ==> #[trigger] (p % g) != 0
}

/// The product of the numbers in `factors`.
pub open spec fn product(factors: Seq<u32>) -> nat
    decreases factors.len(),
{
    if factors.len() == 0 {
        1
    } else {
        product(factors.drop_last()) * factors.last() as nat
    }
}

/// The numbers in `factors` never decrease.
pub open spec fn ascending(factors: Seq<u32>) -> bool {
    forall|i: int, j: int| 0 <= i <= j < factors.len() ==> factors[i] <= factors[j]
}

/// What divides a divisor of a number divides the number.
proof fn lemma_divisor_of_divisor(g: nat, f: nat, c: nat)
    requires
        g > 0,
        f > 0,
        f % g == 0,
        c % f == 0,
    ensures
        c % g == 0,
{
    lemma_fundamental_div_mod(f as int, g as int);
    lemma_fundamental_div_mod(c as int, f as int);
    let k = (f / g) * (c / f);
    assert(c == k * g) by (nonlinear_arith)
        requires
            f == g * (f / g),
            c == f * (c / f),
            k == (f / g) * (c / f),
    ;
    lemma_mod_multiples_basic(k as int, g as int);
}

/// What divides a quotient divides the number that was divided.
proof fn lemma_divisor_of_quotient(g: nat, f: nat, c: nat)
    requires
        g > 0,
        f > 0,
        c % f == 0,
        (c / f) % g == 0,
    ensures
        c % g == 0,
{
    lemma_fundamental_div_mod(c as int, f as int);
    lemma_fundamental_div_mod((c / f) as int, g as int);
    let k = f * ((c / f) / g);
    assert(c == k * g) by (nonlinear_arith)
        requires
            c == f * (c / f),
            (c / f) == g * ((c / f) / g),
            k == f * ((c / f) / g),
    ;
    lemma_mod_multiples_basic(k as int, g as int);
}

/// Splits `num` into factors.
///
/// A number that is 1 or passes `is_prime` is its own single factor.
/// Any other number is split by trial division into factors that no
/// smaller number but 1 divides, smallest first.
pub fn factor_number(num: u32) -> (factors: Vec<u32>)
    requires
        num > 0,
    ensures
        product(factors@) == num,
        ascending(factors@),
        num == 1 || passes_trial_division(num as nat) ==> factors@ == seq![num],
        !(num == 1 || passes_trial_division(num as nat)) ==> forall|i: int|
            0 <= i < factors@.len() ==> indivisible(#[trigger] factors@[i] as nat),
{
    let mut factors: Vec<u32> = Vec::new();
    if num == 1 || is_prime(num) {
        factors.push(num);
        assert(factors@ =~= seq![num]);
        assert(factors@.drop_last() =~= Seq::<u32>::empty());
        assert(product(factors@) == num) by {
            reveal_with_fuel(product, 2);
        }
        return factors;
    }
    let ghost witness = choose|f: nat|
        2 <= f && (f + 1) * (f + 1) <= num as nat && #[trigger] (num as nat % f) == 0;
    assert(witness < num) by (nonlinear_arith)
        requires
            2 <= witness,
            (witness + 1) * (witness + 1) <= num,
    ;
    let mut curr: u32 = num;
    let mut factor: u32 = 2;
    assert(product(factors@) == 1);
    assert(num >= 2);
    while factor < num
        invariant
            2 <= factor <= num,
            1 <= curr <= num,
            curr * product(factors@) == num,
            forall|g: nat| 2 <= g < factor ==> #[trigger] (curr as nat % g) != 0,
            forall|i: int| 0 <= i < factors@.len() ==> #[trigger] factors@[i] < factor,
            forall|i: int| 0 <= i < factors@.len() ==> indivisible(#[trigger] factors@[i] as nat),
            ascending(factors@),
        decreases num - factor,
    {
        while curr % factor == 0
            invariant
                2 <= factor < num,
                1 <= curr <= num,
                curr * product(factors@) == num,
                forall|g: nat| 2 <= g < factor ==> #[trigger] (curr as nat % g) != 0,
                forall|i: int| 0 <= i < factors@.len() ==> #[trigger] factors@[i] <= factor,
                forall|i: int|
                    0 <= i < factors@.len() ==> indivisible(#[trigger] factors@[i] as nat),
                ascending(factors@),
            decreases curr,
        {
            let ghost before = factors@;
            let ghost whole = curr;
            proof {
                assert forall|g: nat| 2 <= g < factor implies #[trigger] (factor as nat % g)
                    != 0 by {
                    if factor as nat % g == 0 {
                        lemma_divisor_of_divisor(g, factor as nat, curr as nat);
                    }
                }
                lemma_fundamental_div_mod(curr as int, factor as int);
            }
            factors.push(factor);
            curr = curr / factor;
            proof {
                assert(factors@.drop_last() =~= before);
                assert(curr * product(factors@) == num) by (nonlinear_arith)
                    requires
                        product(factors@) == product(before) * factor,
                        whole == factor * curr,
                        whole * product(before) == num,
                ;
                assert(curr >= 1 && curr < whole) by (nonlinear_arith)
                    requires
                        whole == factor * curr,
                        whole >= 1,
                        factor >= 2,
                        curr >= 0,
                ;
                assert forall|g: nat| 2 <= g < factor implies #[trigger] (curr as nat % g)
                    != 0 by {
                    if curr as nat % g == 0 {
                        lemma_divisor_of_quotient(g, factor as nat, whole as nat);
                    }
                }
            }
        }
        factor = factor + 1;
    }
    proof {
        if curr == num {
            assert(curr as nat % witness != 0);
        } else if curr >= 2 {
            assert(curr as nat % (curr as nat) != 0);
        }
        assert(curr == 1);
    }
    factors
}

/// Reads the numbers to factor from command-line arguments. If an argument
/// is no decimal number that fits 32 bits, its position is the error.
pub fn get_input_numbers(args: &Vec<String>) -> (numbers: Result<VecDeque<u32>, usize>)
    ensures
        match numbers {
            Ok(queue) => {
                &&& queue@.len() == args@.len()
                &&& forall|i: int|
                    0 <= i < args@.len() ==> number_of(args@[i]@, 10) == Some(
                        #[trigger] queue@[i] as usize,
                    )
            },
            Err(at) => {
                &&& at < args@.len()
                &&& !in_range(number_of(args@[at as int]@, 10))
                &&& forall|i: int| 0 <= i < at ==> in_range(number_of(#[trigger] args@[i]@, 10))
            },
        },
{
    let mut numbers: VecDeque<u32> = VecDeque::new();
    let mut i: usize = 0;
    while i < args.len()
        invariant
            i <= args@.len(),
            numbers@.len() == i,
            forall|j: int|
                0 <= j < i ==> number_of(args@[j]@, 10) == Some(#[trigger] numbers@[j] as usize),
            forall|j: int| 0 <= j < i ==> in_range(number_of(#[trigger] args@[j]@, 10)),
        decreases args.len() - i,
    {
        match parse_decimal(args[i].as_str()) {
            Some(n) => {
                if n > 0xffff_ffff {
                    return Err(i);
                }
                numbers.push_back(n as u32);
            },
            None => {
                return Err(i);
            },
        }
        i = i + 1;
    }
    Ok(numbers)
}

/// The argument is a number that fits 32 bits.
pub open spec fn in_range(number: Option<usize>) -> bool {
    number matches Some(n) && n <= u32::MAX
}

/// Takes the next number off the front of the queue, if one is left.
pub fn take_number(queue: &mut VecDeque<u32>) -> (taken: Option<u32>)
    ensures
        match taken {
            Some(n) => old(queue)@.len() > 0 && n == old(queue)@[0] && final(queue)@ == old(
                queue,
            )@.subrange(1, old(queue)@.len() as int),
            None => old(queue)@.len() == 0 && final(queue)@ == old(queue)@,
        },
{
    queue.pop_front()
}

} // verus!
