use vstd::prelude::*;
use vstd::arithmetic::div_mod::{
    lemma_add_mod_noop, lemma_add_mod_noop_right, lemma_mod_add_multiples_vanish,
    lemma_mod_multiples_vanish, lemma_mul_mod_noop_left, lemma_mul_mod_noop_right, lemma_small_mod,
};
use vstd::arithmetic::mul::lemma_mul_is_associative;
use crate::identity::Identity;

verus! {

/// 2^128, the modulus of all identity arithmetic.
pub open spec fn modulus() -> int {
    u128::MAX as int + 1
}

/// Reduces an integer to its residue modulo 2^128.
pub open spec fn wrap(x: int) -> u128 {
    (x % modulus()) as u128
}

/// Below twice the modulus, reducing subtracts the modulus at most once.
proof fn lemma_wrap_once(x: int)
    requires
        0 <= x < 2 * modulus(),
    ensures
        x < modulus() ==> wrap(x) == x,
        x >= modulus() ==> wrap(x) == x - modulus(),
{
    if x < modulus() {
        lemma_small_mod(x as nat, modulus() as nat);
    } else {
        lemma_small_mod((x - modulus()) as nat, modulus() as nat);
        lemma_mod_add_multiples_vanish(x - modulus(), modulus());
    }
}

/// First multiplier of the scrambler; odd, so multiplying by it is a bijection.
pub const SCRAMBLE_MUL_A: u128 = 0x9e3779b97f4a7c15f39cc0605cedc835;

/// Second multiplier of the scrambler; odd as well.
pub const SCRAMBLE_MUL_B: u128 = 0xc2b2ae3d27d4eb4f165667b19e3779f9;

/// The inverse of `SCRAMBLE_MUL_A` modulo 2^128.
pub const SCRAMBLE_INV_A: u128 = 0x28969101c22823532f07eb1a988d4a1d;

/// The inverse of `SCRAMBLE_MUL_B` modulo 2^128.
pub const SCRAMBLE_INV_B: u128 = 0xad6cb8b6e8b0354ae9e9f4c41d6df849;

/// Folds the high half of `x` into its low half; applying it twice gives `x` back.
pub open spec fn fold_high(x: u128) -> u128 {
    x ^ (x >> 64u128)
}

/// A bijective, non-linear scrambling of 128-bit values: fold, multiply, fold,
/// multiply, fold.
#[verifier::opaque]
pub open spec fn scramble(x: u128) -> u128 {
    fold_high(wrap(fold_high(wrap(fold_high(x) * SCRAMBLE_MUL_A)) * SCRAMBLE_MUL_B))
}

/// The scrambler run backwards: fold, multiply by the inverses, fold.
#[verifier::opaque]
pub open spec fn unscramble(x: u128) -> u128 {
    fold_high(wrap(fold_high(wrap(fold_high(x) * SCRAMBLE_INV_B)) * SCRAMBLE_INV_A))
}

/// The combination of an accumulated identity with one contribution:
/// `scramble(acc + unscramble(acc) + c)`, modulo 2^128. The outer scramble
/// spreads every bit of the contribution over the whole result. Reading the
/// accumulator back through `unscramble` cancels the previous step's outer
/// scramble, which is what makes swapping two distinct parameters always
/// change the composite (`lemma_compose_order_sensitive`).
pub open spec fn mix_value(acc: u128, c: u128) -> u128 {
    scramble(wrap(acc + unscramble(acc) + c))
}

/// What the parameter identity `p` at position `ordinal` contributes:
/// `p + ordinal`, modulo 2^128.
pub open spec fn contribution_value(p: u128, ordinal: int) -> u128 {
    wrap(p + ordinal)
}

/// The identity of `seed` composed with the parameter identities `params`,
/// the parameter at index `i` having ordinal `i`.
pub open spec fn composed(seed: u128, params: Seq<Identity>) -> u128
    decreases params.len(),
{
    if params.len() == 0 {
        seed
    } else {
        let n = params.len() - 1;
        mix_value(composed(seed, params.take(n)), contribution_value(params[n].value, n))
    }
}

fn fold_high_exec(x: u128) -> (r: u128)
    ensures
        r == fold_high(x),
{
    x ^ (x >> 64u32)
}

fn scramble_exec(x: u128) -> (r: u128)
    ensures
        r == scramble(x),
{
    proof {
        reveal(scramble);
    }
    let a = fold_high_exec(x).wrapping_mul(SCRAMBLE_MUL_A);
    let b = fold_high_exec(a).wrapping_mul(SCRAMBLE_MUL_B);
    fold_high_exec(b)
}

fn unscramble_exec(x: u128) -> (r: u128)
    ensures
        r == unscramble(x),
{
    proof {
        reveal(unscramble);
    }
    let a = fold_high_exec(x).wrapping_mul(SCRAMBLE_INV_B);
    let b = fold_high_exec(a).wrapping_mul(SCRAMBLE_INV_A);
    fold_high_exec(b)
}

/// Combines an accumulated identity with one contribution.
pub fn mix(acc: Identity, contribution: Identity) -> (r: Identity)
    ensures
        r.value == mix_value(acc.value, contribution.value),
{
    let back = unscramble_exec(acc.value);
    let first = acc.value.wrapping_add(back);
    let sum = first.wrapping_add(contribution.value);
    proof {
        lemma_wrap_once(acc.value + back);
        lemma_wrap_once(first + contribution.value);
        lemma_wrap_inner(contribution.value as int, acc.value + back);
    }
    Identity { value: scramble_exec(sum) }
}

/// The contribution of parameter identity `param` at position `ordinal`; the
/// addition wraps modulo 2^128.
pub fn contribution(param: Identity, ordinal: usize) -> (r: Identity)
    ensures
        r.value == contribution_value(param.value, ordinal as int),
        param.value + ordinal < modulus() ==> r.value == param.value + ordinal,
        param.value + ordinal >= modulus() ==> r.value == param.value + ordinal - modulus(),
{
    proof {
        lemma_wrap_once(param.value + ordinal);
    }
    Identity { value: param.value.wrapping_add(ordinal as u128) }
}

/// Folds the identities of the type parameters, in declaration order, into
/// `seed`; with no parameters the seed comes back unchanged.
pub fn compose(seed: Identity, params: &Vec<Identity>) -> (r: Identity)
    ensures
        r.value == composed(seed.value, params@),
{
    let mut acc = seed;
    let mut i: usize = 0;
    while i < params.len()
        invariant
            i <= params@.len(),
            acc.value == composed(seed.value, params@.take(i as int)),
        decreases params@.len() - i,
    {
        assert(params@.take(i + 1).take(i as int) =~= params@.take(i as int));
        acc = mix(acc, contribution(params[i], i));
        i = i + 1;
    }
    assert(params@.take(params@.len() as int) =~= params@);
    acc
}

/// Reducing a summand first does not change the sum's residue.
proof fn lemma_wrap_inner(a: int, b: int)
    ensures
        wrap(a + wrap(b)) == wrap(a + b),
{
    lemma_add_mod_noop_right(a, b, modulus());
}

/// Adding the same amount to two residues keeps them apart.
proof fn lemma_wrap_cancel(x: int, y: int, k: int)
    requires
        0 <= x < modulus(),
        0 <= y < modulus(),
        wrap(x + k) == wrap(y + k),
    ensures
        x == y,
{
    lemma_add_mod_noop(x + k, -k, modulus());
    lemma_add_mod_noop(y + k, -k, modulus());
    lemma_small_mod(x as nat, modulus() as nat);
    lemma_small_mod(y as nat, modulus() as nat);
}

/// Multiplying by a constant and then by its inverse modulo 2^128 gives the
/// value back.
proof fn lemma_mul_cancel(x: u128, k: int, k_inv: int)
    requires
        (k * k_inv) % modulus() == 1,
    ensures
        wrap(wrap(x * k) * k_inv) == x,
{
    let m = modulus();
    lemma_mul_mod_noop_left(x * k, k_inv, m);
    lemma_mul_is_associative(x as int, k, k_inv);
    lemma_mul_mod_noop_right(x as int, k * k_inv, m);
    lemma_small_mod(x as nat, m as nat);
}

/// `k_inv` is an inverse of `k` modulo 2^128, witnessed by the quotient `q`.
proof fn lemma_inverse(k: int, k_inv: int, q: int)
    requires
        k * k_inv == q * modulus() + 1,
    ensures
        (k * k_inv) % modulus() == 1,
{
    lemma_mod_multiples_vanish(q, 1, modulus());
    lemma_small_mod(1, modulus() as nat);
}

/// Folding the high half twice gives the value back.
proof fn lemma_fold_high_involution(x: u128)
    ensures
        fold_high(fold_high(x)) == x,
{
    assert((x ^ (x >> 64u128)) ^ ((x ^ (x >> 64u128)) >> 64u128) == x) by (bit_vector);
}

/// The four multipliers pair up as inverses modulo 2^128.
proof fn lemma_multiplier_inverses()
    ensures
        (SCRAMBLE_MUL_A as int * SCRAMBLE_INV_A as int) % modulus() == 1,
        (SCRAMBLE_INV_A as int * SCRAMBLE_MUL_A as int) % modulus() == 1,
        (SCRAMBLE_MUL_B as int * SCRAMBLE_INV_B as int) % modulus() == 1,
        (SCRAMBLE_INV_B as int * SCRAMBLE_MUL_B as int) % modulus() == 1,
{
    let qa = 33343493291243553891329658082103923830int;
    let qb = 175320167164873730649106805923465939220int;
    lemma_inverse(SCRAMBLE_MUL_A as int, SCRAMBLE_INV_A as int, qa);
    lemma_inverse(SCRAMBLE_INV_A as int, SCRAMBLE_MUL_A as int, qa);
    lemma_inverse(SCRAMBLE_MUL_B as int, SCRAMBLE_INV_B as int, qb);
    lemma_inverse(SCRAMBLE_INV_B as int, SCRAMBLE_MUL_B as int, qb);
}

/// Unscrambling undoes scrambling.
pub proof fn lemma_unscramble_scramble(x: u128)
    ensures
        unscramble(scramble(x)) == x,
{
    reveal(scramble);
    reveal(unscramble);
    lemma_multiplier_inverses();
    let x2 = wrap(fold_high(x) * SCRAMBLE_MUL_A);
    let x4 = wrap(fold_high(x2) * SCRAMBLE_MUL_B);
    lemma_fold_high_involution(x4);
    lemma_mul_cancel(fold_high(x2), SCRAMBLE_MUL_B as int, SCRAMBLE_INV_B as int);
    lemma_fold_high_involution(x2);
    lemma_mul_cancel(fold_high(x), SCRAMBLE_MUL_A as int, SCRAMBLE_INV_A as int);
    lemma_fold_high_involution(x);
}

/// Scrambling undoes unscrambling.
pub proof fn lemma_scramble_unscramble(x: u128)
    ensures
        scramble(unscramble(x)) == x,
{
    reveal(scramble);
    reveal(unscramble);
    lemma_multiplier_inverses();
    let x2 = wrap(fold_high(x) * SCRAMBLE_INV_B);
    let x4 = wrap(fold_high(x2) * SCRAMBLE_INV_A);
    lemma_fold_high_involution(x4);
    lemma_mul_cancel(fold_high(x2), SCRAMBLE_INV_A as int, SCRAMBLE_MUL_A as int);
    lemma_fold_high_involution(x2);
    lemma_mul_cancel(fold_high(x), SCRAMBLE_INV_B as int, SCRAMBLE_MUL_B as int);
    lemma_fold_high_involution(x);
}

/// Distinct values scramble to distinct values.
pub proof fn lemma_scramble_injective(x: u128, y: u128)
    requires
        scramble(x) == scramble(y),
    ensures
        x == y,
{
    lemma_unscramble_scramble(x);
    lemma_unscramble_scramble(y);
}

/// Mixing is not commutative: for distinct `x` and `y`, mixing `y` into `x`
/// differs from mixing `x` into `y`.
pub proof fn lemma_mix_not_commutative(x: u128, y: u128)
    requires
        x != y,
    ensures
        mix_value(x, y) != mix_value(y, x),
{
    if mix_value(x, y) == mix_value(y, x) {
        lemma_scramble_injective(wrap(x + unscramble(x) + y), wrap(y + unscramble(y) + x));
        lemma_wrap_cancel(unscramble(x) as int, unscramble(y) as int, x + y);
        lemma_scramble_unscramble(x);
        lemma_scramble_unscramble(y);
    }
}

/// Mixing distinct contributions into the same accumulator gives distinct results.
pub proof fn lemma_mix_injective_in_contribution(acc: u128, c1: u128, c2: u128)
    requires
        c1 != c2,
    ensures
        mix_value(acc, c1) != mix_value(acc, c2),
{
    if mix_value(acc, c1) == mix_value(acc, c2) {
        lemma_scramble_injective(wrap(acc + unscramble(acc) + c1), wrap(acc + unscramble(acc) + c2));
        lemma_wrap_cancel(c1 as int, c2 as int, acc + unscramble(acc));
    }
}

/// Composition is a function of the seed and the parameter identities alone:
/// equal inputs give equal identities.
pub proof fn lemma_compose_deterministic(seed: u128, params1: Seq<Identity>, params2: Seq<Identity>)
    requires
        params1 == params2,
    ensures
        composed(seed, params1) == composed(seed, params2),
        crate::identity::be_bytes(composed(seed, params1)) == crate::identity::be_bytes(composed(seed, params2)),
{
}

/// With no parameters the composite identity is the seed itself.
pub proof fn lemma_compose_empty(seed: u128)
    ensures
        composed(seed, Seq::<Identity>::empty()) == seed,
{
}

/// The composite of two parameters, written out: the first enters at ordinal 0,
/// the second at ordinal 1.
pub proof fn lemma_compose_two(seed: u128, p1: Identity, p2: Identity)
    ensures
        composed(seed, seq![p1, p2]) == mix_value(
            mix_value(seed, contribution_value(p1.value, 0)),
            contribution_value(p2.value, 1),
        ),
{
    reveal_with_fuel(composed, 3);
    let s = seq![p1, p2];
    assert(s.take(1) =~= seq![p1]);
    assert(s.take(1).take(0) =~= Seq::<Identity>::empty());
}

/// Swapping two distinct parameter identities changes the composite identity.
pub proof fn lemma_compose_order_sensitive(seed: u128, p1: Identity, p2: Identity)
    requires
        p1 != p2,
    ensures
        composed(seed, seq![p1, p2]) != composed(seed, seq![p2, p1]),
{
    lemma_compose_two(seed, p1, p2);
    lemma_compose_two(seed, p2, p1);
    let c0 = seed + unscramble(seed);
    let w1 = wrap(c0 + contribution_value(p1.value, 0));
    let w2 = wrap(c0 + contribution_value(p2.value, 0));
    lemma_wrap_inner(c0, p1.value as int);
    lemma_wrap_inner(c0, p2.value as int);
    let u = scramble(w1);
    let v = scramble(w2);
    lemma_unscramble_scramble(w1);
    lemma_unscramble_scramble(w2);
    let k = c0 + p1.value + p2.value + 1;
    lemma_wrap_inner(u + w1, p2.value + 1);
    lemma_wrap_inner(u + p2.value + 1, c0 + p1.value);
    lemma_wrap_inner(v + w2, p1.value + 1);
    lemma_wrap_inner(v + p1.value + 1, c0 + p2.value);
    if composed(seed, seq![p1, p2]) == composed(seed, seq![p2, p1]) {
        lemma_scramble_injective(
            wrap(u + w1 + contribution_value(p2.value, 1)),
            wrap(v + w2 + contribution_value(p1.value, 1)),
        );
        lemma_wrap_cancel(u as int, v as int, k);
        lemma_scramble_injective(w1, w2);
        lemma_wrap_cancel(p1.value as int, p2.value as int, c0);
    }
}

/// A parameter identity within its ordinal of the largest value wraps round
/// zero, and swapping two distinct parameters still changes the composite:
/// the second parameter of a pair enters as `p2 + 1 - 2^128` when `p2` is the
/// largest identity.
pub proof fn lemma_compose_order_sensitive_wrapping(seed: u128, p1: Identity, p2: Identity)
    requires
        p1 != p2,
        p2.value + 1 >= modulus(),
    ensures
        contribution_value(p2.value, 1) == p2.value + 1 - modulus(),
        composed(seed, seq![p1, p2]) == mix_value(
            mix_value(seed, contribution_value(p1.value, 0)),
            (p2.value + 1 - modulus()) as u128,
        ),
        composed(seed, seq![p1, p2]) != composed(seed, seq![p2, p1]),
{
    lemma_wrap_once(p2.value + 1);
    lemma_compose_two(seed, p1, p2);
    lemma_compose_order_sensitive(seed, p1, p2);
}

/// Moving a parameter from ordinal 0 to ordinal 1 changes what it mixes into
/// the seed.
pub proof fn lemma_ordinal_changes_mix(seed: u128, p: u128)
    ensures
        mix_value(seed, contribution_value(p, 0)) != mix_value(seed, contribution_value(p, 1)),
{
    lemma_wrap_once(p as int);
    lemma_wrap_once(p + 1);
    lemma_mix_injective_in_contribution(seed, contribution_value(p, 0), contribution_value(p, 1));
}

} // verus!
