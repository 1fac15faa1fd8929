//! The mastery calculator: accumulated experience, talent and affinity
//! context become a success threshold between 1 and 99.
//!
//! The curve follows `100 - 99 * exp(-experience / coefficient)`: the
//! decay factor is evaluated in fixed point as `(1 - t/2^20)^(2^20)`
//! with `t = experience / coefficient`, by twenty squarings at scale
//! `2^40`, which keeps the curve's shape — value 1 at zero experience, a
//! strictly bounded ceiling of 99, monotone growth — while staying in
//! plain integers.
use vstd::prelude::*;

use vstd::arithmetic::div_mod::{
    lemma_div_is_ordered, lemma_div_is_ordered_by_denominator, lemma_div_multiples_vanish,
};
use vstd::arithmetic::mul::{lemma_mul_inequality, lemma_mul_nonnegative};

use crate::config::Config;
use crate::config::affinity::{Affinity, LookupError, first_unresolved, membership};
use crate::config::players::Player;

verus! {

/// Fixed-point scale of the decay evaluation.
pub const DECAY_SCALE: u128 = 0x10000000000;

/// Divisor taking the scaled exponent to the per-squaring decrement.
pub const DECAY_STEP_DIV: u128 = 0x100000;

/// How many squarings evaluate the decay power.
pub const SQUARINGS: usize = 20;

/// One squaring step at the fixed-point scale.
pub open spec fn sq_step(v: int) -> int {
    (v * v) / (DECAY_SCALE as int)
}

/// `k` squaring steps applied to `v`.
pub open spec fn sq_chain(v: int, k: nat) -> int
    decreases k,
{
    if k == 0 {
        v
    } else {
        sq_chain(sq_step(v), (k - 1) as nat)
    }
}

/// The starting value of the squaring chain for experience `e` and
/// coefficient `c` (both positive): the scale minus the scaled exponent
/// split over the squarings, floored at zero.
pub open spec fn decay_base(e: int, c: int) -> int {
    let x = (e * 1000 * (DECAY_SCALE as int)) / c;
    let step = x / (DECAY_STEP_DIV as int);
    if step >= DECAY_SCALE as int {
        0
    } else {
        (DECAY_SCALE as int) - step
    }
}

/// The decay factor at the fixed-point scale: what fraction of the
/// mastery ceiling is still out of reach.
pub open spec fn decay_value(e: int, c: int) -> int {
    sq_chain(decay_base(e, c), SQUARINGS as nat)
}

/// The gap between the mastery value and 100: the decay times 99,
/// rounded to the nearest integer, at least 1 so that the ceiling is
/// never reached.
pub open spec fn mastery_gap(e: int, c: int) -> int {
    let g = (198 * decay_value(e, c) + (DECAY_SCALE as int)) / (2 * (DECAY_SCALE as int));
    if g < 1 {
        1
    } else {
        g
    }
}

/// The mastery of a player with experience `e` under coefficient `c`
/// (in thousandths): 1 at zero experience, growing towards 99.
pub open spec fn mastery_value(e: int, c: int) -> int {
    if e <= 0 {
        1
    } else {
        100 - mastery_gap(e, c)
    }
}

proof fn lemma_sq_step_bounds(v: int)
    requires
        0 <= v <= DECAY_SCALE as int,
    ensures
        0 <= sq_step(v) <= v,
{
    let s = DECAY_SCALE as int;
    lemma_mul_nonnegative(v, v);
    lemma_div_is_ordered(0, v * v, s);
    lemma_mul_inequality(v, s, v);
    lemma_div_is_ordered(v * v, s * v, s);
    lemma_div_multiples_vanish(v, s);
}

proof fn lemma_sq_step_mono(a: int, b: int)
    requires
        0 <= a <= b,
    ensures
        sq_step(a) <= sq_step(b),
{
    let s = DECAY_SCALE as int;
    lemma_mul_inequality(a, b, a);
    lemma_mul_inequality(a, b, b);
    lemma_div_is_ordered(a * a, b * b, s);
}

proof fn lemma_sq_chain_bounds(v: int, k: nat)
    requires
        0 <= v <= DECAY_SCALE as int,
    ensures
        0 <= sq_chain(v, k) <= v,
    decreases k,
{
    if k > 0 {
        lemma_sq_step_bounds(v);
        lemma_sq_chain_bounds(sq_step(v), (k - 1) as nat);
    }
}

proof fn lemma_sq_chain_mono(a: int, b: int, k: nat)
    requires
        0 <= a <= b <= DECAY_SCALE as int,
    ensures
        sq_chain(a, k) <= sq_chain(b, k),
    decreases k,
{
    if k > 0 {
        lemma_sq_step_mono(a, b);
        lemma_sq_step_bounds(a);
        lemma_sq_step_bounds(b);
        lemma_sq_chain_mono(sq_step(a), sq_step(b), (k - 1) as nat);
    }
}

proof fn lemma_sq_chain_snoc(v: int, k: nat)
    ensures
        sq_chain(v, k + 1) == sq_step(sq_chain(v, k)),
    decreases k,
{
    assert(sq_chain(v, k + 1) == sq_chain(sq_step(v), k));
    if k > 0 {
        assert(sq_chain(v, k) == sq_chain(sq_step(v), (k - 1) as nat));
        lemma_sq_chain_snoc(sq_step(v), (k - 1) as nat);
    }
}

proof fn lemma_decay_base_bounds(e: int, c: int)
    requires
        e >= 1,
        c >= 1,
    ensures
        0 <= decay_base(e, c) <= DECAY_SCALE as int,
{
    let s = DECAY_SCALE as int;
    let num = e * 1000 * s;
    lemma_mul_nonnegative(e * 1000, s);
    lemma_div_is_ordered(0, num, c);
    lemma_div_is_ordered(0, num / c, DECAY_STEP_DIV as int);
}

proof fn lemma_decay_value_bounds(e: int, c: int)
    requires
        e >= 1,
        c >= 1,
    ensures
        0 <= decay_value(e, c) <= DECAY_SCALE as int,
{
    lemma_decay_base_bounds(e, c);
    lemma_sq_chain_bounds(decay_base(e, c), SQUARINGS as nat);
}

proof fn lemma_decay_mono_exp(e1: int, e2: int, c: int)
    requires
        1 <= e1 <= e2,
        c >= 1,
    ensures
        decay_value(e2, c) <= decay_value(e1, c),
{
    let s = DECAY_SCALE as int;
    let d = DECAY_STEP_DIV as int;
    lemma_mul_inequality(e1 * 1000, e2 * 1000, s);
    lemma_div_is_ordered(e1 * 1000 * s, e2 * 1000 * s, c);
    lemma_div_is_ordered((e1 * 1000 * s) / c, (e2 * 1000 * s) / c, d);
    lemma_decay_base_bounds(e1, c);
    lemma_decay_base_bounds(e2, c);
    lemma_sq_chain_mono(decay_base(e2, c), decay_base(e1, c), SQUARINGS as nat);
}

proof fn lemma_decay_antimono_coef(e: int, c1: int, c2: int)
    requires
        e >= 1,
        1 <= c1 <= c2,
    ensures
        decay_value(e, c1) <= decay_value(e, c2),
{
    let s = DECAY_SCALE as int;
    let d = DECAY_STEP_DIV as int;
    let num = e * 1000 * s;
    lemma_mul_nonnegative(e * 1000, s);
    lemma_div_is_ordered_by_denominator(num, c1, c2);
    lemma_div_is_ordered(num / c2, num / c1, d);
    lemma_decay_base_bounds(e, c1);
    lemma_decay_base_bounds(e, c2);
    lemma_sq_chain_mono(decay_base(e, c1), decay_base(e, c2), SQUARINGS as nat);
}

proof fn lemma_gap_bounds(e: int, c: int)
    requires
        e >= 1,
        c >= 1,
    ensures
        1 <= mastery_gap(e, c) <= 99,
{
    let s = DECAY_SCALE as int;
    lemma_decay_value_bounds(e, c);
    let v = decay_value(e, c);
    lemma_mul_nonnegative(198, v);
    lemma_div_is_ordered(0, 198 * v + s, 2 * s);
    lemma_mul_inequality(v, s, 198);
    assert(v * 198 == 198 * v);
    assert(s * 198 == 198 * s);
    lemma_div_is_ordered(198 * v + s, 198 * s + s, 2 * s);
    assert((198 * s + s) / (2 * s) == 99) by {
        lemma_div_multiples_vanish(99, 2 * s);
        assert(198 * s + s == (2 * s) * 99 + s);
        vstd::arithmetic::div_mod::lemma_div_multiples_vanish_fancy(99, s, 2 * s);
    }
}

proof fn lemma_gap_mono(e1: int, e2: int, c: int)
    requires
        1 <= e1 <= e2,
        c >= 1,
    ensures
        mastery_gap(e2, c) <= mastery_gap(e1, c),
{
    let s = DECAY_SCALE as int;
    lemma_decay_mono_exp(e1, e2, c);
    lemma_mul_inequality(decay_value(e2, c), decay_value(e1, c), 198);
    assert(decay_value(e2, c) * 198 == 198 * decay_value(e2, c));
    assert(decay_value(e1, c) * 198 == 198 * decay_value(e1, c));
    lemma_div_is_ordered(198 * decay_value(e2, c) + s, 198 * decay_value(e1, c) + s, 2 * s);
}

/// The mastery value always lies between 1 and 99, and is exactly 1 at
/// zero experience: the success ceiling is never reached.
pub proof fn lemma_mastery_bounds(e: int, c: int)
    requires
        c >= 1,
    ensures
        1 <= mastery_value(e, c) <= 99,
        mastery_value(0, c) == 1,
{
    if e >= 1 {
        lemma_gap_bounds(e, c);
    }
}

/// Mastery is monotone in experience: more accumulated experience never
/// lowers the success threshold.
pub proof fn lemma_mastery_monotonic(e1: int, e2: int, c: int)
    requires
        e1 <= e2,
        c >= 1,
    ensures
        mastery_value(e1, c) <= mastery_value(e2, c),
{
    lemma_mastery_bounds(e1, c);
    lemma_mastery_bounds(e2, c);
    if 1 <= e1 {
        lemma_gap_mono(e1, e2, c);
    }
}

/// Mastery is antitone in the coefficient: a smaller effective learning
/// constant never lowers the success threshold.
pub proof fn lemma_mastery_coefficient(e: int, c1: int, c2: int)
    requires
        1 <= c1 <= c2,
    ensures
        mastery_value(e, c2) <= mastery_value(e, c1),
{
    if e >= 1 {
        let s = DECAY_SCALE as int;
        lemma_decay_antimono_coef(e, c1, c2);
        lemma_mul_inequality(decay_value(e, c1), decay_value(e, c2), 198);
        assert(decay_value(e, c1) * 198 == 198 * decay_value(e, c1));
        assert(decay_value(e, c2) * 198 == 198 * decay_value(e, c2));
        lemma_div_is_ordered(198 * decay_value(e, c1) + s, 198 * decay_value(e, c2) + s, 2 * s);
    }
}

/// `c` shrunk by a bonus fraction given in thousandths.
pub open spec fn scaled_down(c: int, permille: int) -> int {
    (c * (1000 - permille)) / 1000
}

/// The effective learning coefficient: each applicable bonus shrinks the
/// learning constant by its fraction, stacking multiplicatively, and the
/// result is floored at 1 so the curve stays defined.
pub open spec fn effective_coefficient_spec(
    c: int,
    talent: bool,
    major: bool,
    minor: bool,
    tp: int,
    mp: int,
    np: int,
) -> int {
    let c1 = if talent {
        scaled_down(c, tp)
    } else {
        c
    };
    let c2 = if major {
        scaled_down(c1, mp)
    } else {
        c1
    };
    let c3 = if minor {
        scaled_down(c2, np)
    } else {
        c2
    };
    if c3 < 1 {
        1
    } else {
        c3
    }
}

proof fn lemma_scaled_down_le(c: int, permille: int)
    requires
        c >= 0,
        0 <= permille <= 1000,
    ensures
        0 <= scaled_down(c, permille) <= c,
{
    lemma_mul_nonnegative(c, 1000 - permille);
    lemma_div_is_ordered(0, c * (1000 - permille), 1000);
    lemma_mul_inequality(1000 - permille, 1000, c);
    assert((1000 - permille) * c == c * (1000 - permille));
    assert(1000 * c == c * 1000);
    lemma_div_is_ordered(c * (1000 - permille), 1000 * c, 1000);
    lemma_div_multiples_vanish(c, 1000);
}

/// Enabling talent, major affinity and minor affinity together yields a
/// strictly lower effective coefficient than enabling none, and hence a
/// mastery at least as high for equal experience. The one coefficient
/// this cannot hold for is the smallest one, where the floor of 1
/// swallows every reduction.
pub proof fn lemma_stacking(e: int, c: int, tp: int, mp: int, np: int)
    requires
        c >= 2,
        1 <= tp <= 999,
        1 <= mp <= 999,
        1 <= np <= 999,
    ensures
        effective_coefficient_spec(c, true, true, true, tp, mp, np) < effective_coefficient_spec(
            c,
            false,
            false,
            false,
            tp,
            mp,
            np,
        ),
        mastery_value(e, effective_coefficient_spec(c, true, true, true, tp, mp, np))
            >= mastery_value(e, effective_coefficient_spec(c, false, false, false, tp, mp, np)),
{
    let c1 = scaled_down(c, tp);
    let c2 = scaled_down(c1, mp);
    let c3 = scaled_down(c2, np);
    lemma_scaled_down_le(c, tp);
    lemma_scaled_down_le(c1, mp);
    lemma_scaled_down_le(c2, np);
    // one bonus alone already loses at least one unit of `c`
    lemma_mul_inequality(1000 - tp, 999, c);
    assert((1000 - tp) * c == c * (1000 - tp));
    assert(999 * c == c * 999);
    assert(c * 999 <= 1000 * (c - 1) + 999);
    lemma_div_is_ordered(c * (1000 - tp), 1000 * (c - 1) + 999, 1000);
    vstd::arithmetic::div_mod::lemma_div_multiples_vanish_fancy(c - 1, 999, 1000);
    assert(c1 <= c - 1);
    let eff_all = effective_coefficient_spec(c, true, true, true, tp, mp, np);
    let eff_none = effective_coefficient_spec(c, false, false, false, tp, mp, np);
    assert(eff_none == c);
    assert(eff_all < c);
    lemma_mastery_coefficient(e, eff_all, eff_none);
}

/// The effective learning coefficient for the given bonus flags; the
/// executable form of [`effective_coefficient_spec`].
pub fn effective_coefficient(is_talent: bool, is_major: bool, is_minor: bool, config: &Config) -> (r:
    u64)
    requires
        config.wf(),
    ensures
        r as int == effective_coefficient_spec(
            config.learning_constant_milli as int,
            is_talent,
            is_major,
            is_minor,
            config.talent_increase_permille as int,
            config.major_affinity_increase_permille as int,
            config.minor_affinity_increase_permille as int,
        ),
        r >= 1,
{
    let c: u128 = config.learning_constant_milli as u128;
    let mut coef: u128 = c;
    if is_talent {
        proof {
            lemma_scaled_down_le(coef as int, config.talent_increase_permille as int);
        }
        coef = coef * ((1000 - config.talent_increase_permille) as u128) / 1000;
    }
    if is_major {
        proof {
            lemma_scaled_down_le(coef as int, config.major_affinity_increase_permille as int);
        }
        coef = coef * ((1000 - config.major_affinity_increase_permille) as u128) / 1000;
    }
    if is_minor {
        proof {
            lemma_scaled_down_le(coef as int, config.minor_affinity_increase_permille as int);
        }
        coef = coef * ((1000 - config.minor_affinity_increase_permille) as u128) / 1000;
    }
    if coef < 1 {
        1
    } else {
        coef as u64
    }
}

/// Evaluate the mastery curve; the executable form of [`mastery_value`].
pub fn compute_mastery(experience: i32, coefficient: u64) -> (r: i32)
    requires
        coefficient >= 1,
    ensures
        r as int == mastery_value(experience as int, coefficient as int),
        1 <= r <= 99,
{
    proof {
        lemma_mastery_bounds(experience as int, coefficient as int);
    }
    if experience <= 0 {
        return 1;
    }
    let e = experience as u128;
    let c = coefficient as u128;
    let x: u128 = e * 1000 * DECAY_SCALE / c;
    let step: u128 = x / DECAY_STEP_DIV;
    let base: u128 = if step >= DECAY_SCALE {
        0
    } else {
        DECAY_SCALE - step
    };
    proof {
        lemma_decay_base_bounds(experience as int, coefficient as int);
        assert(base as int == decay_base(experience as int, coefficient as int));
    }
    let mut v: u128 = base;
    let mut k: usize = 0;
    while k < SQUARINGS
        invariant
            0 <= k <= SQUARINGS,
            0 <= v <= DECAY_SCALE,
            v as int == sq_chain(base as int, k as nat),
        decreases SQUARINGS - k,
    {
        proof {
            lemma_sq_step_bounds(v as int);
            lemma_sq_chain_snoc(base as int, k as nat);
        }
        v = v * v / DECAY_SCALE;
        k = k + 1;
    }
    let gap_wide: u128 = (198 * v + DECAY_SCALE) / (2 * DECAY_SCALE);
    proof {
        let s = DECAY_SCALE as int;
        lemma_mul_inequality(v as int, s, 198);
        assert((v as int) * 198 == 198 * (v as int));
        assert(s * 198 == 198 * s);
        lemma_div_is_ordered(198 * (v as int) + s, 198 * s + s, 2 * s);
        assert((198 * s + s) / (2 * s) == 99) by {
            assert(198 * s + s == (2 * s) * 99 + s);
            vstd::arithmetic::div_mod::lemma_div_multiples_vanish_fancy(99, s, 2 * s);
        }
        assert(gap_wide <= 99);
    }
    let gap: i32 = if gap_wide < 1 {
        1
    } else {
        gap_wide as i32
    };
    100 - gap
}

/// The mastery of `p` for `stat` under the given configuration and
/// affinity forest: the curve applied to the recorded experience and the
/// stacked coefficient. Fails exactly when the player does not track the
/// stat or a declared affinity name is unknown.
pub fn get_mastery(p: &Player, stat: &str, config: &Config, affinities: &Vec<Affinity>) -> (r:
    Result<i32, LookupError>)
    requires
        config.wf(),
    ensures
        r is Ok <==> (p.experience_of(stat@) is Some && membership(
            p.affinities.major@,
            stat@,
            affinities@,
        ) is Some && membership(p.affinities.minor@, stat@, affinities@) is Some),
        r matches Ok(m) ==> m as int == mastery_value(
            p.experience_of(stat@).unwrap(),
            effective_coefficient_spec(
                config.learning_constant_milli as int,
                p.talent_spec(stat@),
                membership(p.affinities.major@, stat@, affinities@).unwrap(),
                membership(p.affinities.minor@, stat@, affinities@).unwrap(),
                config.talent_increase_permille as int,
                config.major_affinity_increase_permille as int,
                config.minor_affinity_increase_permille as int,
            ),
        ),
        r matches Ok(m) ==> 1 <= m <= 99,
        p.experience_of(stat@) is None ==> (r matches Err(LookupError::StatNotFound(n)) && n@
            == stat@),
        p.experience_of(stat@) is Some && membership(p.affinities.major@, stat@, affinities@)
            is None ==> (r matches Err(LookupError::AffinityNotFound(n)) && n@ == first_unresolved(
            p.affinities.major@,
            stat@,
            affinities@,
        )),
        p.experience_of(stat@) is Some && membership(p.affinities.major@, stat@, affinities@)
            is Some && membership(p.affinities.minor@, stat@, affinities@) is None ==> (r matches Err(
            LookupError::AffinityNotFound(n),
        ) && n@ == first_unresolved(p.affinities.minor@, stat@, affinities@)),
{
    let player_experience = match p.get_experience(stat) {
        Some(e) => e,
        None => {
            return Err(LookupError::StatNotFound(stat.to_owned()));
        },
    };
    let is_talent = p.is_talent(stat);
    let is_major = match p.is_major_affinity(stat, affinities) {
        Ok(b) => b,
        Err(e) => {
            return Err(e);
        },
    };
    let is_minor = match p.is_minor_affinity(stat, affinities) {
        Ok(b) => b,
        Err(e) => {
            return Err(e);
        },
    };
    let coefficient = effective_coefficient(is_talent, is_major, is_minor, config);
    Ok(compute_mastery(player_experience, coefficient))
}

} // verus!
