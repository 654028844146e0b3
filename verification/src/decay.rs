//! The weight of a memory as a function of its age: `0.5^(age / half_life)`.
//!
//! The whole half-lives of an age halve the weight exactly. For the rest of
//! the age the half-life is cut into 1024 steps. The weight at the start of
//! a step is a product of fixed-point values of `2^(-1/2)`, `2^(-1/4)`, ...,
//! `2^(-1/1024)`, one for each binary digit of the step's number, and within
//! a step the weight falls along the chord. The chord lies above the
//! exponential by less than `0.0000001`, a tenth of the unit that affects
//! are counted in.

use vstd::prelude::*;
use vstd::arithmetic::power2::*;
use vstd::arithmetic::div_mod::*;
use vstd::arithmetic::mul::*;

verus! {

/// The weight 1.0: weights are counted in units of 2^-32.
pub const WEIGHT_ONE: u64 = 0x1_0000_0000;

/// The value 1.0 on the grid: grid values are counted in units of 2^-62.
pub const FINE_ONE: u128 = 0x4000_0000_0000_0000;

/// The value 0.5 on the grid.
pub const FINE_HALF: u128 = 0x2000_0000_0000_0000;

/// The number of binary digits of a step's number.
pub const GRID_LEVELS: u32 = 10;

/// The number of steps that a half-life is cut into.
pub const GRID_STEPS: u64 = 1024;

/// A lower bound for the fall of the grid values over one step.
pub const GRID_GAP: u128 = 1560300547539905;

/// The exponent of the factor between the units of the grid and the units
/// of weight.
pub const FINE_SHIFT: u32 = 30;

/// The fixed-point value of `2^(-1 / 2^level)`: `root(0)` is 0.5, and every
/// further root is the square root of the one before, rounded down.
pub open spec fn root(level: nat) -> nat {
    if level == 0 {
        0x2000_0000_0000_0000
    } else if level == 1 {
        0x2d41_3ccc_fe77_9921
    } else if level == 2 {
        0x35d1_3f32_b5a7_5abd
    } else if level == 3 {
        0x3ab0_31b9_f749_0e4b
    } else if level == 4 {
        0x3d49_5f45_4921_b30a
    } else if level == 5 {
        0x3ea0_ecb6_dc8a_80ce
    } else if level == 6 {
        0x3f4f_8303_3d21_b05c
    } else if level == 7 {
        0x3fa7_8457_1ee3_e212
    } else if level == 8 {
        0x3fd3_b2d6_5447_b228
    } else if level == 9 {
        0x3fe9_d594_8723_6bb3
    } else {
        0x3ff4_e9d4_703d_f842
    }
}

/// The fixed-point value of `2^(-p / 2^level)`, for `p` below `2^level`:
/// the product of the roots that the binary digits of `p` select, the
/// leading digit first, rounded down after each factor.
pub open spec fn grid_at(p: nat, level: nat) -> nat
    decreases level,
{
    if level == 0 {
        FINE_ONE as nat
    } else {
        let above = grid_at(p / 2, (level - 1) as nat);
        if p % 2 == 0 {
            above
        } else {
            (above * root(level)) / (FINE_ONE as nat)
        }
    }
}

/// The grid value at the start of step `j` of a half-life: the fixed-point
/// value of `2^(-j / 1024)`. At the end of the last step it is 0.5 exactly.
pub open spec fn grid(j: nat) -> nat {
    if j >= GRID_STEPS {
        FINE_HALF as nat
    } else {
        grid_at(j, GRID_LEVELS as nat)
    }
}

/// The chord through the grid values, at the position `y` of a half-life
/// that is `1024 * span` long, times `span`.
pub open spec fn fine_weight(y: nat, span: nat) -> nat {
    let j = y / span;
    let r = y % span;
    grid(j) * ((span - r) as nat) + grid(j + 1) * r
}

/// Numerator of the exact weight of a memory of the given age: the value
/// of the chord at the part of the age that exceeds its whole half-lives.
pub open spec fn decay_numerator(age: nat, half_life: nat) -> nat {
    fine_weight((age % half_life) * (GRID_STEPS as nat), half_life)
}

/// Denominator of the exact weight of a memory of the given age: it
/// doubles with every whole half-life.
pub open spec fn decay_denominator(age: nat, half_life: nat) -> nat {
    half_life * pow2((FINE_SHIFT as nat) + age / half_life)
}

/// The weight of a memory of the given age: the exact weight
/// `decay_numerator / decay_denominator`, counted in units of 2^-32 and
/// rounded down. It is `0.5^(age / half_life)` to within 0.0000001.
pub open spec fn decay_weight(age: nat, half_life: nat) -> nat
    recommends
        half_life > 0,
{
    decay_numerator(age, half_life) / decay_denominator(age, half_life)
}

/// Whether the exact weight at an age is large enough for a second more to
/// show in the rounded weight.
pub open spec fn within_resolution(age: nat, half_life: nat) -> bool {
    decay_denominator(age, half_life) <= 0x1000_0000_0000_0000
}

/// The grid value that ends the step that `grid_at(p, level)` starts.
spec fn next_at(p: nat, level: nat) -> nat {
    if p + 1 >= pow2(level) {
        FINE_HALF as nat
    } else {
        grid_at(p + 1, level)
    }
}

/// A step from `top` down to `bottom` is in order: both lie between 0.5 and
/// 1, `bottom` below `top`, and `bottom` is `top` times `ratio` to within
/// `slack` units.
spec fn step_ok(top: int, bottom: int, ratio: int, slack: int) -> bool {
    &&& FINE_HALF <= bottom < top <= FINE_ONE
    &&& top * ratio - slack * FINE_ONE <= bottom * FINE_ONE <= top * ratio + slack * FINE_ONE
}

/// Every root is the rounded-down square root of the root before it, and
/// lies above it and below 1. With `root(0)` being 0.5, this makes
/// `root(level)` the value of `2^(-1 / 2^level)` to within a few units of
/// 2^-62.
pub proof fn lemma_roots(level: nat)
    requires
        1 <= level <= GRID_LEVELS,
    ensures
        root(level) * root(level) <= root((level - 1) as nat) * FINE_ONE < (root(level) + 1) * (
        root(level) + 1),
        root((level - 1) as nat) + 64 <= root(level) < FINE_ONE,
        root((level - 1) as nat) >= FINE_HALF,
{
    if level == 1 {
        assert(0x2d41_3ccc_fe77_9921int * 0x2d41_3ccc_fe77_9921int
            <= 0x2000_0000_0000_0000int * 0x4000_0000_0000_0000int < 0x2d41_3ccc_fe77_9922int
            * 0x2d41_3ccc_fe77_9922int) by (nonlinear_arith);
    } else if level == 2 {
        assert(0x35d1_3f32_b5a7_5abdint * 0x35d1_3f32_b5a7_5abdint
            <= 0x2d41_3ccc_fe77_9921int * 0x4000_0000_0000_0000int < 0x35d1_3f32_b5a7_5abeint
            * 0x35d1_3f32_b5a7_5abeint) by (nonlinear_arith);
    } else if level == 3 {
        assert(0x3ab0_31b9_f749_0e4bint * 0x3ab0_31b9_f749_0e4bint
            <= 0x35d1_3f32_b5a7_5abdint * 0x4000_0000_0000_0000int < 0x3ab0_31b9_f749_0e4cint
            * 0x3ab0_31b9_f749_0e4cint) by (nonlinear_arith);
    } else if level == 4 {
        assert(0x3d49_5f45_4921_b30aint * 0x3d49_5f45_4921_b30aint
            <= 0x3ab0_31b9_f749_0e4bint * 0x4000_0000_0000_0000int < 0x3d49_5f45_4921_b30bint
            * 0x3d49_5f45_4921_b30bint) by (nonlinear_arith);
    } else if level == 5 {
        assert(0x3ea0_ecb6_dc8a_80ceint * 0x3ea0_ecb6_dc8a_80ceint
            <= 0x3d49_5f45_4921_b30aint * 0x4000_0000_0000_0000int < 0x3ea0_ecb6_dc8a_80cfint
            * 0x3ea0_ecb6_dc8a_80cfint) by (nonlinear_arith);
    } else if level == 6 {
        assert(0x3f4f_8303_3d21_b05cint * 0x3f4f_8303_3d21_b05cint
            <= 0x3ea0_ecb6_dc8a_80ceint * 0x4000_0000_0000_0000int < 0x3f4f_8303_3d21_b05dint
            * 0x3f4f_8303_3d21_b05dint) by (nonlinear_arith);
    } else if level == 7 {
        assert(0x3fa7_8457_1ee3_e212int * 0x3fa7_8457_1ee3_e212int
            <= 0x3f4f_8303_3d21_b05cint * 0x4000_0000_0000_0000int < 0x3fa7_8457_1ee3_e213int
            * 0x3fa7_8457_1ee3_e213int) by (nonlinear_arith);
    } else if level == 8 {
        assert(0x3fd3_b2d6_5447_b228int * 0x3fd3_b2d6_5447_b228int
            <= 0x3fa7_8457_1ee3_e212int * 0x4000_0000_0000_0000int < 0x3fd3_b2d6_5447_b229int
            * 0x3fd3_b2d6_5447_b229int) by (nonlinear_arith);
    } else if level == 9 {
        assert(0x3fe9_d594_8723_6bb3int * 0x3fe9_d594_8723_6bb3int
            <= 0x3fd3_b2d6_5447_b228int * 0x4000_0000_0000_0000int < 0x3fe9_d594_8723_6bb4int
            * 0x3fe9_d594_8723_6bb4int) by (nonlinear_arith);
    } else {
        assert(0x3ff4_e9d4_703d_f842int * 0x3ff4_e9d4_703d_f842int
            <= 0x3fe9_d594_8723_6bb3int * 0x4000_0000_0000_0000int < 0x3ff4_e9d4_703d_f843int
            * 0x3ff4_e9d4_703d_f843int) by (nonlinear_arith);
    }
}

/// Halving a step: with `mid` the rounded-down product of `top` and the
/// next root, both halves of a step that is in order are in order, three
/// units of slack being lost.
proof fn lemma_halved_step(top: int, bottom: int, wide: int, narrow: int, slack: int, mid: int)
    requires
        step_ok(top, bottom, wide, slack),
        0 <= slack <= 30,
        narrow * narrow <= wide * FINE_ONE < (narrow + 1) * (narrow + 1),
        wide + 64 <= narrow < FINE_ONE,
        wide >= FINE_HALF,
        mid == (top * narrow) / (FINE_ONE as int),
    ensures
        bottom < mid < top,
        mid * FINE_ONE <= top * narrow < (mid + 1) * FINE_ONE,
        step_ok(top, mid, narrow, 1),
        step_ok(mid, bottom, narrow, slack + 3),
{
    let one = FINE_ONE as int;
    assert(top * narrow >= 0) by (nonlinear_arith)
        requires
            top >= 0,
            narrow >= 0,
    ;
    lemma_fundamental_div_mod(top * narrow, one);
    lemma_mod_bound(top * narrow, one);
    assert(mid * one <= top * narrow < (mid + 1) * one) by (nonlinear_arith)
        requires
            top * narrow == one * mid + (top * narrow) % one,
            0 <= (top * narrow) % one < one,
    ;
    assert(top * narrow < top * one) by (nonlinear_arith)
        requires
            top > 0,
            narrow < one,
    ;
    assert(mid < top) by (nonlinear_arith)
        requires
            mid * one <= top * narrow,
            top * narrow < top * one,
            one > 0,
    ;
    assert(top * narrow >= top * wide + 32 * one) by (nonlinear_arith)
        requires
            top >= 0x2000_0000_0000_0000,
            narrow >= wide + 64,
            one == 0x4000_0000_0000_0000,
    ;
    assert(bottom < mid) by (nonlinear_arith)
        requires
            (mid + 1) * one > top * narrow,
            top * narrow >= top * wide + 32 * one,
            bottom * one <= top * wide + slack * one,
            slack <= 30,
            one > 0,
    ;
    // mid * narrow is top * wide to within three units
    assert(mid * narrow * one <= top * narrow * narrow) by (nonlinear_arith)
        requires
            mid * one <= top * narrow,
            narrow >= 0,
    ;
    assert(top * narrow * narrow <= top * wide * one) by (nonlinear_arith)
        requires
            narrow * narrow <= wide * one,
            top >= 0,
    ;
    assert(mid * narrow <= top * wide) by (nonlinear_arith)
        requires
            mid * narrow * one <= top * narrow * narrow,
            top * narrow * narrow <= top * wide * one,
            one > 0,
    ;
    assert(mid * narrow * one >= top * narrow * narrow - one * narrow) by (nonlinear_arith)
        requires
            (mid + 1) * one > top * narrow,
            narrow >= 0,
    ;
    assert(top * narrow * narrow >= top * wide * one - top * (2 * narrow + 1)) by (nonlinear_arith)
        requires
            wide * one < (narrow + 1) * (narrow + 1),
            top >= 0,
    ;
    assert(top * (2 * narrow + 1) <= 2 * one * one) by (nonlinear_arith)
        requires
            0 <= top <= one,
            0 <= narrow < one,
    ;
    assert(one * narrow <= one * one) by (nonlinear_arith)
        requires
            narrow < one,
            one > 0,
    ;
    assert(mid * narrow >= top * wide - 3 * one) by (nonlinear_arith)
        requires
            mid * narrow * one >= top * narrow * narrow - one * narrow,
            top * narrow * narrow >= top * wide * one - top * (2 * narrow + 1),
            top * (2 * narrow + 1) <= 2 * one * one,
            one * narrow <= one * one,
            one > 0,
    ;
}

/// Every step of the grid, at every level, is in order.
proof fn lemma_steps_in_order(p: nat, level: nat)
    requires
        level <= GRID_LEVELS,
        p < pow2(level),
    ensures
        step_ok(
            grid_at(p, level) as int,
            next_at(p, level) as int,
            root(level) as int,
            3 * level as int,
        ),
    decreases level,
{
    lemma2_to64();
    if level == 0 {
        assert(grid_at(p, 0) == FINE_ONE);
        assert(next_at(p, 0) == FINE_HALF);
    } else {
        let above = (level - 1) as nat;
        let q = p / 2;
        lemma_pow2_unfold(level);
        lemma_steps_in_order(q, above);
        lemma_roots(level);
        let top = grid_at(q, above) as int;
        let bottom = next_at(q, above) as int;
        let mid = (top * root(level)) / (FINE_ONE as int);
        lemma_halved_step(
            top,
            bottom,
            root(above) as int,
            root(level) as int,
            3 * above as int,
            mid,
        );
        if p % 2 == 0 {
            assert((p + 1) / 2 == q && (p + 1) % 2 == 1);
            assert(grid_at(p, level) == top);
            assert(grid_at(p + 1, level) == mid);
            assert(next_at(p, level) == mid);
        } else {
            assert((p + 1) / 2 == q + 1 && (p + 1) % 2 == 0);
            assert(grid_at(p, level) == mid);
            assert(next_at(p, level) == bottom);
        }
    }
}

/// The grid starts at 1.
proof fn lemma_grid_start(level: nat)
    ensures
        grid_at(0, level) == FINE_ONE,
    decreases level,
{
    if level > 0 {
        lemma_grid_start((level - 1) as nat);
    }
}

/// Over one step the grid falls by at least `GRID_GAP`, from at most 1 to
/// at least 0.5.
proof fn lemma_grid_step(j: nat)
    requires
        j < GRID_STEPS,
    ensures
        FINE_HALF <= grid(j + 1),
        grid(j + 1) + GRID_GAP <= grid(j) <= FINE_ONE,
{
    lemma2_to64();
    lemma_steps_in_order(j, GRID_LEVELS as nat);
    assert(grid(j + 1) == next_at(j, GRID_LEVELS as nat));
    let top = grid(j) as int;
    let bottom = grid(j + 1) as int;
    let ratio = root(10) as int;
    assert(bottom + 1560300547539905 <= top) by (nonlinear_arith)
        requires
            bottom * 0x4000_0000_0000_0000 <= top * ratio + 30 * 0x4000_0000_0000_0000,
            ratio == 0x3ff4_e9d4_703d_f842,
            top >= 0x2000_0000_0000_0000,
    ;
}

/// The grid is geometric: every step multiplies the value by the last
/// root, `2^(-1/1024)`, to within 30 units of 2^-62. A geometric sequence
/// that starts at 1 is the exponential at its steps.
pub proof fn lemma_grid_geometric(j: nat)
    requires
        j < GRID_STEPS,
    ensures
        grid(j) * root(GRID_LEVELS as nat) - 30 * FINE_ONE <= grid(j + 1) * FINE_ONE <= grid(j)
            * root(GRID_LEVELS as nat) + 30 * FINE_ONE,
{
    lemma2_to64();
    lemma_steps_in_order(j, GRID_LEVELS as nat);
    assert(grid(j + 1) == next_at(j, GRID_LEVELS as nat));
}

/// The grid falls by at least `GRID_GAP` per step over any number of steps:
/// it is strictly decreasing, from 1 at the start of a half-life to 0.5 at
/// its end.
pub proof fn lemma_grid_decreasing(a: nat, b: nat)
    requires
        a <= b <= GRID_STEPS,
    ensures
        grid(a) >= grid(b) + GRID_GAP * (b - a),
        FINE_HALF <= grid(b) <= grid(a) <= FINE_ONE,
        grid(0) == FINE_ONE,
        grid(GRID_STEPS as nat) == FINE_HALF,
    decreases b - a,
{
    lemma_grid_start(GRID_LEVELS as nat);
    if a < b {
        lemma_grid_decreasing(a, (b - 1) as nat);
        lemma_grid_step((b - 1) as nat);
        assert(GRID_GAP * (b - a) == GRID_GAP * (b - 1 - a) + GRID_GAP) by (nonlinear_arith);
    } else {
        if a < GRID_STEPS {
            lemma_grid_step(a);
        }
        if a > 0 {
            lemma_grid_step((a - 1) as nat);
        }
        assert(GRID_GAP * (b - a) == 0);
    }
}

/// Where a position lies on its chord: between the grid values at the ends
/// of its step, at least `GRID_GAP` times its distance away from each.
proof fn lemma_chord_bounds(y: nat, span: nat)
    requires
        span > 0,
        y <= GRID_STEPS * span,
    ensures
        y / span <= GRID_STEPS,
        y == (y / span) * span + y % span,
        y % span < span,
        y / span == GRID_STEPS ==> y % span == 0,
        fine_weight(y, span) + GRID_GAP * (y % span) <= grid(y / span) * span,
        fine_weight(y, span) >= grid(y / span + 1) * span + GRID_GAP * (span - y % span) || y / span
            == GRID_STEPS,
        FINE_HALF * span <= fine_weight(y, span) <= FINE_ONE * span,
{
    let j = y / span;
    let r = y % span;
    let gap = GRID_GAP as int;
    lemma_fundamental_div_mod(y as int, span as int);
    lemma_mod_bound(y as int, span as int);
    assert(y == j * span + r) by (nonlinear_arith)
        requires
            y == span * j + r,
    ;
    assert(j <= GRID_STEPS && (j == GRID_STEPS ==> r == 0)) by (nonlinear_arith)
        requires
            y == j * span + r,
            y <= GRID_STEPS * span,
            0 <= r < span,
            j >= 0,
    ;
    let g0 = grid(j) as int;
    let g1 = grid(j + 1) as int;
    let s = span as int;
    if j < GRID_STEPS {
        lemma_grid_step(j);
        assert(g0 * (s - r) + g1 * r + gap * r <= g0 * s && g0 * (s - r) + g1 * r >= g1 * s + gap * (s
            - r)) by (nonlinear_arith)
            requires
                g1 + gap <= g0,
                0 <= r < s,
        ;
        assert(g1 * s >= FINE_HALF * s && g0 * s <= FINE_ONE * s && gap * (s - r) >= 0 && gap * r >= 0)
            by (nonlinear_arith)
            requires
                g1 >= FINE_HALF,
                g0 <= FINE_ONE,
                gap >= 0,
                0 <= r < s,
        ;
    } else {
        assert(fine_weight(y, span) == g0 * s) by (nonlinear_arith)
            requires
                fine_weight(y, span) == g0 * ((s - r) as nat) + g1 * r,
                r == 0,
                s > 0,
        ;
        assert(gap * r == 0 && g0 * s <= FINE_ONE * s) by (nonlinear_arith)
            requires
                r == 0,
                g0 == FINE_HALF,
                s > 0,
        ;
    }
}

/// The chord falls by at least `GRID_GAP` per unit of position.
proof fn lemma_chord_decreasing(y1: nat, y2: nat, span: nat)
    requires
        span > 0,
        y1 <= y2 <= GRID_STEPS * span,
    ensures
        fine_weight(y1, span) >= fine_weight(y2, span) + GRID_GAP * (y2 - y1),
        FINE_HALF * span <= fine_weight(y2, span),
        fine_weight(y1, span) <= FINE_ONE * span,
{
    let j1 = y1 / span;
    let r1 = y1 % span;
    let j2 = y2 / span;
    let r2 = y2 % span;
    let gap = GRID_GAP as int;
    let s = span as int;
    lemma_chord_bounds(y1, span);
    lemma_chord_bounds(y2, span);
    lemma_div_is_ordered(y1 as int, y2 as int, s);
    if j1 == j2 {
        let g0 = grid(j1) as int;
        let g1 = grid(j1 + 1) as int;
        if j1 < GRID_STEPS {
            lemma_grid_step(j1);
            assert(g0 * (s - r1) + g1 * r1 >= g0 * (s - r2) + g1 * r2 + gap * (r2 - r1))
                by (nonlinear_arith)
                requires
                    g1 + gap <= g0,
                    0 <= r1 <= r2,
            ;
        }
        assert(y2 - y1 == r2 - r1);
    } else {
        lemma_grid_decreasing(j1 + 1, j2);
        let ga = grid(j1 + 1) as int;
        let gb = grid(j2) as int;
        let f1 = fine_weight(y1, span) as int;
        let f2 = fine_weight(y2, span) as int;
        assert(f1 >= f2 + gap * (y2 - y1)) by (nonlinear_arith)
            requires
                f1 >= ga * s + gap * (s - r1),
                f2 + gap * r2 <= gb * s,
                ga >= gb + gap * (j2 - (j1 + 1)),
                y1 == j1 * s + r1,
                y2 == j2 * s + r2,
                s > 0,
                gap >= 0,
                j2 > j1,
        ;
    }
}

/// The position on the chord of the part of an age that exceeds its whole
/// half-lives.
proof fn lemma_position(age: nat, half_life: nat)
    requires
        half_life > 0,
    ensures
        (age % half_life) * GRID_STEPS + GRID_STEPS <= GRID_STEPS * half_life,
        age == half_life * (age / half_life) + age % half_life,
        decay_denominator(age, half_life) > 0,
        decay_denominator(age, half_life) == half_life * pow2(FINE_SHIFT as nat) * pow2(
            age / half_life,
        ),
        pow2(FINE_SHIFT as nat) == 0x4000_0000,
{
    let h = half_life as int;
    let f = (age % half_life) as int;
    let k = age / half_life;
    lemma_fundamental_div_mod(age as int, h);
    lemma_mod_bound(age as int, h);
    assert(f * 1024 + 1024 <= 1024 * h) by (nonlinear_arith)
        requires
            0 <= f < h,
    ;
    lemma_pow2_adds(FINE_SHIFT as nat, k);
    lemma_pow2_pos(k);
    lemma2_to64();
    assert(h * pow2(30 + k) == h * pow2(30) * pow2(k) && h * pow2(30 + k) > 0) by (nonlinear_arith)
        requires
            pow2(30 + k) == pow2(30) * pow2(k),
            pow2(30) == 0x4000_0000,
            pow2(k) > 0,
            h > 0,
    ;
}

/// A memory of age zero has full weight.
pub proof fn lemma_decay_fresh(half_life: nat)
    requires
        half_life > 0,
    ensures
        decay_weight(0, half_life) == WEIGHT_ONE,
{
    lemma_decay_at_half_lives(0, half_life);
    lemma2_to64();
    assert(0 * half_life == 0);
}

/// After a whole number of half-lives the weight is 1.0 halved that many
/// times.
pub proof fn lemma_decay_at_half_lives(count: nat, half_life: nat)
    requires
        half_life > 0,
    ensures
        decay_weight(count * half_life, half_life) == WEIGHT_ONE as nat / pow2(count),
{
    let h = half_life as int;
    let age = count * half_life;
    lemma_pow2_pos(count);
    lemma_div_multiples_vanish(count as int, h);
    lemma_mod_multiples_basic(count as int, h);
    assert(age == h * count && age == count * h) by (nonlinear_arith)
        requires
            age == count * half_life,
            h == half_life,
    ;
    assert(age / half_life == count);
    assert(age % half_life == 0);
    lemma_position(age, half_life);
    lemma_grid_decreasing(0, 0);
    let y = (age % half_life) * (GRID_STEPS as nat);
    assert(y == 0);
    lemma_basic_div(0, h);
    lemma_small_mod(0, half_life);
    assert(y / half_life == 0 && y % half_life == 0);
    let p = pow2(count) as int;
    let scale = h * 0x4000_0000;
    assert(fine_weight(y, half_life) == scale * 0x1_0000_0000) by (nonlinear_arith)
        requires
            fine_weight(y, half_life) == grid(0) * ((h - 0) as nat) + grid(1) * 0,
            grid(0) == 0x4000_0000_0000_0000,
            scale == h * 0x4000_0000,
            h > 0,
    ;
    assert(decay_denominator(age, half_life) == scale * p);
    assert(scale > 0);
    lemma_div_multiples_vanish_quotient(scale, 0x1_0000_0000, p);
}

/// One more half-life halves the weight, whatever the age: the law that
/// defines exponential decay.
pub proof fn lemma_decay_halves(age: nat, half_life: nat)
    requires
        half_life > 0,
    ensures
        decay_weight(age + half_life, half_life) == decay_weight(age, half_life) / 2,
{
    let h = half_life as int;
    let k = age / half_life;
    let f = (age % half_life) as int;
    lemma_position(age, half_life);
    lemma_position(age + half_life, half_life);
    lemma_mod_bound(age as int, h);
    assert(age + h == (k + 1) * h + f) by (nonlinear_arith)
        requires
            age == h * k + f,
    ;
    lemma_fundamental_div_mod_converse(age + h, h, k as int + 1, f);
    assert((age + half_life) / half_life == k + 1);
    assert((age + half_life) % half_life == age % half_life);
    lemma_pow2_unfold(k + 1);
    let d = decay_denominator(age, half_life) as int;
    let n = decay_numerator(age, half_life) as int;
    assert(decay_denominator(age + half_life, half_life) == d * 2) by (nonlinear_arith)
        requires
            decay_denominator(age + half_life, half_life) == h * pow2(30) * pow2(k + 1),
            pow2(k + 1) == 2 * pow2(k),
            d == h * pow2(30) * pow2(k),
    ;
    lemma_div_denominator(n, d, 2);
}

/// A memory that is at least one half-life older than another weighs at
/// most what a memory at the end of the younger one's half-life would.
proof fn lemma_later_period(younger: nat, older: nat, half_life: nat)
    requires
        half_life > 0,
        younger / half_life < older / half_life,
    ensures
        decay_denominator(younger, half_life) > 0,
        decay_weight(older, half_life) <= (FINE_HALF as nat * half_life) / decay_denominator(
            younger,
            half_life,
        ),
{
    let h = half_life as int;
    let k1 = younger / half_life;
    let k2 = older / half_life;
    let n2 = decay_numerator(older, half_life) as int;
    let d1 = decay_denominator(younger, half_life) as int;
    let d2 = decay_denominator(older, half_life) as int;
    lemma_position(younger, half_life);
    lemma_position(older, half_life);
    lemma_pow2_pos(k1);
    lemma_pow2_unfold(k1 + 1);
    if k1 + 1 < k2 {
        lemma_pow2_strictly_increases(k1 + 1, k2);
    }
    assert(pow2(k2) >= 2 * pow2(k1));
    assert(d2 >= 2 * d1) by (nonlinear_arith)
        requires
            d1 == h * pow2(30) * pow2(k1),
            d2 == h * pow2(30) * pow2(k2),
            h > 0,
            pow2(30) > 0,
            pow2(k2) >= 2 * pow2(k1),
    ;
    let y2 = (older % half_life) * (GRID_STEPS as nat);
    lemma_chord_decreasing(y2, y2, half_life);
    let whole = 2 * (FINE_HALF * h);
    assert(n2 <= whole);
    lemma_div_is_ordered(n2, whole, d2);
    assert(whole >= 0);
    lemma_div_is_ordered_by_denominator(whole, 2 * d1, d2);
    assert(FINE_HALF * h >= 0);
    lemma_div_multiples_vanish_quotient(2, FINE_HALF * h, d1);
}

/// The weight of a memory never grows as the memory ages.
pub proof fn lemma_decay_monotone(younger: nat, older: nat, half_life: nat)
    requires
        half_life > 0,
        younger <= older,
    ensures
        decay_weight(older, half_life) <= decay_weight(younger, half_life),
{
    let h = half_life as int;
    let n1 = decay_numerator(younger, half_life) as int;
    let n2 = decay_numerator(older, half_life) as int;
    let d1 = decay_denominator(younger, half_life) as int;
    lemma_div_is_ordered(younger as int, older as int, h);
    lemma_position(younger, half_life);
    lemma_position(older, half_life);
    let y1 = (younger % half_life) * (GRID_STEPS as nat);
    let y2 = (older % half_life) * (GRID_STEPS as nat);
    if younger / half_life == older / half_life {
        assert(younger % half_life <= older % half_life);
        assert(y1 == (younger % half_life) * 1024 && y2 == (older % half_life) * 1024);
        assert(y1 <= y2);
        lemma_chord_decreasing(y1, y2, half_life);
        assert(GRID_GAP * (y2 - y1) >= 0) by (nonlinear_arith)
            requires
                y2 >= y1,
        ;
        lemma_div_is_ordered(n2, n1, d1);
    } else {
        lemma_later_period(younger, older, half_life);
        lemma_chord_decreasing(y1, y1, half_life);
        lemma_div_is_ordered(FINE_HALF * h, n1, d1);
    }
}

/// Of two memories that differ in age, the older one weighs strictly less,
/// as long as the younger one is within the resolution of the weights: its
/// exact weight is still large enough for one second more to show. A
/// memory that has faded below that has a weight of a few units at most,
/// and from there on the rounded weights of neighbouring ages coincide.
pub proof fn lemma_decay_strictly_decreasing(younger: nat, older: nat, half_life: nat)
    requires
        half_life > 0,
        younger < older,
        within_resolution(younger, half_life),
    ensures
        decay_weight(older, half_life) < decay_weight(younger, half_life),
{
    let h = half_life as int;
    let n1 = decay_numerator(younger, half_life) as int;
    let n2 = decay_numerator(older, half_life) as int;
    let d1 = decay_denominator(younger, half_life) as int;
    let gap = GRID_GAP as int;
    lemma_div_is_ordered(younger as int, older as int, h);
    lemma_position(younger, half_life);
    lemma_position(older, half_life);
    let y1 = (younger % half_life) * (GRID_STEPS as nat);
    let y2 = (older % half_life) * (GRID_STEPS as nat);
    if younger / half_life == older / half_life {
        assert(younger % half_life < older % half_life);
        assert(y1 == (younger % half_life) * 1024 && y2 == (older % half_life) * 1024);
        assert(y1 + 1024 <= y2);
        lemma_chord_decreasing(y1, y2, half_life);
        assert(gap * (y2 - y1) >= 0x1000_0000_0000_0000) by (nonlinear_arith)
            requires
                y2 - y1 >= 1024,
                gap == 1560300547539905,
        ;
        lemma_div_is_ordered(n2 + d1, n1, d1);
        lemma_div_plus_one(n2, d1);
    } else {
        lemma_later_period(younger, older, half_life);
        let end = (GRID_STEPS as nat) * half_life;
        lemma_chord_decreasing(y1, end, half_life);
        lemma_div_multiples_vanish(GRID_STEPS as int, h);
        lemma_mod_multiples_basic(GRID_STEPS as int, h);
        assert(end == h * GRID_STEPS && end == GRID_STEPS * h) by (nonlinear_arith)
            requires
                end == GRID_STEPS * half_life,
                h == half_life,
        ;
        assert(end / half_life == GRID_STEPS && end % half_life == 0);
        assert(fine_weight(end, half_life) == FINE_HALF * h) by (nonlinear_arith)
            requires
                fine_weight(end, half_life) == grid(GRID_STEPS as nat) * ((h - 0) as nat) + grid(
                    (GRID_STEPS + 1) as nat,
                ) * 0,
                grid(GRID_STEPS as nat) == FINE_HALF,
                h > 0,
        ;
        assert(gap * (end - y1) >= 0x1000_0000_0000_0000) by (nonlinear_arith)
            requires
                end - y1 >= 1024,
                gap == 1560300547539905,
        ;
        lemma_div_is_ordered(FINE_HALF * h + d1, n1, d1);
        lemma_div_plus_one(FINE_HALF * h, d1);
    }
}

/// Runtime form of [`root`].
fn root_of(level: u32) -> (c: u128)
    requires
        1 <= level <= GRID_LEVELS,
    ensures
        c == root(level as nat),
{
    if level == 1 {
        0x2d41_3ccc_fe77_9921
    } else if level == 2 {
        0x35d1_3f32_b5a7_5abd
    } else if level == 3 {
        0x3ab0_31b9_f749_0e4b
    } else if level == 4 {
        0x3d49_5f45_4921_b30a
    } else if level == 5 {
        0x3ea0_ecb6_dc8a_80ce
    } else if level == 6 {
        0x3f4f_8303_3d21_b05c
    } else if level == 7 {
        0x3fa7_8457_1ee3_e212
    } else if level == 8 {
        0x3fd3_b2d6_5447_b228
    } else if level == 9 {
        0x3fe9_d594_8723_6bb3
    } else {
        0x3ff4_e9d4_703d_f842
    }
}

/// Computes [`grid`]: the fixed-point value of `2^(-j / 1024)`, and 0.5
/// from the end of the half-life on.
pub fn grid_value(j: u64) -> (v: u128)
    ensures
        v == grid(j as nat),
        FINE_HALF <= v <= FINE_ONE,
{
    if j >= GRID_STEPS {
        return FINE_HALF;
    }
    let mut value: u128 = FINE_ONE;
    let mut level: u32 = 0;
    let mut width: u64 = GRID_STEPS;
    proof {
        lemma2_to64();
        lemma_basic_div(j as int, 1024);
    }
    while level < GRID_LEVELS
        invariant
            level <= GRID_LEVELS,
            j < GRID_STEPS,
            width == pow2((GRID_LEVELS - level) as nat),
            width >= 1,
            j / width < pow2(level as nat),
            value == grid_at((j / width) as nat, level as nat),
            FINE_HALF <= value <= FINE_ONE,
        decreases GRID_LEVELS - level,
    {
        let ghost wide = width;
        proof {
            lemma_pow2_unfold((GRID_LEVELS - level) as nat);
            lemma_pow2_unfold((level + 1) as nat);
            lemma_pow2_pos((GRID_LEVELS - level - 1) as nat);
        }
        level = level + 1;
        width = width / 2;
        let p: u64 = j / width;
        proof {
            assert(wide == width * 2);
            lemma_div_denominator(j as int, width as int, 2);
            assert(p / 2 == j / wide);
            lemma_steps_in_order(p as nat, level as nat);
        }
        if p % 2 == 1 {
            let factor: u128 = root_of(level);
            proof {
                lemma_roots(level as nat);
                assert(value * factor <= 0x4000_0000_0000_0000 * 0x4000_0000_0000_0000)
                    by (nonlinear_arith)
                    requires
                        0 <= value <= 0x4000_0000_0000_0000,
                        0 <= factor <= 0x4000_0000_0000_0000,
                ;
            }
            value = value * factor / FINE_ONE;
        }
    }
    proof {
        lemma2_to64();
        assert(level == GRID_LEVELS);
        assert(width == 1);
        lemma_div_basics(j as int);
        assert(j / 1 == j);
    }
    value
}

/// Computes [`decay_weight`].
pub fn decay_weight_of(age: u64, half_life: u64) -> (w: u64)
    requires
        half_life > 0,
    ensures
        w == decay_weight(age as nat, half_life as nat),
        w <= WEIGHT_ONE,
{
    let periods: u64 = age / half_life;
    let within: u64 = age % half_life;
    let span: u128 = half_life as u128;
    let y: u128 = (within as u128) * 1024;
    let ghost fine = fine_weight(y as nat, half_life as nat) as int;
    let ghost bound = 0x4000_0000_0000_0000 * span;
    proof {
        lemma_position(age as nat, half_life as nat);
        lemma_chord_decreasing(y as nat, y as nat, half_life as nat);
        lemma_chord_bounds(y as nat, half_life as nat);
        lemma_pow2_pos(periods as nat);
        assert(fine == decay_numerator(age as nat, half_life as nat));
        assert(0 <= fine <= bound);
    }
    if periods > 32 {
        proof {
            let d = decay_denominator(age as nat, half_life as nat) as int;
            lemma_pow2_strictly_increases(32, periods as nat);
            lemma2_to64();
            assert(d > bound) by (nonlinear_arith)
                requires
                    d == span * 0x4000_0000 * pow2(periods as nat),
                    pow2(periods as nat) > 0x1_0000_0000,
                    bound == 0x4000_0000_0000_0000 * span,
                    span > 0,
            ;
            lemma_basic_div(fine, d);
        }
        return 0;
    }
    let step: u64 = (y / span) as u64;
    let rest: u128 = y % span;
    proof {
        assert(step < 1024) by (nonlinear_arith)
            requires
                y == step * span + rest,
                y + 1024 <= 1024 * span,
                rest >= 0,
                span > 0,
        ;
    }
    let top: u128 = grid_value(step);
    let bottom: u128 = grid_value(step + 1);
    proof {
        assert(top * (span - rest) + bottom * rest <= bound) by (nonlinear_arith)
            requires
                0 <= top <= 0x4000_0000_0000_0000,
                0 <= bottom <= 0x4000_0000_0000_0000,
                0 <= rest < span,
                bound == 0x4000_0000_0000_0000 * span,
        ;
        assert(top * (span - rest) >= 0 && bottom * rest >= 0) by (nonlinear_arith)
            requires
                top >= 0,
                bottom >= 0,
                0 <= rest < span,
        ;
    }
    let numerator: u128 = top * (span - rest) + bottom * rest;
    let mut denominator: u128 = span * 0x4000_0000;
    let mut i: u64 = 0;
    proof {
        lemma2_to64();
        assert(span * 0x4000_0000 == span * 0x4000_0000 * pow2(0)) by (nonlinear_arith)
            requires
                pow2(0) == 1,
        ;
    }
    while i < periods
        invariant
            i <= periods <= 32,
            denominator == span * 0x4000_0000 * pow2(i as nat),
            span == half_life,
            half_life > 0,
        decreases periods - i,
    {
        proof {
            lemma_pow2_unfold((i + 1) as nat);
            lemma_pow2_strictly_increases((i + 1) as nat, 33);
            lemma2_to64();
            lemma2_to64_rest();
            assert(span * 0x4000_0000 * pow2((i + 1) as nat) == 2 * (span * 0x4000_0000 * pow2(
                i as nat,
            )) && span * 0x4000_0000 * pow2((i + 1) as nat) < 0x1_0000_0000_0000_0000 * 0x4000_0000
                * 0x2_0000_0000) by (nonlinear_arith)
                requires
                    pow2((i + 1) as nat) == 2 * pow2(i as nat),
                    pow2((i + 1) as nat) < 0x2_0000_0000,
                    0 < span < 0x1_0000_0000_0000_0000,
            ;
        }
        denominator = denominator * 2;
        i = i + 1;
    }
    proof {
        let d = decay_denominator(age as nat, half_life as nat) as int;
        assert(denominator == d);
        assert(numerator == fine);
        assert(d >= span * 0x4000_0000) by (nonlinear_arith)
            requires
                d == span * 0x4000_0000 * pow2(periods as nat),
                pow2(periods as nat) > 0,
                span > 0,
        ;
        lemma_div_is_ordered(fine, bound, d);
        lemma_div_is_ordered_by_denominator(bound, span * 0x4000_0000, d);
        assert(bound == (span * 0x4000_0000) * 0x1_0000_0000) by (nonlinear_arith)
            requires
                bound == 0x4000_0000_0000_0000 * span,
        ;
        lemma_div_multiples_vanish(0x1_0000_0000, span * 0x4000_0000);
    }
    (numerator / denominator) as u64
}

} // verus!
