//! The current emotion: the personality baseline blended with the
//! remembered affects, each weighted by its age.
//!
//! Per axis the result is
//! `(baseline_weight * baseline + sum of weight_i * affect_i) /
//! (baseline_weight + sum of weight_i)`, rounded down and clamped. The
//! baseline counts like one memory that never ages.

use vstd::prelude::*;
use vstd::arithmetic::div_mod::*;
use vstd::arithmetic::mul::*;
use crate::config::PersonalityTraits;
use crate::decay::{
    decay_weight, decay_weight_of, lemma_decay_fresh, lemma_decay_monotone,
    lemma_decay_strictly_decreasing, within_resolution,
};
use crate::decay::WEIGHT_ONE;
use crate::emotion::{
    clamp_affect, in_affect_range, Axis, EmotionPrediction, AFFECT_MAX, AFFECT_MIN,
};
use crate::record::{records_valid, MemoryRecord};

verus! {

/// The weight of the personality baseline: that of one fresh memory.
pub const BASELINE_WEIGHT: u64 = 0x1_0000_0000;

/// The age of a record at the time `now`, in seconds. A record stamped
/// later than `now` counts as fresh.
pub open spec fn record_age(now: u64, timestamp: u64) -> nat {
    if now >= timestamp {
        (now - timestamp) as nat
    } else {
        0
    }
}

/// The weight of a record at the time `now`.
pub open spec fn record_weight(record: MemoryRecord, now: u64, half_life: u64) -> nat {
    decay_weight(record_age(now, record.timestamp), half_life as nat)
}

/// Whether a record takes part in a blend: all records do where no source
/// is asked for, and otherwise those that came from that source.
pub open spec fn selected(record: MemoryRecord, source: Option<Seq<char>>) -> bool {
    match source {
        None => true,
        Some(s) => record.from_source(s),
    }
}

/// The sum of the weights of the selected records.
pub open spec fn weight_total(
    log: Seq<MemoryRecord>,
    source: Option<Seq<char>>,
    now: u64,
    half_life: u64,
) -> nat
    decreases log.len(),
{
    if log.len() == 0 {
        0
    } else {
        weight_total(log.drop_last(), source, now, half_life) + if selected(log.last(), source) {
            record_weight(log.last(), now, half_life)
        } else {
            0
        }
    }
}

/// The sum, over the selected records, of weight times affect on one axis.
pub open spec fn affect_total(
    log: Seq<MemoryRecord>,
    axis: Axis,
    source: Option<Seq<char>>,
    now: u64,
    half_life: u64,
) -> int
    decreases log.len(),
{
    if log.len() == 0 {
        0
    } else {
        affect_total(log.drop_last(), axis, source, now, half_life) + if selected(
            log.last(),
            source,
        ) {
            record_weight(log.last(), now, half_life) * log.last().emotion.component(axis)
        } else {
            0
        }
    }
}

/// The weighted mean of the baseline and the memories on one axis, rounded
/// down.
pub open spec fn blend(baseline: int, affect_sum: int, weight_sum: nat) -> int {
    (BASELINE_WEIGHT * baseline + affect_sum) / (BASELINE_WEIGHT + weight_sum)
}

/// The current value on one axis, clamped to the valid range.
pub open spec fn current_component(
    baseline: int,
    log: Seq<MemoryRecord>,
    axis: Axis,
    source: Option<Seq<char>>,
    now: u64,
    half_life: u64,
) -> int {
    clamp_affect(
        blend(
            baseline,
            affect_total(log, axis, source, now, half_life),
            weight_total(log, source, now, half_life),
        ),
    )
}

/// The current emotion of a character with the given personality and log,
/// towards everyone (`source` is `None`) or towards one source.
pub open spec fn current_emotion(
    personality: PersonalityTraits,
    log: Seq<MemoryRecord>,
    source: Option<Seq<char>>,
    now: u64,
    half_life: u64,
) -> EmotionPrediction {
    EmotionPrediction {
        valence: current_component(
            personality.valence as int,
            log,
            Axis::Valence,
            source,
            now,
            half_life,
        ) as i32,
        arousal: current_component(
            personality.arousal as int,
            log,
            Axis::Arousal,
            source,
            now,
            half_life,
        ) as i32,
    }
}

/// The records of a log that came from the given source, in their order.
pub open spec fn restricted(log: Seq<MemoryRecord>, source: Seq<char>) -> Seq<MemoryRecord> {
    log.filter(|r: MemoryRecord| r.from_source(source))
}

/// The text of an optional source.
pub open spec fn source_text(source: Option<&String>) -> Option<Seq<char>> {
    match source {
        Some(s) => Some(s@),
        None => None,
    }
}

/// Division that rounds down, for a positive divisor.
fn floor_div(numerator: i128, divisor: i128) -> (q: i128)
    requires
        divisor > 0,
        numerator > i128::MIN,
    ensures
        q == numerator as int / divisor as int,
{
    if numerator >= 0 {
        numerator / divisor
    } else {
        let positive: i128 = -numerator;
        let q0: i128 = positive / divisor;
        let r0: i128 = positive % divisor;
        proof {
            lemma_fundamental_div_mod(positive as int, divisor as int);
            if r0 == 0 {
                assert(numerator as int == (-q0) * divisor + 0) by (nonlinear_arith)
                    requires
                        -numerator == divisor * q0 + r0,
                        r0 == 0,
                ;
                lemma_fundamental_div_mod_converse_div(numerator as int, divisor as int, -q0, 0);
            } else {
                assert(numerator as int == (-q0 - 1) * divisor + (divisor - r0))
                    by (nonlinear_arith)
                    requires
                        -numerator == divisor * q0 + r0,
                ;
                lemma_fundamental_div_mod_converse_div(
                    numerator as int,
                    divisor as int,
                    -q0 - 1,
                    divisor - r0,
                );
            }
        }
        if r0 == 0 {
            -q0
        } else {
            -q0 - 1
        }
    }
}

/// Clamps a blended value into the valid affect range.
fn clamp_blended(x: i128) -> (c: i32)
    ensures
        c == clamp_affect(x as int),
{
    if x < -1_000_000 {
        AFFECT_MIN
    } else if x > 1_000_000 {
        AFFECT_MAX
    } else {
        x as i32
    }
}

/// Computes [`current_emotion`].
pub fn blend_emotion(
    personality: &PersonalityTraits,
    log: &Vec<MemoryRecord>,
    source: Option<&String>,
    now: u64,
    half_life: u64,
) -> (e: EmotionPrediction)
    requires
        personality.is_valid(),
        records_valid(log@),
        half_life > 0,
    ensures
        e == current_emotion(*personality, log@, source_text(source), now, half_life),
        e.is_valid(),
{
    let ghost src = source_text(source);
    let mut weights: u128 = 0;
    let mut valences: i128 = 0;
    let mut arousals: i128 = 0;
    let mut i: usize = 0;
    while i < log.len()
        invariant
            i <= log.len(),
            half_life > 0,
            records_valid(log@),
            src == source_text(source),
            weights == weight_total(log@.subrange(0, i as int), src, now, half_life),
            valences == affect_total(log@.subrange(0, i as int), Axis::Valence, src, now, half_life),
            arousals == affect_total(log@.subrange(0, i as int), Axis::Arousal, src, now, half_life),
            weights <= i * 0x1_0000_0000,
            -(i * 0x10_0000_0000_0000) <= valences <= i * 0x10_0000_0000_0000,
            -(i * 0x10_0000_0000_0000) <= arousals <= i * 0x10_0000_0000_0000,
        decreases log.len() - i,
    {
        let record = &log[i];
        proof {
            let upto = log@.subrange(0, i + 1);
            assert(upto.drop_last() =~= log@.subrange(0, i as int));
            assert(upto.last() == log@[i as int]);
            assert(log@[i as int].is_valid());
        }
        let chosen: bool = match source {
            Some(s) => record.is_from(s),
            None => true,
        };
        if chosen {
            let age: u64 = if now >= record.timestamp {
                now - record.timestamp
            } else {
                0
            };
            let w: u64 = decay_weight_of(age, half_life);
            let v: i128 = record.emotion.valence as i128;
            let a: i128 = record.emotion.arousal as i128;
            assert(-0x10_0000_0000_0000 <= w * v <= 0x10_0000_0000_0000 && -0x10_0000_0000_0000
                <= w * a <= 0x10_0000_0000_0000) by (nonlinear_arith)
                requires
                    0 <= w <= 0x1_0000_0000,
                    -1_000_000 <= v <= 1_000_000,
                    -1_000_000 <= a <= 1_000_000,
            ;
            weights = weights + w as u128;
            valences = valences + (w as i128) * v;
            arousals = arousals + (w as i128) * a;
        }
        i += 1;
    }
    assert(log@.subrange(0, log.len() as int) =~= log@);
    let divisor: i128 = BASELINE_WEIGHT as i128 + weights as i128;
    let pv: i128 = personality.valence as i128;
    let pa: i128 = personality.arousal as i128;
    assert(-0x10_0000_0000_0000 <= 0x1_0000_0000 * pv <= 0x10_0000_0000_0000 && -0x10_0000_0000_0000
        <= 0x1_0000_0000 * pa <= 0x10_0000_0000_0000) by (nonlinear_arith)
        requires
            -1_000_000 <= pv <= 1_000_000,
            -1_000_000 <= pa <= 1_000_000,
    ;
    let valence = clamp_blended(floor_div((BASELINE_WEIGHT as i128) * pv + valences, divisor));
    let arousal = clamp_blended(floor_div((BASELINE_WEIGHT as i128) * pa + arousals, divisor));
    EmotionPrediction { valence, arousal }
}

/// With nothing selected, the current emotion is the personality baseline
/// exactly. This is the case of a character without memory, and of a source
/// that the character has no memory of.
pub proof fn lemma_baseline_without_memories(
    personality: PersonalityTraits,
    log: Seq<MemoryRecord>,
    source: Option<Seq<char>>,
    now: u64,
    half_life: u64,
)
    requires
        personality.is_valid(),
        forall|i: int| 0 <= i < log.len() ==> !selected(#[trigger] log[i], source),
    ensures
        current_emotion(personality, log, source, now, half_life) == personality.baseline(),
    decreases log.len(),
{
    lemma_nothing_selected(log, source, now, half_life);
    lemma_div_multiples_vanish(personality.valence as int, BASELINE_WEIGHT as int);
    lemma_div_multiples_vanish(personality.arousal as int, BASELINE_WEIGHT as int);
}

/// Records that are not selected add nothing to the sums.
proof fn lemma_nothing_selected(
    log: Seq<MemoryRecord>,
    source: Option<Seq<char>>,
    now: u64,
    half_life: u64,
)
    requires
        forall|i: int| 0 <= i < log.len() ==> !selected(#[trigger] log[i], source),
    ensures
        weight_total(log, source, now, half_life) == 0,
        affect_total(log, Axis::Valence, source, now, half_life) == 0,
        affect_total(log, Axis::Arousal, source, now, half_life) == 0,
    decreases log.len(),
{
    if log.len() > 0 {
        let front = log.drop_last();
        assert forall|i: int| 0 <= i < front.len() implies !selected(#[trigger] front[i], source) by {
            assert(front[i] == log[i]);
        }
        lemma_nothing_selected(front, source, now, half_life);
        assert(!selected(log[log.len() - 1], source));
    }
}

/// A character without any memory feels exactly its personality baseline.
pub proof fn lemma_baseline_without_history(
    personality: PersonalityTraits,
    source: Option<Seq<char>>,
    now: u64,
    half_life: u64,
)
    requires
        personality.is_valid(),
    ensures
        current_emotion(personality, Seq::empty(), source, now, half_life)
            == personality.baseline(),
{
    lemma_baseline_without_memories(personality, Seq::empty(), source, now, half_life);
}

/// The emotion towards a source is the blend over the records of that
/// source alone.
pub proof fn lemma_source_restriction(
    personality: PersonalityTraits,
    log: Seq<MemoryRecord>,
    source: Seq<char>,
    now: u64,
    half_life: u64,
)
    ensures
        current_emotion(personality, log, Some(source), now, half_life) == current_emotion(
            personality,
            restricted(log, source),
            None,
            now,
            half_life,
        ),
{
    lemma_restricted_totals(log, Axis::Valence, source, now, half_life);
    lemma_restricted_totals(log, Axis::Arousal, source, now, half_life);
}

/// The sums over the records selected for a source are the sums over all
/// records of the log restricted to that source.
proof fn lemma_restricted_totals(
    log: Seq<MemoryRecord>,
    axis: Axis,
    source: Seq<char>,
    now: u64,
    half_life: u64,
)
    ensures
        weight_total(log, Some(source), now, half_life) == weight_total(
            restricted(log, source),
            None,
            now,
            half_life,
        ),
        affect_total(log, axis, Some(source), now, half_life) == affect_total(
            restricted(log, source),
            axis,
            None,
            now,
            half_life,
        ),
    decreases log.len(),
{
    reveal(Seq::filter);
    if log.len() > 0 {
        lemma_restricted_totals(log.drop_last(), axis, source, now, half_life);
        let rest = restricted(log.drop_last(), source);
        if log.last().from_source(source) {
            assert(restricted(log, source) == rest.push(log.last()));
            assert(rest.push(log.last()).drop_last() =~= rest);
        } else {
            assert(restricted(log, source) == rest);
        }
    } else {
        assert(restricted(log, source) =~= log);
    }
}

/// Records of other sources do not change the emotion towards a source:
/// two logs that hold the same records of that source, in the same order,
/// give the same emotion towards it.
pub proof fn lemma_other_sources_ignored(
    personality: PersonalityTraits,
    log: Seq<MemoryRecord>,
    other: Seq<MemoryRecord>,
    source: Seq<char>,
    now: u64,
    half_life: u64,
)
    requires
        restricted(log, source) == restricted(other, source),
    ensures
        current_emotion(personality, log, Some(source), now, half_life) == current_emotion(
            personality,
            other,
            Some(source),
            now,
            half_life,
        ),
{
    lemma_source_restriction(personality, log, source, now, half_life);
    lemma_source_restriction(personality, other, source, now, half_life);
}

/// Adding a record that came from elsewhere leaves the emotion towards a
/// source as it was.
pub proof fn lemma_foreign_record_ignored(
    personality: PersonalityTraits,
    log: Seq<MemoryRecord>,
    record: MemoryRecord,
    source: Seq<char>,
    now: u64,
    half_life: u64,
)
    requires
        !record.from_source(source),
    ensures
        current_emotion(personality, log.push(record), Some(source), now, half_life)
            == current_emotion(personality, log, Some(source), now, half_life),
{
    assert(log.push(record).drop_last() =~= log);
}

/// Of two records that lie in the past and differ in age, the older one
/// weighs strictly less, and what it adds to the sums is strictly smaller
/// in size on every axis on which the records carry any affect. This holds
/// as long as the younger record's exact weight is within the resolution
/// of the weights (see `lemma_decay_strictly_decreasing`).
pub proof fn lemma_older_record_counts_less(
    older: MemoryRecord,
    younger: MemoryRecord,
    axis: Axis,
    now: u64,
    half_life: u64,
)
    requires
        half_life > 0,
        older.timestamp < younger.timestamp <= now,
        older.emotion == younger.emotion,
        within_resolution(record_age(now, younger.timestamp), half_life as nat),
    ensures
        record_weight(older, now, half_life) < record_weight(younger, now, half_life),
        older.emotion.component(axis) > 0 ==> record_weight(older, now, half_life)
            * older.emotion.component(axis) < record_weight(younger, now, half_life)
            * younger.emotion.component(axis),
        older.emotion.component(axis) < 0 ==> record_weight(older, now, half_life)
            * older.emotion.component(axis) > record_weight(younger, now, half_life)
            * younger.emotion.component(axis),
{
    lemma_decay_strictly_decreasing(
        record_age(now, younger.timestamp),
        record_age(now, older.timestamp),
        half_life as nat,
    );
    let w1 = record_weight(older, now, half_life) as int;
    let w2 = record_weight(younger, now, half_life) as int;
    let c = older.emotion.component(axis);
    assert(c > 0 ==> w1 * c < w2 * c) by (nonlinear_arith)
        requires
            w1 < w2,
    ;
    assert(c < 0 ==> w1 * c > w2 * c) by (nonlinear_arith)
        requires
            w1 < w2,
    ;
}

/// Scaling numerator and divisor by the same positive factor leaves the
/// rounded-down quotient as it is, for a numerator of either sign.
proof fn lemma_scaled_quotient(factor: int, numerator: int, divisor: int)
    requires
        factor > 0,
        divisor > 0,
    ensures
        (factor * numerator) / (factor * divisor) == numerator / divisor,
{
    let q = numerator / divisor;
    let r = numerator % divisor;
    lemma_fundamental_div_mod(numerator, divisor);
    lemma_mod_bound(numerator, divisor);
    assert(factor * numerator == q * (factor * divisor) + factor * r && 0 <= factor * r < factor
        * divisor) by (nonlinear_arith)
        requires
            numerator == divisor * q + r,
            0 <= r < divisor,
            factor > 0,
    ;
    lemma_fundamental_div_mod_converse_div(factor * numerator, factor * divisor, q, factor * r);
}

/// Right after its first interaction a character stands half-way between
/// its baseline and the affect of that interaction, on each axis: the
/// fresh memory and the baseline weigh the same.
pub proof fn lemma_first_impression(
    personality: PersonalityTraits,
    record: MemoryRecord,
    axis: Axis,
    now: u64,
    half_life: u64,
)
    requires
        half_life > 0,
        record.timestamp >= now,
    ensures
        blend(
            personality.baseline().component(axis),
            affect_total(seq![record], axis, None, now, half_life),
            weight_total(seq![record], None, now, half_life),
        ) == (personality.baseline().component(axis) + record.emotion.component(axis)) / 2,
{
    let log = seq![record];
    let b = personality.baseline().component(axis);
    let c = record.emotion.component(axis);
    let w = BASELINE_WEIGHT as int;
    lemma_decay_fresh(half_life as nat);
    assert(log.drop_last() =~= Seq::<MemoryRecord>::empty());
    assert(log.last() == record);
    assert(weight_total(log.drop_last(), None, now, half_life) == 0);
    assert(affect_total(log.drop_last(), axis, None, now, half_life) == 0);
    assert(weight_total(log, None, now, half_life) == w);
    assert(affect_total(log, axis, None, now, half_life) == w * c);
    assert(w * b + w * c == w * (b + c) && w + w == w * 2) by (nonlinear_arith);
    lemma_scaled_quotient(w, b + c, 2);
}

/// The sum of weighted affects lies between the sum of the weights times
/// the smallest and times the largest affect that takes part.
proof fn lemma_affect_total_bounds(
    log: Seq<MemoryRecord>,
    axis: Axis,
    source: Option<Seq<char>>,
    now: u64,
    half_life: u64,
    low: int,
    high: int,
)
    requires
        forall|i: int|
            0 <= i < log.len() && selected(#[trigger] log[i], source) ==> low
                <= log[i].emotion.component(axis) <= high,
    ensures
        low * weight_total(log, source, now, half_life) <= affect_total(
            log,
            axis,
            source,
            now,
            half_life,
        ) <= high * weight_total(log, source, now, half_life),
    decreases log.len(),
{
    if log.len() > 0 {
        let front = log.drop_last();
        assert forall|i: int| 0 <= i < front.len() && selected(#[trigger] front[i], source) implies low
            <= front[i].emotion.component(axis) <= high by {
            assert(front[i] == log[i]);
        }
        lemma_affect_total_bounds(front, axis, source, now, half_life, low, high);
        let w0 = weight_total(front, source, now, half_life) as int;
        let a0 = affect_total(front, axis, source, now, half_life);
        if selected(log.last(), source) {
            let w = record_weight(log.last(), now, half_life) as int;
            let c = log[log.len() - 1].emotion.component(axis);
            assert(low * (w0 + w) <= a0 + w * c <= high * (w0 + w)) by (nonlinear_arith)
                requires
                    low * w0 <= a0 <= high * w0,
                    low <= c <= high,
                    w >= 0,
            ;
        }
    }
}

/// The blend is a mean: it lies between the smallest and the largest of
/// the baseline and the affects that take part. So with a valid
/// personality and valid records the blend is in range before it is
/// clamped, and the emotion neither drifts nor is cut.
pub proof fn lemma_blend_is_a_mean(
    baseline: int,
    log: Seq<MemoryRecord>,
    axis: Axis,
    source: Option<Seq<char>>,
    now: u64,
    half_life: u64,
    low: int,
    high: int,
)
    requires
        low <= baseline <= high,
        forall|i: int|
            0 <= i < log.len() && selected(#[trigger] log[i], source) ==> low
                <= log[i].emotion.component(axis) <= high,
    ensures
        low <= blend(
            baseline,
            affect_total(log, axis, source, now, half_life),
            weight_total(log, source, now, half_life),
        ) <= high,
{
    lemma_affect_total_bounds(log, axis, source, now, half_life, low, high);
    let w = weight_total(log, source, now, half_life) as int;
    let a = affect_total(log, axis, source, now, half_life);
    let divisor = BASELINE_WEIGHT as int + w;
    let numerator = BASELINE_WEIGHT as int * baseline + a;
    assert(divisor * low <= numerator <= divisor * high) by (nonlinear_arith)
        requires
            divisor == 0x1_0000_0000 + w,
            numerator == 0x1_0000_0000 * baseline + a,
            low * w <= a <= high * w,
            low <= baseline <= high,
    ;
    lemma_div_is_ordered(divisor * low, numerator, divisor);
    lemma_div_is_ordered(numerator, divisor * high, divisor);
    lemma_div_multiples_vanish(low, divisor);
    lemma_div_multiples_vanish(high, divisor);
}

/// How far a single record pulls the blend away from the baseline on one
/// axis, as an exact fraction: its numerator.
pub open spec fn pull_numerator(
    baseline: int,
    record: MemoryRecord,
    axis: Axis,
    now: u64,
    half_life: u64,
) -> int {
    record_weight(record, now, half_life) * (record.emotion.component(axis) - baseline)
}

/// The denominator of the pull of a single record.
pub open spec fn pull_denominator(record: MemoryRecord, now: u64, half_life: u64) -> int {
    BASELINE_WEIGHT + record_weight(record, now, half_life)
}

/// The emotion of a character that remembers a single record.
pub open spec fn emotion_after_one(
    baseline: int,
    record: MemoryRecord,
    axis: Axis,
    now: u64,
    half_life: u64,
) -> int {
    current_component(baseline, seq![record], axis, None, now, half_life)
}

/// Rounding down keeps the order of two fractions with positive
/// denominators.
proof fn lemma_floor_keeps_order(a: int, b: int, c: int, d: int)
    requires
        b > 0,
        d > 0,
        a * d <= c * b,
    ensures
        a / b <= c / d,
{
    let q = a / b;
    lemma_fundamental_div_mod(a, b);
    lemma_mod_bound(a, b);
    assert(q * d <= c) by (nonlinear_arith)
        requires
            a == b * q + a % b,
            0 <= a % b,
            a * d <= c * b,
            b > 0,
            d > 0,
    ;
    lemma_div_is_ordered(q * d, c, d);
    lemma_div_multiples_vanish(q, d);
    assert(d * q == q * d) by (nonlinear_arith);
}

/// A record's weight is at most 1.
proof fn lemma_weight_at_most_one(record: MemoryRecord, now: u64, half_life: u64)
    requires
        half_life > 0,
    ensures
        record_weight(record, now, half_life) <= WEIGHT_ONE,
{
    lemma_decay_monotone(0, record_age(now, record.timestamp), half_life as nat);
    lemma_decay_fresh(half_life as nat);
}

/// With a single record the emotion is the baseline plus the record's pull,
/// rounded down, and lies between the baseline and the record's affect.
pub proof fn lemma_single_record(
    baseline: int,
    record: MemoryRecord,
    axis: Axis,
    now: u64,
    half_life: u64,
)
    requires
        in_affect_range(baseline),
        record.emotion.is_valid(),
    ensures
        emotion_after_one(baseline, record, axis, now, half_life) == baseline + pull_numerator(
            baseline,
            record,
            axis,
            now,
            half_life,
        ) / pull_denominator(record, now, half_life),
        baseline <= record.emotion.component(axis) ==> baseline <= emotion_after_one(
            baseline,
            record,
            axis,
            now,
            half_life,
        ) <= record.emotion.component(axis),
        baseline >= record.emotion.component(axis) ==> baseline >= emotion_after_one(
            baseline,
            record,
            axis,
            now,
            half_life,
        ) >= record.emotion.component(axis),
{
    let log = seq![record];
    let c = record.emotion.component(axis);
    let w = record_weight(record, now, half_life) as int;
    let one = BASELINE_WEIGHT as int;
    assert(log.drop_last() =~= Seq::<MemoryRecord>::empty());
    assert(log.last() == record);
    assert(weight_total(log.drop_last(), None, now, half_life) == 0);
    assert(affect_total(log.drop_last(), axis, None, now, half_life) == 0);
    assert(weight_total(log, None, now, half_life) == w);
    assert(affect_total(log, axis, None, now, half_life) == w * c);
    assert(one * baseline + w * c == w * (c - baseline) + baseline * (one + w))
        by (nonlinear_arith);
    lemma_hoist_over_denominator(w * (c - baseline), baseline, (one + w) as nat);
    let low = if baseline <= c {
        baseline
    } else {
        c
    };
    let high = if baseline <= c {
        c
    } else {
        baseline
    };
    lemma_blend_is_a_mean(baseline, log, axis, None, now, half_life, low, high);
}

/// The older a single record is, the less it pulls: of two characters that
/// differ only in the age of the one record they remember, the one with
/// the older record is no further from its baseline. Rounding to millionths
/// can make the two equal.
pub proof fn lemma_older_record_pulls_no_more(
    baseline: int,
    older: MemoryRecord,
    younger: MemoryRecord,
    axis: Axis,
    now: u64,
    half_life: u64,
)
    requires
        half_life > 0,
        in_affect_range(baseline),
        older.emotion.is_valid(),
        older.emotion == younger.emotion,
        older.timestamp <= younger.timestamp,
    ensures
        baseline <= older.emotion.component(axis) ==> baseline <= emotion_after_one(
            baseline,
            older,
            axis,
            now,
            half_life,
        ) <= emotion_after_one(baseline, younger, axis, now, half_life),
        baseline >= older.emotion.component(axis) ==> baseline >= emotion_after_one(
            baseline,
            older,
            axis,
            now,
            half_life,
        ) >= emotion_after_one(baseline, younger, axis, now, half_life),
{
    let c = older.emotion.component(axis);
    let delta = c - baseline;
    let w1 = record_weight(younger, now, half_life) as int;
    let w2 = record_weight(older, now, half_life) as int;
    let one = BASELINE_WEIGHT as int;
    lemma_decay_monotone(
        record_age(now, younger.timestamp),
        record_age(now, older.timestamp),
        half_life as nat,
    );
    lemma_single_record(baseline, older, axis, now, half_life);
    lemma_single_record(baseline, younger, axis, now, half_life);
    if delta >= 0 {
        assert((w2 * delta) * (one + w1) <= (w1 * delta) * (one + w2)) by (nonlinear_arith)
            requires
                0 <= w2 <= w1,
                delta >= 0,
                one > 0,
        ;
        lemma_floor_keeps_order(w2 * delta, one + w2, w1 * delta, one + w1);
    }
    if delta <= 0 {
        assert((w1 * delta) * (one + w2) <= (w2 * delta) * (one + w1)) by (nonlinear_arith)
            requires
                0 <= w2 <= w1,
                delta <= 0,
                one > 0,
        ;
        lemma_floor_keeps_order(w1 * delta, one + w1, w2 * delta, one + w2);
    }
}

/// Before rounding, the older of two records pulls strictly less wherever
/// it weighs less: the exact pull of the older record is the smaller
/// fraction in size.
pub proof fn lemma_older_record_pulls_less_exactly(
    baseline: int,
    older: MemoryRecord,
    younger: MemoryRecord,
    axis: Axis,
    now: u64,
    half_life: u64,
)
    requires
        older.emotion == younger.emotion,
        record_weight(older, now, half_life) < record_weight(younger, now, half_life),
    ensures
        baseline < older.emotion.component(axis) ==> pull_numerator(
            baseline,
            older,
            axis,
            now,
            half_life,
        ) * pull_denominator(younger, now, half_life) < pull_numerator(
            baseline,
            younger,
            axis,
            now,
            half_life,
        ) * pull_denominator(older, now, half_life),
        baseline > older.emotion.component(axis) ==> pull_numerator(
            baseline,
            older,
            axis,
            now,
            half_life,
        ) * pull_denominator(younger, now, half_life) > pull_numerator(
            baseline,
            younger,
            axis,
            now,
            half_life,
        ) * pull_denominator(older, now, half_life),
{
    let delta = older.emotion.component(axis) - baseline;
    let w1 = record_weight(younger, now, half_life) as int;
    let w2 = record_weight(older, now, half_life) as int;
    let one = BASELINE_WEIGHT as int;
    assert(delta > 0 ==> (w2 * delta) * (one + w1) < (w1 * delta) * (one + w2)) by (nonlinear_arith)
        requires
            0 <= w2 < w1,
            one > 0,
    ;
    assert(delta < 0 ==> (w2 * delta) * (one + w1) > (w1 * delta) * (one + w2)) by (nonlinear_arith)
        requires
            0 <= w2 < w1,
            one > 0,
    ;
}

/// After rounding, the older of two records pulls strictly less wherever
/// the difference of the weights, times the distance between the record's
/// affect and the baseline, comes to four units of weight at least: the
/// two emotions then differ by a millionth or more.
pub proof fn lemma_older_record_pulls_less(
    baseline: int,
    older: MemoryRecord,
    younger: MemoryRecord,
    axis: Axis,
    now: u64,
    half_life: u64,
)
    requires
        half_life > 0,
        in_affect_range(baseline),
        older.emotion.is_valid(),
        older.emotion == younger.emotion,
        older.timestamp <= younger.timestamp,
        (record_weight(younger, now, half_life) - record_weight(older, now, half_life)) * (
        older.emotion.component(axis) - baseline) >= 4 * WEIGHT_ONE || (record_weight(
            younger,
            now,
            half_life,
        ) - record_weight(older, now, half_life)) * (baseline - older.emotion.component(axis)) >= 4
            * WEIGHT_ONE,
    ensures
        baseline < older.emotion.component(axis) ==> emotion_after_one(
            baseline,
            older,
            axis,
            now,
            half_life,
        ) < emotion_after_one(baseline, younger, axis, now, half_life),
        baseline > older.emotion.component(axis) ==> emotion_after_one(
            baseline,
            older,
            axis,
            now,
            half_life,
        ) > emotion_after_one(baseline, younger, axis, now, half_life),
{
    let delta = older.emotion.component(axis) - baseline;
    let w1 = record_weight(younger, now, half_life) as int;
    let w2 = record_weight(older, now, half_life) as int;
    let one = BASELINE_WEIGHT as int;
    let d1 = one + w1;
    let d2 = one + w2;
    lemma_weight_at_most_one(older, now, half_life);
    lemma_weight_at_most_one(younger, now, half_life);
    lemma_single_record(baseline, older, axis, now, half_life);
    lemma_single_record(baseline, younger, axis, now, half_life);
    lemma_decay_monotone(
        record_age(now, younger.timestamp),
        record_age(now, older.timestamp),
        half_life as nat,
    );
    let size = if delta > 0 {
        delta
    } else {
        -delta
    };
    let gain = (w1 - w2) * size;
    assert(gain >= 4 * one) by (nonlinear_arith)
        requires
            (w1 - w2) * delta >= 4 * one || (w1 - w2) * (-delta) >= 4 * one,
            gain == (w1 - w2) * size,
            size == delta || size == -delta,
            size >= 0,
            w1 >= w2,
            one > 0,
    ;
    assert(d1 * d2 <= 4 * (one * one)) by (nonlinear_arith)
        requires
            0 < d1 <= 2 * one,
            0 < d2 <= 2 * one,
    ;
    assert(one * gain >= 4 * (one * one)) by (nonlinear_arith)
        requires
            gain >= 4 * one,
            one > 0,
    ;
    if delta > 0 {
        assert((w1 * delta) * d2 - (w2 * delta + d2) * d1 == one * gain - d1 * d2)
            by (nonlinear_arith)
            requires
                gain == (w1 - w2) * delta,
                d1 == one + w1,
                d2 == one + w2,
        ;
        lemma_floor_keeps_order(w2 * delta + d2, d2, w1 * delta, d1);
        lemma_div_plus_one(w2 * delta, d2);
    }
    if delta < 0 {
        assert((w2 * delta) * d1 - (w1 * delta + d1) * d2 == one * gain - d1 * d2)
            by (nonlinear_arith)
            requires
                gain == (w1 - w2) * (-delta),
                d1 == one + w1,
                d2 == one + w2,
        ;
        lemma_floor_keeps_order(w1 * delta + d1, d1, w2 * delta, d2);
        lemma_div_plus_one(w1 * delta, d1);
    }
}

} // verus!
