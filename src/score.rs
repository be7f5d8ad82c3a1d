//! Scores a candidate origin against the recorded samples, exactly or with a
//! tolerance on the summed deviation.
use vstd::prelude::*;
use crate::geometry::{Offset, Position, offset_distance, pos_add, pos_sub};
use crate::hash::{GeneratorVersion, offset_for, offset_of};

verus! {

/// The tolerant score of a candidate: the summed deviation over `count`
/// samples; its average is `total / count`.
#[derive(Clone, Copy, Debug, PartialEq, Eq, Structural)]
pub struct AverageDelta {
    pub total: u64,
    pub count: usize,
}

/// Where a sample recorded at `pos` lies if the recording was made at
/// `candidate` instead of `origin`.
pub open spec fn absolute_position(candidate: Position, pos: Position, origin: Position) -> Position {
    pos_sub(pos_add(candidate, pos), origin)
}

/// The hash reproduces the sample's offset at its absolute position.
pub open spec fn sample_matches(
    candidate: Position,
    sample: (Position, Offset),
    origin: Position,
    version: GeneratorVersion,
) -> bool {
    offset_of(absolute_position(candidate, sample.0, origin), version) == sample.1
}

/// Every sample is reproduced exactly.
pub open spec fn all_match(
    candidate: Position,
    samples: Seq<(Position, Offset)>,
    origin: Position,
    version: GeneratorVersion,
) -> bool {
    forall|i: int| 0 <= i < samples.len() ==> sample_matches(candidate, #[trigger] samples[i], origin, version)
}

/// How far the hash's offset at the sample's absolute position lies from the recorded one.
pub open spec fn sample_deviation(
    candidate: Position,
    sample: (Position, Offset),
    origin: Position,
    version: GeneratorVersion,
) -> nat {
    offset_distance(sample.1, offset_of(absolute_position(candidate, sample.0, origin), version))
}

/// The deviations of all samples, summed.
pub open spec fn total_deviation(
    candidate: Position,
    samples: Seq<(Position, Offset)>,
    origin: Position,
    version: GeneratorVersion,
) -> nat
    decreases samples.len(),
{
    if samples.len() == 0 {
        0
    } else {
        total_deviation(candidate, samples.drop_last(), origin, version) + sample_deviation(
            candidate,
            samples.last(),
            origin,
            version,
        )
    }
}

/// The tolerant outcome: nothing when some samples deviate by `max_total_delta`
/// or more in all, else the summed deviation over `sample_count`.
pub open spec fn average_delta_result(
    candidate: Position,
    samples: Seq<(Position, Offset)>,
    origin: Position,
    version: GeneratorVersion,
    sample_count: usize,
    max_total_delta: u64,
) -> Option<AverageDelta> {
    let total = total_deviation(candidate, samples, origin, version);
    if samples.len() > 0 && total >= max_total_delta {
        None
    } else {
        Some(AverageDelta { total: total as u64, count: sample_count })
    }
}

proof fn lemma_wrapping_reorder(a: i32, b: i32, c: i32)
    ensures
        a.wrapping_sub(b).wrapping_add(c) == a.wrapping_add(c).wrapping_sub(b),
        a.wrapping_add(c).wrapping_sub(a) == c,
{
    assert(a.wrapping_sub(b).wrapping_add(c) == a.wrapping_add(c).wrapping_sub(b)) by (bit_vector);
    assert(a.wrapping_add(c).wrapping_sub(a) == c) by (bit_vector);
}

proof fn lemma_relative_first(candidate: Position, pos: Position, origin: Position)
    ensures
        pos_add(pos_sub(candidate, origin), pos) == absolute_position(candidate, pos, origin),
{
    lemma_wrapping_reorder(candidate.x, origin.x, pos.x);
    lemma_wrapping_reorder(candidate.y, origin.y, pos.y);
    lemma_wrapping_reorder(candidate.z, origin.z, pos.z);
}

/// A prefix never deviates more than the whole.
proof fn lemma_prefix_deviation_le(
    candidate: Position,
    samples: Seq<(Position, Offset)>,
    origin: Position,
    version: GeneratorVersion,
    k: int,
)
    requires
        0 <= k <= samples.len(),
    ensures
        total_deviation(candidate, samples.take(k), origin, version) <= total_deviation(
            candidate,
            samples,
            origin,
            version,
        ),
    decreases samples.len(),
{
    if k == samples.len() {
        assert(samples.take(k) =~= samples);
    } else {
        assert(samples.drop_last().take(k) =~= samples.take(k));
        lemma_prefix_deviation_le(candidate, samples.drop_last(), origin, version, k);
    }
}

/// Whether every sample is reproduced exactly by `candidate`, stopping at the
/// first that is not.
pub fn matches(
    candidate: Position,
    samples: &[(Position, Offset)],
    recording_origin: Position,
    version: GeneratorVersion,
) -> (r: bool)
    ensures
        r == all_match(candidate, samples@, recording_origin, version),
{
    let mut i: usize = 0;
    while i < samples.len()
        invariant
            0 <= i <= samples@.len(),
            forall|j: int|
                0 <= j < i ==> sample_matches(candidate, #[trigger] samples@[j], recording_origin, version),
        decreases samples@.len() - i,
    {
        let (pos, off) = samples[i];
        let absolute = candidate.add(pos).sub(recording_origin);
        if offset_for(absolute, version) != off {
            assert(!sample_matches(candidate, samples@[i as int], recording_origin, version));
            return false;
        }
        i = i + 1;
    }
    true
}

/// The summed deviation of all samples from what the hash gives relative to
/// `candidate`, or nothing once it reaches `max_total_delta`; the sum is
/// abandoned as soon as it does, which never changes the outcome.
pub fn average_delta(
    candidate: Position,
    samples: &[(Position, Offset)],
    recording_origin: Position,
    version: GeneratorVersion,
    sample_count: usize,
    max_total_delta: u64,
) -> (r: Option<AverageDelta>)
    ensures
        r == average_delta_result(
            candidate,
            samples@,
            recording_origin,
            version,
            sample_count,
            max_total_delta,
        ),
        r is None <==> (samples@.len() > 0 && total_deviation(
            candidate,
            samples@,
            recording_origin,
            version,
        ) >= max_total_delta),
{
    let relative = candidate.sub(recording_origin);
    let mut total: u64 = 0;
    let mut i: usize = 0;
    while i < samples.len()
        invariant
            0 <= i <= samples@.len(),
            relative == pos_sub(candidate, recording_origin),
            total == total_deviation(candidate, samples@.take(i as int), recording_origin, version),
            total <= max_total_delta,
            i > 0 ==> total < max_total_delta,
        decreases samples@.len() - i,
    {
        let (pos, off) = samples[i];
        proof {
            lemma_relative_first(candidate, pos, recording_origin);
            assert(samples@.take(i + 1).drop_last() =~= samples@.take(i as int));
        }
        let predicted = offset_for(relative.add(pos), version);
        let d = off.distance(&predicted) as u64;
        assert(total_deviation(candidate, samples@.take(i + 1), recording_origin, version) == total + d);
        if d >= max_total_delta - total {
            proof {
                lemma_prefix_deviation_le(candidate, samples@, recording_origin, version, i + 1);
            }
            return None;
        }
        total = total + d;
        i = i + 1;
    }
    proof {
        assert(samples@.take(i as int) =~= samples@);
    }
    Some(AverageDelta { total, count: sample_count })
}

/// Zero summed deviation and an exact match are the same outcome: a tolerant
/// score of zero means every sample matches, and where the threshold is
/// positive every exact match scores zero.
pub proof fn lemma_zero_delta_iff_match(
    candidate: Position,
    samples: Seq<(Position, Offset)>,
    origin: Position,
    version: GeneratorVersion,
    sample_count: usize,
    max_total_delta: u64,
)
    ensures
        average_delta_result(candidate, samples, origin, version, sample_count, max_total_delta)
            == Some(AverageDelta { total: 0, count: sample_count }) ==> all_match(
            candidate,
            samples,
            origin,
            version,
        ),
        max_total_delta > 0 && all_match(candidate, samples, origin, version)
            ==> average_delta_result(candidate, samples, origin, version, sample_count, max_total_delta)
            == Some(AverageDelta { total: 0, count: sample_count }),
{
    lemma_zero_total_iff_all_match(candidate, samples, origin, version);
}

proof fn lemma_zero_total_iff_all_match(
    candidate: Position,
    samples: Seq<(Position, Offset)>,
    origin: Position,
    version: GeneratorVersion,
)
    ensures
        (total_deviation(candidate, samples, origin, version) == 0) == all_match(
            candidate,
            samples,
            origin,
            version,
        ),
    decreases samples.len(),
{
    if samples.len() > 0 {
        let rest = samples.drop_last();
        lemma_zero_total_iff_all_match(candidate, rest, origin, version);
        let last = samples.last();
        let predicted = offset_of(absolute_position(candidate, last.0, origin), version);
        assert((sample_deviation(candidate, last, origin, version) == 0) == (predicted == last.1));
        if all_match(candidate, samples, origin, version) {
            assert forall|i: int| 0 <= i < rest.len() implies sample_matches(
                candidate,
                #[trigger] rest[i],
                origin,
                version,
            ) by {
                assert(rest[i] == samples[i]);
            }
            assert(sample_matches(candidate, samples[samples.len() - 1], origin, version));
        }
        if total_deviation(candidate, samples, origin, version) == 0 {
            assert forall|i: int| 0 <= i < samples.len() implies sample_matches(
                candidate,
                #[trigger] samples[i],
                origin,
                version,
            ) by {
                if i < rest.len() {
                    assert(rest[i] == samples[i]);
                }
            }
        }
    }
}

/// The tolerant outcome is nothing exactly when the full summed deviation, taken
/// without stopping early, reaches the threshold.
pub proof fn lemma_pruning_keeps_outcome(
    candidate: Position,
    samples: Seq<(Position, Offset)>,
    origin: Position,
    version: GeneratorVersion,
    sample_count: usize,
    max_total_delta: u64,
)
    requires
        samples.len() > 0,
    ensures
        average_delta_result(candidate, samples, origin, version, sample_count, max_total_delta)
            is None <==> total_deviation(candidate, samples, origin, version) >= max_total_delta,
{
}

/// The recording origin, taken as the candidate, reproduces every sample whose
/// offset the hash gives at its recorded position.
pub proof fn lemma_origin_matches_itself(
    samples: Seq<(Position, Offset)>,
    origin: Position,
    version: GeneratorVersion,
)
    requires
        forall|i: int| 0 <= i < samples.len() ==> offset_of(#[trigger] samples[i].0, version) == samples[i].1,
    ensures
        all_match(origin, samples, origin, version),
{
    assert forall|i: int| 0 <= i < samples.len() implies sample_matches(
        origin,
        #[trigger] samples[i],
        origin,
        version,
    ) by {
        let p = samples[i].0;
        lemma_wrapping_reorder(origin.x, 0, p.x);
        lemma_wrapping_reorder(origin.y, 0, p.y);
        lemma_wrapping_reorder(origin.z, 0, p.z);
        assert(absolute_position(origin, p, origin) == p);
    }
}

} // verus!
