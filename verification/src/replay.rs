//! Classification of a recorded trajectory, and what holds of every run of
//! the classifier.

use vstd::prelude::*;
use crate::classifier::{
    IntegrationResult, Observation, Region, Track, Tracker, CENTER, TRIAL_BUDGET, UNSETTLED,
};

verus! {

/// The classification that a tracker in state `track` reaches on the
/// observations of `trace`, taken in order: that of the first observation
/// that shows the trajectory settled, or the one that stands when the
/// budget or the trace is used up.
pub open spec fn run(track: Track, trace: Seq<Observation>) -> IntegrationResult
    decreases trace.len(),
{
    if track.exhausted() || trace.len() == 0 {
        track.result()
    } else if track.settles(trace[0]) {
        track.after(trace[0]).result()
    } else {
        run(track.after(trace[0]), trace.skip(1))
    }
}

/// Number of observations of `trace` that the run reads.
pub open spec fn span(track: Track, trace: Seq<Observation>) -> nat
    decreases trace.len(),
{
    if track.exhausted() || trace.len() == 0 {
        0
    } else if track.settles(trace[0]) {
        1
    } else {
        1 + span(track.after(trace[0]), trace.skip(1))
    }
}

/// The run comes to a decision, settled or given up, before the trace is
/// used up.
pub open spec fn decided(track: Track, trace: Seq<Observation>) -> bool
    decreases trace.len(),
{
    if track.exhausted() {
        true
    } else if trace.len() == 0 {
        false
    } else if track.settles(trace[0]) {
        true
    } else {
        decided(track.after(trace[0]), trace.skip(1))
    }
}

/// Classifies a recorded trajectory of the system whose attractors have
/// the given boxes: feeds the observations to a fresh tracker until one
/// shows the trajectory settled, or the budget or the trace is used up.
pub fn classify_trace(regions: Vec<Region>, trace: &Vec<Observation>) -> (result:
    IntegrationResult)
    requires
        regions@.len() <= i32::MAX,
    ensures
        result == run(Track::start(regions@), trace@),
{
    let ghost start = Track::start(regions@);
    let mut tracker = Tracker::new(regions);
    let mut k: usize = 0;
    assert(trace@.skip(0) =~= trace@);
    while k < trace.len() && !tracker.exhausted()
        invariant
            k <= trace@.len(),
            tracker@.wf(),
            start == Track::start(regions@),
            run(tracker@, trace@.skip(k as int)) == run(start, trace@),
        decreases trace@.len() - k,
    {
        let obs = trace[k];
        proof {
            let rest = trace@.skip(k as int);
            assert(rest[0] == trace@[k as int]);
            assert(rest.skip(1) =~= trace@.skip(k + 1));
        }
        match tracker.observe(obs) {
            Some(result) => {
                return result;
            },
            None => {},
        }
        k += 1;
    }
    assert(tracker@.exhausted() || trace@.skip(k as int).len() == 0);
    tracker.finish()
}

/// One observation keeps a state well formed, and the system what it is.
pub proof fn lemma_after_wf(track: Track, obs: Observation)
    requires
        track.wf(),
        !track.exhausted(),
    ensures
        track.after(obs).wf(),
        track.after(obs).regions == track.regions,
{
    crate::classifier::lemma_sighting_in_range(track.regions, obs.x, obs.y);
}

/// A run reads no more observations than the trace holds.
pub proof fn lemma_span_within_trace(track: Track, trace: Seq<Observation>)
    ensures
        span(track, trace) <= trace.len(),
    decreases trace.len(),
{
    if !track.exhausted() && trace.len() > 0 && !track.settles(trace[0]) {
        lemma_span_within_trace(track.after(trace[0]), trace.skip(1));
    }
}

/// Every run ends within the budget: it reads no more observations than
/// the budget has attempts left.
pub proof fn lemma_span_within_budget(track: Track, trace: Seq<Observation>)
    requires
        track.trials <= TRIAL_BUDGET,
    ensures
        track.trials + span(track, trace) <= TRIAL_BUDGET,
    decreases trace.len(),
{
    if !track.exhausted() && trace.len() > 0 && !track.settles(trace[0]) {
        lemma_span_within_budget(track.after(trace[0]), trace.skip(1));
    }
}

/// A trace that holds an observation for every attempt the budget has
/// left always brings the run to a decision.
pub proof fn lemma_budget_decides(track: Track, trace: Seq<Observation>)
    requires
        track.trials <= TRIAL_BUDGET,
        trace.len() >= TRIAL_BUDGET - track.trials,
    ensures
        decided(track, trace),
    decreases trace.len(),
{
    if !track.exhausted() && !track.settles(trace[0]) {
        lemma_budget_decides(track.after(trace[0]), trace.skip(1));
    }
}

/// The classification is a code that the system has, and counts no more
/// accepted steps than there were attempts.
pub proof fn lemma_result_in_range(track: Track, trace: Seq<Observation>)
    requires
        track.wf(),
    ensures
        UNSETTLED <= run(track, trace).converge_result < track.regions.len(),
        track.steps <= run(track, trace).step_count <= track.steps + span(track, trace),
        run(track, trace).step_count <= TRIAL_BUDGET,
    decreases trace.len(),
{
    lemma_span_within_budget(track, trace);
    if !track.exhausted() && trace.len() > 0 {
        lemma_after_wf(track, trace[0]);
        if !track.settles(trace[0]) {
            lemma_result_in_range(track.after(trace[0]), trace.skip(1));
        }
    }
}

/// A decided run depends on nothing but the observations it read: on
/// every trace that starts with those, the classification is the same.
pub proof fn lemma_result_depends_on_span(
    track: Track,
    a: Seq<Observation>,
    b: Seq<Observation>,
)
    requires
        decided(track, a),
        span(track, a) <= b.len(),
        forall|k: int| 0 <= k < span(track, a) ==> #[trigger] a[k] == b[k],
    ensures
        run(track, b) == run(track, a),
        span(track, b) == span(track, a),
        decided(track, b),
    decreases a.len(),
{
    lemma_span_within_trace(track, a);
    if !track.exhausted() {
        assert(a[0] == b[0]);
        if !track.settles(a[0]) {
            let next = track.after(a[0]);
            lemma_span_within_trace(next, a.skip(1));
            assert forall|k: int| 0 <= k < span(next, a.skip(1)) implies a.skip(1)[k] == b.skip(
                1,
            )[k] by {
                assert(a[k + 1] == b[k + 1]);
            }
            lemma_result_depends_on_span(next, a.skip(1), b.skip(1));
        }
    }
}

/// A trajectory that is seen in one and the same region at every
/// observation is classified as that region, whether it dwells there long
/// enough or is given up.
pub proof fn lemma_steady_sighting(track: Track, trace: Seq<Observation>, code: int)
    requires
        track.wf(),
        !track.exhausted(),
        trace.len() > 0,
        CENTER <= code < track.regions.len(),
        forall|k: int| 0 <= k < trace.len() ==> track.seen(#[trigger] trace[k]) == Some(code),
    ensures
        run(track, trace).converge_result == code,
{
    let next = track.after(trace[0]);
    assert(next.region == code);
    if !track.settles(trace[0]) {
        let rest = trace.skip(1);
        assert forall|k: int| 0 <= k < rest.len() implies next.seen(#[trigger] rest[k]) == Some(
            code,
        ) by {
            assert(rest[k] == trace[k + 1]);
            assert(next.seen(rest[k]) == track.seen(trace[k + 1]));
        }
        lemma_steady_region(next, rest, code);
    }
}

/// Once in a region, a trajectory that is seen nowhere else stays
/// classified as that region.
proof fn lemma_steady_region(track: Track, trace: Seq<Observation>, code: int)
    requires
        track.region == code,
        i32::MIN <= code <= i32::MAX,
        forall|k: int| 0 <= k < trace.len() ==> track.seen(#[trigger] trace[k]) == Some(code),
    ensures
        run(track, trace).converge_result == code,
    decreases trace.len(),
{
    if !track.exhausted() && trace.len() > 0 && !track.settles(trace[0]) {
        let next = track.after(trace[0]);
        let rest = trace.skip(1);
        assert forall|k: int| 0 <= k < rest.len() implies next.seen(#[trigger] rest[k]) == Some(
            code,
        ) by {
            assert(rest[k] == trace[k + 1]);
            assert(next.seen(rest[k]) == track.seen(trace[k + 1]));
        }
        lemma_steady_region(next, rest, code);
    }
}

} // verus!
