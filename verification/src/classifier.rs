//! The dwell-time classifier of one trajectory.
//!
//! A trajectory is classified by watching where it is after every attempted
//! integration step. It has settled once it is seen in the region it was
//! last seen in and has been there for longer than the dwell time; it is
//! given up after a fixed budget of attempts. The caller attempts the
//! steps and reports each one as an [`Observation`]; the [`Tracker`] keeps
//! the state and decides.
//!
//! Positions and times are doubles, held as bit patterns. The library
//! compares them; sums and differences are the caller's.

use vstd::prelude::*;
use crate::double::{gt, less, lt, negate, negated};

verus! {

/// Region code of a trajectory that has not been seen in any region yet.
pub const UNSETTLED: i32 = -2;

/// Region code of the neutral centre at the origin.
pub const CENTER: i32 = -1;

/// Number of attempted steps, accepted or rejected, after which a
/// trajectory is given up.
pub const TRIAL_BUDGET: u32 = 1000;

/// Step size of the first attempt: the bit pattern of the double 0.01.
pub const INITIAL_STEP_BITS: u64 = 0x3F84_7AE1_47AE_147B;

/// Half the side of the box around an attractor within which a position
/// counts as near it: the bit pattern of the double 0.5.
pub const ATTRACTOR_TOLERANCE_BITS: u64 = 0x3FE0_0000_0000_0000;

/// Half the side of the box around the origin within which a position
/// counts as near the neutral centre: the bit pattern of the double 0.1.
pub const CENTER_TOLERANCE_BITS: u64 = 0x3FB9_9999_9999_999A;

/// Time a trajectory has to stay in a region before it counts as
/// settled there: the bit pattern of the double 5.0.
pub const DWELL_TIME_BITS: u64 = 0x4014_0000_0000_0000;

/// An open box in the plane: the positions strictly between the low and
/// the high bound in both coordinates.
#[derive(Clone, Copy, Debug, PartialEq, Eq, Structural)]
pub struct Region {
    pub x_low: u64,
    pub x_high: u64,
    pub y_low: u64,
    pub y_high: u64,
}

/// Where a position lies with respect to the regions.
#[derive(Clone, Copy, Debug, PartialEq, Eq, Structural)]
pub enum Sighting {
    /// Inside the box of the attractor with this index.
    Attractor(usize),
    /// Inside the box of the neutral centre and of no attractor.
    Center,
    /// Inside no box.
    Nowhere,
}

/// What the caller reports after one attempted step.
#[derive(Clone, Copy, Debug, PartialEq, Eq, Structural)]
pub struct Observation {
    /// Whether the integrator accepted the step.
    pub accepted: bool,
    /// Simulation time after the attempt.
    pub time: u64,
    /// First coordinate of the position after the attempt.
    pub x: u64,
    /// Second coordinate of the position after the attempt.
    pub y: u64,
    /// `time` less the tracker's region entry time.
    pub elapsed: u64,
}

/// The classification of one trajectory.
#[derive(Clone, Copy, Debug, PartialEq, Eq, Structural)]
pub struct IntegrationResult {
    /// Index of the attractor the trajectory was last seen near, [`CENTER`],
    /// or [`UNSETTLED`].
    pub converge_result: i32,
    /// Simulation time of the last attempt, as the bit pattern of a double.
    pub converge_time: u64,
    /// Number of accepted steps.
    pub step_count: u32,
}

impl Region {
    /// The position lies in the box.
    pub open spec fn holds(self, x: u64, y: u64) -> bool {
        less(self.x_low, x) && less(x, self.x_high) && less(self.y_low, y) && less(y, self.y_high)
    }

    /// The box of the neutral centre: the square around the origin with
    /// the centre tolerance as half its side.
    pub open spec fn center() -> Region {
        Region {
            x_low: negated(CENTER_TOLERANCE_BITS),
            x_high: CENTER_TOLERANCE_BITS,
            y_low: negated(CENTER_TOLERANCE_BITS),
            y_high: CENTER_TOLERANCE_BITS,
        }
    }

    /// Whether the position lies in the box.
    pub fn contains(&self, x: u64, y: u64) -> (inside: bool)
        ensures
            inside == self.holds(x, y),
    {
        lt(self.x_low, x) && lt(x, self.x_high) && lt(self.y_low, y) && lt(y, self.y_high)
    }
}

/// The box of the neutral centre.
pub fn center_region() -> (region: Region)
    ensures
        region == Region::center(),
{
    Region {
        x_low: negate(CENTER_TOLERANCE_BITS),
        x_high: CENTER_TOLERANCE_BITS,
        y_low: negate(CENTER_TOLERANCE_BITS),
        y_high: CENTER_TOLERANCE_BITS,
    }
}

/// For each region, in order, whether the position lies in it.
pub open spec fn holding(regions: Seq<Region>, x: u64, y: u64) -> Seq<bool> {
    regions.map_values(|region: Region| region.holds(x, y))
}

/// The lowest index at which `flags` holds `true`, if there is one.
pub open spec fn first_set(flags: Seq<bool>) -> Option<int>
    decreases flags.len(),
{
    if flags.len() == 0 {
        None
    } else if flags[0] {
        Some(0)
    } else {
        match first_set(flags.skip(1)) {
            Some(i) => Some(i + 1),
            None => None,
        }
    }
}

/// Where the position `(x, y)` is seen: at the attractor of lowest index
/// whose box holds it, else at the centre if that box holds it, else
/// nowhere.
pub open spec fn sighting_of(regions: Seq<Region>, x: u64, y: u64) -> Sighting {
    match first_set(holding(regions, x, y)) {
        Some(i) => Sighting::Attractor(i as usize),
        None => if Region::center().holds(x, y) {
            Sighting::Center
        } else {
            Sighting::Nowhere
        },
    }
}

/// `first_set` finds a set flag, the lowest one, exactly when one exists.
pub proof fn lemma_first_set(flags: Seq<bool>)
    ensures
        match first_set(flags) {
            Some(i) => 0 <= i < flags.len() && flags[i] && forall|j: int| 0 <= j < i ==> !flags[j],
            None => forall|j: int| 0 <= j < flags.len() ==> !flags[j],
        },
    decreases flags.len(),
{
    if flags.len() > 0 && !flags[0] {
        let rest = flags.skip(1);
        lemma_first_set(rest);
        match first_set(rest) {
            Some(i) => {
                assert(flags[i + 1] == rest[i]);
                assert forall|j: int| 0 <= j < i + 1 implies !flags[j] by {
                    if j > 0 {
                        assert(flags[j] == rest[j - 1]);
                    }
                }
            },
            None => {
                assert forall|j: int| 0 <= j < flags.len() implies !flags[j] by {
                    if j > 0 {
                        assert(flags[j] == rest[j - 1]);
                    }
                }
            },
        }
    }
}

/// A lowest set flag is the one that `first_set` finds.
pub proof fn lemma_first_set_is(flags: Seq<bool>, i: int)
    requires
        0 <= i < flags.len(),
        flags[i],
        forall|j: int| 0 <= j < i ==> !flags[j],
    ensures
        first_set(flags) == Some(i),
{
    lemma_first_set(flags);
}

/// A sighting at an attractor names one that the system has.
pub proof fn lemma_sighting_in_range(regions: Seq<Region>, x: u64, y: u64)
    requires
        regions.len() <= usize::MAX,
    ensures
        match sighting_of(regions, x, y) {
            Sighting::Attractor(i) => i < regions.len() && regions[i as int].holds(x, y)
                && forall|j: int| 0 <= j < i ==> !regions[j].holds(x, y),
            Sighting::Center => Region::center().holds(x, y) && forall|j: int|
                0 <= j < regions.len() ==> !regions[j].holds(x, y),
            Sighting::Nowhere => !Region::center().holds(x, y) && forall|j: int|
                0 <= j < regions.len() ==> !regions[j].holds(x, y),
        },
{
    let flags = holding(regions, x, y);
    lemma_first_set(flags);
    assert forall|j: int| 0 <= j < regions.len() implies flags[j] == (#[trigger] regions[j]).holds(
        x,
        y,
    ) by {}
}

/// Finds where the position `(x, y)` is seen. `regions` holds the box of
/// each attractor, in index order.
pub fn locate(regions: &[Region], x: u64, y: u64) -> (sighting: Sighting)
    ensures
        sighting == sighting_of(regions@, x, y),
        sighting matches Sighting::Attractor(i) ==> i < regions@.len(),
{
    let ghost flags = holding(regions@, x, y);
    let mut i: usize = 0;
    while i < regions.len()
        invariant
            i <= regions@.len(),
            flags == holding(regions@, x, y),
            forall|j: int| 0 <= j < i ==> !flags[j],
        decreases regions@.len() - i,
    {
        if regions[i].contains(x, y) {
            proof {
                lemma_first_set_is(flags, i as int);
            }
            return Sighting::Attractor(i);
        }
        i += 1;
    }
    proof {
        lemma_first_set(flags);
    }
    if center_region().contains(x, y) {
        Sighting::Center
    } else {
        Sighting::Nowhere
    }
}

/// The region code that a sighting stands for, if it lies in a region.
pub open spec fn region_code(sighting: Sighting) -> Option<int> {
    match sighting {
        Sighting::Attractor(i) => Some(i as int),
        Sighting::Center => Some(CENTER as int),
        Sighting::Nowhere => None,
    }
}

/// The state of the classifier, as mathematics.
pub struct Track {
    /// The box of each attractor of the system, in index order.
    pub regions: Seq<Region>,
    /// Code of the region the trajectory was last seen in.
    pub region: int,
    /// Time at which the trajectory was first seen in `region` since it was
    /// last seen in another one.
    pub entry_time: u64,
    /// Time after the last attempt.
    pub time: u64,
    /// Number of attempts so far.
    pub trials: nat,
    /// Number of accepted attempts so far.
    pub steps: nat,
}

impl Track {
    /// The state before the first attempt: time zero, no region seen.
    pub open spec fn start(regions: Seq<Region>) -> Track {
        Track {
            regions,
            region: UNSETTLED as int,
            entry_time: 0,
            time: 0,
            trials: 0,
            steps: 0,
        }
    }

    /// The region code is one that the system has, and the counters are
    /// within the budget.
    pub open spec fn wf(self) -> bool {
        &&& self.regions.len() <= i32::MAX
        &&& UNSETTLED <= self.region < self.regions.len()
        &&& self.steps <= self.trials <= TRIAL_BUDGET
    }

    /// The budget of attempts is used up.
    pub open spec fn exhausted(self) -> bool {
        self.trials >= TRIAL_BUDGET
    }

    /// Where the observation sees the trajectory.
    pub open spec fn sighting(self, obs: Observation) -> Sighting {
        sighting_of(self.regions, obs.x, obs.y)
    }

    /// The region code of where the observation sees the trajectory.
    pub open spec fn seen(self, obs: Observation) -> Option<int> {
        region_code(self.sighting(obs))
    }

    /// The observation shows the trajectory settled: it is seen in the
    /// region it was last seen in, and has been there for longer than the
    /// dwell time.
    pub open spec fn settles(self, obs: Observation) -> bool {
        self.seen(obs) == Some(self.region) && less(DWELL_TIME_BITS, obs.elapsed)
    }

    /// The state after an observation. A sighting in another region than
    /// the last one enters that region at the observation's time; a
    /// sighting nowhere leaves region and entry time as they were.
    pub open spec fn after(self, obs: Observation) -> Track {
        let seen = self.seen(obs);
        let enters = seen is Some && seen != Some(self.region);
        Track {
            regions: self.regions,
            region: if enters { seen->0 } else { self.region },
            entry_time: if enters { obs.time } else { self.entry_time },
            time: obs.time,
            trials: self.trials + 1,
            steps: if obs.accepted { self.steps + 1 } else { self.steps },
        }
    }

    /// The classification that the state stands for.
    pub open spec fn result(self) -> IntegrationResult {
        IntegrationResult {
            converge_result: self.region as i32,
            converge_time: self.time,
            step_count: self.steps as u32,
        }
    }
}

/// The classifier of one trajectory.
pub struct Tracker {
    regions: Vec<Region>,
    region: i32,
    entry_time: u64,
    time: u64,
    trials: u32,
    steps: u32,
}

impl View for Tracker {
    type V = Track;

    closed spec fn view(&self) -> Track {
        Track {
            regions: self.regions@,
            region: self.region as int,
            entry_time: self.entry_time,
            time: self.time,
            trials: self.trials as nat,
            steps: self.steps as nat,
        }
    }
}

impl Tracker {
    /// A tracker for a system whose attractors have the given boxes, in
    /// index order, before the first attempt.
    pub fn new(regions: Vec<Region>) -> (tracker: Tracker)
        requires
            regions@.len() <= i32::MAX,
        ensures
            tracker@ == Track::start(regions@),
            tracker@.wf(),
    {
        Tracker { regions, region: UNSETTLED, entry_time: 0, time: 0, trials: 0, steps: 0 }
    }

    /// Number of attractors of the system.
    pub fn attractor_count(&self) -> (n: usize)
        ensures
            n == self@.regions.len(),
    {
        self.regions.len()
    }

    /// Code of the region the trajectory was last seen in.
    pub fn region(&self) -> (code: i32)
        ensures
            code == self@.region,
    {
        self.region
    }

    /// Time at which the trajectory entered that region.
    pub fn region_entry_time(&self) -> (time: u64)
        ensures
            time == self@.entry_time,
    {
        self.entry_time
    }

    /// Time after the last attempt.
    pub fn time(&self) -> (time: u64)
        ensures
            time == self@.time,
    {
        self.time
    }

    /// Number of attempts so far.
    pub fn trial_count(&self) -> (n: u32)
        ensures
            n == self@.trials,
    {
        self.trials
    }

    /// Number of accepted attempts so far.
    pub fn step_count(&self) -> (n: u32)
        ensures
            n == self@.steps,
    {
        self.steps
    }

    /// Whether the budget of attempts is used up.
    pub fn exhausted(&self) -> (done: bool)
        ensures
            done == self@.exhausted(),
    {
        self.trials >= TRIAL_BUDGET
    }

    /// Takes in the observation of one attempt. Returns the classification
    /// if the observation shows the trajectory settled, and `None` if the
    /// trajectory has to be followed further.
    pub fn observe(&mut self, obs: Observation) -> (verdict: Option<IntegrationResult>)
        requires
            old(self)@.wf(),
            !old(self)@.exhausted(),
        ensures
            final(self)@ == old(self)@.after(obs),
            final(self)@.wf(),
            verdict == if old(self)@.settles(obs) {
                Some(final(self)@.result())
            } else {
                None::<IntegrationResult>
            },
    {
        if obs.accepted {
            self.steps += 1;
        }
        self.trials += 1;
        self.time = obs.time;
        let seen: Option<i32> = match locate(self.regions.as_slice(), obs.x, obs.y) {
            Sighting::Attractor(i) => Some(i as i32),
            Sighting::Center => Some(CENTER),
            Sighting::Nowhere => None,
        };
        match seen {
            Some(code) => {
                if code == self.region {
                    if gt(obs.elapsed, DWELL_TIME_BITS) {
                        return Some(self.finish());
                    }
                } else {
                    self.region = code;
                    self.entry_time = obs.time;
                }
            },
            None => {},
        }
        None
    }

    /// The classification as it stands: what is reported when the budget
    /// is used up before the trajectory has settled.
    pub fn finish(&self) -> (result: IntegrationResult)
        ensures
            result == self@.result(),
    {
        IntegrationResult {
            converge_result: self.region,
            converge_time: self.time,
            step_count: self.steps,
        }
    }
}

} // verus!
