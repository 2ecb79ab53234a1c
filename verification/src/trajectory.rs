//! Trajectories: a time-ordered path sampled at [`Waypoint`]s.
//!
//! A [`Trajectory`] is a flight plan, orbit arc or track history: timestamped positions (optionally
//! with velocities), kept strictly increasing in time, with a rule for reading a position between
//! samples ([`Interpolation`]) and one for reading off the ends ([`Extrapolation`]). Which samples
//! an epoch is read from is decided here ([`Trajectory::locate`]); the interpolation itself is
//! `geo3d` vector arithmetic on the samples' coordinates.
use vstd::prelude::*;
use vstd::std_specs::convert::FromSpecImpl;

use crate::time::{fits_i128, Duration, Epoch, TimeWindow};
use crate::types::{Ecef4, StateVector};
use geo3d::{Ecef, Vec3};

verus! {

/// One sample on a [`Trajectory`]: a position at an epoch, optionally with a known velocity.
#[derive(Clone, Copy, Debug, PartialEq)]
pub struct Waypoint {
    /// When the sample is valid.
    pub epoch: Epoch,
    /// The position, ECEF metres.
    pub position: Ecef,
    /// The velocity if known, ECEF m/s.
    pub velocity: Option<Vec3>,
}

impl Waypoint {
    /// A waypoint with a known velocity.
    pub fn new(epoch: Epoch, position: Ecef, velocity: Vec3) -> (w: Waypoint)
        ensures
            w == (Waypoint { epoch, position, velocity: Some(velocity) }),
    {
        Waypoint { epoch, position, velocity: Some(velocity) }
    }

    /// A waypoint that is position-only (no velocity).
    pub fn position_only(epoch: Epoch, position: Ecef) -> (w: Waypoint)
        ensures
            w == (Waypoint { epoch, position, velocity: None }),
    {
        Waypoint { epoch, position, velocity: None }
    }
}

impl From<StateVector> for Waypoint {
    fn from(s: StateVector) -> (w: Waypoint) {
        Waypoint::new(s.epoch, s.position, s.velocity)
    }
}

impl FromSpecImpl<StateVector> for Waypoint {
    open spec fn obeys_from_spec() -> bool {
        true
    }

    open spec fn from_spec(s: StateVector) -> Waypoint {
        Waypoint { epoch: s.epoch, position: s.position, velocity: Some(s.velocity) }
    }
}

impl From<Ecef4> for Waypoint {
    fn from(p: Ecef4) -> (w: Waypoint) {
        Waypoint::position_only(p.epoch, p.position)
    }
}

impl FromSpecImpl<Ecef4> for Waypoint {
    open spec fn obeys_from_spec() -> bool {
        true
    }

    open spec fn from_spec(p: Ecef4) -> Waypoint {
        Waypoint { epoch: p.epoch, position: p.position, velocity: None }
    }
}

/// How a position is read between samples.
#[derive(Clone, Copy, Debug, Default, Eq, PartialEq, Structural, Hash)]
pub enum Interpolation {
    /// Straight line in ECEF (the chord). The default.
    #[default]
    Linear,
    /// Cubic Hermite using each waypoint's velocity as the tangent (a finite-difference tangent
    /// where a velocity is missing).
    Hermite,
    /// Cubic Catmull-Rom from positions alone, tangents estimated from the neighbouring samples.
    CatmullRom,
}

/// What a query outside the sampled span returns.
#[derive(Clone, Copy, Debug, Default, Eq, PartialEq, Structural, Hash)]
pub enum Extrapolation {
    /// Off — a query before the first or after the last sample returns `None`. The default.
    #[default]
    Off,
    /// Hold the nearest endpoint position.
    Clamp,
    /// Continue in a straight line at the endpoint's velocity (or the end-segment secant).
    Linear,
}

/// Why a trajectory could not be built or extended.
#[derive(Clone, Copy, Debug, Eq, PartialEq, Structural)]
pub enum TrajectoryError {
    /// A waypoint's epoch was not strictly later than the previous one (times must be increasing and
    /// distinct).
    NonMonotonic,
}

/// Where an epoch falls among a trajectory's samples, and so which samples it is read from.
#[derive(Clone, Copy, Debug, Eq, PartialEq, Structural)]
pub enum Placement {
    /// Outside the span, held at the position of sample `0`-th or last (the index given).
    Hold(usize),
    /// Outside the span, extended in a straight line from the sample at the index given.
    Extend(usize),
    /// Exactly the one sample of a single-sample trajectory.
    Node(usize),
    /// On the segment from sample `i` to sample `i + 1`.
    Segment(usize),
}

/// Epochs strictly increasing along the sequence.
pub open spec fn strictly_increasing(s: Seq<Waypoint>) -> bool {
    forall|i: int, j: int| 0 <= i < j < s.len() ==> s[i].epoch@ < s[j].epoch@
}

/// No two waypoints of the sequence share an epoch.
pub open spec fn distinct_epochs(s: Seq<Waypoint>) -> bool {
    forall|i: int, j: int|
        0 <= i < s.len() && 0 <= j < s.len() && i != j ==> s[i].epoch@ != s[j].epoch@
}

/// The waypoints a sequence of state vectors becomes (position and velocity kept).
pub open spec fn waypoints_of_states(states: Seq<StateVector>) -> Seq<Waypoint> {
    states.map_values(
        |s: StateVector| Waypoint { epoch: s.epoch, position: s.position, velocity: Some(s.velocity) },
    )
}

/// The waypoints a sequence of timestamped positions becomes (no velocity).
pub open spec fn waypoints_of_samples(samples: Seq<Ecef4>) -> Seq<Waypoint> {
    samples.map_values(|p: Ecef4| Waypoint { epoch: p.epoch, position: p.position, velocity: None })
}

/// What a query off the end at sample `idx` is read as, under an extrapolation policy.
pub open spec fn off_end(extrapolation: Extrapolation, idx: usize) -> Option<Placement> {
    match extrapolation {
        Extrapolation::Off => None,
        Extrapolation::Clamp => Some(Placement::Hold(idx)),
        Extrapolation::Linear => Some(Placement::Extend(idx)),
    }
}

/// `points` is the first `i` of `waypoints`, sorted: strictly increasing in time, every point one of
/// those waypoints, every one of those waypoints' epochs present, and those epochs distinct.
pub open spec fn sorted_prefix(points: Seq<Waypoint>, waypoints: Seq<Waypoint>, i: int) -> bool {
    &&& 0 <= i <= waypoints.len()
    &&& strictly_increasing(points)
    &&& forall|q: int|
        0 <= q < points.len() ==> exists|k: int| 0 <= k < i && #[trigger] points[q] == waypoints[k]
    &&& forall|k: int|
        0 <= k < i ==> exists|q: int|
            0 <= q < points.len() && #[trigger] points[q].epoch == (#[trigger] waypoints[k]).epoch
    &&& forall|a: int, b: int|
        0 <= a < i && 0 <= b < i && a != b ==> (#[trigger] waypoints[a]).epoch@ != (
        #[trigger] waypoints[b]).epoch@
}

/// A sorted point sharing the epoch of the next waypoint shows two waypoints with one epoch.
proof fn lemma_duplicate_found(points: Seq<Waypoint>, waypoints: Seq<Waypoint>, i: int, q: int)
    requires
        sorted_prefix(points, waypoints, i),
        0 <= i < waypoints.len(),
        0 <= q < points.len(),
        points[q].epoch == waypoints[i].epoch,
    ensures
        !distinct_epochs(waypoints),
{
    let k = choose|k: int| 0 <= k < i && #[trigger] points[q] == waypoints[k];
    assert(waypoints[k].epoch@ == waypoints[i].epoch@);
}

/// The conditions under which the next waypoint goes in at position `p`.
pub open spec fn insertion_point(points: Seq<Waypoint>, w: Waypoint, p: int) -> bool {
    &&& 0 <= p <= points.len()
    &&& p > 0 ==> points[p - 1].epoch@ < w.epoch@
    &&& forall|q: int| p <= q < points.len() ==> points[q].epoch@ > w.epoch@
}

proof fn lemma_insert_keeps_order(points: Seq<Waypoint>, w: Waypoint, p: int)
    requires
        strictly_increasing(points),
        insertion_point(points, w, p),
    ensures
        strictly_increasing(points.insert(p, w)),
{
    let new_points = points.insert(p, w);
    assert forall|x: int, y: int| 0 <= x < y < new_points.len() implies new_points[x].epoch@
        < new_points[y].epoch@ by {
        if y < p {
        } else if x > p {
            assert(new_points[x] == points[x - 1] && new_points[y] == points[y - 1]);
        } else if x == p {
            assert(new_points[y] == points[y - 1]);
        } else if y == p {
            assert(new_points[x] == points[x]);
            if x < p - 1 {
                assert(points[x].epoch@ < points[p - 1].epoch@);
            }
        } else {
            assert(new_points[x] == points[x] && new_points[y] == points[y - 1]);
        }
    }
}

proof fn lemma_insert_keeps_sources(points: Seq<Waypoint>, waypoints: Seq<Waypoint>, i: int, p: int)
    requires
        0 <= i < waypoints.len(),
        0 <= p <= points.len(),
        sorted_prefix(points, waypoints, i),
    ensures
        forall|q: int|
            0 <= q < points.insert(p, waypoints[i]).len() ==> exists|k: int|
                0 <= k < i + 1 && #[trigger] points.insert(p, waypoints[i])[q] == waypoints[k],
{
    let new_points = points.insert(p, waypoints[i]);
    assert forall|q: int| 0 <= q < new_points.len() implies exists|k: int|
        0 <= k < i + 1 && #[trigger] new_points[q] == waypoints[k] by {
        if q < p {
            assert(new_points[q] == points[q]);
        } else if q > p {
            assert(new_points[q] == points[q - 1]);
        } else {
            assert(new_points[q] == waypoints[i]);
        }
    }
}

proof fn lemma_insert_keeps_epochs(points: Seq<Waypoint>, waypoints: Seq<Waypoint>, i: int, p: int)
    requires
        0 <= i < waypoints.len(),
        0 <= p <= points.len(),
        sorted_prefix(points, waypoints, i),
    ensures
        forall|k: int|
            0 <= k < i + 1 ==> exists|q: int|
                0 <= q < points.insert(p, waypoints[i]).len() && #[trigger] points.insert(
                    p,
                    waypoints[i],
                )[q].epoch == (#[trigger] waypoints[k]).epoch,
{
    let new_points = points.insert(p, waypoints[i]);
    assert forall|k: int| 0 <= k < i + 1 implies exists|q: int|
        0 <= q < new_points.len() && #[trigger] new_points[q].epoch == (
        #[trigger] waypoints[k]).epoch by {
        if k < i {
            let q0 = choose|q: int|
                0 <= q < points.len() && #[trigger] points[q].epoch == (#[trigger] waypoints[k]).epoch;
            if q0 < p {
                assert(new_points[q0] == points[q0]);
            } else {
                assert(new_points[q0 + 1] == points[q0]);
            }
        } else {
            assert(new_points[p] == waypoints[k]);
        }
    }
}

proof fn lemma_insert_keeps_distinct(points: Seq<Waypoint>, waypoints: Seq<Waypoint>, i: int, p: int)
    requires
        sorted_prefix(points, waypoints, i),
        0 <= i < waypoints.len(),
        insertion_point(points, waypoints[i], p),
    ensures
        forall|a: int, b: int|
            0 <= a < i + 1 && 0 <= b < i + 1 && a != b ==> (#[trigger] waypoints[a]).epoch@ != (
            #[trigger] waypoints[b]).epoch@,
{
    assert forall|a: int, b: int| 0 <= a < i + 1 && 0 <= b < i + 1 && a != b implies (
    #[trigger] waypoints[a]).epoch@ != (#[trigger] waypoints[b]).epoch@ by {
        if a == i || b == i {
            let k = if a == i { b } else { a };
            let q0 = choose|q: int|
                0 <= q < points.len() && #[trigger] points[q].epoch == (#[trigger] waypoints[k]).epoch;
            if q0 < p - 1 {
                assert(points[q0].epoch@ < points[p - 1].epoch@);
            }
        }
    }
}

/// Inserting the next waypoint where it belongs keeps the prefix sorted, when no point shares its
/// epoch.
proof fn lemma_sorted_insert(points: Seq<Waypoint>, waypoints: Seq<Waypoint>, i: int, p: int)
    requires
        sorted_prefix(points, waypoints, i),
        0 <= i < waypoints.len(),
        insertion_point(points, waypoints[i], p),
    ensures
        sorted_prefix(points.insert(p, waypoints[i]), waypoints, i + 1),
{
    lemma_insert_keeps_order(points, waypoints[i], p);
    lemma_insert_keeps_sources(points, waypoints, i, p);
    lemma_insert_keeps_epochs(points, waypoints, i, p);
    lemma_insert_keeps_distinct(points, waypoints, i, p);
}

/// Two sequences with the same multiset hold the same elements, as many of them.
proof fn lemma_same_elements(a: Seq<Waypoint>, b: Seq<Waypoint>)
    requires
        a.to_multiset() == b.to_multiset(),
    ensures
        a.len() == b.len(),
        forall|k: int| 0 <= k < a.len() ==> b.contains(#[trigger] a[k]),
        forall|j: int| 0 <= j < b.len() ==> a.contains(#[trigger] b[j]),
{
    broadcast use vstd::seq_lib::to_multiset_contains, vstd::seq_lib::to_multiset_len;

    assert forall|k: int| 0 <= k < a.len() implies b.contains(#[trigger] a[k]) by {
        assert(a.contains(a[k]));
        assert(a.to_multiset().count(a[k]) > 0);
    }
    assert forall|j: int| 0 <= j < b.len() implies a.contains(#[trigger] b[j]) by {
        assert(b.contains(b[j]));
        assert(b.to_multiset().count(b[j]) > 0);
    }
    assert(a.to_multiset().len() == a.len());
    assert(b.to_multiset().len() == b.len());
}

/// A time-ordered path with an interpolation and an extrapolation policy. Its waypoints are always
/// strictly increasing in time.
#[derive(Debug, PartialEq)]
pub struct Trajectory {
    points: Vec<Waypoint>,
    interpolation: Interpolation,
    extrapolation: Extrapolation,
}

impl Trajectory {
    #[verifier::type_invariant]
    spec fn well_ordered(self) -> bool {
        strictly_increasing(self.points@)
    }

    /// The waypoints, in time order.
    pub closed spec fn samples(self) -> Seq<Waypoint> {
        self.points@
    }

    /// The interpolation policy.
    pub closed spec fn interpolation_policy(self) -> Interpolation {
        self.interpolation
    }

    /// The extrapolation policy.
    pub closed spec fn extrapolation_policy(self) -> Extrapolation {
        self.extrapolation
    }

    /// An empty trajectory (linear interpolation, no extrapolation).
    pub fn new() -> (t: Trajectory)
        ensures
            t.samples() == Seq::<Waypoint>::empty(),
            t.interpolation_policy() == Interpolation::Linear,
            t.extrapolation_policy() == Extrapolation::Off,
    {
        Trajectory {
            points: Vec::new(),
            interpolation: Interpolation::Linear,
            extrapolation: Extrapolation::Off,
        }
    }

    /// A trajectory from waypoints, sorted by epoch; it is refused
    /// ([`TrajectoryError::NonMonotonic`]) exactly when two waypoints share an epoch.
    pub fn from_waypoints(waypoints: Vec<Waypoint>) -> (r: Result<Trajectory, TrajectoryError>)
        ensures
            r is Ok <==> distinct_epochs(waypoints@),
            r matches Ok(t) ==> {
                &&& t.samples().to_multiset() == waypoints@.to_multiset()
                &&& strictly_increasing(t.samples())
                &&& t.interpolation_policy() == Interpolation::Linear
                &&& t.extrapolation_policy() == Extrapolation::Off
            },
    {
        let n = waypoints.len();
        let mut points: Vec<Waypoint> = Vec::new();
        let mut i: usize = 0;
        proof {
            assert(waypoints@.subrange(0, 0) =~= Seq::<Waypoint>::empty());
            assert(points@ =~= Seq::<Waypoint>::empty());
        }
        while i < n
            invariant
                n == waypoints.len(),
                i <= n,
                sorted_prefix(points@, waypoints@, i as int),
                points@.to_multiset() == waypoints@.subrange(0, i as int).to_multiset(),
            decreases n - i,
        {
            let w = waypoints[i];
            let mut p = points.len();
            while p > 0 && points[p - 1].epoch > w.epoch
                invariant
                    p <= points@.len(),
                    forall|q: int| p <= q < points@.len() ==> points@[q].epoch@ > w.epoch@,
                decreases p,
            {
                p = p - 1;
            }
            if p > 0 && points[p - 1].epoch == w.epoch {
                proof {
                    lemma_duplicate_found(points@, waypoints@, i as int, p - 1);
                }
                return Err(TrajectoryError::NonMonotonic);
            }
            proof {
                if p > 0 {
                    Epoch::lemma_view_determines(points@[p - 1].epoch, w.epoch);
                }
            }
            let ghost old_points = points@;
            points.insert(p, w);
            proof {
                lemma_sorted_insert(old_points, waypoints@, i as int, p as int);
                assert(waypoints@.subrange(0, i + 1) =~= waypoints@.subrange(0, i as int).push(w))
                    by {
                    broadcast use vstd::seq_lib::to_multiset_insert, vstd::seq_lib::to_multiset_build;

                }
                assert(points@.to_multiset() == waypoints@.subrange(0, i + 1).to_multiset()) by {
                    broadcast use vstd::seq_lib::to_multiset_insert, vstd::seq_lib::to_multiset_build;

                }
            }
            i = i + 1;
        }
        proof {
            assert(waypoints@.subrange(0, n as int) =~= waypoints@);
        }
        Ok(
            Trajectory {
                points,
                interpolation: Interpolation::Linear,
                extrapolation: Extrapolation::Off,
            },
        )
    }

    /// A trajectory from state vectors (position and velocity, ready for Hermite interpolation),
    /// sorted by epoch; refused exactly when two share an epoch.
    pub fn from_states(states: Vec<StateVector>) -> (r: Result<Trajectory, TrajectoryError>)
        ensures
            r is Ok <==> distinct_epochs(waypoints_of_states(states@)),
            r is Ok <==> forall|i: int, j: int|
                0 <= i < states@.len() && 0 <= j < states@.len() && i != j
                    ==> states@[i].epoch@ != states@[j].epoch@,
            r matches Ok(t) ==> {
                &&& t.samples().to_multiset() == waypoints_of_states(states@).to_multiset()
                &&& strictly_increasing(t.samples())
                &&& t.interpolation_policy() == Interpolation::Linear
                &&& t.extrapolation_policy() == Extrapolation::Off
                &&& t.samples().len() == states@.len()
                &&& forall|k: int|
                    #![trigger t.samples()[k]]
                    0 <= k < t.samples().len() ==> exists|j: int|
                        #![trigger states@[j]]
                        0 <= j < states@.len() && t.samples()[k] == (Waypoint { epoch: states@[j].epoch, position: states@[j].position, velocity: Some(states@[j].velocity) })
                &&& forall|j: int|
                    #![trigger states@[j]]
                    0 <= j < states@.len() ==> exists|k: int|
                        #![trigger t.samples()[k]]
                        0 <= k < t.samples().len() && t.samples()[k] == (Waypoint { epoch: states@[j].epoch, position: states@[j].position, velocity: Some(states@[j].velocity) })
            },
    {
        let n = states.len();
        let mut waypoints: Vec<Waypoint> = Vec::new();
        let mut i: usize = 0;
        while i < n
            invariant
                n == states.len(),
                i <= n,
                waypoints@ == waypoints_of_states(states@).subrange(0, i as int),
            decreases n - i,
        {
            waypoints.push(Waypoint::from(states[i]));
            i = i + 1;
            assert(waypoints@ =~= waypoints_of_states(states@).subrange(0, i as int));
        }
        assert(waypoints@ =~= waypoints_of_states(states@));
        let r = Trajectory::from_waypoints(waypoints);
        proof {
            let w = waypoints_of_states(states@);
            assert(distinct_epochs(w) <==> forall|i: int, j: int|
                0 <= i < states@.len() && 0 <= j < states@.len() && i != j
                    ==> states@[i].epoch@ != states@[j].epoch@) by {
                if distinct_epochs(w) {
                    assert forall|i: int, j: int|
                        0 <= i < states@.len() && 0 <= j < states@.len() && i != j implies states@[i].epoch@
                            != states@[j].epoch@ by {
                        assert(w[i].epoch == states@[i].epoch);
                        assert(w[j].epoch == states@[j].epoch);
                    }
                }
            }
            if r is Ok {
                let t = r->Ok_0;
                lemma_same_elements(t.samples(), w);
                assert forall|k: int| #![trigger t.samples()[k]] 0 <= k < t.samples().len() implies exists|j: int|
                    #![trigger states@[j]]
                    0 <= j < states@.len() && t.samples()[k] == (Waypoint { epoch: states@[j].epoch, position: states@[j].position, velocity: Some(states@[j].velocity) }) by {
                    let j = choose|j: int| 0 <= j < w.len() && w[j] == t.samples()[k];
                    assert(w[j] == (Waypoint { epoch: states@[j].epoch, position: states@[j].position, velocity: Some(states@[j].velocity) }));
                }
                assert forall|j: int| #![trigger states@[j]] 0 <= j < states@.len() implies exists|k: int|
                    #![trigger t.samples()[k]]
                    0 <= k < t.samples().len() && t.samples()[k] == (Waypoint { epoch: states@[j].epoch, position: states@[j].position, velocity: Some(states@[j].velocity) }) by {
                    assert(w[j] == (Waypoint { epoch: states@[j].epoch, position: states@[j].position, velocity: Some(states@[j].velocity) }));
                    let k = choose|k: int| 0 <= k < t.samples().len() && t.samples()[k] == w[j];
                }
            }
        }
        r
    }

    /// A trajectory from timestamped positions (no velocities: linear or Catmull-Rom), sorted by
    /// epoch; refused exactly when two share an epoch.
    pub fn from_samples(samples: Vec<Ecef4>) -> (r: Result<Trajectory, TrajectoryError>)
        ensures
            r is Ok <==> distinct_epochs(waypoints_of_samples(samples@)),
            r is Ok <==> forall|i: int, j: int|
                0 <= i < samples@.len() && 0 <= j < samples@.len() && i != j
                    ==> samples@[i].epoch@ != samples@[j].epoch@,
            r matches Ok(t) ==> {
                &&& t.samples().to_multiset() == waypoints_of_samples(samples@).to_multiset()
                &&& strictly_increasing(t.samples())
                &&& t.interpolation_policy() == Interpolation::Linear
                &&& t.extrapolation_policy() == Extrapolation::Off
                &&& t.samples().len() == samples@.len()
                &&& forall|k: int|
                    #![trigger t.samples()[k]]
                    0 <= k < t.samples().len() ==> exists|j: int|
                        #![trigger samples@[j]]
                        0 <= j < samples@.len() && t.samples()[k] == (Waypoint { epoch: samples@[j].epoch, position: samples@[j].position, velocity: None })
                &&& forall|j: int|
                    #![trigger samples@[j]]
                    0 <= j < samples@.len() ==> exists|k: int|
                        #![trigger t.samples()[k]]
                        0 <= k < t.samples().len() && t.samples()[k] == (Waypoint { epoch: samples@[j].epoch, position: samples@[j].position, velocity: None })
            },
    {
        let n = samples.len();
        let mut waypoints: Vec<Waypoint> = Vec::new();
        let mut i: usize = 0;
        while i < n
            invariant
                n == samples.len(),
                i <= n,
                waypoints@ == waypoints_of_samples(samples@).subrange(0, i as int),
            decreases n - i,
        {
            waypoints.push(Waypoint::from(samples[i]));
            i = i + 1;
            assert(waypoints@ =~= waypoints_of_samples(samples@).subrange(0, i as int));
        }
        assert(waypoints@ =~= waypoints_of_samples(samples@));
        let r = Trajectory::from_waypoints(waypoints);
        proof {
            let w = waypoints_of_samples(samples@);
            assert(distinct_epochs(w) <==> forall|i: int, j: int|
                0 <= i < samples@.len() && 0 <= j < samples@.len() && i != j
                    ==> samples@[i].epoch@ != samples@[j].epoch@) by {
                if distinct_epochs(w) {
                    assert forall|i: int, j: int|
                        0 <= i < samples@.len() && 0 <= j < samples@.len() && i != j implies samples@[i].epoch@
                            != samples@[j].epoch@ by {
                        assert(w[i].epoch == samples@[i].epoch);
                        assert(w[j].epoch == samples@[j].epoch);
                    }
                }
            }
            if r is Ok {
                let t = r->Ok_0;
                lemma_same_elements(t.samples(), w);
                assert forall|k: int| #![trigger t.samples()[k]] 0 <= k < t.samples().len() implies exists|j: int|
                    #![trigger samples@[j]]
                    0 <= j < samples@.len() && t.samples()[k] == (Waypoint { epoch: samples@[j].epoch, position: samples@[j].position, velocity: None }) by {
                    let j = choose|j: int| 0 <= j < w.len() && w[j] == t.samples()[k];
                    assert(w[j] == (Waypoint { epoch: samples@[j].epoch, position: samples@[j].position, velocity: None }));
                }
                assert forall|j: int| #![trigger samples@[j]] 0 <= j < samples@.len() implies exists|k: int|
                    #![trigger t.samples()[k]]
                    0 <= k < t.samples().len() && t.samples()[k] == (Waypoint { epoch: samples@[j].epoch, position: samples@[j].position, velocity: None }) by {
                    assert(w[j] == (Waypoint { epoch: samples@[j].epoch, position: samples@[j].position, velocity: None }));
                    let k = choose|k: int| 0 <= k < t.samples().len() && t.samples()[k] == w[j];
                }
            }
        }
        r
    }

    /// Set the interpolation policy.
    pub fn with_interpolation(self, interpolation: Interpolation) -> (t: Trajectory)
        ensures
            t.samples() == self.samples(),
            t.interpolation_policy() == interpolation,
            t.extrapolation_policy() == self.extrapolation_policy(),
    {
        proof {
            use_type_invariant(&self);
        }
        Trajectory { points: self.points, interpolation, extrapolation: self.extrapolation }
    }

    /// Set the extrapolation policy.
    pub fn with_extrapolation(self, extrapolation: Extrapolation) -> (t: Trajectory)
        ensures
            t.samples() == self.samples(),
            t.interpolation_policy() == self.interpolation_policy(),
            t.extrapolation_policy() == extrapolation,
    {
        proof {
            use_type_invariant(&self);
        }
        Trajectory { points: self.points, interpolation: self.interpolation, extrapolation }
    }

    /// The interpolation policy.
    pub fn interpolation(&self) -> (i: Interpolation)
        ensures
            i == self.interpolation_policy(),
    {
        self.interpolation
    }

    /// The extrapolation policy.
    pub fn extrapolation(&self) -> (x: Extrapolation)
        ensures
            x == self.extrapolation_policy(),
    {
        self.extrapolation
    }

    /// Append a waypoint. It must be strictly later than the current last, else
    /// [`TrajectoryError::NonMonotonic`] and the trajectory is unchanged.
    pub fn push(&mut self, waypoint: Waypoint) -> (r: Result<(), TrajectoryError>)
        ensures
            r is Ok <==> (old(self).samples().len() == 0 || old(self).samples().last().epoch@
                < waypoint.epoch@),
            r is Ok ==> final(self).samples() == old(self).samples().push(waypoint),
            r is Err ==> final(self).samples() == old(self).samples(),
            strictly_increasing(final(self).samples()),
            final(self).interpolation_policy() == old(self).interpolation_policy(),
            final(self).extrapolation_policy() == old(self).extrapolation_policy(),
    {
        proof {
            use_type_invariant(&*self);
        }
        let n = self.points.len();
        if n > 0 && waypoint.epoch <= self.points[n - 1].epoch {
            proof {
                use_type_invariant(&*self);
            }
            return Err(TrajectoryError::NonMonotonic);
        }
        let mut points = Vec::new();
        core::mem::swap(&mut points, &mut self.points);
        points.push(waypoint);
        self.points = points;
        proof {
            use_type_invariant(&*self);
        }
        Ok(())
    }

    /// The waypoints, in time order.
    pub fn waypoints(&self) -> (w: &[Waypoint])
        ensures
            w@ == self.samples(),
    {
        self.points.as_slice()
    }

    /// The number of waypoints.
    pub fn len(&self) -> (n: usize)
        ensures
            n == self.samples().len(),
    {
        self.points.len()
    }

    /// Whether the trajectory has no waypoints.
    pub fn is_empty(&self) -> (b: bool)
        ensures
            b == (self.samples().len() == 0),
    {
        self.points.len() == 0
    }

    /// The epoch of the first waypoint.
    pub fn start(&self) -> (s: Option<Epoch>)
        ensures
            s == if self.samples().len() == 0 {
                None
            } else {
                Some(self.samples()[0].epoch)
            },
    {
        if self.points.len() == 0 {
            None
        } else {
            Some(self.points[0].epoch)
        }
    }

    /// The epoch of the last waypoint.
    pub fn end(&self) -> (e: Option<Epoch>)
        ensures
            e == if self.samples().len() == 0 {
                None
            } else {
                Some(self.samples().last().epoch)
            },
    {
        let n = self.points.len();
        if n == 0 {
            None
        } else {
            Some(self.points[n - 1].epoch)
        }
    }

    /// The time span covered by the samples, `[first, last)`.
    pub fn window(&self) -> (w: TimeWindow)
        ensures
            w.start == (if self.samples().len() == 0 {
                None
            } else {
                Some(self.samples()[0].epoch)
            }),
            w.end == (if self.samples().len() == 0 {
                None
            } else {
                Some(self.samples().last().epoch)
            }),
    {
        TimeWindow::new(self.start(), self.end())
    }

    /// The total sampled duration, or `None` if there are fewer than two waypoints.
    pub fn duration(&self) -> (d: Option<Duration>)
        requires
            self.samples().len() >= 2 ==> fits_i128(
                self.samples().last().epoch@ - self.samples()[0].epoch@,
            ),
        ensures
            d is Some <==> self.samples().len() >= 2,
            d matches Some(x) ==> x@ == self.samples().last().epoch@ - self.samples()[0].epoch@,
    {
        proof {
            use_type_invariant(self);
        }
        match (self.start(), self.end()) {
            (Some(s), Some(e)) => {
                if s != e {
                    Some(e - s)
                } else {
                    None
                }
            },
            _ => None,
        }
    }

    /// Where `epoch` falls among the samples, and so which samples it is read from. `None` for an
    /// empty trajectory, or off the ends when extrapolation is off. Off the ends otherwise it is
    /// read from the nearer end sample; a single sample is read at its own epoch; inside the span
    /// it is read on the segment that starts at the last sample at or before it (the last
    /// segment for the final sample).
    pub fn locate(&self, epoch: Epoch) -> (r: Option<Placement>)
        ensures
            ({
                let s = self.samples();
                let n = s.len();
                &&& n == 0 ==> r is None
                &&& n > 0 && epoch@ < s[0].epoch@ ==> r == off_end(self.extrapolation_policy(), 0)
                &&& n > 0 && epoch@ < s[0].epoch@ ==> r == match self.extrapolation_policy() {
                    Extrapolation::Off => None,
                    Extrapolation::Clamp => Some(Placement::Hold(0)),
                    Extrapolation::Linear => Some(Placement::Extend(0)),
                }
                &&& n > 0 && epoch@ > s[n - 1].epoch@ ==> r == match self.extrapolation_policy() {
                    Extrapolation::Off => None,
                    Extrapolation::Clamp => Some(Placement::Hold((n - 1) as usize)),
                    Extrapolation::Linear => Some(Placement::Extend((n - 1) as usize)),
                }
                &&& n > 0 && epoch@ > s[n - 1].epoch@ ==> r == off_end(
                    self.extrapolation_policy(),
                    (n - 1) as usize,
                )
                &&& n == 1 && epoch@ == s[0].epoch@ ==> r == Some(Placement::Node(0))
                &&& n >= 2 && s[0].epoch@ <= epoch@ <= s[n - 1].epoch@ ==> (r matches Some(
                    Placement::Segment(i),
                ) && i + 1 < n && s[i as int].epoch@ <= epoch@ <= s[i + 1].epoch@ && (i + 2 < n
                    ==> epoch@ < s[i + 1].epoch@))
            }),
    {
        proof {
            use_type_invariant(self);
        }
        let n = self.points.len();
        if n == 0 {
            return None;
        }
        let (start, end) = (self.points[0].epoch, self.points[n - 1].epoch);
        if epoch < start {
            return self.off_end(0);
        }
        if epoch > end {
            return self.off_end(n - 1);
        }
        if n == 1 {
            proof {
                Epoch::lemma_view_determines(start, epoch);
            }
            return Some(Placement::Node(0));
        }
        // The partition point: how many samples are at or before `epoch`.
        let mut lo: usize = 0;
        let mut hi: usize = n;
        while lo < hi
            invariant
                n == self.points@.len(),
                strictly_increasing(self.points@),
                lo <= hi <= n,
                forall|k: int| 0 <= k < lo ==> self.points@[k].epoch@ <= epoch@,
                forall|k: int| hi <= k < n ==> self.points@[k].epoch@ > epoch@,
            decreases hi - lo,
        {
            let mid = lo + (hi - lo) / 2;
            if self.points[mid].epoch <= epoch {
                lo = mid + 1;
            } else {
                hi = mid;
            }
        }
        let i = if lo == 0 {
            0
        } else {
            lo - 1
        };
        let i = if i < n - 2 {
            i
        } else {
            n - 2
        };
        Some(Placement::Segment(i))
    }

    /// Off the end at sample `idx`, per the extrapolation policy.
    fn off_end(&self, idx: usize) -> (r: Option<Placement>)
        ensures
            r == off_end(self.extrapolation_policy(), idx),
            self.extrapolation_policy() == Extrapolation::Off ==> r is None,
            self.extrapolation_policy() == Extrapolation::Clamp ==> r == Some(Placement::Hold(idx)),
            self.extrapolation_policy() == Extrapolation::Linear ==> r == Some(Placement::Extend(idx)),
    {
        match self.extrapolation {
            Extrapolation::Off => None,
            Extrapolation::Clamp => Some(Placement::Hold(idx)),
            Extrapolation::Linear => Some(Placement::Extend(idx)),
        }
    }

    /// The epochs at a fixed `step` from the first waypoint up to the last, inclusive: the grid a
    /// resample reads the trajectory at.
    pub fn sample_epochs(&self, step: Duration) -> (r: Vec<Epoch>)
        requires
            step@ > 0,
            self.samples().len() > 0 ==> fits_i128(self.samples().last().epoch@ + step@),
        ensures
            self.samples().len() == 0 ==> r@.len() == 0,
            self.samples().len() > 0 ==> {
                let start = self.samples()[0].epoch@;
                let end = self.samples().last().epoch@;
                &&& r@.len() == (end - start) / (step@) + 1
                &&& forall|k: int| 0 <= k < r@.len() ==> (#[trigger] r@[k])@ == start + k * step@
            },
    {
        proof {
            use_type_invariant(self);
        }
        let mut out: Vec<Epoch> = Vec::new();
        let n = self.points.len();
        if n == 0 {
            return out;
        }
        let start = self.points[0].epoch;
        let end = self.points[n - 1].epoch;
        proof {
            if n > 1 {
                assert(start@ < end@);
            }
        }
        let mut t = start;
        proof {
            Epoch::lemma_view_fits(start);
        }
        while t <= end
            invariant
                start@ <= end@,
                fits_i128(end@ + step@),
                step@ > 0,
                t@ == start@ + out@.len() * step@,
                t@ <= end@ + step@,
                fits_i128(start@),
                forall|k: int| 0 <= k < out@.len() ==> (#[trigger] out@[k])@ == start@ + k * step@,
            decreases end@ + step@ - t@,
        {
            out.push(t);
            proof {
                assert(start@ + out@.len() * step@ == t@ + step@) by (nonlinear_arith)
                    requires
                        t@ == start@ + (out@.len() - 1) * step@,
                ;
            }
            t = t + step;
        }
        proof {
            let len = out@.len() as int;
            assert(len >= 1) by (nonlinear_arith)
                requires
                    t@ == start@ + len * step@,
                    t@ > end@,
                    start@ <= end@,
                    step@ > 0,
            ;
            let q = len - 1;
            let r = (end@ - start@) - q * step@;
            assert(0 <= r < step@) by (nonlinear_arith)
                requires
                    t@ == start@ + len * step@,
                    t@ > end@,
                    t@ <= end@ + step@,
                    q == len - 1,
                    r == (end@ - start@) - q * step@,
            ;
            vstd::arithmetic::div_mod::lemma_fundamental_div_mod_converse(end@ - start@, step@, q, r);
        }
        out
    }
}

impl Clone for Trajectory {
    fn clone(&self) -> (t: Trajectory)
        ensures
            t.samples() == self.samples(),
            t.interpolation_policy() == self.interpolation_policy(),
            t.extrapolation_policy() == self.extrapolation_policy(),
    {
        proof {
            use_type_invariant(self);
        }
        let n = self.points.len();
        let mut points: Vec<Waypoint> = Vec::new();
        let mut i: usize = 0;
        while i < n
            invariant
                n == self.points.len(),
                i <= n,
                points@ == self.points@.subrange(0, i as int),
            decreases n - i,
        {
            points.push(self.points[i]);
            i = i + 1;
            assert(points@ =~= self.points@.subrange(0, i as int));
        }
        assert(points@ =~= self.points@);
        Trajectory { points, interpolation: self.interpolation, extrapolation: self.extrapolation }
    }
}

impl Default for Trajectory {
    fn default() -> (t: Trajectory)
        ensures
            t.samples() == Seq::<Waypoint>::empty(),
            t.interpolation_policy() == Interpolation::Linear,
            t.extrapolation_policy() == Extrapolation::Off,
    {
        Trajectory::new()
    }
}

} // verus!
