use geo3d::{Ecef, Vec3};
use geo4d::{
    Duration, Ecef4, Epoch, Extrapolation, Interpolation, Placement, StateVector, TimeWindow,
    Trajectory, TrajectoryError, Waypoint,
};

const NS: i128 = 1_000_000_000;

fn t0() -> Epoch {
    Epoch::from_unix_nanos(1_700_000_000 * NS)
}

fn seconds(s: i128) -> Duration {
    Duration::from_nanos(s * NS)
}

fn sample(x: f64, at: Epoch) -> Ecef4 {
    Ecef4::new(Ecef::new(x, 0.0, 0.0), at)
}

fn two_point() -> Trajectory {
    let a = sample(0.0, t0());
    let b = sample(100.0, t0() + seconds(10));
    Trajectory::from_samples(vec![a, b]).unwrap()
}

#[test]
fn build_validation_and_resample() {
    // Duplicate epochs are rejected.
    let a = sample(0.0, t0());
    assert_eq!(
        Trajectory::from_samples(vec![a, a]).err(),
        Some(TrajectoryError::NonMonotonic)
    );
    // Out-of-order push is rejected; in-order is accepted; unsorted input is sorted.
    let mut tr = Trajectory::new();
    assert!(tr.push(Waypoint::from(a)).is_ok());
    assert_eq!(
        tr.push(Waypoint::position_only(
            t0() - Duration::second(),
            Ecef::new(1.0, 0.0, 0.0)
        ))
        .err(),
        Some(TrajectoryError::NonMonotonic)
    );
    let b = sample(100.0, t0() + seconds(10));
    let traj = Trajectory::from_samples(vec![b, a]).unwrap(); // reversed input
    assert_eq!(traj.start(), Some(t0()));
    assert_eq!(traj.duration(), Some(seconds(10)));
    // A resample every 2 s reads 6 epochs (t0 .. t0+10 inclusive); the first is the first sample,
    // the fourth (6 s) is read on the one segment.
    let grid = traj.sample_epochs(seconds(2));
    assert_eq!(grid.len(), 6);
    assert_eq!(grid[0], a.epoch);
    assert_eq!(grid[3], t0() + seconds(6));
    assert_eq!(traj.locate(grid[3]), Some(Placement::Segment(0)));
    assert_eq!(traj.waypoints()[0].position, a.position);
}

#[test]
fn extrapolation_policies() {
    let before = t0() - seconds(5);
    let after = t0() + seconds(15);
    // Off: out of range reads nothing.
    let none = two_point();
    assert!(none.locate(before).is_none() && none.locate(after).is_none());
    // Clamp: held at the endpoints.
    let clamp = none.clone().with_extrapolation(Extrapolation::Clamp);
    assert_eq!(clamp.locate(before), Some(Placement::Hold(0)));
    assert_eq!(clamp.locate(after), Some(Placement::Hold(1)));
    // Linear: extended from the endpoints.
    let lin = none.with_extrapolation(Extrapolation::Linear);
    assert_eq!(lin.locate(after), Some(Placement::Extend(1)));
    assert_eq!(lin.locate(before), Some(Placement::Extend(0)));
}

#[test]
fn waypoints_are_sorted_and_kept() {
    let pts = vec![
        Waypoint::position_only(t0() + seconds(20), Ecef::new(2.0, 0.0, 0.0)),
        Waypoint::position_only(t0(), Ecef::new(0.0, 0.0, 0.0)),
        Waypoint::position_only(t0() + seconds(10), Ecef::new(1.0, 0.0, 0.0)),
    ];
    let traj = Trajectory::from_waypoints(pts).unwrap();
    assert_eq!(traj.len(), 3);
    let w = traj.waypoints();
    assert_eq!(w[0].epoch, t0());
    assert_eq!(w[1].epoch, t0() + seconds(10));
    assert_eq!(w[2].epoch, t0() + seconds(20));
    assert_eq!(w[2].position, Ecef::new(2.0, 0.0, 0.0));
    assert_eq!(traj.end(), Some(t0() + seconds(20)));
    assert_eq!(traj.window(), TimeWindow::between(t0(), t0() + seconds(20)));
}

#[test]
fn a_duplicate_anywhere_refuses_the_whole_input() {
    let pts = vec![
        Waypoint::position_only(t0() + seconds(20), Ecef::new(2.0, 0.0, 0.0)),
        Waypoint::position_only(t0(), Ecef::new(0.0, 0.0, 0.0)),
        Waypoint::position_only(t0() + seconds(20), Ecef::new(3.0, 0.0, 0.0)),
    ];
    assert_eq!(
        Trajectory::from_waypoints(pts).err(),
        Some(TrajectoryError::NonMonotonic)
    );
}

#[test]
fn push_appends_only_later_epochs() {
    let mut tr = Trajectory::new();
    assert!(tr.is_empty());
    assert!(tr.push(Waypoint::position_only(t0(), Ecef::new(0.0, 0.0, 0.0))).is_ok());
    // The same epoch again is refused and leaves the trajectory as it was.
    assert_eq!(
        tr.push(Waypoint::position_only(t0(), Ecef::new(9.0, 0.0, 0.0))),
        Err(TrajectoryError::NonMonotonic)
    );
    assert_eq!(tr.len(), 1);
    assert!(tr
        .push(Waypoint::position_only(t0() + seconds(1), Ecef::new(1.0, 0.0, 0.0)))
        .is_ok());
    assert_eq!(tr.len(), 2);
    assert_eq!(tr.end(), Some(t0() + seconds(1)));
}

#[test]
fn states_keep_their_velocity() {
    let s0 = StateVector::new(t0(), Ecef::new(0.0, 0.0, 0.0), Vec3::new(10.0, 0.0, 0.0));
    let s1 = StateVector::new(
        t0() + seconds(10),
        Ecef::new(100.0, 50.0, 0.0),
        Vec3::new(10.0, 0.0, 0.0),
    );
    let traj = Trajectory::from_states(vec![s1, s0])
        .unwrap()
        .with_interpolation(Interpolation::Hermite);
    assert_eq!(traj.interpolation(), Interpolation::Hermite);
    assert_eq!(traj.extrapolation(), Extrapolation::Off);
    assert_eq!(traj.waypoints()[0].velocity, Some(Vec3::new(10.0, 0.0, 0.0)));
    assert_eq!(traj.waypoints()[1].epoch, s1.epoch);
    // A position-only sample carries no velocity.
    assert_eq!(Waypoint::from(s0.ecef4()).velocity, None);
}

#[test]
fn locate_picks_the_segment_holding_the_epoch() {
    let pts: Vec<Ecef4> = (0..5).map(|k| sample(k as f64 * 100.0, t0() + seconds(k * 10))).collect();
    let traj = Trajectory::from_samples(pts).unwrap();
    assert_eq!(traj.locate(t0()), Some(Placement::Segment(0)));
    assert_eq!(traj.locate(t0() + seconds(15)), Some(Placement::Segment(1)));
    // A sample's own epoch starts its segment.
    assert_eq!(traj.locate(t0() + seconds(20)), Some(Placement::Segment(2)));
    // The last sample falls on the last segment.
    assert_eq!(traj.locate(t0() + seconds(40)), Some(Placement::Segment(3)));
    // A single sample is read at its own epoch only.
    let one = Trajectory::from_samples(vec![sample(0.0, t0())]).unwrap();
    assert_eq!(one.locate(t0()), Some(Placement::Node(0)));
    assert_eq!(one.locate(t0() + seconds(1)), None);
    assert_eq!(Trajectory::new().locate(t0()), None);
}

#[test]
fn span_of_short_trajectories() {
    let empty = Trajectory::default();
    assert_eq!(empty.start(), None);
    assert_eq!(empty.duration(), None);
    assert!(empty.sample_epochs(seconds(1)).is_empty());
    let one = Trajectory::from_samples(vec![sample(0.0, t0())]).unwrap();
    assert_eq!(one.duration(), None);
    assert_eq!(one.sample_epochs(seconds(1)), vec![t0()]);
    // A step that does not divide the span stops at the last grid point inside it.
    let grid = two_point().sample_epochs(seconds(3));
    assert_eq!(grid, vec![t0(), t0() + seconds(3), t0() + seconds(6), t0() + seconds(9)]);
}
