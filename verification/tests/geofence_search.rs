use geo3d::{AltitudeBand, Course, Cylinder, Ecef, Geodetic, LocalFrame, Sphere, Volume, WGS84};
use geo4d::{
    Conflict, Duration, Ecef4, Epoch, StateVector, TimeScale, TimeWindow, Timed, Trajectory,
    Waypoint,
};

const NS: i128 = 1_000_000_000;

fn t0() -> Epoch {
    Epoch::from_unix_nanos(1_700_000_000 * NS)
}

fn seconds(s: i128) -> Duration {
    Duration::from_nanos(s * NS)
}

/// A straight 100 s run sampled at its two ends.
fn run() -> Trajectory {
    let a = Ecef4::new(Ecef::new(0.0, 0.0, 0.0), t0());
    let b = Ecef4::new(Ecef::new(1000.0, 0.0, 0.0), t0() + seconds(100));
    Trajectory::from_samples(vec![a, b]).unwrap()
}

#[test]
fn timed_constructors_set_the_window() {
    let v = 7u8;
    let always = Timed::always(v);
    assert_eq!(always.window, TimeWindow::unbounded());
    assert_eq!(always.volume, 7);
    let two_hours = Timed::for_duration(v, t0(), Duration::hour() + Duration::hour());
    assert_eq!(two_hours.window.start, Some(t0()));
    assert_eq!(two_hours.window.end, Some(t0() + seconds(7200)));
    let between = Timed::between(v, t0(), t0() + seconds(5));
    assert_eq!(between.window, TimeWindow::between(t0(), t0() + seconds(5)));
    let clone = between.clone();
    assert_eq!(clone, between);
}

#[test]
fn entry_is_refined_to_the_first_epoch_inside() {
    let threshold = t0() + seconds(45);
    let geo = Timed::always(());
    // Coarse samples every 10 s find 40 s outside and 50 s inside; bisection closes on 45 s.
    let entry = geo.first_entry_with(&run(), seconds(10), |t: Epoch| t >= threshold);
    assert_eq!(entry, Some(threshold));
    // An entry between whole seconds is found to the nanosecond.
    let odd = t0() + seconds(45) + Duration::from_nanos(123_456_789);
    let entry = geo.first_entry_with(&run(), seconds(10), |t: Epoch| t >= odd);
    assert_eq!(entry, Some(odd));
}

#[test]
fn entry_at_the_start_of_the_overlap() {
    let geo = Timed::always(());
    let entry = geo.first_entry_with(&run(), seconds(10), |_t: Epoch| true);
    assert_eq!(entry, Some(t0()));
    // A window opening mid-run starts the search there.
    let later = Timed::between((), t0() + seconds(30), t0() + seconds(200));
    let entry = later.first_entry_with(&run(), seconds(10), |_t: Epoch| true);
    assert_eq!(entry, Some(t0() + seconds(30)));
}

#[test]
fn no_entry_while_inactive_or_outside() {
    // Never inside.
    let geo = Timed::always(());
    assert_eq!(geo.first_entry_with(&run(), seconds(10), |_t: Epoch| false), None);
    // Active only after the run is over.
    let later = Timed::for_duration((), t0() + seconds(3600), Duration::hour());
    assert_eq!(later.first_entry_with(&run(), seconds(10), |_t: Epoch| true), None);
    // An empty trajectory is never inside.
    assert_eq!(
        geo.first_entry_with(&Trajectory::new(), seconds(10), |_t: Epoch| true),
        None
    );
}

#[test]
fn a_step_longer_than_the_span_searches_the_whole_span() {
    let threshold = t0() + seconds(71);
    let geo = Timed::always(());
    let entry = geo.first_entry_with(&run(), seconds(1000), |t: Epoch| t >= threshold);
    assert_eq!(entry, Some(threshold));
    let entry = geo.first_entry_with(&run(), Duration::zero(), |t: Epoch| t >= threshold);
    assert_eq!(entry, Some(threshold));
}

#[test]
fn conflict_duration_is_exit_minus_entry() {
    let c = Conflict { enters: t0(), exits: t0() + seconds(90), tca: t0() + seconds(45) };
    assert_eq!(c.duration(), seconds(90));
}

#[test]
fn entry_epoch_is_refined_by_bisection() {
    // A straight run in ECEF crossing a sphere; the coarse-sampled entry is still sharp.
    let t0 = Epoch::from_gregorian_nanos(TimeScale::Utc, 2026, 7, 1, 19, 0, 0, 0);
    let a = Ecef4::new(Ecef::new(6_378_137.0 - 10_000.0, 0.0, 0.0), t0);
    let b = Ecef4::new(Ecef::new(6_378_137.0 + 10_000.0, 0.0, 0.0), t0 + seconds(100));
    let traj = Trajectory::from_waypoints(vec![Waypoint::from(a), Waypoint::from(b)]).unwrap();
    let sphere = Sphere::new(Geodetic::new(0.0, 0.0, 0.0), 1_000.0); // ±1 km around the surface point
    // The position on the run's chord at `t`, as the trajectory reads it.
    let at = |t: Epoch| -> Geodetic {
        let u = (t - t0).total_nanoseconds() as f64 / 1e11;
        WGS84.to_geodetic(Ecef::new(a.position.x + u * 20_000.0, 0.0, 0.0))
    };
    let geo = Timed::always(sphere);
    let entry = geo
        .first_entry_with(&traj, seconds(10), |t: Epoch| sphere.contains(at(t)))
        .unwrap();
    // The sphere spans x in [a-1000, a+1000]; entry when x reaches 6378137-1000, at about 45 s.
    assert!(sphere.contains(at(entry)));
    // Just before the refined entry we are outside.
    assert!(!sphere.contains(at(entry - Duration::from_millis(50))));
}

#[test]
fn trajectory_enters_only_while_active() {
    // A drone flying due east at 1 km altitude, passing over a geofenced cylinder at the origin.
    let t0 = Epoch::from_gregorian_nanos(TimeScale::Utc, 2026, 7, 1, 19, 0, 0, 0);
    let start = WGS84.to_ecef(Geodetic::new(0.0, -0.2, 1_000.0));
    let vel = LocalFrame::new(WGS84.to_geodetic(start)).velocity_of_course(Course::new(90.0, 200.0, 0.0));
    // 400 s of flight: about 80 km east, crossing the origin around the midpoint.
    let s0 = StateVector::new(t0, start, vel);
    let s1 = StateVector::new(t0 + seconds(400), start.offset(vel * 400.0), vel);
    let traj = Trajectory::from_states(vec![s0, s1]).unwrap();
    // The position on the straight segment at `t`, as the trajectory reads it.
    let at = |t: Epoch| -> Geodetic {
        let dt = (t - t0).total_nanoseconds() as f64 / 1e9;
        WGS84.to_geodetic(start.offset(vel * dt))
    };
    let cyl = Cylinder::new(
        Geodetic::new(0.0, 0.0, 0.0),
        3_000.0,
        AltitudeBand::new(Some(0.0), Some(3_000.0)),
    );
    let inside = |t: Epoch| cyl.contains(at(t));
    // Active window covers the crossing: it enters about 96 s in (3 km before the origin, which it
    // passes at about 111 s).
    let active = Timed::for_duration(cyl, t0, Duration::hour());
    let entry = active.first_entry_with(&traj, seconds(1), inside).unwrap();
    let secs = (entry - t0).total_nanoseconds() as f64 / 1e9;
    assert!(secs > 90.0 && secs < 100.0, "{}", secs);
    assert!(active.first_entry_with(&traj, seconds(1), inside).is_some());
    // Same geofence, but only active after the drone has gone: no intersection.
    let later = Timed::for_duration(cyl, t0 + Duration::hour(), Duration::hour());
    assert!(later.first_entry_with(&traj, seconds(1), inside).is_none());
}
