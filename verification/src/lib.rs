//! 4D (spatio-temporal) geodesy: a nanosecond-exact atomic clock bound to `geo3d` positions.
//!
//! - [`Epoch`] / [`Duration`] — nanosecond-exact instants and spans, stored on TAI so arithmetic never
//!   trips over leap seconds; converted to and from GPS, TT and UTC readings, the proleptic Gregorian
//!   calendar and GPS week / time-of-week at the boundary.
//! - [`TimeWindow`] — a span of time with optionally open ends.
//! - [`Geodetic4`] / [`Ecef4`] / [`StateVector`] — a `geo3d` position (and velocity) bound to an
//!   [`Epoch`].
//! - [`Trajectory`] — a time-ordered path whose waypoints are kept strictly increasing in time.
//! - [`Timed`] — a volume active during a [`TimeWindow`], and the search for the epoch at which a
//!   trajectory first enters it.

pub mod calendar;
pub mod kinematics;
pub mod leap;
pub mod time;
pub mod trajectory;
pub mod types;
pub mod volume;

pub use kinematics::Conflict;
pub use time::{CalendarTime, Duration, Epoch, TimeScale, TimeWindow};
pub use trajectory::{Extrapolation, Interpolation, Placement, Trajectory, TrajectoryError, Waypoint};
pub use types::{Ecef4, Geodetic4, StateVector};
pub use volume::Timed;

pub use geo3d;
pub use geo3d::Aer;
pub use geo3d::{
    eci, AltitudeBand, Cone, Course, Cpa, Cylinder, Ecef, Eci, Ellipsoid, Enu, Geodesic, Geodetic,
    Helmert7, LocalFrame, Ned, Sphere, Track, Vec3, Volume, AIRY_1830, BESSEL_1841, CLARKE_1866,
    GRS80, INTERNATIONAL_1924, PZ90, WGS72, WGS84,
};
