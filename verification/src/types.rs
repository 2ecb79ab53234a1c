//! Timestamped coordinates and state vectors: a `geo3d` position bound to an [`Epoch`].
//!
//! A point in space is not a point in 4D space-time until it carries a time. [`Geodetic4`] and
//! [`Ecef4`] are a `geo3d` position plus an [`Epoch`]; [`StateVector`] adds a velocity. The positions
//! are `geo3d`'s own types, carried through unchanged; what is done with their coordinates is
//! `geo3d`'s floating-point geometry.
use vstd::prelude::*;

use crate::time::{fits_i128, Duration, Epoch};
use geo3d::{Ecef, Geodetic, Vec3};

verus! {

/// `geo3d`'s Earth-Centred Earth-Fixed position (metres).
#[verifier::external_type_specification]
#[verifier::external_body]
pub struct ExEcef(geo3d::Ecef);

/// `geo3d`'s three-component vector.
#[verifier::external_type_specification]
#[verifier::external_body]
pub struct ExVec3(geo3d::Vec3);

/// `geo3d`'s geodetic position (latitude, longitude, height).
#[verifier::external_type_specification]
#[verifier::external_body]
pub struct ExGeodetic(geo3d::Geodetic);

/// A geodetic position (latitude, longitude, height) at an instant.
#[derive(Clone, Copy, Debug, PartialEq)]
pub struct Geodetic4 {
    /// The geodetic position.
    pub position: Geodetic,
    /// When the position was valid.
    pub epoch: Epoch,
}

impl Geodetic4 {
    /// A geodetic position at an epoch.
    pub fn new(position: Geodetic, epoch: Epoch) -> (g: Geodetic4)
        ensures
            g.position == position,
            g.epoch == epoch,
    {
        Geodetic4 { position, epoch }
    }

    /// The same position at a different epoch (only the timestamp moves).
    pub fn at_epoch(self, epoch: Epoch) -> (g: Geodetic4)
        ensures
            g.position == self.position,
            g.epoch == epoch,
    {
        Geodetic4 { epoch, ..self }
    }
}

/// An Earth-Centred Earth-Fixed position at an instant.
#[derive(Clone, Copy, Debug, PartialEq)]
pub struct Ecef4 {
    /// The ECEF position, metres.
    pub position: Ecef,
    /// When the position was valid.
    pub epoch: Epoch,
}

impl Ecef4 {
    /// An ECEF position at an epoch.
    pub fn new(position: Ecef, epoch: Epoch) -> (p: Ecef4)
        ensures
            p.position == position,
            p.epoch == epoch,
    {
        Ecef4 { position, epoch }
    }
}

/// A moving object at an instant: an ECEF position (metres) and velocity (metres per second),
/// stamped with the [`Epoch`] they are valid at. Constant velocity is assumed between updates.
#[derive(Clone, Copy, Debug, PartialEq)]
pub struct StateVector {
    /// The epoch the position and velocity are valid at.
    pub epoch: Epoch,
    /// Position, ECEF metres.
    pub position: Ecef,
    /// Velocity, ECEF m/s (constant between updates).
    pub velocity: Vec3,
}

impl StateVector {
    /// A state vector from an epoch, ECEF position and ECEF velocity.
    pub fn new(epoch: Epoch, position: Ecef, velocity: Vec3) -> (s: StateVector)
        ensures
            s.epoch == epoch,
            s.position == position,
            s.velocity == velocity,
    {
        StateVector { epoch, position, velocity }
    }

    /// The timestamped position (velocity dropped).
    pub fn ecef4(self) -> (p: Ecef4)
        ensures
            p.position == self.position,
            p.epoch == self.epoch,
    {
        Ecef4::new(self.position, self.epoch)
    }

    /// The span from this state's epoch to another's (`other − self`).
    pub fn dt_to(self, other: StateVector) -> (d: Duration)
        requires
            fits_i128(other.epoch@ - self.epoch@),
        ensures
            d@ == other.epoch@ - self.epoch@,
    {
        other.epoch - self.epoch
    }
}

} // verus!
