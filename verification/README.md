# geo4d

4D (spatio-temporal) geodesy on top of `geo3d`: a nanosecond-exact atomic clock, timestamped
positions and state vectors, trajectories and time-boxed geofences.

## Layout

- `src/` — the verified library (Verus).
  - `calendar.rs` — proleptic Gregorian day numbers and their inverse, with the round-trip and
    day-counting laws.
  - `leap.rs` — the IERS leap-second table and `TAI − UTC` looked up by UTC or by TAI, with
    monotonicity and the UTC ↔ TAI consistency laws.
  - `time.rs` — `Duration`, `Epoch` (stored on TAI), `TimeScale` conversions, calendar and GPS
    week readings (an inserted UTC leap second reads as `23:59:60`), `TimeWindow`; the
    arithmetic, scale, calendar, GPS-week and window laws.
  - `types.rs` — `Geodetic4`, `Ecef4`, `StateVector`: `geo3d` positions bound to an epoch.
  - `trajectory.rs` — `Trajectory`, kept strictly increasing in time by a type invariant; building
    (sorting, refusing shared epochs), appending, locating an epoch among the samples, the
    resampling grid.
  - `volume.rs` — `Timed` volumes and the search for a trajectory's first entry: a sampled scan
    followed by a bisection proved to close on the entry to the nanosecond for steps up to
    2^40 ns (about 18 minutes), and to within step / 2^40 beyond.
  - `kinematics.rs` — the `Conflict` interval.
- `app/` — the floating-point layer around the library: seconds and Julian dates, dead reckoning,
  interpolation, closest approach, conflicts, intercepts, collision probability, plate motion,
  Helmert transforms, and the `geo3d` volume tests that feed the verified search.
- `tests/` — tests of the library on concrete values.
