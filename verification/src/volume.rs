//! 4D geofencing: a volume that only exists for a stretch of time.
//!
//! [`Timed`] boxes any 3D volume (a `geo3d` sphere, cone, cylinder or altitude band) into a
//! [`TimeWindow`], so a query is inside only when it is inside the shape **and** the window is open.
//! A [`Trajectory`] can be searched for the epoch at which it first enters one: the search over
//! time is here; whether one position is inside the shape is the volume's own `geo3d` geometry,
//! handed in as a predicate on epochs.
use vstd::arithmetic::power2::{lemma2_to64_rest, lemma_pow2_unfold, pow2};
use vstd::prelude::*;

use crate::time::{fits_i128, Duration, Epoch, TimeWindow};
use crate::trajectory::Trajectory;

verus! {

/// A volume that is only active during a [`TimeWindow`] — the building block of 4D geofencing.
#[derive(Copy, Debug, PartialEq)]
pub struct Timed<V> {
    /// The 3D volume.
    pub volume: V,
    /// The window during which it is active.
    pub window: TimeWindow,
}

impl<V: Clone> Clone for Timed<V> {
    fn clone(&self) -> (t: Timed<V>)
        ensures
            cloned(self.volume, t.volume),
            t.window == self.window,
    {
        Timed { volume: self.volume.clone(), window: self.window }
    }
}

/// The time span a trajectory covers, from its first sample to its last.
pub open spec fn sampled_span(trajectory: Trajectory) -> TimeWindow {
    TimeWindow {
        start: if trajectory.samples().len() == 0 {
            None
        } else {
            Some(trajectory.samples()[0].epoch)
        },
        end: if trajectory.samples().len() == 0 {
            None
        } else {
            Some(trajectory.samples().last().epoch)
        },
    }
}

/// Sample `k` of the search grid from `start` in steps of `step`, stopped at `end`.
pub open spec fn grid_epoch(start: int, end: int, step: int, k: int) -> int {
    if start + k * step > end {
        end
    } else {
        start + k * step
    }
}

/// The step the search uses: the one asked for if it is positive and no longer than the span,
/// else the whole span.
pub open spec fn search_step(start: int, end: int, step: int) -> int {
    if step > 0 && step <= end - start {
        step
    } else {
        end - start
    }
}

/// How many times the bisection may halve the bracket around an entry.
pub open spec fn bisection_halvings() -> nat {
    40
}

/// A gap left by bisecting a bracket: at most the bracket divided by `2^40`, rounded up — to the
/// nanosecond for brackets up to `2^40` ns (about 18 minutes).
pub open spec fn refined(gap: int, bracket: int) -> bool {
    gap * pow2(bisection_halvings()) < bracket + pow2(bisection_halvings())
}

/// Whether the search may have found the point at `t` outside: out of the window, or reported
/// outside the volume.
pub open spec fn reported_outside<F: Fn(Epoch) -> bool>(window: TimeWindow, in_volume: F, t: Epoch) -> bool {
    !window.includes(t) || in_volume.ensures((t,), false)
}

/// Whether the search may have found the point at `t` inside: in the window, and reported inside
/// the volume.
pub open spec fn reported_inside<F: Fn(Epoch) -> bool>(window: TimeWindow, in_volume: F, t: Epoch) -> bool {
    window.includes(t) && in_volume.ensures((t,), true)
}

/// Later samples of the grid are no earlier: from sample `k` on, every sample is at least the
/// unclamped `k`-th step or the end.
proof fn lemma_grid_later(start: int, end: int, step: int, k: int, j: int)
    requires
        step > 0,
        0 <= k <= j,
    ensures
        grid_epoch(start, end, step, j) >= if start + k * step > end {
            end
        } else {
            start + k * step
        },
        start + k * step >= end ==> grid_epoch(start, end, step, j) == end,
{
    assert(j * step >= k * step) by (nonlinear_arith)
        requires
            step > 0,
            0 <= k <= j,
    ;
}

impl<V> Timed<V> {
    /// A volume active during `window`.
    pub fn new(volume: V, window: TimeWindow) -> (t: Timed<V>)
        ensures
            t.volume == volume,
            t.window == window,
    {
        Timed { volume, window }
    }

    /// A volume active at all times (an always-on geofence).
    pub fn always(volume: V) -> (t: Timed<V>)
        ensures
            t.volume == volume,
            t.window.start is None,
            t.window.end is None,
    {
        Timed::new(volume, TimeWindow::unbounded())
    }

    /// A volume active from `start` for `duration`.
    pub fn for_duration(volume: V, start: Epoch, duration: Duration) -> (t: Timed<V>)
        requires
            fits_i128(start@ + duration@),
        ensures
            t.volume == volume,
            t.window.start == Some(start),
            t.window.end matches Some(e) && e@ == start@ + duration@,
    {
        Timed::new(volume, TimeWindow::for_duration(start, duration))
    }

    /// A volume active over an explicit `[start, end)`.
    pub fn between(volume: V, start: Epoch, end: Epoch) -> (t: Timed<V>)
        ensures
            t.volume == volume,
            t.window.start == Some(start),
            t.window.end == Some(end),
    {
        Timed::new(volume, TimeWindow::between(start, end))
    }

    /// The epoch at which a trajectory first enters the active volume, searched over the overlap of
    /// the window and the trajectory's sampled span: sampled every `step` (the whole span if `step`
    /// is not positive or longer than the span), then refined by bisection between the last sample
    /// outside and the first inside. `in_volume(t)` says whether the trajectory's position at `t`
    /// is inside the volume. `None` if no sample is inside.
    pub fn first_entry_with<F: Fn(Epoch) -> bool>(
        &self,
        trajectory: &Trajectory,
        step: Duration,
        in_volume: F,
    ) -> (r: Option<Epoch>)
        requires
            forall|t: Epoch| in_volume.requires((t,)),
            ({
                let overlap = self.window.intersect_spec(sampled_span(*trajectory));
                let s = overlap.unwrap().start.unwrap()@;
                let x = overlap.unwrap().end.unwrap()@;
                (overlap is Some && overlap.unwrap().start is Some && overlap.unwrap().end is Some)
                    ==> fits_i128(x - s) && fits_i128(x + search_step(s, x, step@))
            }),
        ensures
            ({
                let overlap = self.window.intersect_spec(sampled_span(*trajectory));
                let bounded = overlap matches Some(w) && w.start is Some && w.end is Some;
                let s = overlap.unwrap().start.unwrap()@;
                let x = overlap.unwrap().end.unwrap()@;
                let st = search_step(s, x, step@);
                &&& !bounded ==> r is None
                &&& r matches Some(e) ==> {
                    &&& s <= e@ <= x
                    &&& reported_inside(self.window, in_volume, e)
                    &&& e@ == s || exists|o: Epoch|
                        #![trigger reported_outside(self.window, in_volume, o)]
                        s <= o@ < e@ && e@ - o@ <= st && refined(e@ - o@, st) && reported_outside(
                            self.window,
                            in_volume,
                            o,
                        )
                    &&& forall|k: int, g: Epoch|
                        k >= 0 && g@ == grid_epoch(s, x, st, k) && g@ < e@ ==> reported_outside(
                            self.window,
                            in_volume,
                            g,
                        )
                }
                &&& bounded && r is None ==> forall|k: int, g: Epoch|
                    k >= 0 && g@ == grid_epoch(s, x, st, k) ==> reported_outside(
                        self.window,
                        in_volume,
                        g,
                    )
            }),
    {
        let overlap = match self.window.intersect(&trajectory.window()) {
            Some(w) => w,
            None => return None,
        };
        let start = match overlap.start {
            Some(s) => s,
            None => return None,
        };
        let end = match overlap.end {
            Some(e) => e,
            None => return None,
        };
        let span = end - start;
        let stride = if step.total_nanoseconds() > 0 && step <= span {
            step
        } else {
            span
        };
        proof {
            assert(self.window.intersect_spec(sampled_span(*trajectory)) == Some(overlap));
        }
        let mut prev_out: Option<Epoch> = None;
        let mut t = start;
        let ghost mut k: int = 0;
        loop
            invariant
                self.window.intersect_spec(sampled_span(*trajectory)) == Some(overlap),
                overlap.start == Some(start),
                overlap.end == Some(end),
                start@ < end@,
                stride@ == search_step(start@, end@, step@),
                stride@ > 0,
                fits_i128(end@ + stride@),
                t@ == start@ + k * stride@,
                k >= 0,
                t@ < end@ + stride@,
                prev_out is None <==> k == 0,
                prev_out matches Some(o) ==> o@ == grid_epoch(start@, end@, stride@, k - 1) && o@
                    == t@ - stride@ && reported_outside(self.window, in_volume, o),
                forall|j: int, g: Epoch|
                    0 <= j < k && g@ == grid_epoch(start@, end@, stride@, j) ==> reported_outside(
                        self.window,
                        in_volume,
                        g,
                    ),
                forall|u: Epoch| in_volume.requires((u,)),
            decreases end@ + stride@ - t@,
        {
            let tc = if t > end {
                end
            } else {
                t
            };
            proof {
                assert(tc@ == grid_epoch(start@, end@, stride@, k));
            }
            let hit = self.window.contains(tc) && in_volume(tc);
            if hit {
                proof {
                    Epoch::lemma_view_fits(tc);
                    Epoch::lemma_view_fits(start);
                }
                let e = match prev_out {
                    Some(out) => bisect_entry(&self.window, &in_volume, out, tc),
                    None => tc,
                };
                proof {
                    if let Some(out) = prev_out {
                        let o = choose|o: Epoch|
                            #![trigger reported_outside(self.window, in_volume, o)]
                            out@ <= o@ < e@ && refined(e@ - o@, tc@ - out@) && reported_outside(
                                self.window,
                                in_volume,
                                o,
                            );
                        assert(start@ <= o@ < e@ && e@ - o@ <= stride@);
                        assert(refined(e@ - o@, stride@));
                    }
                    assert forall|j: int, g: Epoch|
                        j >= 0 && g@ == grid_epoch(start@, end@, stride@, j) && g@ < e@ implies reported_outside(
                        self.window,
                        in_volume,
                        g,
                    ) by {
                        if j >= k {
                            lemma_grid_later(start@, end@, stride@, k, j);
                        }
                    }
                }
                return Some(e);
            }
            proof {
                assert(reported_outside(self.window, in_volume, tc));
            }
            if tc == end {
                proof {
                    assert forall|j: int, g: Epoch|
                        j >= 0 && g@ == grid_epoch(
                            start@,
                            end@,
                            stride@,
                            j,
                        ) implies reported_outside(self.window, in_volume, g) by {
                        if j >= k {
                            lemma_grid_later(start@, end@, stride@, k, j);
                            Epoch::lemma_view_determines(g, tc);
                        }
                    }
                }
                return None;
            }
            proof {
                Epoch::lemma_view_determines(tc, end);
                Epoch::lemma_view_fits(t);
            }
            prev_out = Some(tc);
            t = t + stride;
            proof {
                k = k + 1;
                assert(t@ == start@ + k * stride@) by (nonlinear_arith)
                    requires
                        t@ == start@ + (k - 1) * stride@ + stride@,
                ;
                assert forall|j: int, g: Epoch|
                    0 <= j < k && g@ == grid_epoch(start@, end@, stride@, j) implies reported_outside(
                    self.window,
                    in_volume,
                    g,
                ) by {
                    if j == k - 1 {
                        Epoch::lemma_view_determines(g, tc);
                    }
                }
            }
        }
    }
}

/// Bisect a bracket whose start is outside and whose end is inside, for at most 40 halvings or
/// until the bracket is one nanosecond wide: an epoch inside, with one outside before it no further
/// than the original bracket's start.
fn bisect_entry<F: Fn(Epoch) -> bool>(
    window: &TimeWindow,
    in_volume: &F,
    out: Epoch,
    inside_epoch: Epoch,
) -> (e: Epoch)
    requires
        out@ < inside_epoch@,
        fits_i128(inside_epoch@ - out@),
        reported_outside(*window, *in_volume, out),
        reported_inside(*window, *in_volume, inside_epoch),
        forall|t: Epoch| in_volume.requires((t,)),
    ensures
        out@ < e@ <= inside_epoch@,
        reported_inside(*window, *in_volume, e),
        exists|o: Epoch|
            #![trigger reported_outside(*window, *in_volume, o)]
            out@ <= o@ < e@ && refined(e@ - o@, inside_epoch@ - out@) && reported_outside(
                *window,
                *in_volume,
                o,
            ),
{
    let ghost first_out = out;
    let ghost last_in = inside_epoch;
    let mut out = out;
    let mut inside_epoch = inside_epoch;
    let mut i: usize = 0;
    proof {
        vstd::arithmetic::power2::lemma2_to64();
    }
    while i < 40
        invariant
            first_out@ <= out@ < inside_epoch@ <= last_in@,
            fits_i128(last_in@ - first_out@),
            reported_outside(*window, *in_volume, out),
            reported_inside(*window, *in_volume, inside_epoch),
            forall|t: Epoch| in_volume.requires((t,)),
            i <= bisection_halvings(),
            (inside_epoch@ - out@) * pow2(i as nat) < (last_in@ - first_out@) + pow2(i as nat),
        ensures
            first_out@ <= out@ < inside_epoch@ <= last_in@,
            reported_outside(*window, *in_volume, out),
            reported_inside(*window, *in_volume, inside_epoch),
            refined(inside_epoch@ - out@, last_in@ - first_out@),
        decreases 40 - i,
    {
        proof {
            Epoch::lemma_view_fits(out);
            Epoch::lemma_view_fits(inside_epoch);
        }
        let span = (inside_epoch - out).total_nanoseconds();
        let mid = out + Duration::from_nanos(span / 2 + span % 2);
        if mid == out || mid == inside_epoch {
            proof {
                Epoch::lemma_view_determines(mid, inside_epoch);
                lemma2_to64_rest();
            }
            break;
        }
        proof {
            Epoch::lemma_view_determines(mid, out);
            Epoch::lemma_view_determines(mid, inside_epoch);
        }
        let ghost w = inside_epoch@ - out@;
        if window.contains(mid) && in_volume(mid) {
            inside_epoch = mid;
        } else {
            out = mid;
        }
        proof {
            let p = pow2(i as nat);
            vstd::arithmetic::power2::lemma_pow2_pos(i as nat);
            let w0 = last_in@ - first_out@;
            let w1 = inside_epoch@ - out@;
            lemma_pow2_unfold((i + 1) as nat);
            assert(w1 * (2 * p) < w0 + 2 * p) by (nonlinear_arith)
                requires
                    2 * w1 <= w + 1,
                    w * p < w0 + p,
                    p > 0,
                    w1 >= 0,
            ;
        }
        i = i + 1;
    }
    proof {
        lemma2_to64_rest();
    }
    inside_epoch
}

} // verus!
