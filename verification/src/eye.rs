//! The angular sensor.
//!
//! The eye turns the positions of nearby food into a fixed-size vector of
//! energies: food within the field-of-view radius and angular window adds,
//! to the angular bin its bearing falls in, an energy that falls linearly
//! from one at zero distance to zero at the radius.

use vstd::prelude::*;
use vstd::math::min;
use crate::fixed::{SCALE, VAL_MAX, TWO_PI_FP, PI_FP, clip_sp, wrap_angle_sp, wrap_angle};
use crate::trig::{atan2_sp, atan2_fp};
use crate::geometry::{Point, on_torus, dist2_sp, dist2, sqrt_floor_sp, dist_floor};
use crate::food::Food;

verus! {

/// Field-of-view radius of the standard eye (a quarter of the world).
pub const FOV_RANGE_FP: i64 = 16384;

/// Angular half-width of the standard eye (four radians, in fixed point).
pub const FOV_ANGLE_FP: i64 = 262144;

/// Number of angular bins of the standard eye.
pub const EYE_CELLS: usize = 9;

#[derive(Clone, Copy, PartialEq, Eq, Structural)]
pub struct Eye {
    pub fov_range: i64,
    pub fov_angle: i64,
    pub cells: usize,
}

/// Geometry an eye must carry: a positive radius within the world scale, a
/// positive angular width of at most a full turn, and at least one bin.
pub open spec fn eye_wf(e: Eye) -> bool {
    &&& 0 < e.fov_range <= SCALE
    &&& 0 < e.fov_angle <= TWO_PI_FP
    &&& 0 < e.cells <= 16384
}

/// The bin a surviving bearing falls in: the window `[-fov_angle/2,
/// fov_angle/2)` maps linearly over the bins; bearings below it take the
/// first bin, and index overflow is clamped to the last.
pub open spec fn vision_cell_sp(e: Eye, angle: int) -> int {
    let shifted = angle + e.fov_angle as int / 2;
    if shifted < 0 {
        0
    } else {
        min(shifted * (e.cells as int) / (e.fov_angle as int), e.cells as int - 1)
    }
}

/// The energy one food contributes: falls linearly from `SCALE` at zero
/// distance to zero at the field-of-view radius.
pub open spec fn vision_energy_sp(e: Eye, dist: int) -> int {
    (e.fov_range as int - dist) * (SCALE as int) / (e.fov_range as int)
}

/// One food folded into the energy vector: skipped outside the radius or
/// the angular window, added to its bin otherwise.
pub open spec fn vision_add_sp(e: Eye, pos: Point, rot: int, cells: Seq<i64>, f: Food) -> Seq<
    i64,
> {
    let dx = f.position.x - pos.x;
    let dy = f.position.y - pos.y;
    let dist = sqrt_floor_sp(dist2_sp(f.position, pos));
    if dist > e.fov_range as int {
        cells
    } else {
        let bearing = atan2_sp(-dx, dy);
        let angle = wrap_angle_sp(bearing - rot);
        if angle < -e.fov_angle || angle > e.fov_angle {
            cells
        } else {
            let c = vision_cell_sp(e, angle);
            cells.update(c, clip_sp(cells[c] + vision_energy_sp(e, dist)) as i64)
        }
    }
}

/// The first `k` foods folded into an initially dark energy vector.
pub open spec fn vision_sp(e: Eye, pos: Point, rot: int, foods: Seq<Food>, k: int) -> Seq<i64>
    decreases k,
{
    if k <= 0 {
        Seq::new(e.cells as nat, |i: int| 0i64)
    } else {
        vision_add_sp(e, pos, rot, vision_sp(e, pos, rot, foods, k - 1), foods[k - 1])
    }
}

impl Eye {
    /// An eye with the given geometry; a non-positive radius, angle or bin
    /// count is a misconfiguration and is ruled out.
    pub fn new(fov_range: i64, fov_angle: i64, cells: usize) -> (r: Eye)
        requires
            0 < fov_range <= SCALE,
            0 < fov_angle <= TWO_PI_FP,
            0 < cells <= 16384,
        ensures
            r == (Eye { fov_range, fov_angle, cells }),
            eye_wf(r),
    {
        Eye { fov_range, fov_angle, cells }
    }

    pub fn cells(&self) -> (r: usize)
        ensures
            r == self.cells,
    {
        self.cells
    }

    /// The energy vector seen from `position` at heading `rotation`: one
    /// entry per bin, every entry non-negative, each food within radius and
    /// window adding its energy to the bin of its relative bearing.
    pub fn process_vision(&self, position: Point, rotation: i64, foods: &Vec<Food>) -> (r:
        Vec<i64>)
        requires
            eye_wf(*self),
            on_torus(position),
            -PI_FP <= rotation <= PI_FP,
            forall|i: int| 0 <= i < foods@.len() ==> on_torus((#[trigger] foods@[i]).position),
        ensures
            r@ == vision_sp(*self, position, rotation as int, foods@, foods@.len() as int),
            r@.len() == self.cells,
            forall|c: int| 0 <= c < r@.len() ==> 0 <= #[trigger] r@[c] <= VAL_MAX,
    {
        let n_cells: usize = self.cells;
        let mut cells: Vec<i64> = Vec::new();
        let mut c: usize = 0;
        while c < n_cells
            invariant
                cells@.len() == c,
                c <= n_cells,
                forall|t: int| 0 <= t < c ==> cells@[t] == 0i64,
            decreases n_cells - c,
        {
            cells.push(0);
            c = c + 1;
        }
        proof {
            assert(cells@ =~= vision_sp(*self, position, rotation as int, foods@, 0));
        }
        let n: usize = foods.len();
        let mut k: usize = 0;
        while k < n
            invariant
                n == foods@.len(),
                n_cells == self.cells,
                k <= n,
                eye_wf(*self),
                on_torus(position),
                -PI_FP <= rotation <= PI_FP,
                forall|i: int|
                    0 <= i < foods@.len() ==> on_torus((#[trigger] foods@[i]).position),
                cells@ == vision_sp(*self, position, rotation as int, foods@, k as int),
                cells@.len() == self.cells,
                forall|t: int| 0 <= t < cells@.len() ==> 0 <= #[trigger] cells@[t] <= VAL_MAX,
            decreases n - k,
        {
            let f: Food = foods[k];
            let dist: i64 = dist_floor(f.position, position);
            if dist <= self.fov_range {
                let dx: i64 = f.position.x - position.x;
                let dy: i64 = f.position.y - position.y;
                let bearing: i64 = atan2_fp(-dx, dy);
                let angle: i64 = wrap_angle(bearing - rotation);
                if !(angle < -self.fov_angle || angle > self.fov_angle) {
                    let shifted: i64 = angle + self.fov_angle / 2;
                    let cell: usize = if shifted < 0 {
                        0
                    } else {
                        proof {
                            assert(0 <= (shifted as int) * (n_cells as int)
                                && (shifted as int) * (n_cells as int) < 0x1000000000000)
                                by (nonlinear_arith)
                                requires
                                    0 <= shifted as int,
                                    (shifted as int) <= 0x100000000,
                                    0 < n_cells as int,
                                    (n_cells as int) <= 16384,
                            ;
                        }
                        let scaled: i128 = (shifted as i128) * (n_cells as i128);
                        let q: i128 = scaled / (self.fov_angle as i128);
                        proof {
                            vstd::arithmetic::div_mod::lemma_div_is_ordered_by_denominator(
                                scaled as int,
                                1,
                                self.fov_angle as int,
                            );
                            assert(scaled as int / 1 == scaled as int) by (nonlinear_arith);
                            vstd::arithmetic::div_mod::lemma_div_is_ordered(
                                0,
                                scaled as int,
                                self.fov_angle as int,
                            );
                            assert(0 as int / (self.fov_angle as int) == 0)
                                by (nonlinear_arith)
                                requires
                                    0 < self.fov_angle as int,
                            ;
                        }
                        let qi: usize = if q >= (n_cells as i128) {
                            n_cells - 1
                        } else {
                            (q as usize)
                        };
                        proof {
                            assert(qi as int == min(
                                (shifted as int) * (n_cells as int) / (self.fov_angle as int),
                                n_cells as int - 1,
                            ));
                        }
                        qi
                    };
                    proof {
                        assert(cell as int == vision_cell_sp(*self, angle as int));
                    }
                    let energy: i64 = {
                        let num: i64 = (self.fov_range - dist) * SCALE;
                        proof {
                            assert((self.fov_range - dist) as int * (SCALE as int)
                                <= (SCALE as int) * (SCALE as int)) by (nonlinear_arith)
                                requires
                                    0 <= (self.fov_range - dist) as int <= SCALE as int,
                            ;
                        }
                        num / self.fov_range
                    };
                    proof {
                        assert(energy as int == vision_energy_sp(*self, dist as int));
                    }
                    let prior: i64 = cells[cell];
                    let bumped: i64 = {
                        proof {
                            assert(0 <= energy as int) by (nonlinear_arith)
                                requires
                                    energy as int == (self.fov_range as int - dist as int)
                                        * (SCALE as int) / (self.fov_range as int),
                                    0 <= (self.fov_range as int - dist as int),
                                    0 < self.fov_range as int,
                            ;
                            assert(energy as int <= (SCALE as int) * (SCALE as int)) by {
                                vstd::arithmetic::div_mod::lemma_div_is_ordered(
                                    (self.fov_range as int - dist as int) * (SCALE as int),
                                    (SCALE as int) * (SCALE as int),
                                    self.fov_range as int,
                                );
                                vstd::arithmetic::div_mod::lemma_div_is_ordered_by_denominator(
                                    (SCALE as int) * (SCALE as int),
                                    1,
                                    self.fov_range as int,
                                );
                            }
                        }
                        let sum: i128 = (prior as i128) + (energy as i128);
                        crate::fixed::clip128(sum)
                    };
                    cells.set(cell, bumped);
                }
            }
            k = k + 1;
            proof {
                assert(cells@ =~= vision_sp(
                    *self,
                    position,
                    rotation as int,
                    foods@,
                    k as int,
                ));
            }
        }
        cells
    }
}

impl Default for Eye {
    /// The standard eye: quarter-world radius, four-radian half-width, nine
    /// bins.
    fn default() -> (r: Eye)
        ensures
            r == (Eye { fov_range: FOV_RANGE_FP, fov_angle: FOV_ANGLE_FP, cells: EYE_CELLS }),
            eye_wf(r),
    {
        Eye::new(FOV_RANGE_FP, FOV_ANGLE_FP, EYE_CELLS)
    }
}

} // verus!
