//! The sensor model: a fixed fan of angular receptors, each reporting the
//! nearest detected food's normalized distance, or a sentinel for nothing.

use vstd::prelude::*;
use crate::food::{Food, coord_ok};
use crate::fx::{
    FX_HALF_PI, FX_ONE, FX_PI, FX_TAU, atan2_spec, atan2_fx, hyp_spec, hyp_fx, wrap_pi,
    wrap_pi_spec,
};

verus! {

/// The receptor value meaning "nothing detected in range": twice the
/// normalized maximum distance.
pub const NOTHING_SEEN: i64 = 131072;

/// The smaller of two values.
pub open spec fn min_i(a: int, b: int) -> int {
    if a <= b {
        a
    } else {
        b
    }
}

/// An immutable sensor configuration: how far and how wide the agent sees,
/// and into how many angular bins.
pub struct Eye {
    pub(crate) fov_range: i64,
    pub(crate) fov_angle: i64,
    pub(crate) receptors: usize,
}

impl Eye {
    /// How far the eye sees, in fixed-point world units.
    pub open(crate) spec fn fov_range_spec(&self) -> i64 {
        self.fov_range
    }

    /// How wide the field of view opens, in fixed-point angle steps.
    pub open(crate) spec fn fov_angle_spec(&self) -> i64 {
        self.fov_angle
    }

    /// How many angular bins the field of view is split into.
    pub open(crate) spec fn receptors_spec(&self) -> usize {
        self.receptors
    }

    /// The configuration is usable: positive range, a field of view of at
    /// most a full turn, and a modest positive receptor count.
    pub open spec fn wf(&self) -> bool {
        &&& 0 < self.fov_range_spec() <= FX_ONE
        &&& 0 <= self.fov_angle_spec() <= FX_TAU
        &&& 1 <= self.receptors_spec() <= 4096
    }

    pub fn new(fov_range: i64, fov_angle: i64, receptors: usize) -> (r: Eye)
        requires
            0 < fov_range <= FX_ONE,
            0 <= fov_angle <= FX_TAU,
            1 <= receptors <= 4096,
        ensures
            r.fov_range_spec() == fov_range,
            r.fov_angle_spec() == fov_angle,
            r.receptors_spec() == receptors,
            r.wf(),
    {
        Eye { fov_range, fov_angle, receptors }
    }

    /// The stock configuration: half a world unit of range, a quarter-turn
    /// field of view, ten receptors.
    pub fn default() -> (r: Eye)
        ensures
            r.fov_range_spec() == FX_ONE / 2,
            r.fov_angle_spec() == FX_HALF_PI,
            r.receptors_spec() == 10,
            r.wf(),
    {
        Eye { fov_range: FX_ONE / 2, fov_angle: FX_HALF_PI, receptors: 10 }
    }

    /// The number of receptors, and so the length of every vision vector.
    pub fn receptor_count(&self) -> (r: usize)
        ensures
            r == self.receptors_spec(),
    {
        self.receptors
    }
}

/// The bin a shifted in-view angle falls into: the angle divided by the bin
/// width, clamped to the last bin.
pub open spec fn receptor_index(eye: Eye, shifted: int) -> int {
    let per = (eye.fov_angle_spec() as int) / (eye.receptors_spec() as int);
    if per == 0 {
        0
    } else {
        min_i(shifted / per, eye.receptors_spec() - 1)
    }
}

/// One food's contribution to the receptor vector: skipped when out of
/// range or outside the field of view, else the minimum of its bin's value
/// and this food's normalized distance.
pub open spec fn sense_one(eye: Eye, x: int, y: int, rot: int, acc: Seq<i64>, f: Food) -> Seq<
    i64,
> {
    let dx = f.x_spec() - x;
    let dy = f.y_spec() - y;
    let dist = hyp_spec(dx, dy);
    if dist > eye.fov_range_spec() {
        acc
    } else {
        let shifted = wrap_pi_spec(atan2_spec(dy, dx) - rot) + (eye.fov_angle_spec() as int) / 2;
        if shifted < 0 || shifted > eye.fov_angle_spec() {
            acc
        } else {
            let idx = receptor_index(eye, shifted);
            let v = (dist * FX_ONE) / (eye.fov_range_spec() as int);
            acc.update(idx, min_i(acc[idx] as int, v) as i64)
        }
    }
}

/// The receptor vector after sensing each food in order.
pub open spec fn vision_fold(
    eye: Eye,
    x: int,
    y: int,
    rot: int,
    foods: Seq<Food>,
    acc: Seq<i64>,
) -> Seq<i64>
    decreases foods.len(),
{
    if foods.len() == 0 {
        acc
    } else {
        vision_fold(eye, x, y, rot, foods.drop_first(), sense_one(eye, x, y, rot, acc, foods.first()))
    }
}

/// The untouched receptor vector: every bin at the sentinel.
pub open spec fn vision_init(eye: Eye) -> Seq<i64> {
    Seq::new(eye.receptors_spec() as nat, |j: int| NOTHING_SEEN)
}

/// What the eye reports for an agent at `(x, y)` heading `rot` among the
/// given foods.
pub open spec fn vision_spec(eye: Eye, x: int, y: int, rot: int, foods: Seq<Food>) -> Seq<i64> {
    vision_fold(eye, x, y, rot, foods, vision_init(eye))
}

impl Eye {
    /// The receptor vector for an agent at `(x, y)` heading `rotation`:
    /// each receptor holds the least normalized distance among the foods
    /// that fall into its bin, or the sentinel where none does.
    pub fn process_vision(&self, x: i64, y: i64, rotation: i64, food: &Vec<Food>) -> (r: Vec<i64>)
        requires
            self.wf(),
            coord_ok(x),
            coord_ok(y),
            -FX_PI <= rotation <= FX_PI,
            forall|i: int| 0 <= i < food@.len() ==> (#[trigger] food@[i]).wf(),
        ensures
            r@ == vision_spec(*self, x as int, y as int, rotation as int, food@),
            r@.len() == self.receptors_spec(),
            forall|k: int| 0 <= k < r@.len() ==> 0 <= #[trigger] r@[k] <= NOTHING_SEEN,
    {
        let n: usize = self.receptors;
        let mut out: Vec<i64> = Vec::new();
        let mut j: usize = 0;
        while j < n
            invariant
                0 <= j <= n,
                out@.len() == j,
                forall|k: int| 0 <= k < j ==> #[trigger] out@[k] == NOTHING_SEEN,
            decreases n - j,
        {
            out.push(NOTHING_SEEN);
            j = j + 1;
        }
        proof {
            assert(out@ =~= vision_init(*self));
            assert(food@.skip(0) =~= food@);
        }

        let m: usize = food.len();
        let mut i: usize = 0;
        while i < m
            invariant
                0 <= i <= m,
                m == food@.len(),
                self.wf(),
                coord_ok(x),
                coord_ok(y),
                -FX_PI <= rotation <= FX_PI,
                forall|k: int| 0 <= k < food@.len() ==> (#[trigger] food@[k]).wf(),
                out@.len() == self.receptors_spec(),
                forall|k: int| 0 <= k < out@.len() ==> 0 <= #[trigger] out@[k] <= NOTHING_SEEN,
                vision_spec(*self, x as int, y as int, rotation as int, food@) == vision_fold(
                    *self,
                    x as int,
                    y as int,
                    rotation as int,
                    food@.skip(i as int),
                    out@,
                ),
            decreases m - i,
        {
            let ghost tail: Seq<Food> = food@.skip(i as int);
            let ghost before: Seq<i64> = out@;
            proof {
                assert(tail.first() == food@[i as int]);
                assert(tail.drop_first() =~= food@.skip(i as int + 1));
            }
            let f: &Food = &food[i];
            let (fx_, fy_): (i64, i64) = f.position();
            let dx: i64 = fx_ - x;
            let dy: i64 = fy_ - y;
            let dist: i64 = hyp_fx(dx, dy);
            if dist <= self.fov_range {
                let bearing: i64 = atan2_fx(dy, dx);
                let wrapped: i64 = wrap_pi(bearing - rotation);
                let half: i64 = ((self.fov_angle as u64) / 2) as i64;
                let shifted: i64 = wrapped + half;
                if 0 <= shifted && shifted <= self.fov_angle {
                    let per: u64 = (self.fov_angle as u64) / (self.receptors as u64);
                    let idx: usize = if per == 0 {
                        0
                    } else {
                        let q: u64 = (shifted as u64) / per;
                        if q >= (self.receptors - 1) as u64 {
                            self.receptors - 1
                        } else {
                            q as usize
                        }
                    };
                    proof {
                        assert(idx as int == receptor_index(
                            *self,
                            shifted as int,
                        ));
                        assert(idx < out@.len());
                        vstd::arithmetic::div_mod::lemma_div_pos_is_pos(
                            (dist as int) * FX_ONE,
                            self.fov_range as int,
                        );
                        assert((dist as int) * FX_ONE >= 0) by (nonlinear_arith)
                            requires
                                dist >= 0,
                        ;
                        assert((dist as int) * FX_ONE <= 0x20_0000 * 65536) by (nonlinear_arith)
                            requires
                                0 <= dist as int <= 0x20_0000,
                        ;
                    }
                    let v: u64 = ((dist as u64) * (FX_ONE as u64)) / (self.fov_range as u64);
                    let vi: i64 = v as i64;
                    let cur: i64 = out[idx];
                    let nv: i64 = if cur <= vi {
                        cur
                    } else {
                        vi
                    };
                    out[idx] = nv;
                    proof {
                        assert(out@ =~= sense_one(
                            *self,
                            x as int,
                            y as int,
                            rotation as int,
                            before,
                            food@[i as int],
                        ));
                    }
                }
            }
            proof {
                assert(out@ == sense_one(
                    *self,
                    x as int,
                    y as int,
                    rotation as int,
                    before,
                    food@[i as int],
                ));
                assert(vision_fold(
                    *self,
                    x as int,
                    y as int,
                    rotation as int,
                    tail,
                    before,
                ) == vision_fold(
                    *self,
                    x as int,
                    y as int,
                    rotation as int,
                    food@.skip(i as int + 1),
                    out@,
                ));
            }
            i = i + 1;
        }
        proof {
            assert(food@.skip(m as int) =~= Seq::<Food>::empty());
        }
        out
    }
}

} // verus!
