//! The agent: position and heading on the torus, a speed, an eye, a brain,
//! and the count of food eaten so far.

use vstd::prelude::*;
use vstd::pervasive::unreached;
use crate::fixed::{SCALE, PI_FP};
use crate::geometry::{Point, on_torus};
use crate::eye::{Eye, eye_wf};
use crate::brain::{Brain, brain_wf, brain_widths_sp};
use crate::genetics::{Chromosome, chrom_wf};
use crate::network::{net_weights_sp, weight_count_sp};
use crate::eye::EYE_CELLS;
use crate::rng::rand_i64_range;
use rand_chacha::ChaCha8Rng;

verus! {

/// The fixed speed a freshly evolved animal starts with.
pub const SPAWN_SPEED_FP: i64 = 655;

pub struct Animal {
    pub position: Point,
    pub rotation: i64,
    pub speed: i64,
    pub eye: Eye,
    pub brain: Brain,
    pub satiation: u64,
}

/// What every animal in a well-formed world satisfies: a torus position, a
/// wrapped heading, a bounded speed, the standard eye, and a brain shaped
/// for that eye.
pub open spec fn animal_wf(a: Animal) -> bool {
    &&& on_torus(a.position)
    &&& -PI_FP <= a.rotation <= PI_FP
    &&& 0 <= a.speed <= SCALE
    &&& a.eye == (Eye {
        fov_range: crate::eye::FOV_RANGE_FP,
        fov_angle: crate::eye::FOV_ANGLE_FP,
        cells: EYE_CELLS,
    })
    &&& brain_wf(a.brain, a.eye)
}

impl Animal {
    /// An animal with the standard eye and a random brain.
    pub(crate) fn new(position: Point, rotation: i64, speed: i64, rng: &mut ChaCha8Rng) -> (r:
        Animal)
        requires
            on_torus(position),
            -PI_FP <= rotation <= PI_FP,
            0 <= speed <= SCALE,
        ensures
            animal_wf(r),
            r.position == position,
            r.rotation == rotation,
            r.speed == speed,
            r.satiation == 0,
    {
        let eye = Eye::default();
        let brain = Brain::random(rng, &eye);
        Animal { position, rotation, speed, eye, brain, satiation: 0 }
    }

    pub fn position(&self) -> (r: Point)
        ensures
            r == self.position,
    {
        self.position
    }

    pub fn rotation(&self) -> (r: i64)
        ensures
            r == self.rotation,
    {
        self.rotation
    }

    /// The animal's brain flattened into a chromosome.
    pub fn as_chromosome(&self) -> (r: Chromosome)
        requires
            animal_wf(*self),
        ensures
            r@ == net_weights_sp(self.brain.nn),
            chrom_wf(r@),
            r@.len() as int == weight_count_sp(brain_widths_sp(EYE_CELLS)),
    {
        self.brain.as_chromosome()
    }

    /// A fresh animal at `position`, with a random heading, the fixed spawn
    /// speed, zero satiation, and a brain rebuilt from `chromosome`.
    pub fn from_chromosome(chromosome: Chromosome, rng: &mut ChaCha8Rng, position: Point) -> (r:
        Animal)
        requires
            on_torus(position),
            chrom_wf(chromosome@),
            chromosome@.len() as int == weight_count_sp(brain_widths_sp(EYE_CELLS)),
        ensures
            animal_wf(r),
            r.position == position,
            r.speed == SPAWN_SPEED_FP,
            r.satiation == 0,
            net_weights_sp(r.brain.nn) == chromosome@,
    {
        let eye = Eye::default();
        let brain = match Brain::from_chromosome(&chromosome, &eye) {
            Ok(b) => b,
            Err(_) => unreached(),
        };
        let rotation: i64 = rand_i64_range(rng, -PI_FP, PI_FP);
        Animal { position, rotation, speed: SPAWN_SPEED_FP, eye, brain, satiation: 0 }
    }
}

} // verus!
