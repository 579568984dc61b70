//! The per-tick state machine.
//!
//! Each step runs, in order: collisions (eating and food relocation), brain
//! evaluation (sensor, network, steering), movement (toroidal wrap), and the
//! age counter; when the age reaches the generation length, the genetic
//! algorithm replaces the whole population and the age resets.

use vstd::prelude::*;
use crate::fixed::{
    SCALE, PI_FP, fp_mul_sp, fp_mul, wrap_coord_sp, wrap_coord, clamp, wrap_angle,
};
use crate::trig::{sin_fp_sp, cos_fp_sp, sin_fp, cos_fp};
use crate::geometry::{Point, on_torus, dist2};
use crate::genetics::{
    GeneticAlgorithm, RouletteWheelSelection, UniformCrossover, GaussianMutation,
    MutationMethod, chrom_wf, bred_from,
};
use crate::network::{net_out_sp, net_weights_sp, weight_count_sp};
use crate::trig::abs_sp;
use crate::eye::vision_sp;
use crate::food::Food;
use crate::fixed::clamp_sp;
use crate::fixed::wrap_angle_sp;
use crate::brain::brain_widths_sp;
use crate::animal::{Animal, animal_wf};
use crate::animal_individual::AnimalIndividual;
use crate::genetics::Individual;
use crate::world::{World, world_wf};
use crate::rng::rand_below;
use rand_chacha::ChaCha8Rng;

verus! {

/// Lowest speed an animal can steer down to.
pub const SPEED_MIN_FP: i64 = 66;

/// Highest speed an animal can steer up to.
pub const SPEED_MAX_FP: i64 = 328;

/// Largest speed change one brain response may apply.
pub const SPEED_ACCEL_FP: i64 = 13107;

/// Largest heading change one brain response may apply (a quarter turn).
pub const ROTATION_ACCEL_FP: i64 = 102944;

/// Ticks between evolutions.
pub const GENERATION_LENGTH: usize = 2500;

/// Squared eating radius (a hundredth of the world, squared).
pub const EAT_RADIUS_SQ_FP: i64 = 429025;

/// Mutation probability of the standard genetic algorithm.
pub const MUTATION_CHANCE_FP: i64 = 655;

/// Mutation coefficient of the standard genetic algorithm.
pub const MUTATION_COEFF_FP: i64 = 19661;

pub struct Simulation {
    pub world: World,
    pub ga: GeneticAlgorithm<RouletteWheelSelection, UniformCrossover, GaussianMutation>,
    pub age: usize,
}

pub open spec fn sim_wf(s: Simulation) -> bool {
    &&& world_wf(s.world)
    &&& 0 < s.world.animals@.len() < 0x100000000
    &&& s.age < GENERATION_LENGTH
}

/// What an animal's brain answers to the food field: the network's output
/// on the eye's energy vector.
pub open spec fn brain_response_sp(a: Animal, foods: Seq<Food>) -> Seq<i64> {
    net_out_sp(
        a.brain.nn.layers@,
        vision_sp(a.eye, a.position, a.rotation as int, foods, foods.len() as int),
    )
}

/// The speed after one brain evaluation: the first output, clamped to the
/// acceleration limit, added to the old speed, clamped to the speed band.
pub open spec fn steered_speed_sp(a: Animal, foods: Seq<Food>) -> int {
    clamp_sp(
        a.speed + clamp_sp(
            brain_response_sp(a, foods)[0] as int,
            -SPEED_ACCEL_FP as int,
            SPEED_ACCEL_FP as int,
        ),
        SPEED_MIN_FP as int,
        SPEED_MAX_FP as int,
    )
}

/// The heading after one brain evaluation: the second output, clamped to a
/// quarter turn, added to the old heading, wrapped.
pub open spec fn steered_rotation_sp(a: Animal, foods: Seq<Food>) -> int {
    wrap_angle_sp(
        a.rotation + clamp_sp(
            brain_response_sp(a, foods)[1] as int,
            -ROTATION_ACCEL_FP as int,
            ROTATION_ACCEL_FP as int,
        ),
    )
}

/// How many of the first `k` foods lie within the eating radius of a point.
pub open spec fn eaten_upto_sp(pos: Point, foods: Seq<Food>, k: int) -> int
    decreases k,
{
    if k <= 0 {
        0
    } else {
        eaten_upto_sp(pos, foods, k - 1) + if crate::geometry::dist2_sp(
            pos,
            foods[k - 1].position,
        ) <= EAT_RADIUS_SQ_FP as int {
            1int
        } else {
            0int
        }
    }
}

/// A food within the radius makes the prefix count positive.
proof fn lemma_eaten_upto_pos(pos: Point, foods: Seq<Food>, f: int, k: int)
    requires
        0 <= f < k <= foods.len(),
        crate::geometry::dist2_sp(pos, foods[f].position) <= EAT_RADIUS_SQ_FP as int,
    ensures
        eaten_upto_sp(pos, foods, k) >= 1,
    decreases k,
{
    lemma_eaten_upto_bounds(pos, foods, k - 1);
    if f < k - 1 {
        lemma_eaten_upto_pos(pos, foods, f, k - 1);
    }
}

/// The prefix count lies between zero and the prefix length.
proof fn lemma_eaten_upto_bounds(pos: Point, foods: Seq<Food>, k: int)
    requires
        k <= foods.len(),
    ensures
        0 <= eaten_upto_sp(pos, foods, k),
        k >= 0 ==> eaten_upto_sp(pos, foods, k) <= k,
    decreases k,
{
    if k > 0 {
        lemma_eaten_upto_bounds(pos, foods, k - 1);
    }
}

/// `a`'s brain is a mutated crossover of two of the old animals' brains:
/// gene by gene, its flattened weights lie within `step` of the weights one
/// of the two ancestors carried at that index.
pub open spec fn offspring_of(olds: Seq<Animal>, a: Animal, step: int) -> bool {
    exists|ia: int, ib: int|
        #![trigger olds[ia], olds[ib]]
        {
            &&& 0 <= ia < olds.len()
            &&& 0 <= ib < olds.len()
            &&& forall|g: int|
                0 <= g < net_weights_sp(a.brain.nn).len() ==> abs_sp(
                    (#[trigger] net_weights_sp(a.brain.nn)[g]) - net_weights_sp(
                        olds[ia].brain.nn,
                    )[g],
                ) <= step || abs_sp(
                    net_weights_sp(a.brain.nn)[g] - net_weights_sp(olds[ib].brain.nn)[g],
                ) <= step
        }
}

/// Addition on the satiation counter, saturating at its ceiling.
pub open spec fn sat_add_sp(s: int, d: int) -> int {
    if s + d > 0xffffffffffffffff {
        0xffffffffffffffff
    } else {
        s + d
    }
}

/// The horizontal step one tick of movement applies to an animal.
pub open spec fn move_dx_sp(a: Animal) -> int {
    -fp_mul_sp(a.speed as int, sin_fp_sp(a.rotation as int))
}

/// The vertical step one tick of movement applies to an animal.
pub open spec fn move_dy_sp(a: Animal) -> int {
    fp_mul_sp(a.speed as int, cos_fp_sp(a.rotation as int))
}

impl Simulation {
    /// A fresh simulation: a scattered world and the standard genetic
    /// algorithm (roulette-wheel selection, uniform crossover, Gaussian
    /// mutation).
    pub fn random(rng: &mut ChaCha8Rng) -> (r: Simulation)
        ensures
            sim_wf(r),
            r.age == 0,
            r.world.animals@.len() == crate::world::WORLD_ANIMALS,
            r.world.foods@.len() == crate::world::WORLD_FOODS,
            r.ga.mutation_sp().chance_sp() == MUTATION_CHANCE_FP as int,
            r.ga.mutation_sp().coefficient_sp() == MUTATION_COEFF_FP as int,
            forall|i: int|
                0 <= i < r.world.animals@.len() ==> {
                    let a = #[trigger] r.world.animals@[i];
                    a.satiation == 0 && a.speed == crate::world::FIRST_SPEED_FP
                },
    {
        let mut world = World::new();
        world.random(rng);
        let ga = GeneticAlgorithm::new(
            RouletteWheelSelection::new(),
            UniformCrossover::new(),
            GaussianMutation::new(MUTATION_CHANCE_FP, MUTATION_COEFF_FP),
        );
        Simulation { world, ga, age: 0 }
    }

    pub fn world(&self) -> (r: &World)
        ensures
            *r == self.world,
    {
        &self.world
    }

    /// One tick: collisions, brains, movement, and the age counter; at the
    /// generation boundary the population is replaced and the age resets.
    /// The population size and the food count never change.
    pub fn step(&mut self, rng: &mut ChaCha8Rng)
        requires
            sim_wf(*old(self)),
        ensures
            sim_wf(*final(self)),
            final(self).world.animals@.len() == old(self).world.animals@.len(),
            final(self).world.foods@.len() == old(self).world.foods@.len(),
            final(self).age == if old(self).age + 1 >= GENERATION_LENGTH {
                0int
            } else {
                old(self).age + 1
            },
            old(self).age + 1 < GENERATION_LENGTH ==> forall|i: int|
                0 <= i < final(self).world.animals@.len() ==> {
                    let n = #[trigger] final(self).world.animals@[i];
                    let o = old(self).world.animals@[i];
                    n.brain == o.brain && n.satiation >= o.satiation && SPEED_MIN_FP
                        <= n.speed <= SPEED_MAX_FP && -PI_FP <= n.rotation <= PI_FP
                },
            old(self).age + 1 >= GENERATION_LENGTH ==> forall|i: int|
                0 <= i < final(self).world.animals@.len() ==> (#[trigger] final(self).world.animals@[i]).satiation == 0,
    {
        self.process_collisions(rng);
        self.process_brains();
        self.process_movements();
        self.age = self.age + 1;
        if self.age >= GENERATION_LENGTH {
            self.evolve(rng);
        }
    }

    /// Feed every animal that overlaps a food, relocating the food to a
    /// fresh uniform position. Animal positions, headings, speeds and
    /// brains are untouched; satiation never decreases.
    fn process_collisions(&mut self, rng: &mut ChaCha8Rng)
        requires
            sim_wf(*old(self)),
        ensures
            sim_wf(*final(self)),
            final(self).age == old(self).age,
            final(self).ga == old(self).ga,
            final(self).world.animals@.len() == old(self).world.animals@.len(),
            final(self).world.foods@.len() == old(self).world.foods@.len(),
            forall|i: int|
                0 <= i < final(self).world.animals@.len() ==> {
                    let n = #[trigger] final(self).world.animals@[i];
                    let o = old(self).world.animals@[i];
                    n.position == o.position && n.rotation == o.rotation && n.speed
                        == o.speed && n.brain == o.brain && n.satiation >= o.satiation
                },
            old(self).world.animals@.len() > 0 ==> final(self).world.animals@[0].satiation as int
                == sat_add_sp(
                old(self).world.animals@[0].satiation as int,
                eaten_upto_sp(
                    old(self).world.animals@[0].position,
                    old(self).world.foods@,
                    old(self).world.foods@.len() as int,
                ),
            ),
            (exists|i: int, f: int|
                0 <= i < old(self).world.animals@.len()
                    && 0 <= f < old(self).world.foods@.len()
                    && crate::geometry::dist2_sp(
                    (#[trigger] old(self).world.animals@[i]).position,
                    (#[trigger] old(self).world.foods@[f]).position,
                ) <= EAT_RADIUS_SQ_FP as int) ==> exists|j: int|
                0 <= j < final(self).world.animals@.len()
                    && ((#[trigger] final(self).world.animals@[j]).satiation
                    > old(self).world.animals@[j].satiation
                    || old(self).world.animals@[j].satiation == 0xffffffffffffffffu64),
    {
        let count: usize = self.world.animals.len();
        let ghost before = self.world.animals@;
        let mut done: Vec<Animal> = Vec::new();
        let mut a: usize = 0;
        while a < count
            invariant
                count == before.len(),
                self.world.animals@.len() + a == count,
                self.world.animals@ == before.skip(a as int),
                done@.len() == a,
                a <= count,
                forall|i: int| 0 <= i < before.len() ==> animal_wf(#[trigger] before[i]),
                forall|i: int|
                    0 <= i < self.world.foods@.len() ==> on_torus(
                        (#[trigger] self.world.foods@[i]).position,
                    ),
                self.world.foods@.len() == old(self).world.foods@.len(),
                forall|i: int|
                    0 <= i < a ==> {
                        let n = #[trigger] done@[i];
                        let o = before[i];
                        animal_wf(n) && n.position == o.position && n.rotation == o.rotation
                            && n.speed == o.speed && n.brain == o.brain && n.satiation
                            >= o.satiation
                    },
                self.age == old(self).age,
                self.ga == old(self).ga,
                self.world.animals@ =~= before.skip(a as int),
                a == 0 ==> self.world.foods@ == old(self).world.foods@,
                !(exists|j: int|
                    0 <= j < a && ((#[trigger] done@[j]).satiation > before[j].satiation
                        || before[j].satiation == 0xffffffffffffffffu64)) ==> {
                    &&& self.world.foods@ == old(self).world.foods@
                    &&& forall|j: int|
                        0 <= j < a ==> eaten_upto_sp(
                            (#[trigger] before[j]).position,
                            old(self).world.foods@,
                            old(self).world.foods@.len() as int,
                        ) == 0
                },
                a > 0 && before.len() > 0 ==> done@[0].satiation as int == sat_add_sp(
                    before[0].satiation as int,
                    eaten_upto_sp(
                        before[0].position,
                        old(self).world.foods@,
                        old(self).world.foods@.len() as int,
                    ),
                ),
            decreases count - a,
        {
            let ghost done_head = done@;
            let ghost a_head = a as int;
            let mut animal = self.world.animals.remove(0);
            proof {
                assert(self.world.animals@ =~= before.skip(a as int + 1));
            }
            let pos: Point = animal.position;
            let nfoods: usize = self.world.foods.len();
            let ghost foods_entry = self.world.foods@;
            let mut f: usize = 0;
            let mut eaten: u64 = 0;
            while f < nfoods
                invariant
                    nfoods == self.world.foods@.len(),
                    nfoods == old(self).world.foods@.len(),
                    nfoods == foods_entry.len(),
                    f <= nfoods,
                    on_torus(pos),
                    forall|i: int|
                        0 <= i < self.world.foods@.len() ==> on_torus(
                            (#[trigger] self.world.foods@[i]).position,
                        ),
                    forall|j: int|
                        f <= j < nfoods ==> self.world.foods@[j] == foods_entry[j],
                    0 <= eaten_upto_sp(pos, foods_entry, f as int) <= f as int,
                    eaten as int == eaten_upto_sp(pos, foods_entry, f as int),
                    eaten == 0 ==> self.world.foods@ == foods_entry,
                    self.world.animals@ == before.skip(a as int + 1),
                    self.age == old(self).age,
                    self.ga == old(self).ga,
                decreases nfoods - f,
            {
                let d2: i64 = dist2(pos, self.world.foods[f].position);
                if d2 <= EAT_RADIUS_SQ_FP {
                    eaten = eaten + 1;
                    let new_pos = Point {
                        x: rand_below(rng, SCALE as u64) as i64,
                        y: rand_below(rng, SCALE as u64) as i64,
                    };
                    self.world.foods.set(f, crate::food::Food { position: new_pos });
                }
                f = f + 1;
            }
            animal.satiation = if animal.satiation > 0xffffffffffffffffu64 - eaten {
                0xffffffffffffffffu64
            } else {
                animal.satiation + eaten
            };
            proof {
                if a == 0 {
                    assert(animal.satiation as int == sat_add_sp(
                        before[0].satiation as int,
                        eaten_upto_sp(
                            before[0].position,
                            old(self).world.foods@,
                            old(self).world.foods@.len() as int,
                        ),
                    ));
                }
                lemma_eaten_upto_bounds(pos, foods_entry, foods_entry.len() as int);
            }
            let ghost animal_snap = animal;
            done.push(animal);
            a = a + 1;
            proof {
                if !(exists|j: int|
                    0 <= j < a && ((#[trigger] done@[j]).satiation > before[j].satiation
                        || before[j].satiation == 0xffffffffffffffffu64)) {
                    assert(done@ == done_head.push(animal_snap));
                    assert(forall|j: int|
                        0 <= j < a_head ==> #[trigger] done_head[j] == done@[j]);
                    // no earlier animal ate either
                    assert(!(exists|j: int|
                        0 <= j < a_head && ((#[trigger] done_head[j]).satiation
                            > before[j].satiation || before[j].satiation
                            == 0xffffffffffffffffu64))) by {
                        if exists|j: int|
                            0 <= j < a_head && ((#[trigger] done_head[j]).satiation
                                > before[j].satiation || before[j].satiation
                                == 0xffffffffffffffffu64) {
                            let j = choose|j: int|
                                0 <= j < a_head && ((#[trigger] done_head[j]).satiation
                                    > before[j].satiation || before[j].satiation
                                    == 0xffffffffffffffffu64);
                            assert(0 <= j < a && ((done@[j]).satiation > before[j].satiation
                                || before[j].satiation == 0xffffffffffffffffu64));
                        }
                    }
                    // the animal just finished ate nothing: its satiation did
                    // not grow and was not at the ceiling
                    assert(done@[a - 1] == animal_snap);
                    assert(!(animal_snap.satiation > before[a - 1].satiation));
                    assert(before[a - 1].satiation != 0xffffffffffffffffu64);
                    assert(animal_snap.satiation as int == sat_add_sp(
                        before[a - 1].satiation as int,
                        eaten as int,
                    ));
                    assert(eaten == 0);
                    assert(self.world.foods@ == foods_entry);
                    assert(foods_entry == old(self).world.foods@);
                    assert(pos == before[a - 1].position);
                    assert(eaten_upto_sp(
                        before[a - 1].position,
                        old(self).world.foods@,
                        old(self).world.foods@.len() as int,
                    ) == 0);
                }
            }
        }
        self.world.animals = done;
        proof {
            if exists|i: int, f: int|
                0 <= i < before.len() && 0 <= f < old(self).world.foods@.len()
                    && crate::geometry::dist2_sp(
                    (#[trigger] before[i]).position,
                    (#[trigger] old(self).world.foods@[f]).position,
                ) <= EAT_RADIUS_SQ_FP as int {
                let (i, f) = choose|i: int, f: int|
                    0 <= i < before.len() && 0 <= f < old(self).world.foods@.len()
                        && crate::geometry::dist2_sp(
                        (#[trigger] before[i]).position,
                        (#[trigger] old(self).world.foods@[f]).position,
                    ) <= EAT_RADIUS_SQ_FP as int;
                if !(exists|j: int|
                    0 <= j < before.len() && ((#[trigger] done@[j]).satiation
                        > before[j].satiation || before[j].satiation
                        == 0xffffffffffffffffu64)) {
                    lemma_eaten_upto_pos(
                        before[i].position,
                        old(self).world.foods@,
                        f,
                        old(self).world.foods@.len() as int,
                    );
                }
            }
        }
    }

    /// Steer every animal: its eye reads the food field, its brain turns
    /// the reading into a speed change (clamped to the acceleration limit
    /// and the speed band) and a heading change (clamped to a quarter
    /// turn, then wrapped).
    fn process_brains(&mut self)
        requires
            sim_wf(*old(self)),
        ensures
            sim_wf(*final(self)),
            final(self).age == old(self).age,
            final(self).ga == old(self).ga,
            final(self).world.foods@ == old(self).world.foods@,
            final(self).world.animals@.len() == old(self).world.animals@.len(),
            forall|i: int|
                0 <= i < final(self).world.animals@.len() ==> {
                    let n = #[trigger] final(self).world.animals@[i];
                    let o = old(self).world.animals@[i];
                    n.position == o.position && n.brain == o.brain && n.satiation
                        == o.satiation && n.speed as int == steered_speed_sp(
                        o,
                        old(self).world.foods@,
                    ) && n.rotation as int == steered_rotation_sp(o, old(self).world.foods@)
                },
    {
        let count: usize = self.world.animals.len();
        let ghost before = self.world.animals@;
        let mut done: Vec<Animal> = Vec::new();
        let mut a: usize = 0;
        while a < count
            invariant
                count == before.len(),
                self.world.animals@ =~= before.skip(a as int),
                done@.len() == a,
                a <= count,
                forall|i: int| 0 <= i < before.len() ==> animal_wf(#[trigger] before[i]),
                forall|i: int|
                    0 <= i < self.world.foods@.len() ==> on_torus(
                        (#[trigger] self.world.foods@[i]).position,
                    ),
                self.world.foods@ == old(self).world.foods@,
                forall|i: int|
                    0 <= i < a ==> {
                        let n = #[trigger] done@[i];
                        let o = before[i];
                        animal_wf(n) && n.position == o.position && n.brain == o.brain
                            && n.satiation == o.satiation && n.speed as int
                            == steered_speed_sp(o, old(self).world.foods@) && n.rotation as int
                            == steered_rotation_sp(o, old(self).world.foods@)
                    },
                self.age == old(self).age,
                self.ga == old(self).ga,
            decreases count - a,
        {
            let mut animal = self.world.animals.remove(0);
            let vision = animal.eye.process_vision(
                animal.position,
                animal.rotation,
                &self.world.foods,
            );
            let response = animal.brain.nn.propagate(vision);
            let speed_delta: i64 = clamp(response[0], -SPEED_ACCEL_FP, SPEED_ACCEL_FP);
            let rotation_delta: i64 = clamp(response[1], -ROTATION_ACCEL_FP,
                ROTATION_ACCEL_FP);
            animal.speed = clamp(animal.speed + speed_delta, SPEED_MIN_FP, SPEED_MAX_FP);
            animal.rotation = wrap_angle(animal.rotation + rotation_delta);
            done.push(animal);
            a = a + 1;
        }
        self.world.animals = done;
    }

    /// Advance every animal along its heading by its speed, wrapping both
    /// coordinates onto the torus: a coordinate that would leave the world
    /// reappears shifted by exactly one world width.
    fn process_movements(&mut self)
        requires
            sim_wf(*old(self)),
        ensures
            sim_wf(*final(self)),
            final(self).age == old(self).age,
            final(self).ga == old(self).ga,
            final(self).world.foods@ == old(self).world.foods@,
            final(self).world.animals@.len() == old(self).world.animals@.len(),
            forall|i: int|
                0 <= i < final(self).world.animals@.len() ==> {
                    let n = #[trigger] final(self).world.animals@[i];
                    let o = old(self).world.animals@[i];
                    n.position.x as int == wrap_coord_sp(o.position.x + move_dx_sp(o))
                        && n.position.y as int == wrap_coord_sp(o.position.y + move_dy_sp(o))
                        && n.rotation == o.rotation && n.speed == o.speed && n.brain
                        == o.brain && n.satiation == o.satiation
                },
    {
        let count: usize = self.world.animals.len();
        let ghost before = self.world.animals@;
        let mut done: Vec<Animal> = Vec::new();
        let mut a: usize = 0;
        while a < count
            invariant
                count == before.len(),
                self.world.animals@ =~= before.skip(a as int),
                done@.len() == a,
                a <= count,
                forall|i: int| 0 <= i < before.len() ==> animal_wf(#[trigger] before[i]),
                forall|i: int|
                    0 <= i < self.world.foods@.len() ==> on_torus(
                        (#[trigger] self.world.foods@[i]).position,
                    ),
                self.world.foods@ == old(self).world.foods@,
                forall|i: int|
                    0 <= i < a ==> {
                        let n = #[trigger] done@[i];
                        let o = before[i];
                        animal_wf(n) && n.position.x as int == wrap_coord_sp(
                            o.position.x + move_dx_sp(o),
                        ) && n.position.y as int == wrap_coord_sp(
                            o.position.y + move_dy_sp(o),
                        ) && n.rotation == o.rotation && n.speed == o.speed && n.brain
                            == o.brain && n.satiation == o.satiation
                    },
                self.age == old(self).age,
                self.ga == old(self).ga,
            decreases count - a,
        {
            let mut animal = self.world.animals.remove(0);
            let dx: i64 = -fp_mul(animal.speed, sin_fp(animal.rotation));
            let dy: i64 = fp_mul(animal.speed, cos_fp(animal.rotation));
            proof {
                crate::trig::lemma_fp_mul_within(
                    animal.speed as int,
                    sin_fp_sp(animal.rotation as int),
                );
                crate::trig::lemma_fp_mul_within(
                    animal.speed as int,
                    cos_fp_sp(animal.rotation as int),
                );
            }
            animal.position = Point {
                x: wrap_coord(animal.position.x + dx),
                y: wrap_coord(animal.position.y + dy),
            };
            done.push(animal);
            a = a + 1;
        }
        self.world.animals = done;
    }

    /// Replace the population: snapshot every animal as an individual
    /// (fitness = satiation, chromosome = flattened brain), evolve, scatter
    /// fresh positions (blue-noise, with the uniform fallback), and rebuild
    /// one animal per new chromosome. The food set is untouched.
    fn evolve(&mut self, rng: &mut ChaCha8Rng)
        requires
            world_wf(old(self).world),
            0 < old(self).world.animals@.len() < 0x100000000,
        ensures
            sim_wf(*final(self)),
            final(self).age == 0,
            final(self).ga == old(self).ga,
            final(self).world.foods@ == old(self).world.foods@,
            final(self).world.animals@.len() == old(self).world.animals@.len(),
            forall|i: int|
                0 <= i < final(self).world.animals@.len() ==> {
                    let n = #[trigger] final(self).world.animals@[i];
                    n.satiation == 0 && n.speed == crate::animal::SPAWN_SPEED_FP
                },
            forall|i: int|
                0 <= i < final(self).world.animals@.len() ==> offspring_of(
                    old(self).world.animals@,
                    #[trigger] final(self).world.animals@[i],
                    old(self).ga.mutation_sp().step_bound(),
                ),
    {
        self.age = 0;
        let count: usize = self.world.animals.len();
        let ghost olds = self.world.animals@;
        let mut individuals: Vec<AnimalIndividual> = Vec::new();
        let mut a: usize = 0;
        while a < count
            invariant
                count == self.world.animals@.len(),
                world_wf(self.world),
                olds == self.world.animals@,
                individuals@.len() == a,
                a <= count,
                forall|i: int|
                    0 <= i < a ==> chrom_wf(
                        (#[trigger] individuals@[i]).chromosome_sp(),
                    ) && (#[trigger] individuals@[i]).chromosome_sp().len() as int
                        == weight_count_sp(brain_widths_sp(crate::eye::EYE_CELLS)),
                forall|i: int|
                    0 <= i < a ==> (#[trigger] individuals@[i]).chromosome_sp()
                        == net_weights_sp(olds[i].brain.nn),
            decreases count - a,
        {
            let ind = AnimalIndividual::from_animal(&self.world.animals[a]);
            individuals.push(ind);
            a = a + 1;
        }
        let new_population = self.ga.evolve(rng, &individuals);
        proof {
            assert forall|i: int| 0 <= i < new_population@.len() implies (#[trigger]
            new_population@[i]).chromosome_sp().len() as int == weight_count_sp(
                brain_widths_sp(crate::eye::EYE_CELLS),
            ) by {
                assert(bred_from(
                    individuals@,
                    new_population@[i],
                    self.ga.mutation_sp().step_bound(),
                ));
                let (ia, ib) = choose|ia: int, ib: int|
                    0 <= ia < individuals@.len() && 0 <= ib < individuals@.len()
                        && new_population@[i].chromosome_sp().len() == vstd::math::min(
                        individuals@[ia].chromosome_sp().len() as int,
                        individuals@[ib].chromosome_sp().len() as int,
                    );
            }
        }
        let positions = match World::generate_poison(
            rng,
            SCALE,
            SCALE,
            count as u32,
            crate::world::ANIMAL_SPACING_FP,
        ) {
            Some(ps) => ps,
            None => World::uniform_points(rng, SCALE, SCALE, count as u32),
        };
        let mut animals: Vec<Animal> = Vec::new();
        let mut stock = new_population;
        let mut k: usize = 0;
        while k < count
            invariant
                count == positions@.len(),
                count == olds.len(),
                olds == old(self).world.animals@,
                stock@.len() + k == count,
                animals@.len() == k,
                k <= count,
                crate::world::points_in_rect(positions@, SCALE as int, SCALE as int),
                forall|i: int|
                    0 <= i < individuals@.len() ==> (#[trigger] individuals@[i]).chromosome_sp()
                        == net_weights_sp(olds[i].brain.nn),
                individuals@.len() == count,
                forall|i: int|
                    0 <= i < stock@.len() ==> chrom_wf(
                        (#[trigger] stock@[i]).chromosome_sp(),
                    ) && (#[trigger] stock@[i]).chromosome_sp().len() as int
                        == weight_count_sp(brain_widths_sp(crate::eye::EYE_CELLS)),
                forall|i: int|
                    0 <= i < stock@.len() ==> bred_from(
                        individuals@,
                        #[trigger] stock@[i],
                        old(self).ga.mutation_sp().step_bound(),
                    ),
                self.ga == old(self).ga,
                forall|i: int|
                    0 <= i < k ==> {
                        let n = #[trigger] animals@[i];
                        animal_wf(n) && n.satiation == 0 && n.speed
                            == crate::animal::SPAWN_SPEED_FP
                    },
                forall|i: int|
                    0 <= i < k ==> offspring_of(
                        old(self).world.animals@,
                        #[trigger] animals@[i],
                        old(self).ga.mutation_sp().step_bound(),
                    ),
            decreases count - k,
        {
            let ind = stock.remove(0);
            let ghost ind_snap = ind;
            let animal = ind.into_animal(rng, positions[k]);
            animals.push(animal);
            k = k + 1;
            proof {
                let step = old(self).ga.mutation_sp().step_bound();
                let (ia, ib) = choose|ia: int, ib: int|
                    {
                        &&& 0 <= ia < individuals@.len()
                        &&& 0 <= ib < individuals@.len()
                        &&& ind_snap.chromosome_sp().len() == vstd::math::min(
                            individuals@[ia].chromosome_sp().len() as int,
                            individuals@[ib].chromosome_sp().len() as int,
                        )
                        &&& forall|g: int|
                            0 <= g < ind_snap.chromosome_sp().len() ==> abs_sp(
                                (#[trigger] ind_snap.chromosome_sp()[g])
                                    - individuals@[ia].chromosome_sp()[g],
                            ) <= step || abs_sp(
                                ind_snap.chromosome_sp()[g]
                                    - individuals@[ib].chromosome_sp()[g],
                            ) <= step
                    };
                assert(net_weights_sp(animals@[k - 1].brain.nn)
                    == ind_snap.chromosome_sp());
                assert(offspring_of(old(self).world.animals@, animals@[k - 1], step));
            }
        }
        self.world.animals = animals;
    }
}

} // verus!
