//! The world: the animal and food collections, the blue-noise point
//! distributor that scatters them, and its helpers.

use vstd::prelude::*;
use crate::fixed::{SCALE, PI_FP};
use crate::geometry::{Point, on_torus, dist2_sp, dist2};
use crate::food::Food;
use crate::animal::{Animal, animal_wf};
use crate::rng::{rand_below, rand_i64_range};
use rand_chacha::ChaCha8Rng;
use vstd::arithmetic::div_mod::lemma_div_is_ordered;

verus! {

/// How many candidate draws the distributor spends before giving up.
pub const MAX_PLACEMENT_ATTEMPTS: u64 = 262144;

/// How many animals a fresh world holds.
pub const WORLD_ANIMALS: u32 = 35;

/// How many foods a fresh world holds.
pub const WORLD_FOODS: u32 = 50;

/// Minimum spacing between scattered animals (a tenth of the world).
pub const ANIMAL_SPACING_FP: i64 = 6554;

/// Minimum spacing between scattered foods (a twentieth of the world).
pub const FOOD_SPACING_FP: i64 = 3277;

/// The speed animals of the first generation start with.
pub const FIRST_SPEED_FP: i64 = 131;

/// A queue that inserts at and removes from uniformly random positions.
pub struct RandomQueue<T> {
    items: Vec<T>,
}

impl<T> View for RandomQueue<T> {
    type V = Seq<T>;

    closed spec fn view(&self) -> Seq<T> {
        self.items@
    }
}

impl<T> RandomQueue<T> {
    pub fn new() -> (r: Self)
        ensures
            r@.len() == 0,
    {
        RandomQueue { items: Vec::new() }
    }

    /// Insert the item at a uniformly random position: afterwards the queue
    /// holds the old items plus this one, in some order with the old order
    /// preserved around the insertion point.
    pub fn push(&mut self, item: T, rng: &mut ChaCha8Rng)
        requires
            old(self)@.len() < 0xffffffffffffffff,
        ensures
            final(self)@.len() == old(self)@.len() + 1,
            exists|i: int|
                0 <= i <= old(self)@.len() && final(self)@ == old(self)@.insert(i, item),
    {
        let index: u64 = rand_below(rng, (self.items.len() as u64) + 1);
        self.items.insert(index as usize, item);
    }

    /// Remove and return the item at a uniformly random position; `None`
    /// exactly on the empty queue, which is left unchanged.
    pub fn pop(&mut self, rng: &mut ChaCha8Rng) -> (r: Option<T>)
        ensures
            old(self)@.len() == 0 ==> r is None && final(self)@ == old(self)@,
            old(self)@.len() > 0 ==> exists|i: int|
                0 <= i < old(self)@.len() && r == Some(old(self)@[i]) && final(self)@ == old(
                    self,
                )@.remove(i),
    {
        if self.items.len() == 0 {
            None
        } else {
            let index: u64 = rand_below(rng, self.items.len() as u64);
            Some(self.items.remove(index as usize))
        }
    }
}

/// A uniform bucket grid over a rectangle, holding indices of placed points.
pub struct Grid {
    pub cells: Vec<Vec<usize>>,
    pub cell_size: i64,
    pub width: i64,
    pub height: i64,
    pub ncols: usize,
    pub nrows: usize,
}

pub open spec fn grid_wf(g: Grid) -> bool {
    &&& 2 <= g.cell_size <= SCALE
    &&& 0 < g.width <= SCALE
    &&& 0 < g.height <= SCALE
    &&& 0 < g.ncols <= 32768
    &&& 0 < g.nrows <= 32768
    &&& g.ncols as int == (g.width - 1) as int / (g.cell_size as int) + 1
    &&& g.nrows as int == (g.height - 1) as int / (g.cell_size as int) + 1
    &&& g.cells@.len() == (g.ncols as int) * (g.nrows as int)
}

/// The bucket a point falls in: column plus row times the column count.
pub open spec fn grid_bucket_sp(g: Grid, p: Point) -> int {
    (p.x as int) / (g.cell_size as int) + ((p.y as int) / (g.cell_size as int)) * (
    g.ncols as int)
}

impl Grid {
    /// An empty grid of square buckets covering `[0, width) x [0, height)`.
    pub fn new(width: i64, height: i64, cell_size: i64) -> (r: Grid)
        requires
            2 <= cell_size <= SCALE,
            0 < width <= SCALE,
            0 < height <= SCALE,
        ensures
            grid_wf(r),
            r.width == width,
            r.height == height,
            r.cell_size == cell_size,
            forall|b: int| 0 <= b < r.cells@.len() ==> (#[trigger] r.cells@[b])@.len() == 0,
    {
        let ncols: usize = ((width - 1) / cell_size + 1) as usize;
        let nrows: usize = ((height - 1) / cell_size + 1) as usize;
        proof {
            vstd::arithmetic::div_mod::lemma_div_is_ordered_by_denominator(
                (width - 1) as int,
                2,
                cell_size as int,
            );
            vstd::arithmetic::div_mod::lemma_div_is_ordered_by_denominator(
                (height - 1) as int,
                2,
                cell_size as int,
            );
            lemma_div_is_ordered((width - 1) as int, (SCALE - 1) as int, 2);
            lemma_div_is_ordered((height - 1) as int, (SCALE - 1) as int, 2);
            lemma_div_is_ordered(0, (width - 1) as int, cell_size as int);
            lemma_div_is_ordered(0, (height - 1) as int, cell_size as int);
            assert(0 as int / (cell_size as int) == 0) by (nonlinear_arith)
                requires
                    0 < cell_size as int,
            ;
            assert(0 < ncols as int);
            assert(ncols as int <= 32768);
            assert(0 < nrows as int);
            assert(nrows as int <= 32768);
            assert((ncols as int) * (nrows as int) <= 0x40000000) by (nonlinear_arith)
                requires
                    0 < ncols as int,
                    ncols as int <= 32768,
                    0 < nrows as int,
                    nrows as int <= 32768,
            ;
        }
        let total: usize = ncols * nrows;
        let mut cells: Vec<Vec<usize>> = Vec::new();
        let mut b: usize = 0;
        while b < total
            invariant
                cells@.len() == b,
                b <= total,
                forall|t: int| 0 <= t < b ==> (#[trigger] cells@[t])@.len() == 0,
            decreases total - b,
        {
            cells.push(Vec::new());
            b = b + 1;
        }
        Grid { cells, cell_size, width, height, ncols, nrows }
    }

    /// Record `index` in the bucket of `position`.
    pub fn add(&mut self, position: Point, index: usize)
        requires
            grid_wf(*old(self)),
            0 <= position.x < old(self).width,
            0 <= position.y < old(self).height,
        ensures
            grid_wf(*final(self)),
            final(self).cell_size == old(self).cell_size,
            final(self).width == old(self).width,
            final(self).height == old(self).height,
            final(self).ncols == old(self).ncols,
            final(self).nrows == old(self).nrows,
            final(self).cells@.len() == old(self).cells@.len(),
            (#[trigger] final(self).cells@[grid_bucket_sp(*old(self), position)])@ == old(
                self,
            ).cells@[grid_bucket_sp(*old(self), position)]@.push(index),
            forall|b: int|
                0 <= b < old(self).cells@.len() && b != grid_bucket_sp(*old(self), position)
                    ==> #[trigger] final(self).cells@[b] == old(self).cells@[b],
    {
        let gx: usize = (position.x / self.cell_size) as usize;
        let gy: usize = (position.y / self.cell_size) as usize;
        proof {
            lemma_div_is_ordered(position.x as int, (self.width - 1) as int,
                self.cell_size as int);
            lemma_div_is_ordered(position.y as int, (self.height - 1) as int,
                self.cell_size as int);
            lemma_div_is_ordered(0, position.x as int, self.cell_size as int);
            lemma_div_is_ordered(0, position.y as int, self.cell_size as int);
            assert(0 as int / (self.cell_size as int) == 0) by (nonlinear_arith)
                requires
                    0 < self.cell_size as int,
            ;
            assert((gy as int) * (self.ncols as int) + (gx as int) < (self.ncols as int) * (
            self.nrows as int)) by (nonlinear_arith)
                requires
                    0 <= gx as int,
                    (gx as int) < (self.ncols as int),
                    0 <= gy as int,
                    (gy as int) < (self.nrows as int),
            ;
            assert((gy as int) * (self.ncols as int) <= 0x40000000 && (self.ncols as int) * (
            self.nrows as int) <= 0x40000000) by (nonlinear_arith)
                requires
                    0 <= gy as int,
                    (gy as int) <= 32768,
                    0 < self.ncols as int,
                    (self.ncols as int) <= 32768,
                    0 < self.nrows as int,
                    (self.nrows as int) <= 32768,
            ;
        }
        let idx: usize = gx + gy * self.ncols;
        let mut bucket: Vec<usize> = self.cells.remove(idx);
        bucket.push(index);
        self.cells.insert(idx, bucket);
        proof {
            assert(final(self).cells@ =~= old(self).cells@.update(
                grid_bucket_sp(*old(self), position),
                final(self).cells@[grid_bucket_sp(*old(self), position)],
            ));
        }
    }

    /// The indices recorded in the bucket of `position`.
    pub fn get(&self, position: Point) -> (r: &Vec<usize>)
        requires
            grid_wf(*self),
            0 <= position.x < self.width,
            0 <= position.y < self.height,
        ensures
            r@ == self.cells@[grid_bucket_sp(*self, position)]@,
    {
        let gx: usize = (position.x / self.cell_size) as usize;
        let gy: usize = (position.y / self.cell_size) as usize;
        proof {
            lemma_div_is_ordered(position.x as int, (self.width - 1) as int,
                self.cell_size as int);
            lemma_div_is_ordered(position.y as int, (self.height - 1) as int,
                self.cell_size as int);
            lemma_div_is_ordered(0, position.x as int, self.cell_size as int);
            lemma_div_is_ordered(0, position.y as int, self.cell_size as int);
            assert(0 as int / (self.cell_size as int) == 0) by (nonlinear_arith)
                requires
                    0 < self.cell_size as int,
            ;
            assert((gy as int) * (self.ncols as int) + (gx as int) < (self.ncols as int) * (
            self.nrows as int)) by (nonlinear_arith)
                requires
                    0 <= gx as int,
                    (gx as int) < (self.ncols as int),
                    0 <= gy as int,
                    (gy as int) < (self.nrows as int),
            ;
            assert((gy as int) * (self.ncols as int) <= 0x40000000 && (self.ncols as int) * (
            self.nrows as int) <= 0x40000000) by (nonlinear_arith)
                requires
                    0 <= gy as int,
                    (gy as int) <= 32768,
                    0 < self.ncols as int,
                    (self.ncols as int) <= 32768,
                    0 < self.nrows as int,
                    (self.nrows as int) <= 32768,
            ;
        }
        let idx: usize = gx + gy * self.ncols;
        &self.cells[idx]
    }
}

/// No two points closer than (or exactly at) the spacing.
pub open spec fn points_separated(ps: Seq<Point>, d: int) -> bool {
    forall|i: int, j: int|
        0 <= i < j < ps.len() ==> dist2_sp(#[trigger] ps[i], #[trigger] ps[j]) > d * d
}

/// All points inside `[0, w) x [0, h)`.
pub open spec fn points_in_rect(ps: Seq<Point>, w: int, h: int) -> bool {
    forall|i: int|
        0 <= i < ps.len() ==> 0 <= (#[trigger] ps[i]).x < w && 0 <= ps[i].y < h
}

pub struct World {
    pub animals: Vec<Animal>,
    pub foods: Vec<Food>,
}

pub open spec fn world_wf(w: World) -> bool {
    &&& forall|i: int| 0 <= i < w.animals@.len() ==> animal_wf(#[trigger] w.animals@[i])
    &&& forall|i: int| 0 <= i < w.foods@.len() ==> on_torus((#[trigger] w.foods@[i]).position)
}

impl World {
    pub fn new() -> (r: World)
        ensures
            r.animals@.len() == 0,
            r.foods@.len() == 0,
            world_wf(r),
    {
        World { animals: Vec::new(), foods: Vec::new() }
    }

    pub fn animals(&self) -> (r: &Vec<Animal>)
        ensures
            r@ == self.animals@,
    {
        &self.animals
    }

    pub fn foods(&self) -> (r: &Vec<Food>)
        ensures
            r@ == self.foods@,
    {
        &self.foods
    }

    /// `count` independent uniform points in `[0, w) x [0, h)`: the
    /// documented fallback when blue-noise placement gives up.
    pub fn uniform_points(rng: &mut ChaCha8Rng, w: i64, h: i64, count: u32) -> (r: Vec<Point>)
        requires
            0 < w <= SCALE,
            0 < h <= SCALE,
        ensures
            r@.len() == count,
            points_in_rect(r@, w as int, h as int),
    {
        let mut points: Vec<Point> = Vec::new();
        let mut k: u32 = 0;
        while k < count
            invariant
                0 < w <= SCALE,
                0 < h <= SCALE,
                points@.len() == k,
                k <= count,
                points_in_rect(points@, w as int, h as int),
            decreases count - k,
        {
            let x: i64 = rand_below(rng, w as u64) as i64;
            let y: i64 = rand_below(rng, h as u64) as i64;
            points.push(Point { x, y });
            k = k + 1;
        }
        points
    }

    /// Blue-noise point placement by rejection sampling: draw independent
    /// uniform candidates and accept one only if it lies strictly farther
    /// than `min_distance` from every accepted point, until `count` points
    /// stand or the attempt budget runs out. A randomized queue of the
    /// accepted points supplies (and discards) a processing candidate per
    /// round, as the sampling scheme prescribes.
    ///
    /// `Some` carries exactly `count` points, pairwise separated by more
    /// than `min_distance`; `None` says the budget ran out, which the draws
    /// alone decide.
    pub fn generate_poison(
        rng: &mut ChaCha8Rng,
        width: i64,
        height: i64,
        count: u32,
        min_distance: i64,
    ) -> (r: Option<Vec<Point>>)
        requires
            0 < width <= SCALE,
            0 < height <= SCALE,
            0 <= min_distance <= SCALE,
        ensures
            r matches Some(ps) ==> {
                &&& ps@.len() == count
                &&& points_in_rect(ps@, width as int, height as int)
                &&& points_separated(ps@, min_distance as int)
            },
            count <= 1 ==> r is Some,
    {
        if count == 0 {
            return Some(Vec::new());
        }
        let mut queue: RandomQueue<Point> = RandomQueue::new();
        let mut points: Vec<Point> = Vec::new();
        let first = Point {
            x: rand_below(rng, width as u64) as i64,
            y: rand_below(rng, height as u64) as i64,
        };
        queue.push(first, rng);
        points.push(first);
        let mut attempts: u64 = 0;
        while points.len() < count as usize && attempts < MAX_PLACEMENT_ATTEMPTS
            invariant
                0 < width <= SCALE,
                0 < height <= SCALE,
                0 <= min_distance <= SCALE,
                attempts <= MAX_PLACEMENT_ATTEMPTS,
                1 <= points@.len() <= count,
                queue@.len() <= points@.len(),
                points_in_rect(points@, width as int, height as int),
                points_separated(points@, min_distance as int),
            decreases MAX_PLACEMENT_ATTEMPTS - attempts,
        {
            attempts = attempts + 1;
            let _discarded = queue.pop(rng);
            let candidate = Point {
                x: rand_below(rng, width as u64) as i64,
                y: rand_below(rng, height as u64) as i64,
            };
            let n: usize = points.len();
            let mut ok: bool = true;
            let mut t: usize = 0;
            proof {
                assert((min_distance as int) * (min_distance as int) <= (SCALE as int) * (
                SCALE as int) && 0 <= (min_distance as int) * (min_distance as int))
                    by (nonlinear_arith)
                    requires
                        0 <= min_distance as int,
                        (min_distance as int) <= (SCALE as int),
                ;
            }
            let min2: i64 = min_distance * min_distance;
            while t < n
                invariant
                    n == points@.len(),
                    t <= n,
                    0 < width <= SCALE,
                    0 < height <= SCALE,
                    0 <= candidate.x < width,
                    0 <= candidate.y < height,
                    points_in_rect(points@, width as int, height as int),
                    min2 as int == (min_distance as int) * (min_distance as int),
                    ok <==> forall|u: int|
                        0 <= u < t ==> dist2_sp(#[trigger] points@[u], candidate)
                            > min2 as int,
                decreases n - t,
            {
                let d2: i64 = dist2(points[t], candidate);
                if d2 <= min2 {
                    ok = false;
                }
                t = t + 1;
            }
            if ok {
                queue.push(candidate, rng);
                points.push(candidate);
            }
        }
        if points.len() == count as usize {
            Some(points)
        } else {
            None
        }
    }

    /// Scatter a fresh population and food supply: blue-noise placement,
    /// falling back to plain uniform placement if the distributor gives up.
    pub fn random(&mut self, rng: &mut ChaCha8Rng)
        ensures
            final(self).animals@.len() == WORLD_ANIMALS,
            final(self).foods@.len() == WORLD_FOODS,
            world_wf(*final(self)),
            forall|i: int|
                0 <= i < final(self).animals@.len() ==> {
                    let a = #[trigger] final(self).animals@[i];
                    a.satiation == 0 && a.speed == FIRST_SPEED_FP
                },
    {
        let animal_spots = match World::generate_poison(
            rng,
            SCALE,
            SCALE,
            WORLD_ANIMALS,
            ANIMAL_SPACING_FP,
        ) {
            Some(ps) => ps,
            None => World::uniform_points(rng, SCALE, SCALE, WORLD_ANIMALS),
        };
        let mut animals: Vec<Animal> = Vec::new();
        let mut k: usize = 0;
        let total: usize = animal_spots.len();
        while k < total
            invariant
                total == animal_spots@.len(),
                points_in_rect(animal_spots@, SCALE as int, SCALE as int),
                animals@.len() == k,
                k <= total,
                forall|t: int|
                    0 <= t < k ==> {
                        let an = #[trigger] animals@[t];
                        animal_wf(an) && an.satiation == 0 && an.speed == FIRST_SPEED_FP
                    },
            decreases total - k,
        {
            let heading: i64 = rand_i64_range(rng, -PI_FP, PI_FP);
            let a = Animal::new(animal_spots[k], heading, FIRST_SPEED_FP, rng);
            animals.push(a);
            k = k + 1;
        }
        let food_spots = match World::generate_poison(
            rng,
            SCALE,
            SCALE,
            WORLD_FOODS,
            FOOD_SPACING_FP,
        ) {
            Some(ps) => ps,
            None => World::uniform_points(rng, SCALE, SCALE, WORLD_FOODS),
        };
        let mut foods: Vec<Food> = Vec::new();
        let mut j: usize = 0;
        let ftotal: usize = food_spots.len();
        while j < ftotal
            invariant
                ftotal == food_spots@.len(),
                points_in_rect(food_spots@, SCALE as int, SCALE as int),
                foods@.len() == j,
                j <= ftotal,
                forall|t: int| 0 <= t < j ==> on_torus((#[trigger] foods@[t]).position),
            decreases ftotal - j,
        {
            foods.push(Food::new(food_spots[j]));
            j = j + 1;
        }
        self.animals = animals;
        self.foods = foods;
    }
}

} // verus!
