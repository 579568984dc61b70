//! The genetic-algorithm engine.
//!
//! Generic over four capabilities: an [`Individual`] pairing a chromosome
//! with an observed fitness, a [`SelectionMethod`], a [`CrossoverMethod`] and
//! a [`MutationMethod`]. [`GeneticAlgorithm::evolve`] replaces a population
//! by one of exactly the same size, each slot produced by selecting two
//! parents, crossing their chromosomes and mutating the child.

use vstd::prelude::*;
use vstd::math::min;
use vstd::arithmetic::div_mod::lemma_div_is_ordered;
use vstd::arithmetic::div_mod::lemma_div_by_multiple;
use crate::fixed::{SCALE, VAL_MAX, in_range, all_in_range, fp_mul_sp, fp_mul};
use crate::trig::abs_sp;
use crate::rng::{rand_below, rand_below_wide, rand_i64_range};
use rand_chacha::ChaCha8Rng;

verus! {

/// An ordered sequence of fixed-point genes.
pub struct Chromosome {
    genes: Vec<i64>,
}

impl View for Chromosome {
    type V = Seq<i64>;

    closed spec fn view(&self) -> Seq<i64> {
        self.genes@
    }
}

/// Every gene lies in the stored-scalar range.
pub open spec fn chrom_wf(s: Seq<i64>) -> bool {
    all_in_range(s)
}

impl Chromosome {
    pub fn new(genes: Vec<i64>) -> (r: Self)
        ensures
            r@ == genes@,
    {
        Chromosome { genes }
    }

    pub fn len(&self) -> (r: usize)
        ensures
            r == self@.len(),
    {
        self.genes.len()
    }

    pub fn is_empty(&self) -> (r: bool)
        ensures
            r == (self@.len() == 0),
    {
        self.genes.len() == 0
    }

    /// The gene at one index.
    pub fn gene(&self, index: usize) -> (r: i64)
        requires
            index < self@.len(),
        ensures
            r == self@[index as int],
    {
        self.genes[index]
    }

    /// Overwrite the gene at one index.
    pub fn set_gene(&mut self, index: usize, value: i64)
        requires
            index < old(self)@.len(),
        ensures
            final(self)@ == old(self)@.update(index as int, value),
    {
        self.genes.set(index, value);
    }

    /// All genes, in order.
    pub fn genes(&self) -> (r: &Vec<i64>)
        ensures
            r@ == self@,
    {
        &self.genes
    }
}

/// A member of an evolving population: an observed fitness plus the
/// chromosome it was built from. Fitness is accumulated externally during
/// the individual's lifetime, never derived from the chromosome.
pub trait Individual: Sized {
    spec fn fitness_sp(&self) -> u64;

    spec fn chromosome_sp(&self) -> Seq<i64>;

    fn fitness(&self) -> (r: u64)
        ensures
            r == self.fitness_sp(),
    ;

    fn chromosome(&self) -> (r: &Chromosome)
        ensures
            r@ == self.chromosome_sp(),
    ;

    fn create(chromosome: Chromosome) -> (r: Self)
        ensures
            r.chromosome_sp() == chromosome@,
            r.fitness_sp() == 0,
    ;
}

/// Picks one member of a population, with replacement.
pub trait SelectionMethod {
    fn select<'a, I: Individual>(
        &self,
        rng: &mut ChaCha8Rng,
        population: &'a Vec<I>,
    ) -> (r: &'a I)
        requires
            population@.len() > 0,
        ensures
            exists|i: int| 0 <= i < population@.len() && *r == #[trigger] population@[i],
    ;
}

/// Combines two parent chromosomes into a child.
///
/// The child covers the overlapping prefix of the parents, and every child
/// gene is taken from one of the two parents at the same index.
pub trait CrossoverMethod {
    fn crossover(
        &self,
        rng: &mut ChaCha8Rng,
        parent_a: &Chromosome,
        parent_b: &Chromosome,
    ) -> (r: Chromosome)
        ensures
            r@.len() == min(parent_a@.len() as int, parent_b@.len() as int),
            forall|i: int|
                0 <= i < r@.len() ==> #[trigger] r@[i] == parent_a@[i] || r@[i]
                    == parent_b@[i],
    ;
}

/// Rewrites a chromosome in place, keeping its length and its genes in
/// range, and moving no gene by more than the method's step bound.
pub trait MutationMethod {
    /// How far one application may move a gene.
    spec fn step_bound(&self) -> int;

    fn mutate(&self, rng: &mut ChaCha8Rng, child: &mut Chromosome)
        requires
            chrom_wf(old(child)@),
        ensures
            final(child)@.len() == old(child)@.len(),
            chrom_wf(final(child)@),
            forall|i: int|
                0 <= i < final(child)@.len() ==> abs_sp(
                    (#[trigger] final(child)@[i]) - old(child)@[i],
                ) <= self.step_bound(),
    ;
}

/// `x` is a mutated crossover of two members of `pop`: its chromosome
/// covers the parents' overlap, and each of its genes lies within `step` of
/// the gene one of the two parents carries at that index.
pub open spec fn bred_from<I: Individual>(pop: Seq<I>, x: I, step: int) -> bool {
    exists|ia: int, ib: int|
        {
            &&& 0 <= ia < pop.len()
            &&& 0 <= ib < pop.len()
            &&& x.chromosome_sp().len() == min(
                pop[ia].chromosome_sp().len() as int,
                pop[ib].chromosome_sp().len() as int,
            )
            &&& forall|g: int|
                0 <= g < x.chromosome_sp().len() ==> abs_sp(
                    (#[trigger] x.chromosome_sp()[g]) - pop[ia].chromosome_sp()[g],
                ) <= step || abs_sp(x.chromosome_sp()[g] - pop[ib].chromosome_sp()[g])
                    <= step
        }
}

pub struct GeneticAlgorithm<S, C, M> {
    selection_method: S,
    crossover_method: C,
    mutation_method: M,
}

impl<S, C, M> GeneticAlgorithm<S, C, M> {
    pub closed spec fn selection_sp(&self) -> S {
        self.selection_method
    }

    pub closed spec fn crossover_sp(&self) -> C {
        self.crossover_method
    }

    pub closed spec fn mutation_sp(&self) -> M {
        self.mutation_method
    }
}

impl<S: SelectionMethod, C: CrossoverMethod, M: MutationMethod> GeneticAlgorithm<S, C, M> {
    pub fn new(selection_method: S, crossover_method: C, mutation_method: M) -> (r: Self)
        ensures
            r.selection_sp() == selection_method,
            r.crossover_sp() == crossover_method,
            r.mutation_sp() == mutation_method,
    {
        GeneticAlgorithm { selection_method, crossover_method, mutation_method }
    }

    /// Produce the next generation: one child per member of the population,
    /// each bred from two selected parents (which may coincide), crossed and
    /// mutated. The population size is always preserved; each child's
    /// chromosome covers the overlapping prefix of its two parents'.
    pub fn evolve<I: Individual>(
        &self,
        rng: &mut ChaCha8Rng,
        population: &Vec<I>,
    ) -> (r: Vec<I>)
        requires
            population@.len() > 0,
            forall|i: int|
                0 <= i < population@.len() ==> chrom_wf(
                    (#[trigger] population@[i]).chromosome_sp(),
                ),
        ensures
            r@.len() == population@.len(),
            forall|k: int|
                0 <= k < r@.len() ==> chrom_wf((#[trigger] r@[k]).chromosome_sp()),
            forall|k: int| 0 <= k < r@.len() ==> (#[trigger] r@[k]).fitness_sp() == 0,
            forall|k: int|
                0 <= k < r@.len() ==> bred_from(
                    population@,
                    #[trigger] r@[k],
                    self.mutation_sp().step_bound(),
                ),
    {
        let n: usize = population.len();
        let mut out: Vec<I> = Vec::new();
        let mut k: usize = 0;
        while k < n
            invariant
                n == population@.len(),
                n > 0,
                out@.len() == k,
                k <= n,
                forall|i: int|
                    0 <= i < population@.len() ==> chrom_wf(
                        (#[trigger] population@[i]).chromosome_sp(),
                    ),
                forall|j: int|
                    0 <= j < out@.len() ==> chrom_wf((#[trigger] out@[j]).chromosome_sp()),
                forall|j: int| 0 <= j < out@.len() ==> (#[trigger] out@[j]).fitness_sp() == 0,
                forall|j: int|
                    0 <= j < out@.len() ==> bred_from(
                        population@,
                        #[trigger] out@[j],
                        self.mutation_sp().step_bound(),
                    ),
            decreases n - k,
        {
            let parent_a = self.selection_method.select(rng, population);
            let parent_b = self.selection_method.select(rng, population);
            let mut child = self.crossover_method.crossover(
                rng,
                parent_a.chromosome(),
                parent_b.chromosome(),
            );
            proof {
                assert(chrom_wf(child@));
            }
            let ghost crossed = child@;
            self.mutation_method.mutate(rng, &mut child);
            let next = I::create(child);
            out.push(next);
            proof {
                let ia = choose|i: int|
                    0 <= i < population@.len() && *parent_a == population@[i];
                let ib = choose|i: int|
                    0 <= i < population@.len() && *parent_b == population@[i];
                assert(0 <= ia < population@.len() && *parent_a == population@[ia]);
                assert(0 <= ib < population@.len() && *parent_b == population@[ib]);
                let bred = out@[out@.len() - 1];
                assert(bred.chromosome_sp().len() == min(
                    population@[ia].chromosome_sp().len() as int,
                    population@[ib].chromosome_sp().len() as int,
                ));
                assert forall|g: int| 0 <= g < bred.chromosome_sp().len() implies abs_sp(
                    (#[trigger] bred.chromosome_sp()[g])
                        - population@[ia].chromosome_sp()[g],
                ) <= self.mutation_sp().step_bound() || abs_sp(
                    bred.chromosome_sp()[g] - population@[ib].chromosome_sp()[g],
                ) <= self.mutation_sp().step_bound() by {
                    assert(crossed[g] == population@[ia].chromosome_sp()[g] || crossed[g]
                        == population@[ib].chromosome_sp()[g]);
                    assert(abs_sp(bred.chromosome_sp()[g] - crossed[g])
                        <= self.mutation_sp().step_bound());
                }
                assert(bred_from(population@, bred, self.mutation_sp().step_bound()));
            }
            k = k + 1;
        }
        out
    }
}

/// Uniform crossover: each gene of the overlapping prefix is copied from
/// either parent, the side chosen by an independent fair coin.
pub struct UniformCrossover;

impl UniformCrossover {
    pub fn new() -> Self {
        UniformCrossover {  }
    }
}

impl CrossoverMethod for UniformCrossover {
    fn crossover(
        &self,
        rng: &mut ChaCha8Rng,
        parent_a: &Chromosome,
        parent_b: &Chromosome,
    ) -> (r: Chromosome) {
        let la: usize = parent_a.len();
        let lb: usize = parent_b.len();
        let n: usize = if la <= lb {
            la
        } else {
            lb
        };
        let mut genes: Vec<i64> = Vec::new();
        let mut i: usize = 0;
        while i < n
            invariant
                n == min(parent_a@.len() as int, parent_b@.len() as int),
                i <= n,
                genes@.len() == i,
                forall|j: int|
                    0 <= j < genes@.len() ==> #[trigger] genes@[j] == parent_a@[j]
                        || genes@[j] == parent_b@[j],
            decreases n - i,
        {
            let coin: u64 = rand_below(rng, 2);
            if coin == 1 {
                genes.push(parent_a.gene(i));
            } else {
                genes.push(parent_b.gene(i));
            }
            i = i + 1;
        }
        Chromosome::new(genes)
    }
}

impl Default for UniformCrossover {
    fn default() -> Self {
        UniformCrossover::new()
    }
}

/// Sum of the first `k` weights of a roulette wheel.
pub open spec fn weight_prefix(ws: Seq<u64>, k: int) -> int
    decreases k,
{
    if k <= 0 {
        0
    } else {
        weight_prefix(ws, k - 1) + ws[k - 1]
    }
}

pub proof fn lemma_weight_prefix_bounds(ws: Seq<u64>, k: int)
    requires
        0 <= k <= ws.len(),
    ensures
        0 <= weight_prefix(ws, k) <= k * (u64::MAX as int),
    decreases k,
{
    if k > 0 {
        lemma_weight_prefix_bounds(ws, k - 1);
        assert((k - 1) * (u64::MAX as int) + (u64::MAX as int) == k * (u64::MAX as int))
            by (nonlinear_arith);
    }
}

/// A prefix sum depends only on the entries it covers.
proof fn lemma_weight_prefix_eq(a: Seq<u64>, b: Seq<u64>, k: int)
    requires
        0 <= k <= a.len(),
        k <= b.len(),
        forall|j: int| 0 <= j < k ==> a[j] == b[j],
    ensures
        weight_prefix(a, k) == weight_prefix(b, k),
    decreases k,
{
    if k > 0 {
        lemma_weight_prefix_eq(a, b, k - 1);
    }
}

/// The slot of a roulette wheel that a draw lands in: the unique index whose
/// prefix-sum window contains `r`.
pub fn select_index(weights: &Vec<u64>, r: u128) -> (i: usize)
    requires
        weights@.len() > 0,
        (r as int) < weight_prefix(weights@, weights@.len() as int),
    ensures
        (i as int) < weights@.len(),
        weight_prefix(weights@, i as int) <= r as int,
        (r as int) < weight_prefix(weights@, i as int + 1),
{
    let n: usize = weights.len();
    let mut i: usize = 0;
    let mut acc: u128 = 0;
    loop
        invariant
            n == weights@.len(),
            0 < n,
            i < n,
            acc as int == weight_prefix(weights@, i as int),
            acc <= r,
            (r as int) < weight_prefix(weights@, n as int),
        decreases n - i,
    {
        let w: u64 = weights[i];
        proof {
            lemma_weight_prefix_bounds(weights@, n as int);
            assert((n as int) * (u64::MAX as int) + (u64::MAX as int) < 0x100000000000000000000000000000000)
                by (nonlinear_arith)
                requires
                    n as int <= u64::MAX as int,
            ;
        }
        if r < acc + (w as u128) {
            return i;
        }
        acc = acc + (w as u128);
        i = i + 1;
        proof {
            if i == n {
                assert(false);
            }
        }
    }
}

/// Roulette-wheel selection: each member holds a share of the wheel
/// proportional to its fitness. A population whose fitness is all zero
/// falls back to a uniform draw.
pub struct RouletteWheelSelection;

impl RouletteWheelSelection {
    pub fn new() -> Self {
        RouletteWheelSelection {  }
    }
}

impl SelectionMethod for RouletteWheelSelection {
    fn select<'a, I: Individual>(
        &self,
        rng: &mut ChaCha8Rng,
        population: &'a Vec<I>,
    ) -> (r: &'a I) {
        let n: usize = population.len();
        let mut weights: Vec<u64> = Vec::new();
        let mut total: u128 = 0;
        let mut k: usize = 0;
        while k < n
            invariant
                n == population@.len(),
                weights@.len() == k,
                k <= n,
                forall|j: int|
                    0 <= j < k ==> weights@[j] == (#[trigger] population@[j]).fitness_sp(),
                total as int == weight_prefix(weights@, k as int),
            decreases n - k,
        {
            let f: u64 = population[k].fitness();
            proof {
                lemma_weight_prefix_bounds(weights@, k as int);
                assert((k as int) * (u64::MAX as int) + (u64::MAX as int) < 0x100000000000000000000000000000000)
                    by (nonlinear_arith)
                    requires
                        k as int <= u64::MAX as int,
                ;
            }
            total = total + (f as u128);
            let ghost before = weights@;
            weights.push(f);
            k = k + 1;
            proof {
                lemma_weight_prefix_eq(before, weights@, k - 1 as int);
            }
        }
        if total == 0 {
            let d: u64 = rand_below(rng, n as u64);
            let picked = d as usize;
            let out = &population[picked];
            proof {
                assert(*out == population@[picked as int]);
            }
            out
        } else {
            let d: u128 = rand_below_wide(rng, total);
            let picked: usize = select_index(&weights, d);
            let out = &population[picked];
            proof {
                assert(*out == population@[picked as int]);
            }
            out
        }
    }
}

impl Default for RouletteWheelSelection {
    fn default() -> Self {
        RouletteWheelSelection::new()
    }
}

/// A mutation step of magnitude at most the coefficient leaves the gene
/// within the coefficient's magnitude of where it started.
proof fn lemma_step_bound(c: int, u: int)
    requires
        in_range(c),
        0 <= u <= SCALE as int,
    ensures
        abs_sp(fp_mul_sp(c, u)) <= abs_sp(c),
{
    if c >= 0 {
        assert(0 <= c * u && c * u <= c * (SCALE as int)) by (nonlinear_arith)
            requires
                c >= 0,
                0 <= u <= SCALE as int,
        ;
        lemma_div_is_ordered(c * u, c * (SCALE as int), SCALE as int);
        lemma_div_by_multiple(c, SCALE as int);
        lemma_div_is_ordered(0, c * u, SCALE as int);
    } else {
        assert(0 <= (-c) * u && (-c) * u <= (-c) * (SCALE as int)) by (nonlinear_arith)
            requires
                c < 0,
                0 <= u <= SCALE as int,
        ;
        assert((-c) * u == -(c * u)) by (nonlinear_arith);
        assert((-c) * (SCALE as int) == -(c * (SCALE as int))) by (nonlinear_arith);
        lemma_div_is_ordered(-(c * u), (-c) * (SCALE as int), SCALE as int);
        lemma_div_by_multiple(-c, SCALE as int);
        lemma_div_is_ordered(0, -(c * u), SCALE as int);
    }
}

/// Pointwise random mutation: each gene, independently with probability
/// `chance / SCALE`, moves by a uniformly drawn step of magnitude at most
/// the coefficient, with the sign of the step a fair coin, and is clipped
/// back into the stored-scalar range.
pub struct GaussianMutation {
    chance: i64,
    coefficient: i64,
}

impl GaussianMutation {
    /// `chance` is a probability in fixed point: a value outside
    /// `[0, SCALE]` is a misconfiguration and is ruled out here.
    pub fn new(chance: i64, coefficient: i64) -> (r: Self)
        requires
            0 <= chance <= SCALE,
            in_range(coefficient as int),
        ensures
            r.chance_sp() == chance as int,
            r.coefficient_sp() == coefficient as int,
    {
        GaussianMutation { chance, coefficient }
    }

    /// Every constructed value carries a chance in `[0, SCALE]` and an
    /// in-range coefficient.
    #[verifier::type_invariant]
    pub closed spec fn inv(&self) -> bool {
        0 <= self.chance <= SCALE && in_range(self.coefficient as int)
    }

    pub closed spec fn chance_sp(&self) -> int {
        self.chance as int
    }

    pub closed spec fn coefficient_sp(&self) -> int {
        self.coefficient as int
    }

    /// Mutate every gene of `child` in place.
    ///
    /// At chance zero no gene changes at all; at every chance, no gene moves
    /// by more than the coefficient's magnitude.
    pub fn mutate_genes(&self, rng: &mut ChaCha8Rng, child: &mut Chromosome)
        requires
            chrom_wf(old(child)@),
            0 <= self.chance_sp() <= SCALE as int,
            in_range(self.coefficient_sp()),
        ensures
            final(child)@.len() == old(child)@.len(),
            chrom_wf(final(child)@),
            forall|i: int|
                0 <= i < final(child)@.len() ==> abs_sp(
                    final(child)@[i] - old(child)@[i],
                ) <= abs_sp(self.coefficient_sp()),
            self.chance_sp() == 0 ==> final(child)@ == old(child)@,
    {
        let n: usize = child.len();
        let mut i: usize = 0;
        while i < n
            invariant
                n == child@.len(),
                child@.len() == old(child)@.len(),
                i <= n,
                chrom_wf(old(child)@),
                chrom_wf(child@),
                0 <= self.chance_sp() <= SCALE as int,
                in_range(self.coefficient_sp()),
                forall|j: int|
                    0 <= j < i ==> abs_sp(#[trigger] child@[j] - old(child)@[j]) <= abs_sp(
                        self.coefficient_sp(),
                    ),
                forall|j: int| i <= j < n ==> child@[j] == old(child)@[j],
                self.chance_sp() == 0 ==> forall|j: int|
                    0 <= j < n ==> child@[j] == old(child)@[j],
            decreases n - i,
        {
            let g: i64 = child.gene(i);
            let coin: u64 = rand_below(rng, 2);
            let roll: u64 = rand_below(rng, SCALE as u64);
            if (roll as i64) < self.chance {
                let u: i64 = rand_i64_range(rng, 0, SCALE + 1);
                let step: i64 = fp_mul(self.coefficient, u);
                proof {
                    lemma_step_bound(self.coefficient as int, u as int);
                }
                let moved: i64 = if coin == 1 {
                    g + step
                } else {
                    g - step
                };
                let clipped: i64 = if moved < -VAL_MAX {
                    -VAL_MAX
                } else if moved > VAL_MAX {
                    VAL_MAX
                } else {
                    moved
                };
                child.set_gene(i, clipped);
            }
            i = i + 1;
        }
        proof {
            if self.chance_sp() == 0 {
                assert(child@ =~= old(child)@);
            }
        }
    }
}

impl MutationMethod for GaussianMutation {
    open spec fn step_bound(&self) -> int {
        abs_sp(self.coefficient_sp())
    }

    fn mutate(&self, rng: &mut ChaCha8Rng, child: &mut Chromosome) {
        proof {
            use_type_invariant(self);
        }
        self.mutate_genes(rng, child)
    }
}

/// A bare individual for exercising selection on its own: an observed
/// fitness over an empty chromosome.
pub struct MockIndividual {
    fitness: u64,
    chromosome: Chromosome,
}

impl MockIndividual {
    pub fn new(fitness: u64) -> (r: Self)
        ensures
            r.fitness_sp() == fitness,
            r.chromosome_sp() == Seq::<i64>::empty(),
    {
        MockIndividual { fitness, chromosome: Chromosome::new(Vec::new()) }
    }
}

impl Individual for MockIndividual {
    closed spec fn fitness_sp(&self) -> u64 {
        self.fitness
    }

    closed spec fn chromosome_sp(&self) -> Seq<i64> {
        self.chromosome@
    }

    fn fitness(&self) -> (r: u64) {
        self.fitness
    }

    fn chromosome(&self) -> (r: &Chromosome) {
        &self.chromosome
    }

    fn create(chromosome: Chromosome) -> (r: Self) {
        MockIndividual { fitness: 0, chromosome }
    }
}

} // verus!
