//! The bridge between animals and the genetic algorithm: an individual
//! pairing the animal's satiation (its fitness) with its flattened brain.

use vstd::prelude::*;
use crate::genetics::{Chromosome, Individual, chrom_wf};
use crate::animal::{Animal, animal_wf, SPAWN_SPEED_FP};
use crate::brain::brain_widths_sp;
use crate::network::{net_weights_sp, weight_count_sp};
use crate::geometry::{Point, on_torus};
use crate::eye::EYE_CELLS;
use rand_chacha::ChaCha8Rng;

verus! {

pub struct AnimalIndividual {
    pub fitness: u64,
    pub chromosome: Chromosome,
}

impl Individual for AnimalIndividual {
    open spec fn fitness_sp(&self) -> u64 {
        self.fitness
    }

    open spec fn chromosome_sp(&self) -> Seq<i64> {
        self.chromosome@
    }

    fn fitness(&self) -> (r: u64) {
        self.fitness
    }

    fn chromosome(&self) -> (r: &Chromosome) {
        &self.chromosome
    }

    fn create(chromosome: Chromosome) -> (r: Self) {
        AnimalIndividual { fitness: 0, chromosome }
    }
}

impl AnimalIndividual {
    /// Snapshot an animal: fitness is its satiation, the chromosome its
    /// flattened brain.
    pub fn from_animal(animal: &Animal) -> (r: Self)
        requires
            animal_wf(*animal),
        ensures
            r.fitness == animal.satiation,
            r.chromosome@ == net_weights_sp(animal.brain.nn),
            chrom_wf(r.chromosome@),
            r.chromosome@.len() as int == weight_count_sp(brain_widths_sp(EYE_CELLS)),
    {
        AnimalIndividual { fitness: animal.satiation, chromosome: animal.as_chromosome() }
    }

    /// Rebuild an animal at `position` from this individual's chromosome.
    pub fn into_animal(self, rng: &mut ChaCha8Rng, position: Point) -> (r: Animal)
        requires
            on_torus(position),
            chrom_wf(self.chromosome@),
            self.chromosome@.len() as int == weight_count_sp(brain_widths_sp(EYE_CELLS)),
        ensures
            animal_wf(r),
            r.position == position,
            r.satiation == 0,
            r.speed == SPAWN_SPEED_FP,
            net_weights_sp(r.brain.nn) == self.chromosome@,
    {
        Animal::from_chromosome(self.chromosome, rng, position)
    }
}

} // verus!
