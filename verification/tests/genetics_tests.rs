use evosim::fixed::SCALE;
use evosim::genetics::{
    Chromosome, CrossoverMethod, GaussianMutation, GeneticAlgorithm, Individual,
    MockIndividual, MutationMethod, RouletteWheelSelection, SelectionMethod, UniformCrossover,
    select_index,
};
use rand::SeedableRng;
use rand_chacha::ChaCha8Rng;

#[test]
fn lib_it_works() {
    // Weighted-selection regression: fitness 1..=5, 1000 draws from a fixed
    // seed; the histogram must stay proportional to fitness and is pinned.
    let mut rng = ChaCha8Rng::from_seed(Default::default());
    let method = RouletteWheelSelection::new();
    let population = vec![
        MockIndividual::new(1),
        MockIndividual::new(2),
        MockIndividual::new(3),
        MockIndividual::new(4),
        MockIndividual::new(5),
    ];
    let mut histogram = [0u32; 6];
    for _ in 0..1000 {
        let picked = method.select(&mut rng, &population);
        histogram[picked.fitness() as usize] += 1;
    }
    let expected = [0u32, 64, 146, 198, 270, 322];
    assert_eq!(histogram, expected);
}

#[test]
fn selection_all_zero_fitness_falls_back_to_uniform() {
    let mut rng = ChaCha8Rng::from_seed(Default::default());
    let method = RouletteWheelSelection::new();
    let population = vec![
        MockIndividual::new(0),
        MockIndividual::new(0),
        MockIndividual::new(0),
    ];
    for _ in 0..100 {
        let picked = method.select(&mut rng, &population);
        assert_eq!(picked.fitness(), 0);
    }
}

#[test]
fn select_index_lands_in_the_prefix_window() {
    let weights = vec![1u64, 2, 3, 4, 5];
    assert_eq!(select_index(&weights, 0), 0);
    assert_eq!(select_index(&weights, 1), 1);
    assert_eq!(select_index(&weights, 2), 1);
    assert_eq!(select_index(&weights, 3), 2);
    assert_eq!(select_index(&weights, 5), 2);
    assert_eq!(select_index(&weights, 6), 3);
    assert_eq!(select_index(&weights, 9), 3);
    assert_eq!(select_index(&weights, 10), 4);
    assert_eq!(select_index(&weights, 14), 4);
}

#[test]
fn evolve_preserves_population_size() {
    let mut rng = ChaCha8Rng::from_seed(Default::default());
    let ga = GeneticAlgorithm::new(
        RouletteWheelSelection::new(),
        UniformCrossover::new(),
        GaussianMutation::new(SCALE / 2, SCALE / 4),
    );
    for n in 1..=7u64 {
        let population: Vec<MockIndividual> =
            (1..=n).map(|f| MockIndividual::new(f)).collect();
        let next = ga.evolve(&mut rng, &population);
        assert_eq!(next.len(), population.len());
        for child in &next {
            assert_eq!(child.fitness(), 0);
        }
    }
}

#[test]
fn crossover_copies_each_gene_from_one_parent() {
    let mut rng = ChaCha8Rng::from_seed(Default::default());
    let a = Chromosome::new((1..=10i64).collect());
    let b = Chromosome::new((11..=20i64).collect());
    let child = UniformCrossover::new().crossover(&mut rng, &a, &b);
    assert_eq!(child.len(), 10);
    let mut from_a = 0;
    let mut from_b = 0;
    for i in 0..child.len() {
        let g = child.gene(i);
        assert!(g == a.gene(i) || g == b.gene(i));
        if g == a.gene(i) {
            from_a += 1;
        } else {
            from_b += 1;
        }
    }
    assert_eq!(from_a + from_b, 10);
}

#[test]
fn crossover_covers_the_overlapping_prefix() {
    let mut rng = ChaCha8Rng::from_seed(Default::default());
    let a = Chromosome::new(vec![1, 2, 3, 4, 5]);
    let b = Chromosome::new(vec![9, 8]);
    let child = UniformCrossover::new().crossover(&mut rng, &a, &b);
    assert_eq!(child.len(), 2);
}

#[test]
fn mutation_at_chance_zero_changes_nothing() {
    let mut rng = ChaCha8Rng::from_seed(Default::default());
    let original: Vec<i64> = vec![100, -200, 300, 0, 65536];
    let mut child = Chromosome::new(original.clone());
    GaussianMutation::new(0, SCALE).mutate(&mut rng, &mut child);
    assert_eq!(child.genes().clone(), original);
}

#[test]
fn mutation_at_chance_one_stays_within_the_coefficient() {
    let mut rng = ChaCha8Rng::from_seed(Default::default());
    let coefficient: i64 = 3 * SCALE;
    let original: Vec<i64> = vec![0, 50, -70000, 65536, 12345, -1];
    let mut child = Chromosome::new(original.clone());
    let mut touched = false;
    GaussianMutation::new(SCALE, coefficient).mutate(&mut rng, &mut child);
    for i in 0..original.len() {
        let delta = (child.gene(i) - original[i]).abs();
        assert!(delta <= coefficient);
        if delta != 0 {
            touched = true;
        }
    }
    assert!(touched);
}

#[test]
fn chromosome_accessors_work() {
    let c = Chromosome::new(vec![5, 6, 7]);
    assert_eq!(c.len(), 3);
    assert!(!c.is_empty());
    assert_eq!(c.gene(1), 6);
    assert!(Chromosome::new(Vec::new()).is_empty());
}
