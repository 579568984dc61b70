use evosim::fixed::{wrap_coord, SCALE};
use evosim::simulation::Simulation;
use rand::SeedableRng;
use rand_chacha::ChaCha8Rng;

#[test]
fn it_works() {
}

#[test]
fn toroidal_wrap_shifts_by_exactly_one_world_width() {
    assert_eq!(wrap_coord(SCALE + 5), 5);
    assert_eq!(wrap_coord(2 * SCALE - 1), SCALE - 1);
    assert_eq!(wrap_coord(-3), SCALE - 3);
    assert_eq!(wrap_coord(-SCALE + 2), 2);
    assert_eq!(wrap_coord(7), 7);
    assert_eq!(wrap_coord(0), 0);
}

#[test]
fn stepping_keeps_the_population_and_food_counts() {
    let mut rng = ChaCha8Rng::from_seed(Default::default());
    let mut simulation = Simulation::random(&mut rng);
    assert_eq!(simulation.world().animals().len(), 35);
    assert_eq!(simulation.world().foods().len(), 50);
    for _ in 0..50 {
        simulation.step(&mut rng);
        assert_eq!(simulation.world().animals().len(), 35);
        assert_eq!(simulation.world().foods().len(), 50);
    }
}

#[test]
fn stepping_keeps_every_animal_on_the_torus() {
    let mut rng = ChaCha8Rng::from_seed(Default::default());
    let mut simulation = Simulation::random(&mut rng);
    for _ in 0..25 {
        simulation.step(&mut rng);
        for animal in simulation.world().animals() {
            let p = animal.position();
            assert!(0 <= p.x && p.x < SCALE);
            assert!(0 <= p.y && p.y < SCALE);
        }
    }
}
