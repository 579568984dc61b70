use evosim::fixed::SCALE;
use evosim::geometry::Point;
use evosim::world::{Grid, RandomQueue, World, ANIMAL_SPACING_FP};
use rand::SeedableRng;
use rand_chacha::ChaCha8Rng;

#[test]
fn blue_noise_points_terminate_and_stay_separated() {
    // width = height = one world, 35 points, spacing a tenth of the world,
    // from a fixed seed.
    let mut rng = ChaCha8Rng::from_seed(Default::default());
    let points = World::generate_poison(&mut rng, SCALE, SCALE, 35, ANIMAL_SPACING_FP)
        .expect("placement must terminate for this configuration");
    assert_eq!(points.len(), 35);
    for i in 0..points.len() {
        let p = points[i];
        assert!(0 <= p.x && p.x < SCALE && 0 <= p.y && p.y < SCALE);
        for j in 0..i {
            let q = points[j];
            let dx = p.x - q.x;
            let dy = p.y - q.y;
            assert!(dx * dx + dy * dy > ANIMAL_SPACING_FP * ANIMAL_SPACING_FP);
        }
    }
}

#[test]
fn trivial_placement_requests_always_succeed() {
    let mut rng = ChaCha8Rng::from_seed(Default::default());
    let none_asked = World::generate_poison(&mut rng, SCALE, SCALE, 0, ANIMAL_SPACING_FP);
    assert_eq!(none_asked.unwrap().len(), 0);
    let one_asked = World::generate_poison(&mut rng, SCALE, SCALE, 1, ANIMAL_SPACING_FP);
    assert_eq!(one_asked.unwrap().len(), 1);
}

#[test]
fn random_queue_hands_back_everything_exactly_once() {
    let mut rng = ChaCha8Rng::from_seed(Default::default());
    let mut queue: RandomQueue<i64> = RandomQueue::new();
    queue.push(10, &mut rng);
    queue.push(20, &mut rng);
    queue.push(30, &mut rng);
    let mut got = vec![
        queue.pop(&mut rng).unwrap(),
        queue.pop(&mut rng).unwrap(),
        queue.pop(&mut rng).unwrap(),
    ];
    got.sort();
    assert_eq!(got, vec![10, 20, 30]);
    assert!(queue.pop(&mut rng).is_none());
}

#[test]
fn grid_buckets_collect_added_indices() {
    let mut grid = Grid::new(SCALE, SCALE, SCALE / 8);
    let near_origin = Point { x: 5, y: 5 };
    let far_corner = Point { x: SCALE - 5, y: SCALE - 5 };
    grid.add(near_origin, 0);
    grid.add(near_origin, 1);
    grid.add(far_corner, 2);
    assert_eq!(grid.get(near_origin).clone(), vec![0, 1]);
    assert_eq!(grid.get(far_corner).clone(), vec![2]);
    assert!(grid.get(Point { x: SCALE / 2, y: SCALE / 2 }).is_empty());
}

#[test]
fn a_random_world_holds_the_standard_counts() {
    let mut rng = ChaCha8Rng::from_seed(Default::default());
    let mut world = World::new();
    world.random(&mut rng);
    assert_eq!(world.animals().len(), 35);
    assert_eq!(world.foods().len(), 50);
    for animal in world.animals() {
        let p = animal.position();
        assert!(0 <= p.x && p.x < SCALE && 0 <= p.y && p.y < SCALE);
    }
}
