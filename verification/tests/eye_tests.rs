use evosim::eye::{Eye, EYE_CELLS, FOV_ANGLE_FP, FOV_RANGE_FP};
use evosim::fixed::SCALE;
use evosim::food::Food;
use evosim::geometry::Point;

fn dark_cells() -> Vec<i64> {
    vec![0; EYE_CELLS]
}

#[test]
fn food_at_the_eye_position_gives_full_energy_in_the_middle_bin() {
    let eye = Eye::default();
    let position = Point { x: SCALE / 2, y: SCALE / 2 };
    let foods = vec![Food::new(position)];
    let cells = eye.process_vision(position, 0, &foods);
    let mut expected = dark_cells();
    expected[4] = SCALE;
    assert_eq!(cells, expected);
}

#[test]
fn food_at_the_fov_edge_gives_zero_energy() {
    let eye = Eye::default();
    let position = Point { x: SCALE / 2, y: SCALE / 4 };
    let food_pos = Point { x: SCALE / 2, y: SCALE / 4 + FOV_RANGE_FP };
    let foods = vec![Food::new(food_pos)];
    let cells = eye.process_vision(position, 0, &foods);
    assert_eq!(cells, dark_cells());
}

#[test]
fn food_beyond_the_fov_radius_is_invisible() {
    let eye = Eye::default();
    let position = Point { x: 0, y: 0 };
    let foods = vec![Food::new(Point { x: SCALE - 1, y: SCALE - 1 })];
    let cells = eye.process_vision(position, 0, &foods);
    assert_eq!(cells, dark_cells());
}

#[test]
fn energies_accumulate_in_one_bin() {
    let eye = Eye::default();
    let position = Point { x: SCALE / 2, y: SCALE / 2 };
    let foods = vec![Food::new(position), Food::new(position)];
    let cells = eye.process_vision(position, 0, &foods);
    let mut expected = dark_cells();
    expected[4] = 2 * SCALE;
    assert_eq!(cells, expected);
}

#[test]
fn eye_reports_its_cell_count() {
    let eye = Eye::new(FOV_RANGE_FP, FOV_ANGLE_FP, 13);
    assert_eq!(eye.cells(), 13);
}
