use meteors::engine::Engine;
use meteors::factory::{create, floor_mod, path_from_index, shape_from_index};
use meteors::meteor::{Meteor, Path, Shape};
use meteors::surface::{cursor_is_hit, Surface};
use meteors::Bounds;

fn ten_by_ten() -> Bounds {
    Bounds { height: 10, width: 10 }
}

#[test]
fn update_moves_by_path_vector_each_call() {
    let cases = [
        (Path::Up, -1, 0),
        (Path::Down, 1, 0),
        (Path::Left, 0, -1),
        (Path::Right, 0, 1),
        (Path::UpLeft, -1, -1),
        (Path::UpRight, -1, 1),
        (Path::DownLeft, 1, -1),
        (Path::DownRight, 1, 1),
    ];
    for (path, dy, dx) in cases {
        let mut m = Meteor { y: 5, x: 5, shape: Shape::Dot, path };
        m.update();
        assert_eq!(m.y, 5 + dy);
        assert_eq!(m.x, 5 + dx);
        m.update();
        assert_eq!(m.y, 5 + 2 * dy);
        assert_eq!(m.x, 5 + 2 * dx);
        assert_eq!(m.path, path);
        assert_eq!(m.shape, Shape::Dot);
    }
}

#[test]
fn full_cycle_grows_by_one() {
    let b = ten_by_ten();
    let mut surface = Surface::new(10, 10);
    let mut engine = Engine::new();
    engine.add(Meteor { y: 2, x: 2, shape: Shape::Dot, path: Path::Down });
    engine.add(Meteor { y: 0, x: 7, shape: Shape::X, path: Path::Up });
    let before = engine.count();
    engine.spawn_one(b);
    engine.step(&mut surface);
    engine.reap_and_respawn(b);
    assert_eq!(engine.count(), before + 1);
}

#[test]
fn after_reap_no_sentinel_positions() {
    let b = ten_by_ten();
    let mut engine = Engine::new();
    engine.add(Meteor { y: -1, x: 3, shape: Shape::Dot, path: Path::Up });
    engine.add(Meteor { y: 4, x: 4, shape: Shape::Cross, path: Path::Left });
    engine.add(Meteor { y: 10, x: 0, shape: Shape::X, path: Path::Down });
    engine.add(Meteor { y: 7, x: -1, shape: Shape::Dot, path: Path::Left });
    engine.add(Meteor { y: 2, x: 10, shape: Shape::Dot, path: Path::Right });
    engine.reap_and_respawn(b);
    assert_eq!(engine.count(), 5);
    for m in engine.meteors.iter() {
        assert!(m.y != -1 && m.y != 10 && m.x != -1 && m.x != 10);
    }
}

#[test]
fn reap_twice_second_time_is_noop() {
    let b = ten_by_ten();
    let mut engine = Engine::new();
    engine.add(Meteor { y: -1, x: 3, shape: Shape::Dot, path: Path::Up });
    engine.add(Meteor { y: 4, x: 4, shape: Shape::Cross, path: Path::Left });
    engine.add(Meteor { y: 9, x: 10, shape: Shape::X, path: Path::DownRight });
    engine.reap_and_respawn(b);
    let after_first = engine.meteors.clone();
    engine.reap_and_respawn(b);
    assert_eq!(engine.meteors, after_first);
}

#[test]
fn step_into_cursor_is_a_hit() {
    let mut surface = Surface::new(10, 10);
    let mut engine = Engine::new();
    engine.add(Meteor { y: 5, x: 4, shape: Shape::Dot, path: Path::Right });
    engine.step(&mut surface);
    assert_eq!(engine.meteors[0].y, 5);
    assert_eq!(engine.meteors[0].x, 5);
    assert!(cursor_is_hit(5, 5, &surface));
}

#[test]
fn step_off_the_top_then_reap_replaces() {
    let b = ten_by_ten();
    let mut surface = Surface::new(10, 10);
    let mut engine = Engine::new();
    engine.add(Meteor { y: 0, x: 5, shape: Shape::Dot, path: Path::Up });
    engine.step(&mut surface);
    assert_eq!(engine.meteors[0].y, -1);
    assert_eq!(engine.meteors[0].x, 5);
    engine.reap_and_respawn(b);
    assert_eq!(engine.count(), 1);
    let m = engine.meteors[0];
    assert!(0 <= m.y && m.y < 10);
    assert!(0 <= m.x && m.x < 10);
}

#[test]
fn cross_paints_five_cells_and_erase_clears_them_all() {
    let mut surface = Surface::new(10, 10);
    let m = Meteor { y: 5, x: 5, shape: Shape::Cross, path: Path::Down };
    m.draw(&mut surface);
    for (r, c) in [(5, 5), (4, 5), (6, 5), (5, 4), (5, 6)] {
        assert_eq!(surface.read_glyph_at(r, c), '*');
    }
    assert_eq!(surface.read_glyph_at(4, 4), ' ');
    assert_eq!(surface.read_glyph_at(6, 6), ' ');
    m.erase(&mut surface);
    for (r, c) in [(5, 5), (4, 5), (6, 5), (5, 4), (5, 6)] {
        assert_eq!(surface.read_glyph_at(r, c), ' ');
    }
}

#[test]
fn x_shape_paints_diagonals() {
    let mut surface = Surface::new(10, 10);
    let m = Meteor { y: 5, x: 5, shape: Shape::X, path: Path::Down };
    m.draw(&mut surface);
    for (r, c) in [(5, 5), (4, 4), (6, 4), (4, 6), (6, 6)] {
        assert_eq!(surface.read_glyph_at(r, c), '*');
    }
    assert_eq!(surface.read_glyph_at(4, 5), ' ');
    assert_eq!(surface.read_glyph_at(5, 4), ' ');
}

#[test]
fn dot_paints_one_cell() {
    let mut surface = Surface::new(10, 10);
    let m = Meteor { y: 0, x: 0, shape: Shape::Dot, path: Path::Down };
    m.draw(&mut surface);
    assert_eq!(surface.read_glyph_at(0, 0), '*');
    assert_eq!(surface.read_glyph_at(0, 1), ' ');
    assert_eq!(surface.read_glyph_at(1, 0), ' ');
}

#[test]
fn painting_past_the_edge_is_ignored() {
    let mut surface = Surface::new(10, 10);
    let m = Meteor { y: 0, x: 0, shape: Shape::Cross, path: Path::Up };
    m.draw(&mut surface);
    assert_eq!(surface.read_glyph_at(0, 0), '*');
    assert_eq!(surface.read_glyph_at(1, 0), '*');
    assert_eq!(surface.read_glyph_at(0, 1), '*');
    assert_eq!(surface.read_glyph_at(9, 9), ' ');
}

#[test]
fn erase_happens_before_every_move_and_draw() {
    // Two entities where one's new cell is the other's old cell: the
    // two-phase erase-then-move-then-draw order must leave that cell drawn.
    let mut surface = Surface::new(10, 10);
    let mut engine = Engine::new();
    engine.add(Meteor { y: 2, x: 2, shape: Shape::Dot, path: Path::Right });
    engine.add(Meteor { y: 2, x: 3, shape: Shape::Dot, path: Path::Right });
    engine.step(&mut surface);
    assert_eq!(surface.read_glyph_at(2, 2), ' ');
    assert_eq!(surface.read_glyph_at(2, 3), '*');
    assert_eq!(surface.read_glyph_at(2, 4), '*');
}

#[test]
fn floor_mod_is_never_negative() {
    assert_eq!(floor_mod(-3, 10), 7);
    assert_eq!(floor_mod(23, 10), 3);
    assert_eq!(floor_mod(-20, 10), 0);
    assert_eq!(floor_mod(0, 10), 0);
    assert_eq!(floor_mod(i32::MIN, 7), 5);
    assert_eq!(floor_mod(i32::MAX, 2), 1);
}

#[test]
fn index_to_shape_mapping() {
    assert_eq!(shape_from_index(0), Shape::Dot);
    assert_eq!(shape_from_index(1), Shape::Cross);
    assert_eq!(shape_from_index(2), Shape::X);
}

#[test]
fn index_to_path_mapping() {
    assert_eq!(path_from_index(0), Path::Up);
    assert_eq!(path_from_index(1), Path::Down);
    assert_eq!(path_from_index(2), Path::Left);
    assert_eq!(path_from_index(3), Path::Right);
    assert_eq!(path_from_index(4), Path::UpLeft);
    assert_eq!(path_from_index(5), Path::UpRight);
    assert_eq!(path_from_index(6), Path::DownLeft);
    assert_eq!(path_from_index(7), Path::DownRight);
}

#[test]
fn created_entities_always_land_inside_the_playfield() {
    let b = Bounds { height: 3, width: 3 };
    for _ in 0..200 {
        let m = create(b);
        assert!(0 <= m.y && m.y < 3);
        assert!(0 <= m.x && m.x < 3);
    }
}

#[test]
fn create_on_one_by_one_playfield_lands_at_origin() {
    let b = Bounds { height: 1, width: 1 };
    let m = create(b);
    assert_eq!(m.y, 0);
    assert_eq!(m.x, 0);
}
