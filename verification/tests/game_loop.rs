use meteors::game::{Event, Game, Status};
use meteors::meteor::{Meteor, Path, Shape};

#[test]
fn quit_ends_the_game_untouched() {
    let mut g = Game::new(10, 10);
    let status = g.tick(Event::Quit);
    assert_eq!(status, Status::Quit);
    assert_eq!(g.score, 0);
    assert_eq!(g.engine.count(), 0);
    assert_eq!(g.cursor_y, 5);
    assert_eq!(g.cursor_x, 5);
}

#[test]
fn first_tick_spawns_one_entity() {
    let mut g = Game::new(10, 10);
    let status = g.tick(Event::Other);
    assert_ne!(status, Status::Quit);
    assert_eq!(g.engine.count(), 1);
    match status {
        Status::Running => assert_eq!(g.score, 1),
        Status::Hit => assert_eq!(g.score, 0),
        Status::Quit => unreachable!(),
    }
}

#[test]
fn movement_events_move_the_cursor() {
    let mut g = Game::new(10, 10);
    g.tick(Event::MoveLeft);
    assert_eq!(g.cursor_y, 5);
    assert_eq!(g.cursor_x, 4);
    g.tick(Event::MoveUp);
    assert_eq!(g.cursor_y, 4);
    assert_eq!(g.cursor_x, 4);
    g.tick(Event::MoveDown);
    assert_eq!(g.cursor_y, 5);
    assert_eq!(g.cursor_x, 4);
    g.tick(Event::MoveRight);
    assert_eq!(g.cursor_y, 5);
    assert_eq!(g.cursor_x, 5);
}

#[test]
fn cursor_refuses_to_leave_the_playfield() {
    let mut g = Game::new(10, 10);
    for _ in 0..12 {
        g.tick(Event::MoveUp);
    }
    assert_eq!(g.cursor_y, 0);
    for _ in 0..12 {
        g.tick(Event::MoveLeft);
    }
    assert_eq!(g.cursor_x, 0);
    g.tick(Event::MoveUp);
    assert_eq!(g.cursor_y, 0);
    g.tick(Event::MoveLeft);
    assert_eq!(g.cursor_x, 0);
}

#[test]
fn resize_rebuilds_the_playfield_and_fits_everything() {
    let mut g = Game::new(10, 10);
    g.engine.add(Meteor { y: 8, x: 8, shape: Shape::Dot, path: Path::Down });
    g.engine.add(Meteor { y: 2, x: 2, shape: Shape::Dot, path: Path::Down });
    g.tick(Event::Resize(5, 5));
    assert_eq!(g.surface.height, 5);
    assert_eq!(g.surface.width, 5);
    assert!(g.cursor_y < 5);
    assert!(g.cursor_x < 5);
    for m in g.engine.meteors.iter() {
        assert!(0 <= m.y && m.y < 5);
        assert!(0 <= m.x && m.x < 5);
    }
}

#[test]
fn walking_into_a_meteor_is_a_hit() {
    let mut g = Game::new(10, 10);
    // Paint a meteor glyph just left of the cursor, as a drawn entity does.
    let m = Meteor { y: 5, x: 4, shape: Shape::Dot, path: Path::Up };
    g.engine.add(m);
    m.draw(&mut g.surface);
    let status = g.tick(Event::MoveLeft);
    assert_eq!(status, Status::Hit);
    assert_eq!(g.score, 0);
    // A hit on the cursor's own move ends the tick at once: no entity
    // spawned, nothing moved, nothing repainted.
    assert_eq!(g.engine.count(), 1);
    assert_eq!(g.engine.meteors[0], m);
    assert_eq!(g.surface.read_glyph_at(5, 4), '*');
}

#[test]
fn tick_ends_in_a_hit_when_an_entity_steps_onto_the_cursor() {
    let mut g = Game::new(10, 10);
    g.engine.add(Meteor { y: 5, x: 4, shape: Shape::Dot, path: Path::Right });
    let status = g.tick(Event::Other);
    assert_eq!(status, Status::Hit);
    assert_eq!(g.score, 0);
    assert_eq!(g.surface.read_glyph_at(5, 5), '*');
    // The spawned entity is kept (reaping replaces one for one), so the
    // population still grew by the one spawn of this tick.
    assert_eq!(g.engine.count(), 2);
}

#[test]
fn score_counts_survived_ticks() {
    let mut g = Game::new(10, 10);
    let mut survived: usize = 0;
    for _ in 0..5 {
        match g.tick(Event::Other) {
            Status::Running => survived += 1,
            Status::Hit => break,
            Status::Quit => unreachable!(),
        }
    }
    assert_eq!(g.score, survived);
}
