//! The game state machine: one tick per input event. A tick moves the
//! cursor, checks for a collision, runs one spawn/step/reap cycle of the
//! simulation, checks for a collision again, and then counts one point.
use vstd::prelude::*;
use crate::Bounds;
use crate::engine::{confined, covered, spawned, stepped, reaped, Engine};
use crate::meteor::Meteor;
use crate::surface::{cursor_is_hit, Surface, BLANK_GLYPH, METEOR_GLYPH};

verus! {

/// One input event, decoded outside the core.
#[derive(Clone, Copy, PartialEq, Eq, Structural, Debug)]
pub enum Event {
    MoveUp,
    MoveDown,
    MoveLeft,
    MoveRight,
    Quit,
    Resize(i32, i32),
    Other,
}

/// The state the game is in after a tick.
#[derive(Clone, Copy, PartialEq, Eq, Structural, Debug)]
pub enum Status {
    Running,
    Quit,
    Hit,
}

/// Where the cursor heads under an event, before the playfield edge is
/// taken into account.
pub open spec fn cursor_target(y: int, x: int, e: Event) -> (int, int) {
    match e {
        Event::MoveUp => (y - 1, x),
        Event::MoveDown => (y + 1, x),
        Event::MoveLeft => (y, x - 1),
        Event::MoveRight => (y, x + 1),
        _ => (y, x),
    }
}

/// Where the cursor stands after an event: a move that would leave the
/// playfield is ignored, the way a terminal refuses to move its cursor off
/// the screen.
pub open spec fn moved_cursor(y: int, x: int, e: Event, b: Bounds) -> (int, int) {
    let t = cursor_target(y, x, e);
    if 0 <= t.0 < b.height && 0 <= t.1 < b.width {
        t
    } else {
        (y, x)
    }
}

/// One full simulation cycle ran over the base surface `base`: from the
/// entities `pre_m`, one spawned (`mid_spawn`), all stepped (`mid_step`),
/// the leavers reaped into `post_m`; the surface ends with the meteor
/// glyph exactly on the stepped entities' footprints, blank on the cells
/// they vacated, and every other cell as `base` had it; and the outcome is
/// a hit exactly when a stepped entity's footprint covers the cursor cell.
pub open spec fn ticked_cycle(
    pre_m: Seq<Meteor>,
    base: Surface,
    post_m: Seq<Meteor>,
    post_s: Surface,
    cursor_y: int,
    cursor_x: int,
    b: Bounds,
    status: Status,
) -> bool {
    exists|mid_spawn: Seq<Meteor>, mid_step: Seq<Meteor>|
        {
            &&& #[trigger] spawned(pre_m, mid_spawn, b)
            &&& #[trigger] stepped(mid_spawn, mid_step)
            &&& reaped(mid_step, post_m, b)
            &&& (status == Status::Hit <==> covered(mid_step, cursor_y, cursor_x))
            &&& (status == Status::Hit || status == Status::Running)
            &&& forall|r: int, c: int|
                base.contains(r, c) ==> post_s.at(r, c) == (if covered(mid_step, r, c) {
                    METEOR_GLYPH
                } else if covered(mid_spawn, r, c) {
                    BLANK_GLYPH
                } else {
                    base.at(r, c)
                })
        }
}

/// The whole game: the simulation engine, the rendered surface, the
/// player's cursor, and the tick counter that serves as the score.
pub struct Game {
    pub engine: Engine,
    pub surface: Surface,
    pub cursor_y: i32,
    pub cursor_x: i32,
    pub score: usize,
}

impl Game {
    /// The playfield dimensions the surface currently reports.
    pub open spec fn bounds(self) -> Bounds {
        self.surface.bounds()
    }

    /// Between ticks the surface is a proper grid, the cursor stands on
    /// it, and every live entity lies inside the playfield.
    pub open spec fn wf(self) -> bool {
        &&& self.surface.wf()
        &&& self.bounds().wf()
        &&& self.surface.contains(self.cursor_y as int, self.cursor_x as int)
        &&& forall|i: int|
            0 <= i < self.engine.meteors@.len() ==> (#[trigger] self.engine.meteors@[i]).in_bounds(
                self.bounds(),
            )
    }

    /// A fresh game on a blank playfield of the given dimensions, with the
    /// cursor in the middle, no entities, and a score of zero.
    pub fn new(height: i32, width: i32) -> (g: Game)
        requires
            (Bounds { height, width }).wf(),
        ensures
            g.wf(),
            g.bounds() == (Bounds { height, width }),
            g.surface.all_blank(BLANK_GLYPH),
            g.engine.meteors@.len() == 0,
            g.score == 0,
            g.cursor_y == height as int / 2,
            g.cursor_x == width as int / 2,
    {
        let surface = Surface::new(height, width);
        Game { engine: Engine::new(), surface, cursor_y: height / 2, cursor_x: width / 2, score: 0 }
    }

    /// One tick of the game loop, driven by one input event.
    ///
    /// A quit event ends the game untouched. Any other event first moves
    /// the cursor (or, on a resize, rebuilds the surface and fits cursor
    /// and entities to the new playfield); if the cursor then stands on a
    /// meteor glyph the game ends in a hit. Otherwise one entity spawns,
    /// every entity moves one step, entities that left the playfield are
    /// reaped and replaced, and the cursor's cell is probed again; if it
    /// survived, the score counts one more tick.
    pub fn tick(&mut self, event: Event) -> (status: Status)
        requires
            old(self).wf(),
            old(self).score < usize::MAX,
            event matches Event::Resize(h, w) ==> (Bounds { height: h, width: w }).wf(),
        ensures
            final(self).wf(),
            (status == Status::Quit) <==> (event == Event::Quit),
            event == Event::Quit ==> *final(self) == *old(self),
            event matches Event::Resize(h, w) ==> {
                &&& final(self).bounds() == (Bounds { height: h, width: w })
                &&& final(self).cursor_y == (if old(self).cursor_y < h {
                    old(self).cursor_y as int
                } else {
                    h - 1
                })
                &&& final(self).cursor_x == (if old(self).cursor_x < w {
                    old(self).cursor_x as int
                } else {
                    w - 1
                })
            },
            !(event matches Event::Resize(_, _)) && event != Event::Quit ==> {
                &&& final(self).bounds() == old(self).bounds()
                &&& (final(self).cursor_y as int, final(self).cursor_x as int) == moved_cursor(
                    old(self).cursor_y as int,
                    old(self).cursor_x as int,
                    event,
                    old(self).bounds(),
                )
            },
            status == Status::Hit ==> {
                &&& final(self).score == old(self).score
                &&& final(self).surface.at(
                    final(self).cursor_y as int,
                    final(self).cursor_x as int,
                ) == METEOR_GLYPH
                &&& (final(self).engine.meteors@.len() == old(self).engine.meteors@.len()
                    || final(self).engine.meteors@.len() == old(self).engine.meteors@.len() + 1)
            },
            status == Status::Running ==> {
                &&& final(self).score == old(self).score + 1
                &&& final(self).engine.meteors@.len() == old(self).engine.meteors@.len() + 1
                &&& final(self).surface.at(
                    final(self).cursor_y as int,
                    final(self).cursor_x as int,
                ) != METEOR_GLYPH
            },
            !(event matches Event::Resize(_, _)) && event != Event::Quit && old(self).surface.at(
                moved_cursor(
                    old(self).cursor_y as int,
                    old(self).cursor_x as int,
                    event,
                    old(self).bounds(),
                ).0,
                moved_cursor(
                    old(self).cursor_y as int,
                    old(self).cursor_x as int,
                    event,
                    old(self).bounds(),
                ).1,
            ) == METEOR_GLYPH ==> {
                &&& status == Status::Hit
                &&& final(self).engine == old(self).engine
                &&& final(self).surface == old(self).surface
                &&& final(self).score == old(self).score
            },
            !(event matches Event::Resize(_, _)) && event != Event::Quit && old(self).surface.at(
                moved_cursor(
                    old(self).cursor_y as int,
                    old(self).cursor_x as int,
                    event,
                    old(self).bounds(),
                ).0,
                moved_cursor(
                    old(self).cursor_y as int,
                    old(self).cursor_x as int,
                    event,
                    old(self).bounds(),
                ).1,
            ) != METEOR_GLYPH ==> ticked_cycle(
                old(self).engine.meteors@,
                old(self).surface,
                final(self).engine.meteors@,
                final(self).surface,
                final(self).cursor_y as int,
                final(self).cursor_x as int,
                old(self).bounds(),
                status,
            ),
            event matches Event::Resize(h, w) ==> exists|pre_m: Seq<Meteor>, blank: Surface|
                {
                    &&& #[trigger] confined(
                        old(self).engine.meteors@,
                        pre_m,
                        Bounds { height: h, width: w },
                    )
                    &&& blank.wf()
                    &&& blank.height == h
                    &&& blank.width == w
                    &&& blank.all_blank(BLANK_GLYPH)
                    &&& #[trigger] ticked_cycle(
                        pre_m,
                        blank,
                        final(self).engine.meteors@,
                        final(self).surface,
                        final(self).cursor_y as int,
                        final(self).cursor_x as int,
                        Bounds { height: h, width: w },
                        status,
                    )
                },
    {
        match event {
            Event::Quit => {
                return Status::Quit;
            },
            Event::Resize(h, w) => {
                self.surface = Surface::new(h, w);
                if self.cursor_y >= h {
                    self.cursor_y = h - 1;
                }
                if self.cursor_x >= w {
                    self.cursor_x = w - 1;
                }
                let bounds = Bounds { height: h, width: w };
                self.engine.confine(bounds);
            },
            Event::MoveUp | Event::MoveDown | Event::MoveLeft | Event::MoveRight => {
                let mut ty = self.cursor_y;
                let mut tx = self.cursor_x;
                match event {
                    Event::MoveUp => {
                        ty = ty - 1;
                    },
                    Event::MoveDown => {
                        ty = ty + 1;
                    },
                    Event::MoveLeft => {
                        tx = tx - 1;
                    },
                    _ => {
                        tx = tx + 1;
                    },
                }
                if 0 <= ty && ty < self.surface.height && 0 <= tx && tx < self.surface.width {
                    self.cursor_y = ty;
                    self.cursor_x = tx;
                }
            },
            Event::Other => {},
        }

        let bounds = Bounds { height: self.surface.height, width: self.surface.width };
        let ghost base_surface = self.surface;

        if cursor_is_hit(self.cursor_y, self.cursor_x, &self.surface) {
            return Status::Hit;
        }

        let ghost before_spawn = self.engine.meteors@;
        self.engine.spawn_one(bounds);
        let ghost after_spawn = self.engine.meteors@;
        proof {
            assert forall|i: int|
                0 <= i < after_spawn.len() implies (#[trigger] after_spawn[i]).steppable() by {
                if i < before_spawn.len() {
                    assert(after_spawn.drop_last()[i] == after_spawn[i]);
                    assert(before_spawn[i].in_bounds(bounds));
                } else {
                    assert(after_spawn[i] == after_spawn.last());
                }
            }
        }
        self.engine.step(&mut self.surface);
        let ghost after_step = self.engine.meteors@;
        self.engine.reap_and_respawn(bounds);
        let ghost after_reap = self.engine.meteors@;
        proof {
            assert forall|i: int|
                0 <= i < after_reap.len() implies (#[trigger] after_reap[i]).in_bounds(bounds) by {
                if !after_reap[i].in_bounds(bounds) {
                    let w = choose|w: int|
                        0 <= w < after_step.len() && after_step[w] == after_reap[i];
                    assert(after_step[w].stepped_from(after_spawn[w]));
                    if w < before_spawn.len() {
                        assert(after_spawn.drop_last()[w] == after_spawn[w]);
                        assert(before_spawn[w].in_bounds(bounds));
                    } else {
                        assert(after_spawn[w] == after_spawn.last());
                    }
                    assert(after_spawn[w].in_bounds(bounds));
                    assert(!after_reap[i].at_sentinel(bounds));
                }
            }
        }

        proof {
            assert(spawned(before_spawn, after_spawn, bounds));
            assert(stepped(after_spawn, after_step));
            assert(reaped(after_step, after_reap, bounds));
        }

        let hit = cursor_is_hit(self.cursor_y, self.cursor_x, &self.surface);
        proof {
            let cy = self.cursor_y as int;
            let cx = self.cursor_x as int;
            assert(base_surface.contains(cy, cx));
            assert(base_surface.at(cy, cx) != METEOR_GLYPH);
            assert(self.surface.at(cy, cx) == (if covered(after_step, cy, cx) {
                METEOR_GLYPH
            } else if covered(after_spawn, cy, cx) {
                BLANK_GLYPH
            } else {
                base_surface.at(cy, cx)
            }));
            assert(hit <==> covered(after_step, cy, cx));
        }

        if hit {
            proof {
                assert(ticked_cycle(
                    before_spawn,
                    base_surface,
                    self.engine.meteors@,
                    self.surface,
                    self.cursor_y as int,
                    self.cursor_x as int,
                    bounds,
                    Status::Hit,
                ));
            }
            return Status::Hit;
        }

        self.score = self.score + 1;
        proof {
            assert(ticked_cycle(
                before_spawn,
                base_surface,
                self.engine.meteors@,
                self.surface,
                self.cursor_y as int,
                self.cursor_x as int,
                bounds,
                Status::Running,
            ));
        }
        Status::Running
    }
}

} // verus!
