use vstd::prelude::*;
use crate::grid::CellKind;
use crate::grid::Grid;
use crate::player::Player;
use crate::player::Point;
use crate::player::stepped;

verus! {

/// Which of the two views of the maze is shown.
#[derive(Clone, Copy, Debug, PartialEq, Eq, Structural)]
pub enum Mode {
    TwoD,
    ThreeD,
}

/// What a frame shows.
#[derive(Clone, Copy, Debug, PartialEq, Eq, Structural)]
pub enum Screen {
    Intro,
    Won,
    TopDown,
    FirstPerson,
}

/// The keys that the game reacts to.
#[derive(Clone, Copy, Debug, PartialEq, Eq, Structural)]
pub enum Key {
    Left,
    Right,
    Up,
    Down,
    ToggleMode,
    Other,
}

/// What became of an attempt to walk to a point.
#[derive(Clone, Copy, Debug, PartialEq, Eq, Structural)]
pub enum MoveOutcome {
    /// The point lies in no cell that can be walked on: the viewer stays.
    Blocked,
    /// The viewer stands at the point.
    Moved,
    /// The viewer stands at the point and has taken the collectible there.
    Collected,
    /// The point lies in the goal: the game is won, and the viewer stays.
    Won,
}

/// The state of a game besides the viewer and the maze.
#[derive(Clone, Copy, Debug, PartialEq, Eq, Structural)]
pub struct Game {
    pub show_intro: bool,
    pub game_won: bool,
    pub mode: Mode,
    pub score: u32,
}

/// What walking to a point in a cell of this kind, or to one outside the
/// grid, comes to.
pub open spec fn outcome_of(kind: Option<CellKind>) -> MoveOutcome {
    match kind {
        Some(CellKind::Goal) => MoveOutcome::Won,
        Some(CellKind::Empty) => MoveOutcome::Moved,
        Some(CellKind::Collectible) => MoveOutcome::Collected,
        _ => MoveOutcome::Blocked,
    }
}

/// The kind of the cell that the world point `pos` lies in, if it lies in
/// the grid.
pub fn check_collision(pos: &Point, grid: &Grid) -> (r: Option<CellKind>)
    requires
        grid.wf(),
    ensures
        r == grid.kind_at_point(pos.x as int, pos.y as int),
{
    grid.kind_at_world(pos.x, pos.y)
}

impl Game {
    /// A game at its start: the intro is up, and the map is the view that
    /// follows it.
    pub fn new() -> (game: Game)
        ensures
            game == (Game { show_intro: true, game_won: false, mode: Mode::TwoD, score: 0 }),
    {
        Game { show_intro: true, game_won: false, mode: Mode::TwoD, score: 0 }
    }

    /// What the next frame shows: the intro while it is up, then the end
    /// screen once the game is won, else the view of the mode.
    pub open spec fn spec_screen(&self) -> Screen {
        if self.show_intro {
            Screen::Intro
        } else if self.game_won {
            Screen::Won
        } else if self.mode == Mode::TwoD {
            Screen::TopDown
        } else {
            Screen::FirstPerson
        }
    }

    pub fn screen(&self) -> (r: Screen)
        ensures
            r == self.spec_screen(),
    {
        if self.show_intro {
            Screen::Intro
        } else if self.game_won {
            Screen::Won
        } else {
            match self.mode {
                Mode::TwoD => Screen::TopDown,
                Mode::ThreeD => Screen::FirstPerson,
            }
        }
    }

    /// Switches between the map and the three-dimensional view.
    pub fn toggle_mode(&mut self)
        ensures
            final(self).mode == (if old(self).mode == Mode::TwoD {
                Mode::ThreeD
            } else {
                Mode::TwoD
            }),
            final(self).show_intro == old(self).show_intro,
            final(self).game_won == old(self).game_won,
            final(self).score == old(self).score,
    {
        self.mode = match self.mode {
            Mode::TwoD => Mode::ThreeD,
            Mode::ThreeD => Mode::TwoD,
        };
    }

    /// Tries to walk the viewer to `target`. Into the goal: the game is won
    /// and the viewer stays. Onto the floor: the viewer stands there. Onto a
    /// collectible: the viewer stands there, the score goes up by one (as
    /// far as the number type goes) and the cell is emptied. Anywhere else
    /// the viewer stays.
    pub fn try_move(&mut self, player: &mut Player, grid: &mut Grid, target: Point) -> (outcome:
        MoveOutcome)
        requires
            old(grid).wf(),
        ensures
            outcome == outcome_of(old(grid).kind_at_point(target.x as int, target.y as int)),
            final(grid).wf(),
            final(grid).cell_size == old(grid).cell_size,
            final(grid).rows() == old(grid).rows(),
            final(grid).cols() == old(grid).cols(),
            forall|r: int, c: int|
                old(grid).inside(r, c) ==> #[trigger] final(grid).kind(r, c) == (if outcome
                    == MoveOutcome::Collected && old(grid).cell_of(target.x as int, target.y as int)
                    == Some((r, c)) {
                    CellKind::Empty
                } else {
                    old(grid).kind(r, c)
                }),
            final(player).a == old(player).a,
            final(player).fov == old(player).fov,
            final(player).pos == (if outcome == MoveOutcome::Moved || outcome
                == MoveOutcome::Collected {
                target
            } else {
                old(player).pos
            }),
            final(self).show_intro == old(self).show_intro,
            final(self).mode == old(self).mode,
            final(self).game_won == (old(self).game_won || outcome == MoveOutcome::Won),
            final(self).score == (if outcome == MoveOutcome::Collected && old(self).score
                < u32::MAX {
                (old(self).score + 1) as u32
            } else {
                old(self).score
            }),
    {
        match grid.locate(target.x, target.y) {
            Some((row, col)) => {
                match grid.kind_at(row, col) {
                    Some(CellKind::Goal) => {
                        self.game_won = true;
                        MoveOutcome::Won
                    },
                    Some(CellKind::Empty) => {
                        player.pos = target;
                        MoveOutcome::Moved
                    },
                    Some(CellKind::Collectible) => {
                        player.pos = target;
                        if self.score < u32::MAX {
                            self.score = self.score + 1;
                        }
                        grid.clear_cell(row, col);
                        MoveOutcome::Collected
                    },
                    _ => MoveOutcome::Blocked,
                }
            },
            None => MoveOutcome::Blocked,
        }
    }

    /// Reacts to a key going down or up, where `(dx, dy)` is the heading of
    /// the viewer: the cosine and the sine of the angle it faces. While the
    /// intro is up, a key going down takes it away and nothing else happens.
    /// After that a key going down turns the viewer, walks it one step as
    /// `try_move` does, or switches the view; a key going up does none of
    /// these, and either way the viewer is then walked to where it stands, as
    /// `try_move` does. The result says whether the viewer is walking, for
    /// the sound of its steps.
    pub fn on_key(
        &mut self,
        player: &mut Player,
        grid: &mut Grid,
        key: Key,
        pressed: bool,
        dx: i64,
        dy: i64,
    ) -> (walking: bool)
        requires
            old(grid).wf(),
        ensures
            final(grid).wf(),
            old(self).show_intro ==> !walking && *final(grid) == *old(grid) && *final(player)
                == *old(player) && *final(self) == (Game { show_intro: !pressed, ..*old(self) }),
            !old(self).show_intro ==> walking == (pressed && (key == Key::Left || key
                == Key::Right || key == Key::Up || key == Key::Down)),
            !old(self).show_intro ==> !final(self).show_intro && final(self).mode == (if pressed
                && key == Key::ToggleMode && old(self).mode == Mode::TwoD {
                Mode::ThreeD
            } else if pressed && key == Key::ToggleMode {
                Mode::TwoD
            } else {
                old(self).mode
            }),
            !old(self).show_intro ==> final(player).fov == old(player).fov && final(player).a
                == (if pressed && key == Key::Left {
                crate::fixed::saturated(old(player).a - crate::player::TURN_STEP)
            } else if pressed && key == Key::Right {
                crate::fixed::saturated(old(player).a + crate::player::TURN_STEP)
            } else {
                old(player).a as int
            }),
            !old(self).show_intro ==> ({
                let target = key_target(*old(player), key, pressed, dx as int, dy as int);
                let outcome = outcome_of(
                    old(grid).kind_at_point(target.x as int, target.y as int),
                );
                &&& final(player).pos == (if outcome == MoveOutcome::Moved || outcome
                    == MoveOutcome::Collected {
                    target
                } else {
                    old(player).pos
                })
                &&& final(self).game_won == (old(self).game_won || outcome == MoveOutcome::Won)
                &&& final(self).score == (if outcome == MoveOutcome::Collected && old(self).score
                    < u32::MAX {
                    (old(self).score + 1) as u32
                } else {
                    old(self).score
                })
                &&& final(grid).cell_size == old(grid).cell_size
                &&& final(grid).rows() == old(grid).rows()
                &&& final(grid).cols() == old(grid).cols()
                &&& forall|r: int, c: int|
                    old(grid).inside(r, c) ==> #[trigger] final(grid).kind(r, c) == (if outcome
                        == MoveOutcome::Collected && old(grid).cell_of(
                        target.x as int,
                        target.y as int,
                    ) == Some((r, c)) {
                        CellKind::Empty
                    } else {
                        old(grid).kind(r, c)
                    })
            }),
    {
        if self.show_intro {
            if pressed {
                self.show_intro = false;
            }
            return false;
        }
        let mut target = player.pos;
        let mut moving = false;
        if pressed {
            match key {
                Key::Left => {
                    player.turn(true, false);
                    moving = true;
                },
                Key::Right => {
                    player.turn(false, true);
                    moving = true;
                },
                Key::Up => {
                    target = player.target(dx, dy, true);
                    moving = true;
                },
                Key::Down => {
                    target = player.target(dx, dy, false);
                    moving = true;
                },
                Key::ToggleMode => {
                    self.toggle_mode();
                },
                Key::Other => {},
            }
        }
        self.try_move(player, grid, target);
        moving
    }
}

/// Where a key sends the viewer: one step along its heading or against it
/// for the keys that walk it, going down; else where it stands.
pub open spec fn key_target(player: Player, key: Key, pressed: bool, dx: int, dy: int) -> Point {
    if pressed && key == Key::Up {
        stepped(player.pos, dx, dy, true)
    } else if pressed && key == Key::Down {
        stepped(player.pos, dx, dy, false)
    } else {
        player.pos
    }
}

} // verus!
