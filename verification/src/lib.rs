//! A tick-driven snake simulation that keeps its whole state on a pixel grid.
//!
//! `world` holds the simulation itself. `Game` is the driver around it: it gathers
//! elapsed time and steps the simulation once for each full interval.

pub mod world;

use crate::world::error::InternalConsistencyError;
use crate::world::simulation::Simulation;
use crate::world::World;
use vstd::prelude::*;

verus! {

/// How much time has to gather before the simulation takes a step.
pub const TICK_MILLISECONDS: u32 = 75;

/// The width and the height of the grid a game is played on.
pub const GRID_SIDE: u32 = 30;

/// A simulation and the time gathered since its last step.
pub struct Game {
    /// The simulation that the game drives.
    pub world: World,
    /// The time gathered since the last step, always short of a full interval.
    pub elapsed_milliseconds: u32,
}

impl Game {
    /// The world is well formed and the time gathered is short of a full interval.
    pub open spec fn wf(&self) -> bool {
        &&& self.world.wf()
        &&& self.elapsed_milliseconds < TICK_MILLISECONDS
    }

    /// A fresh game on a grid of `GRID_SIDE` by `GRID_SIDE` cells, with no time
    /// gathered.
    pub fn new() -> (game: Game)
        ensures
            game.wf(),
            game.world@ == Simulation::initial(GRID_SIDE as int, GRID_SIDE as int),
            game.elapsed_milliseconds == 0,
    {
        Game { world: World::new(GRID_SIDE, GRID_SIDE), elapsed_milliseconds: 0 }
    }

    /// Adds `elapsed_milliseconds` to the time gathered. Once a full interval has
    /// gathered, the time starts again from nothing and the world takes one step,
    /// whose outcome is returned; until then the world stays as it is.
    pub fn tick(&mut self, elapsed_milliseconds: u32) -> (outcome: Result<
        (),
        InternalConsistencyError,
    >)
        requires
            old(self).wf(),
            old(self).elapsed_milliseconds + elapsed_milliseconds <= u32::MAX,
        ensures
            final(self).wf(),
            final(self).world.screen.width == old(self).world.screen.width,
            final(self).world.screen.height == old(self).world.screen.height,
            old(self).elapsed_milliseconds + elapsed_milliseconds < TICK_MILLISECONDS ==> {
                &&& final(self).elapsed_milliseconds == old(self).elapsed_milliseconds
                    + elapsed_milliseconds
                &&& final(self).world@ == old(self).world@
                &&& outcome is Ok
            },
            old(self).elapsed_milliseconds + elapsed_milliseconds >= TICK_MILLISECONDS ==> {
                &&& final(self).elapsed_milliseconds == 0
                &&& outcome == old(self).world@.tick_outcome()
                &&& exists|skip: int|
                    0 <= skip < old(self).world@.screen.cell_count() && final(self).world@
                        == #[trigger] old(self).world@.ticked(skip)
                &&& !old(self).world@.feeds() ==> final(self).world@ == old(self).world@.ticked(0)
            },
    {
        self.elapsed_milliseconds += elapsed_milliseconds;
        if self.elapsed_milliseconds >= TICK_MILLISECONDS {
            self.elapsed_milliseconds = 0;
            self.world.tick()
        } else {
            Ok(())
        }
    }

    /// The width of the grid, in cells. No tick and no click changes it.
    pub fn width(&self) -> (width: u32)
        ensures
            width == self.world.screen.width,
    {
        self.world.screen.width
    }

    /// The height of the grid, in cells. No tick and no click changes it.
    pub fn height(&self) -> (height: u32)
        ensures
            height == self.world.screen.height,
    {
        self.world.screen.height
    }

    /// Hands a click at `(x, y)` on to the world.
    pub fn click(&mut self, x: i32, y: i32)
        requires
            old(self).wf(),
        ensures
            final(self).wf(),
            final(self).world@ == old(self).world@.clicked(x, y),
            final(self).world.screen.width == old(self).world.screen.width,
            final(self).world.screen.height == old(self).world.screen.height,
            final(self).elapsed_milliseconds == old(self).elapsed_milliseconds,
    {
        self.world.click(x, y);
    }
}

} // verus!

