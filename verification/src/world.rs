//! The simulation: the grid, its colours and coordinates, and the snake that moves on it.

pub mod canvas;
pub mod color;
pub mod coord;
pub mod error;
pub mod screen;
pub mod simulation;

use crate::world::canvas::Canvas;
use crate::world::color::Color;
use crate::world::coord::Coord;
use crate::world::error::InternalConsistencyError;
use crate::world::screen::Screen;
use crate::world::simulation::Simulation;
use crate::world::simulation::START_LEN;
use rand::Rng;
use std::collections::VecDeque;
use vstd::prelude::*;

verus! {

/// The grid, the snake on it, where the snake is heading, and whether it still lives.
pub struct World {
    /// The grid that the simulation draws on.
    pub screen: Screen,
    /// The step the head takes at each tick.
    pub direction: Coord,
    /// The cells of the snake, from its tail to its head.
    pub snake: VecDeque<Coord>,
    /// Whether the snake still lives.
    pub alive: bool,
}

impl View for World {
    type V = Simulation;

    open spec fn view(&self) -> Simulation {
        Simulation {
            screen: self.screen@,
            direction: self.direction,
            snake: self.snake@,
            alive: self.alive,
        }
    }
}

impl World {
    /// The screen and the simulation it belongs to are both well formed.
    pub open spec fn wf(&self) -> bool {
        &&& self.screen.wf()
        &&& self@.wf()
    }

    /// A fresh game on a `width` by `height` grid.
    pub fn new(width: u32, height: u32) -> (world: World)
        requires
            width > START_LEN,
            height >= 4,
            width * height * 4 <= u32::MAX,
        ensures
            world.wf(),
            world@ == Simulation::initial(width as int, height as int),
    {
        let mut world = World {
            screen: Screen::new(width, height),
            direction: (1, 0).into(),
            snake: VecDeque::new(),
            alive: true,
        };
        proof {
            Canvas::lemma_blank(width as int, height as int);
            Simulation::lemma_fresh_canvas(world.screen@);
            Simulation::lemma_initial(width as int, height as int);
        }
        world.screen.clear();
        world.create_initial_snake();
        world.create_initial_food();
        world
    }

    /// Advances the simulation by one step. A dead snake stays as it is. A living
    /// one moves its head to the next cell; there it eats and grows, dies of biting
    /// itself, or moves on and gives up its tail cell. It fails exactly when food
    /// was eaten and no cell is free for new food; the head has then moved.
    pub fn tick(&mut self) -> (outcome: Result<(), InternalConsistencyError>)
        requires
            old(self).wf(),
        ensures
            final(self).wf(),
            outcome == old(self)@.tick_outcome(),
            exists|skip: int|
                0 <= skip < old(self)@.screen.cell_count() && final(self)@ == #[trigger] old(
                    self,
                )@.ticked(skip),
            !old(self)@.feeds() ==> final(self)@ == old(self)@.ticked(0),
            final(self)@.screen.width == old(self)@.screen.width,
            final(self)@.screen.height == old(self)@.screen.height,
    {
        let ghost before = self@;
        proof {
            before.lemma_ticked_wf(0);
            before.screen.lemma_dimensions_fit();
        }
        if self.alive {
            let new_head = self.get_new_head();
            let new_head_pixel = match self.screen.get_color_at(&new_head) {
                Ok(color) => color,
                // Only a grid that is not legible comes here, and no well-formed one is.
                Err(error) => {
                    return Err(error);
                },
            };
            self.extend_head_to(&new_head);
            match new_head_pixel {
                Color::Food => {
                    let ghost grown = self@;
                    proof {
                        before.lemma_extended_wf(new_head);
                    }
                    let outcome = self.create_food();
                    proof {
                        let skip = choose|skip: int|
                            0 <= skip < grown.screen.cell_count() && self@ == #[trigger] grown.fed(
                                skip,
                            );
                        assert(self@ == before.ticked(skip));
                    }
                    outcome
                },
                Color::Snake => {
                    self.die();
                    Ok(())
                },
                _ => {
                    self.shorten_tail();
                    Ok(())
                },
            }
        } else {
            Ok(())
        }
    }

    /// Takes a click at `(x, y)`. While the snake lives it makes a quarter turn
    /// towards the side of its head on which the click fell. Once it is dead, any
    /// click starts a fresh game on the same grid.
    pub fn click(&mut self, x: i32, y: i32)
        requires
            old(self).wf(),
        ensures
            final(self).wf(),
            final(self)@ == old(self)@.clicked(x, y),
            final(self)@.screen.width == old(self)@.screen.width,
            final(self)@.screen.height == old(self)@.screen.height,
    {
        if self.alive {
            let head = self.snake[self.snake.len() - 1];
            let turn: (i32, i32) = match self.direction.x {
                0 => (if x < head.x { -1 } else { 1 }, 0),
                _ => (0, if y < head.y { -1 } else { 1 }),
            };
            self.direction = turn.into();
        } else {
            self.reset_game()
        }
    }

    /// Starts a fresh game on the same grid.
    fn reset_game(&mut self)
        requires
            old(self).wf(),
        ensures
            final(self).wf(),
            final(self)@ == Simulation::initial(old(self)@.screen.width, old(self)@.screen.height),
    {
        proof {
            Simulation::lemma_fresh_canvas(self.screen@);
            Simulation::lemma_initial(self@.screen.width, self@.screen.height);
        }
        self.direction = (1, 0).into();
        self.snake = VecDeque::new();
        self.alive = true;
        self.screen.clear();
        self.create_initial_snake();
        self.create_initial_food();
    }

    /// Paints the fresh snake on the middle row and appends its cells to the snake.
    fn create_initial_snake(&mut self)
        requires
            old(self).screen.wf(),
            old(self).screen.width >= START_LEN,
        ensures
            final(self).screen.wf(),
            final(self)@ == (Simulation {
                screen: old(self)@.screen.painted_all(
                    Simulation::initial_snake(old(self)@.screen.height),
                    Color::Snake,
                ),
                snake: old(self)@.snake + Simulation::initial_snake(old(self)@.screen.height),
                ..old(self)@
            }),
    {
        let ghost before = self@;
        let ghost row = Simulation::initial_snake(before.screen.height);
        proof {
            before.screen.lemma_dimensions_fit();
        }
        let start_y = self.screen.height as i32 / 2;
        for x in 0..START_LEN
            invariant
                self.screen.wf(),
                before.screen.wf(),
                before.screen.width >= START_LEN,
                row == Simulation::initial_snake(before.screen.height),
                start_y == before.screen.height / 2,
                self@.screen.width == before.screen.width,
                self@.screen.height == before.screen.height,
                self@ == (Simulation {
                    screen: before.screen.painted_all(row.take(x as int), Color::Snake),
                    snake: before.snake + row.take(x as int),
                    ..before
                }),
        {
            self.screen.set_color_at(&(x, start_y).into(), Color::Snake);
            self.snake.push_back((x, start_y).into());
            proof {
                assert(row.take(x + 1).drop_last() =~= row.take(x as int));
                assert(before.snake + row.take(x + 1) =~= (before.snake + row.take(x as int)).push(
                    row[x as int],
                ));
            }
        }
        assert(row.take(START_LEN as int) =~= row);
    }

    /// Paints the first food, right of the fresh snake and two rows above it.
    fn create_initial_food(&mut self)
        requires
            old(self).screen.wf(),
            old(self).screen.width > START_LEN,
            old(self).screen.height >= 4,
        ensures
            final(self).screen.wf(),
            final(self)@ == (Simulation {
                screen: old(self)@.screen.painted(
                    Simulation::initial_food(old(self)@.screen.height),
                    Color::Food,
                ),
                ..old(self)@
            }),
    {
        proof {
            self.screen@.lemma_dimensions_fit();
        }
        let initial_food_y = self.screen.height as i32 / 2 - 2;
        self.screen.set_color_at(&(START_LEN, initial_food_y).into(), Color::Food);
    }

    /// The cell one step on from the head, wrapped at the edges of the grid.
    fn get_new_head(&self) -> (new_head: Coord)
        requires
            self.screen.wf(),
            self@.framed(),
        ensures
            new_head == self@.next_head(),
            self@.screen.contains(new_head),
    {
        proof {
            self@.screen.lemma_dimensions_fit();
        }
        let screen_width = self.screen.width;
        let screen_height = self.screen.height;
        let moved_head = self.snake[self.snake.len() - 1] + self.direction;
        let x = (moved_head.x + screen_width as i32) % screen_width as i32;
        let y = (moved_head.y + screen_height as i32) % screen_height as i32;
        (x, y).into()
    }

    /// Paints `new_head` as snake and makes it the head.
    fn extend_head_to(&mut self, new_head: &Coord)
        requires
            old(self).screen.wf(),
            old(self)@.screen.contains(*new_head),
        ensures
            final(self).screen.wf(),
            final(self)@ == old(self)@.extended(*new_head),
    {
        self.screen.set_color_at(new_head, Color::Snake);
        self.snake.push_back(*new_head);
    }

    /// Takes the tail cell off the snake and paints it as background.
    fn shorten_tail(&mut self)
        requires
            old(self).screen.wf(),
            old(self)@.snake.len() >= 1,
            old(self)@.screen.contains(old(self)@.snake[0]),
        ensures
            final(self).screen.wf(),
            final(self)@ == old(self)@.shortened(),
    {
        let tail = self.snake.pop_front().unwrap();
        self.screen.set_color_at(&tail, Color::Background);
    }

    /// Draws a number below the cell count and places food by it.
    fn create_food(&mut self) -> (outcome: Result<(), InternalConsistencyError>)
        requires
            old(self).wf(),
        ensures
            final(self).wf(),
            outcome == if old(self)@.screen.free_cells().len() == 0 {
                Err::<(), InternalConsistencyError>(InternalConsistencyError::BoardFull)
            } else {
                Ok::<(), InternalConsistencyError>(())
            },
            exists|skip: int|
                0 <= skip < old(self)@.screen.cell_count() && final(self)@ == #[trigger] old(
                    self,
                )@.fed(skip),
    {
        let ghost before = self@;
        proof {
            before.screen.lemma_dimensions_fit();
        }
        let pixel_count = self.screen.pixel_count as usize;
        let random_skip = random_below(pixel_count);
        let outcome = self.place_food(random_skip);
        outcome
    }

    /// Paints as food the free cell that `random_skip` picks: of the cells that
    /// read as background, in row-major order, the one at place `random_skip`
    /// modulo their number. It fails, and changes nothing, exactly when no cell is
    /// free.
    pub fn place_food(&mut self, random_skip: usize) -> (outcome: Result<
        (),
        InternalConsistencyError,
    >)
        requires
            old(self).wf(),
        ensures
            final(self).wf(),
            final(self)@ == old(self)@.fed(random_skip as int),
            outcome == if old(self)@.screen.free_cells().len() == 0 {
                Err::<(), InternalConsistencyError>(InternalConsistencyError::BoardFull)
            } else {
                Ok::<(), InternalConsistencyError>(())
            },
    {
        let ghost canvas = self.screen@;
        proof {
            self@.lemma_fed_wf(random_skip as int);
        }
        let pixels = match self.screen.iter_pixels() {
            Ok(pixels) => pixels,
            // Only a grid that is not legible comes here, and no well-formed one is.
            Err(error) => {
                return Err(error);
            },
        };
        let mut free: Vec<Coord> = Vec::new();
        let mut n: usize = 0;
        while n < pixels.len()
            invariant
                canvas.wf(),
                canvas.legible(),
                pixels@ == canvas.cells(),
                n <= pixels.len(),
                free@ == canvas.coords().take(n as int).filter(canvas.is_free()),
            decreases pixels.len() - n,
        {
            let (color, coord) = pixels[n];
            proof {
                canvas.lemma_coord_at_index(n as int);
                assert(canvas.coords().take(n + 1) =~= canvas.coords().take(n as int).push(coord));
                canvas.coords().take(n as int).lemma_filter_push(coord, canvas.is_free());
            }
            if color == Color::Background {
                free.push(coord);
            }
            n += 1;
        }
        assert(canvas.coords().take(n as int) =~= canvas.coords());
        if free.len() == 0 {
            return Err(InternalConsistencyError::BoardFull);
        }
        let coord = free[random_skip % free.len()];
        proof {
            canvas.lemma_free_cells();
        }
        self.screen.set_color_at(&coord, Color::Food);
        Ok(())
    }

    /// Marks the snake dead and paints the border as failure.
    fn die(&mut self)
        requires
            old(self).screen.wf(),
        ensures
            final(self).screen.wf(),
            final(self)@ == old(self)@.died(),
    {
        self.alive = false;
        self.screen.set_color_at_edges(Color::Fail);
    }
}

/// `rand::Rng::gen_range` over `0..bound`, on the generator that
/// `rand::thread_rng` hands out. The call panics on an empty range, so `bound`
/// must be positive; what it returns lies in the range, and nothing more is
/// claimed of it.
#[verifier::external_body]
fn random_below(bound: usize) -> (index: usize)
    requires
        bound > 0,
    ensures
        index < bound,
{
    rand::thread_rng().gen_range(0..bound)
}

} // verus!
