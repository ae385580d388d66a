//! The game as mathematics: what a well-formed simulation is, what a click and a
//! tick make of it, and what always holds of them.

use crate::world::canvas::Canvas;
use crate::world::color::Color;
use crate::world::coord::Coord;
use crate::world::error::InternalConsistencyError;
use vstd::prelude::*;

verus! {

/// How many cells the snake covers when a game begins.
pub const START_LEN: i32 = 7;

/// What a `World` holds, as mathematics. The snake runs from its tail, first, to
/// its head, last.
pub struct Simulation {
    pub screen: Canvas,
    pub direction: Coord,
    pub snake: Seq<Coord>,
    pub alive: bool,
}

// What a well-formed simulation is.
impl Simulation {
    /// Whether `step` moves by exactly one cell along exactly one axis.
    pub open spec fn is_unit(step: Coord) -> bool {
        ||| step.x == 0 && (step.y == 1 || step.y == -1)
        ||| step.y == 0 && (step.x == 1 || step.x == -1)
    }

    /// The grid is well formed, legible and opaque and has room for a fresh snake
    /// and its food; the heading is a unit step; the snake has at least one cell
    /// and lies on the grid.
    pub open spec fn framed(self) -> bool {
        &&& self.screen.wf()
        &&& self.screen.width > START_LEN
        &&& self.screen.height >= 4
        &&& self.screen.legible()
        &&& self.screen.opaque()
        &&& Self::is_unit(self.direction)
        &&& self.snake.len() >= 1
        &&& forall|i: int|
            0 <= i < self.snake.len() ==> self.screen.contains(#[trigger] self.snake[i])
    }

    /// No cell occurs twice in the snake, and the cells that read as snake are
    /// exactly its own.
    pub open spec fn snake_is_drawn(self) -> bool {
        &&& self.snake.no_duplicates()
        &&& forall|coord: Coord|
            self.screen.contains(coord) ==> ((#[trigger] self.screen.color_at(coord)) == Some(
                Color::Snake,
            ) <==> self.snake.contains(coord))
    }

    /// The simulation is framed, and while the snake lives it is drawn on the grid
    /// cell for cell.
    pub open spec fn wf(self) -> bool {
        &&& self.framed()
        &&& self.alive ==> self.snake_is_drawn()
    }

    /// The cell the snake's head is on.
    pub open spec fn head(self) -> Coord {
        self.snake.last()
    }

    /// Painting a cell of the grid keeps a simulation framed.
    pub proof fn lemma_painted_framed(self, coord: Coord, color: Color)
        requires
            self.framed(),
            self.screen.contains(coord),
        ensures
            (Simulation { screen: self.screen.painted(coord, color), ..self }).framed(),
    {
        let after = self.screen.painted(coord, color);
        assert forall|other: Coord| after.contains(other) implies (#[trigger] after.color_at(
            other,
        )) is Some by {
            self.screen.lemma_painted_color_at(coord, color, other);
        }
        assert forall|other: Coord| after.contains(other) implies (#[trigger] after.pad_at(other))
            == 255 by {
            self.screen.lemma_painted_color_at(coord, color, other);
        }
        self.screen.lemma_painted_color_at(coord, color, coord);
    }
}

// The fresh game.
impl Simulation {
    /// The snake of a fresh game: `START_LEN` cells from the left edge along the
    /// middle row, the head rightmost.
    pub open spec fn initial_snake(height: int) -> Seq<Coord> {
        Seq::new(START_LEN as nat, |i: int| Coord { x: i as i32, y: (height / 2) as i32 })
    }

    /// The cell of the first food: right of the fresh snake and two rows above it.
    pub open spec fn initial_food(height: int) -> Coord {
        Coord { x: START_LEN, y: (height / 2 - 2) as i32 }
    }

    /// What a cell of a fresh game reads as.
    pub open spec fn initial_color(height: int, coord: Coord) -> Color {
        if coord.y == height / 2 && 0 <= coord.x < START_LEN {
            Color::Snake
        } else if coord == Self::initial_food(height) {
            Color::Food
        } else {
            Color::Background
        }
    }

    /// `initial_color` as a function of the cell alone.
    pub open spec fn initial_colors(height: int) -> spec_fn(Coord) -> Color {
        |coord: Coord| Self::initial_color(height, coord)
    }

    /// The fresh game on a `width` by `height` grid: the snake alive and heading
    /// right, one food, every other cell background.
    pub open spec fn initial(width: int, height: int) -> Simulation {
        Simulation {
            screen: Canvas::showing(width, height, Self::initial_colors(height)),
            direction: Coord { x: 1, y: 0 },
            snake: Self::initial_snake(height),
            alive: true,
        }
    }

    /// A fresh game is well formed, and each of its cells reads as `initial_color`
    /// says: the cells of the snake as snake, the food cell as food, every other
    /// cell as background. So the food cell is the only food.
    pub proof fn lemma_initial(width: int, height: int)
        requires
            width > START_LEN,
            height >= 4,
            width * height * 4 <= u32::MAX,
        ensures
            Self::initial(width, height).wf(),
            Self::initial(width, height).snake.len() == START_LEN,
            forall|coord: Coord| #[trigger]
                Self::initial(width, height).screen.contains(coord) ==> Self::initial(
                    width,
                    height,
                ).screen.color_at(coord) == Some(Self::initial_color(height, coord)),
            Self::initial(width, height).screen.food_only_at(Self::initial_food(height)),
            Self::initial(width, height).screen.has_one_food(),
    {
        let fresh = Self::initial(width, height);
        Canvas::lemma_showing(width, height, Self::initial_colors(height));
        fresh.screen.lemma_dimensions_fit();
        assert forall|coord: Coord| fresh.screen.contains(coord) implies ((
        #[trigger] fresh.screen.color_at(coord)) == Some(Color::Snake) <==> fresh.snake.contains(
            coord,
        )) by {
            if fresh.screen.color_at(coord) == Some(Color::Snake) {
                assert(fresh.snake[coord.x as int] == coord);
            }
        }
        assert(fresh.screen.food_only_at(Self::initial_food(height)));
    }

    /// Clearing any opaque canvas and painting the fresh snake and the first food
    /// on it gives the canvas of a fresh game.
    pub proof fn lemma_fresh_canvas(canvas: Canvas)
        requires
            canvas.wf(),
            canvas.opaque(),
            canvas.width > START_LEN,
            canvas.height >= 4,
        ensures
            canvas.cleared().painted_all(
                Self::initial_snake(canvas.height),
                Color::Snake,
            ).painted(Self::initial_food(canvas.height), Color::Food) == Self::initial(
                canvas.width,
                canvas.height,
            ).screen,
    {
        let height = canvas.height;
        let row = Self::initial_snake(height);
        let food = Self::initial_food(height);
        let cleared = canvas.cleared();
        let with_snake = cleared.painted_all(row, Color::Snake);
        let with_food = with_snake.painted(food, Color::Food);
        let fresh = Self::initial(canvas.width, height).screen;
        Self::lemma_initial(canvas.width, height);
        cleared.lemma_painted_all_color_at(row, Color::Snake, food);
        with_snake.lemma_painted_color_at(food, Color::Food, food);
        assert forall|coord: Coord| #[trigger] with_food.contains(coord) implies with_food.color_at(
            coord,
        ) == fresh.color_at(coord) && with_food.color_at(coord) is Some && with_food.pad_at(coord)
            == fresh.pad_at(coord) by {
            canvas.lemma_cleared_color_at(coord);
            cleared.lemma_painted_all_color_at(row, Color::Snake, coord);
            with_snake.lemma_painted_color_at(food, Color::Food, coord);
            if row.contains(coord) {
                assert(Self::initial_color(height, coord) == Color::Snake);
            } else if coord.y == height / 2 && 0 <= coord.x < START_LEN {
                assert(row[coord.x as int] == coord);
            }
        }
        with_food.lemma_cells_determine_canvas(fresh);
    }
}

// What a click does.
impl Simulation {
    /// The heading after a click at `(x, y)` while the snake lives: a quarter turn,
    /// towards the side of the head on which the click fell. A snake that moves
    /// along a row turns up for a click above its head and down otherwise; one that
    /// moves along a column turns left for a click left of its head and right
    /// otherwise.
    pub open spec fn turn(self, x: i32, y: i32) -> Coord {
        if self.direction.x == 0 {
            Coord { x: if x < self.head().x { -1i32 } else { 1i32 }, y: 0 }
        } else {
            Coord { x: 0, y: if y < self.head().y { -1i32 } else { 1i32 } }
        }
    }

    /// The simulation after a click at `(x, y)`: turned while the snake lives, and a
    /// fresh game on the same grid once it is dead.
    pub open spec fn clicked(self, x: i32, y: i32) -> Simulation {
        if self.alive {
            Simulation { direction: self.turn(x, y), ..self }
        } else {
            Self::initial(self.screen.width, self.screen.height)
        }
    }

    /// While the snake lives, a click always turns it by a quarter: from a row into
    /// a column, up for a click above the head and down otherwise; from a column
    /// into a row, left for a click left of the head and right otherwise. Nothing
    /// else changes.
    pub proof fn lemma_click_turns(self, x: i32, y: i32)
        requires
            self.wf(),
            self.alive,
        ensures
            self.clicked(x, y).wf(),
            self.clicked(x, y) == (Simulation { direction: self.clicked(x, y).direction, ..self }),
            self.direction.y == 0 ==> self.clicked(x, y).direction == (Coord {
                x: 0,
                y: if y < self.head().y {
                    -1i32
                } else {
                    1i32
                },
            }),
            self.direction.x == 0 ==> self.clicked(x, y).direction == (Coord {
                x: if x < self.head().x {
                    -1i32
                } else {
                    1i32
                },
                y: 0,
            }),
    {
    }

    /// Once the snake is dead, a click anywhere gives the fresh game on the same
    /// grid: the very state that a newly made world of these dimensions has.
    pub proof fn lemma_click_resets(self, x: i32, y: i32)
        requires
            self.wf(),
            !self.alive,
        ensures
            self.clicked(x, y) == Self::initial(self.screen.width, self.screen.height),
            self.clicked(x, y).wf(),
            self.clicked(x, y).alive,
            self.clicked(x, y).screen.has_one_food(),
    {
        Self::lemma_initial(self.screen.width, self.screen.height);
    }
}

// What a tick does.
impl Simulation {
    /// The cell the head moves to at the next tick: one step on, wrapped at the
    /// edges of the grid.
    pub open spec fn next_head(self) -> Coord {
        self.screen.wrapped(self.head().plus(self.direction))
    }

    /// Whether the next tick moves the head onto food.
    pub open spec fn feeds(self) -> bool {
        self.alive && self.screen.color_at(self.next_head()) == Some(Color::Food)
    }

    /// The simulation with `new_head` painted as snake and made the head.
    pub open spec fn extended(self, new_head: Coord) -> Simulation {
        Simulation {
            screen: self.screen.painted(new_head, Color::Snake),
            snake: self.snake.push(new_head),
            ..self
        }
    }

    /// The simulation with the tail cell painted as background and taken off the
    /// snake.
    pub open spec fn shortened(self) -> Simulation {
        Simulation {
            screen: self.screen.painted(self.snake[0], Color::Background),
            snake: self.snake.drop_first(),
            ..self
        }
    }

    /// The simulation with the snake dead and the border painted as failure.
    pub open spec fn died(self) -> Simulation {
        Simulation { screen: self.screen.edges_painted(Color::Fail), alive: false, ..self }
    }

    /// The free cell that the number `skip` picks: of the cells that read as
    /// background, in row-major order, the one at place `skip` modulo their number.
    pub open spec fn food_target(self, skip: int) -> Coord {
        let free = self.screen.free_cells();
        free[skip % (free.len() as int)]
    }

    /// The simulation with food on the free cell that `skip` picks. With no free
    /// cell it is unchanged.
    pub open spec fn fed(self, skip: int) -> Simulation {
        if self.screen.free_cells().len() == 0 {
            self
        } else {
            Simulation {
                screen: self.screen.painted(self.food_target(skip), Color::Food),
                ..self
            }
        }
    }

    /// The cell that gets the new food when the head moves onto food and `skip` is
    /// the number drawn: the cell picked once the head has moved.
    pub open spec fn new_food(self, skip: int) -> Coord {
        self.extended(self.next_head()).food_target(skip)
    }

    /// The simulation after one tick, where `skip` is the number drawn for the
    /// placing of new food. A dead snake stays as it is. A living one gets the next
    /// cell as its head, painted as snake; then, by what that cell read as before:
    /// on food, new food is placed and the tail stays; on snake, the snake dies;
    /// on anything else, the tail cell is given up.
    pub open spec fn ticked(self, skip: int) -> Simulation {
        if !self.alive {
            self
        } else {
            let grown = self.extended(self.next_head());
            match self.screen.color_at(self.next_head()) {
                Some(Color::Food) => grown.fed(skip),
                Some(Color::Snake) => grown.died(),
                _ => grown.shortened(),
            }
        }
    }

    /// What one tick returns: an error exactly when the head moves onto food and
    /// then no cell is free for new food.
    pub open spec fn tick_outcome(self) -> Result<(), InternalConsistencyError> {
        if self.feeds() && self.extended(self.next_head()).screen.free_cells().len() == 0 {
            Err(InternalConsistencyError::BoardFull)
        } else {
            Ok(())
        }
    }
}

// What holds of every tick.
impl Simulation {
    /// The next head is a cell of the grid, and the step to it overflows nothing.
    pub proof fn lemma_next_head(self)
        requires
            self.framed(),
        ensures
            self.head().can_add(self.direction),
            self.screen.contains(self.head()),
            self.screen.contains(self.next_head()),
    {
        self.screen.lemma_dimensions_fit();
    }

    /// Moving the head onto a cell that does not read as snake keeps a living snake
    /// well formed: the cell was not the snake's before.
    pub proof fn lemma_extended_wf(self, new_head: Coord)
        requires
            self.wf(),
            self.alive,
            self.screen.contains(new_head),
            self.screen.color_at(new_head) != Some(Color::Snake),
        ensures
            self.extended(new_head).wf(),
            !self.snake.contains(new_head),
    {
        let grown = self.extended(new_head);
        self.lemma_painted_framed(new_head, Color::Snake);
        assert forall|coord: Coord| grown.screen.contains(coord) implies ((
        #[trigger] grown.screen.color_at(coord)) == Some(Color::Snake) <==> grown.snake.contains(
            coord,
        )) by {
            self.screen.lemma_painted_color_at(new_head, Color::Snake, coord);
            if coord == new_head {
                assert(grown.snake[self.snake.len() as int] == coord);
            } else if self.snake.contains(coord) {
                let i = choose|i: int| 0 <= i < self.snake.len() && self.snake[i] == coord;
                assert(grown.snake[i] == coord);
            }
        }
    }

    /// Placing food keeps a simulation well formed, whatever number is drawn.
    pub proof fn lemma_fed_wf(self, skip: int)
        requires
            self.wf(),
        ensures
            self.fed(skip).wf(),
    {
        let free = self.screen.free_cells();
        if free.len() > 0 {
            let target = self.food_target(skip);
            let after = self.fed(skip);
            self.screen.lemma_free_cells();
            self.lemma_painted_framed(target, Color::Food);
            if self.alive {
                assert forall|coord: Coord| after.screen.contains(coord) implies ((
                #[trigger] after.screen.color_at(coord)) == Some(Color::Snake)
                    <==> after.snake.contains(coord)) by {
                    self.screen.lemma_painted_color_at(target, Color::Food, coord);
                }
            }
        }
    }

    /// Giving up the tail cell keeps a living snake of two or more cells well
    /// formed.
    pub proof fn lemma_shortened_wf(self)
        requires
            self.wf(),
            self.alive,
            self.snake.len() >= 2,
        ensures
            self.shortened().wf(),
    {
        let tail = self.snake[0];
        let after = self.shortened();
        self.lemma_painted_framed(tail, Color::Background);
        assert forall|coord: Coord| after.screen.contains(coord) implies ((
        #[trigger] after.screen.color_at(coord)) == Some(Color::Snake) <==> after.snake.contains(
            coord,
        )) by {
            self.screen.lemma_painted_color_at(tail, Color::Background, coord);
            if self.snake.contains(coord) && coord != tail {
                let i = choose|i: int| 0 <= i < self.snake.len() && self.snake[i] == coord;
                assert(after.snake[i - 1] == coord);
            }
        }
    }

    /// Dying keeps a framed simulation well formed.
    pub proof fn lemma_died_wf(self)
        requires
            self.framed(),
        ensures
            self.died().wf(),
    {
        let dead = self.died();
        assert forall|coord: Coord| dead.screen.contains(coord) implies (
        #[trigger] dead.screen.color_at(coord)) is Some by {
            self.screen.lemma_edges_painted_color_at(Color::Fail, coord);
        }
        assert forall|coord: Coord| dead.screen.contains(coord) implies (
        #[trigger] dead.screen.pad_at(coord)) == 255 by {
            self.screen.lemma_edges_painted_color_at(Color::Fail, coord);
        }
    }

    /// A tick keeps a simulation well formed and its grid of the same dimensions,
    /// whatever number is drawn.
    pub proof fn lemma_ticked_wf(self, skip: int)
        requires
            self.wf(),
        ensures
            self.ticked(skip).wf(),
            self.ticked(skip).screen.width == self.screen.width,
            self.ticked(skip).screen.height == self.screen.height,
    {
        if self.alive {
            let new_head = self.next_head();
            let grown = self.extended(new_head);
            let occupant = self.screen.color_at(new_head);
            self.lemma_next_head();
            if occupant == Some(Color::Snake) {
                self.lemma_painted_framed(new_head, Color::Snake);
                grown.lemma_died_wf();
            } else {
                self.lemma_extended_wf(new_head);
                if occupant == Some(Color::Food) {
                    grown.lemma_fed_wf(skip);
                } else {
                    grown.lemma_shortened_wf();
                }
            }
        }
    }

    /// A tick changes nothing of a dead snake, and succeeds.
    pub proof fn lemma_dead_stays(self, skip: int)
        requires
            !self.alive,
        ensures
            self.ticked(skip) == self,
            self.tick_outcome() is Ok,
    {
    }

    /// A tick of a living snake moves the head to the next cell, whatever that cell
    /// holds. A snake heading right from the last column comes back in at the first
    /// column of the same row, and likewise at the other three edges; anywhere else
    /// the head moves by one cell.
    pub proof fn lemma_tick_moves_head(self, skip: int)
        requires
            self.wf(),
            self.alive,
        ensures
            self.ticked(skip).head() == self.next_head(),
            self.screen.contains(self.next_head()),
            self.next_head().x == if self.head().x + self.direction.x == self.screen.width {
                0
            } else if self.head().x + self.direction.x == -1 {
                self.screen.width - 1
            } else {
                self.head().x + self.direction.x
            },
            self.next_head().y == if self.head().y + self.direction.y == self.screen.height {
                0
            } else if self.head().y + self.direction.y == -1 {
                self.screen.height - 1
            } else {
                self.head().y + self.direction.y
            },
    {
        self.screen.lemma_dimensions_fit();
        self.screen.lemma_wrapped(self.head().plus(self.direction));
    }

    /// A living snake whose next cell reads as snake dies at the tick: it is dead
    /// afterwards, it keeps every cell and has the bitten one as its head, every
    /// cell of the border reads as failure, every other cell reads as it did, and
    /// further ticks change nothing.
    pub proof fn lemma_bite_kills(self, skip: int, later_skip: int)
        requires
            self.wf(),
            self.alive,
            self.screen.color_at(self.next_head()) == Some(Color::Snake),
        ensures
            !self.ticked(skip).alive,
            self.tick_outcome() is Ok,
            self.ticked(skip).snake == self.snake.push(self.next_head()),
            forall|coord: Coord|
                self.screen.contains(coord) ==> (#[trigger] self.ticked(skip).screen.color_at(coord))
                    == if self.screen.on_edge(coord) {
                    Some(Color::Fail)
                } else {
                    self.screen.color_at(coord)
                },
            self.ticked(skip).ticked(later_skip) == self.ticked(skip),
    {
        let new_head = self.next_head();
        let grown = self.extended(new_head);
        self.lemma_next_head();
        assert forall|coord: Coord| self.screen.contains(coord) implies (#[trigger] self.ticked(
            skip,
        ).screen.color_at(coord)) == if self.screen.on_edge(coord) {
            Some(Color::Fail)
        } else {
            self.screen.color_at(coord)
        } by {
            self.screen.lemma_painted_color_at(new_head, Color::Snake, coord);
            grown.screen.lemma_edges_painted_color_at(Color::Fail, coord);
        }
    }

    /// A living snake whose next cell reads as neither food nor snake moves on: its
    /// length stays, the next cell becomes its head and reads as snake, the cell
    /// its tail gives up reads as background, and every other cell reads as it
    /// did. So food that was the only food stays the only food.
    pub proof fn lemma_plain_move(self, skip: int)
        requires
            self.wf(),
            self.alive,
            self.screen.color_at(self.next_head()) != Some(Color::Food),
            self.screen.color_at(self.next_head()) != Some(Color::Snake),
        ensures
            self.ticked(skip).alive,
            self.tick_outcome() is Ok,
            self.ticked(skip).snake == self.snake.push(self.next_head()).drop_first(),
            self.ticked(skip).snake.len() == self.snake.len(),
            forall|coord: Coord|
                self.screen.contains(coord) ==> (#[trigger] self.ticked(skip).screen.color_at(coord))
                    == if coord == self.snake[0] {
                    Some(Color::Background)
                } else if coord == self.next_head() {
                    Some(Color::Snake)
                } else {
                    self.screen.color_at(coord)
                },
            forall|food: Coord|
                self.screen.food_only_at(food) ==> #[trigger] self.ticked(skip).screen.food_only_at(
                    food,
                ),
    {
        let new_head = self.next_head();
        let tail = self.snake[0];
        let grown = self.extended(new_head);
        let after = self.ticked(skip);
        self.lemma_next_head();
        assert forall|coord: Coord| self.screen.contains(coord) implies (
        #[trigger] after.screen.color_at(coord)) == if coord == tail {
            Some(Color::Background)
        } else if coord == new_head {
            Some(Color::Snake)
        } else {
            self.screen.color_at(coord)
        } by {
            self.screen.lemma_painted_color_at(new_head, Color::Snake, coord);
            grown.screen.lemma_painted_color_at(tail, Color::Background, coord);
        }
    }

    /// A living snake whose next cell reads as food grows by exactly one cell when
    /// the tick succeeds. The new food lies on a cell that read as background, so
    /// neither under the snake nor where the food was; every other cell but the new
    /// head reads as it did. Where the food eaten was the only food, the new food is
    /// again the only food.
    pub proof fn lemma_eating_grows(self, skip: int)
        requires
            self.wf(),
            self.feeds(),
            self.tick_outcome() is Ok,
        ensures
            self.ticked(skip).alive,
            self.ticked(skip).snake == self.snake.push(self.next_head()),
            self.ticked(skip).snake.len() == self.snake.len() + 1,
            self.screen.contains(self.new_food(skip)),
            self.new_food(skip) != self.next_head(),
            !self.ticked(skip).snake.contains(self.new_food(skip)),
            self.screen.color_at(self.new_food(skip)) == Some(Color::Background),
            forall|coord: Coord|
                self.screen.contains(coord) ==> (#[trigger] self.ticked(skip).screen.color_at(coord))
                    == if coord == self.new_food(skip) {
                    Some(Color::Food)
                } else if coord == self.next_head() {
                    Some(Color::Snake)
                } else {
                    self.screen.color_at(coord)
                },
            self.screen.food_only_at(self.next_head()) ==> self.ticked(skip).screen.food_only_at(
                self.new_food(skip),
            ),
    {
        let new_head = self.next_head();
        let grown = self.extended(new_head);
        let target = self.new_food(skip);
        self.lemma_next_head();
        self.lemma_extended_wf(new_head);
        grown.screen.lemma_free_cells();
        self.screen.lemma_painted_color_at(new_head, Color::Snake, target);
        assert forall|coord: Coord| self.screen.contains(coord) implies (#[trigger] self.ticked(
            skip,
        ).screen.color_at(coord)) == if coord == target {
            Some(Color::Food)
        } else if coord == new_head {
            Some(Color::Snake)
        } else {
            self.screen.color_at(coord)
        } by {
            self.screen.lemma_painted_color_at(new_head, Color::Snake, coord);
            grown.screen.lemma_painted_color_at(target, Color::Food, coord);
        }
    }

    /// A snake that lives through a successful tick and had exactly one food on
    /// the grid before has exactly one after: the same one where it only moved,
    /// and the new one where it ate.
    pub proof fn lemma_one_food_stays(self, skip: int)
        requires
            self.wf(),
            self.alive,
            self.screen.has_one_food(),
            self.tick_outcome() is Ok,
            self.ticked(skip).alive,
        ensures
            self.ticked(skip).screen.has_one_food(),
    {
        let food = choose|coord: Coord| #[trigger] self.screen.food_only_at(coord);
        self.lemma_next_head();
        if self.feeds() {
            self.lemma_eating_grows(skip);
        } else {
            self.lemma_plain_move(skip);
            assert(self.ticked(skip).screen.food_only_at(food));
        }
    }
}

} // verus!
