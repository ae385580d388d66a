//! The grid as mathematics: which bytes stand for which cell, what each cell reads
//! as, and what painting does to the bytes.

use crate::world::color::Color;
use crate::world::coord::Coord;
use vstd::arithmetic::div_mod::lemma_fundamental_div_mod;
use vstd::arithmetic::div_mod::lemma_fundamental_div_mod_converse;
use vstd::prelude::*;

verus! {

/// What a `Screen` holds, as mathematics: its two dimensions and its bytes.
///
/// The cells lie row by row from the top left. Each takes four bytes: red, green,
/// blue, and a fourth that no write touches.
pub struct Canvas {
    pub width: int,
    pub height: int,
    pub pixels: Seq<u8>,
}

// The shape of the grid: its cells, their order, and where their bytes lie.
impl Canvas {
    /// The number of cells.
    pub open spec fn cell_count(self) -> int {
        self.width * self.height
    }

    /// Both dimensions are positive, and the buffer has four bytes for each cell and
    /// no more than a `u32` can count.
    pub open spec fn wf(self) -> bool {
        &&& self.width > 0
        &&& self.height > 0
        &&& self.cell_count() * 4 <= u32::MAX
        &&& self.pixels.len() == self.cell_count() * 4
    }

    /// Whether `coord` names a cell of the grid.
    pub open spec fn contains(self, coord: Coord) -> bool {
        &&& 0 <= coord.x < self.width
        &&& 0 <= coord.y < self.height
    }

    /// The place of a cell in row-major order.
    pub open spec fn index_of(self, coord: Coord) -> int {
        coord.y * self.width + coord.x
    }

    /// The cell that stands at place `index` in row-major order.
    pub open spec fn coord_at(self, index: int) -> Coord {
        Coord { x: (index % self.width) as i32, y: (index / self.width) as i32 }
    }

    /// Where in the buffer the bytes of a cell begin.
    pub open spec fn offset(self, coord: Coord) -> int {
        (coord.y * self.width + coord.x) * 4
    }

    /// Every cell of the grid, row by row from the top left.
    pub open spec fn coords(self) -> Seq<Coord> {
        Seq::new(self.cell_count() as nat, |index: int| self.coord_at(index))
    }

    /// Whether a cell lies in the first or last row or column.
    pub open spec fn on_edge(self, coord: Coord) -> bool {
        ||| coord.x == 0
        ||| coord.y == 0
        ||| coord.x == self.width - 1
        ||| coord.y == self.height - 1
    }

    /// The cell that `coord` names once each axis is reduced modulo its dimension,
    /// after the dimension is added so that a step off the left or top edge comes
    /// back in at the other side.
    pub open spec fn wrapped(self, coord: Coord) -> Coord {
        Coord {
            x: ((coord.x + self.width) % self.width) as i32,
            y: ((coord.y + self.height) % self.height) as i32,
        }
    }

    /// Neither dimension of a well-formed canvas exceeds its cell count, so both are
    /// below 2^30.
    pub proof fn lemma_dimensions_fit(self)
        requires
            self.wf(),
        ensures
            self.width <= self.cell_count(),
            self.height <= self.cell_count(),
            self.cell_count() < 0x4000_0000,
    {
        let w = self.width;
        let h = self.height;
        assert(w <= w * h && h <= w * h) by (nonlinear_arith)
            requires
                0 < w,
                0 < h,
        ;
    }

    /// Row-major order and coordinates name the same cells: a cell's place is below
    /// the cell count, the cell at that place is the cell itself, and its bytes
    /// begin at four times its place.
    pub proof fn lemma_index_of_coord(self, coord: Coord)
        requires
            self.wf(),
            self.contains(coord),
        ensures
            0 <= self.index_of(coord) < self.cell_count(),
            self.coord_at(self.index_of(coord)) == coord,
            self.offset(coord) == 4 * self.index_of(coord),
    {
        let w = self.width;
        let h = self.height;
        let x = coord.x as int;
        let y = coord.y as int;
        assert(0 <= y * w && y * w + w <= w * h) by (nonlinear_arith)
            requires
                0 <= y < h,
                0 < w,
        ;
        lemma_fundamental_div_mod_converse(y * w + x, w, y, x);
    }

    /// Every place below the cell count is the place of one cell of the grid.
    pub proof fn lemma_coord_at_index(self, index: int)
        requires
            self.wf(),
            0 <= index < self.cell_count(),
        ensures
            self.contains(self.coord_at(index)),
            self.index_of(self.coord_at(index)) == index,
            self.offset(self.coord_at(index)) == 4 * index,
    {
        let w = self.width;
        let h = self.height;
        let q = index / w;
        let r = index % w;
        lemma_fundamental_div_mod(index, w);
        assert(0 <= q < h && w * q == q * w) by (nonlinear_arith)
            requires
                index == w * q + r,
                0 <= r < w,
                0 <= index < w * h,
        ;
    }

    /// Wrapping lands on the grid. A cell of the grid wraps to itself; one step off
    /// the right or bottom edge wraps to the first column or row, and one step off
    /// the left or top edge to the last.
    pub proof fn lemma_wrapped(self, coord: Coord)
        requires
            self.wf(),
            -self.width <= coord.x <= self.width,
            -self.height <= coord.y <= self.height,
        ensures
            self.contains(self.wrapped(coord)),
            0 <= coord.x < self.width ==> self.wrapped(coord).x == coord.x,
            0 <= coord.y < self.height ==> self.wrapped(coord).y == coord.y,
            coord.x == self.width ==> self.wrapped(coord).x == 0,
            coord.y == self.height ==> self.wrapped(coord).y == 0,
            coord.x == -1 ==> self.wrapped(coord).x == self.width - 1,
            coord.y == -1 ==> self.wrapped(coord).y == self.height - 1,
    {
        self.lemma_dimensions_fit();
        let w = self.width;
        let h = self.height;
        let x = coord.x as int;
        let y = coord.y as int;
        if 0 <= x < w {
            lemma_fundamental_div_mod_converse(x + w, w, 1, x);
        }
        if 0 <= y < h {
            lemma_fundamental_div_mod_converse(y + h, h, 1, y);
        }
        if x == w {
            lemma_fundamental_div_mod_converse(x + w, w, 2, 0);
        }
        if y == h {
            lemma_fundamental_div_mod_converse(y + h, h, 2, 0);
        }
        if x == -1 {
            lemma_fundamental_div_mod_converse(x + w, w, 0, w - 1);
        }
        if y == -1 {
            lemma_fundamental_div_mod_converse(y + h, h, 0, h - 1);
        }
    }
}

// What the cells read as.
impl Canvas {
    /// The colour that the three bytes of a cell stand for, if they stand for one.
    pub open spec fn color_at(self, coord: Coord) -> Option<Color> {
        let at = self.offset(coord);
        Color::decode(self.pixels[at], self.pixels[at + 1], self.pixels[at + 2])
    }

    /// The fourth byte of a cell, which no write touches.
    pub open spec fn pad_at(self, coord: Coord) -> u8 {
        self.pixels[self.offset(coord) + 3]
    }

    /// Whether the bytes of every cell stand for a colour.
    pub open spec fn legible(self) -> bool {
        forall|coord: Coord| self.contains(coord) ==> (#[trigger] self.color_at(coord)) is Some
    }

    /// Whether the fourth byte of every cell is 255, as it is when the buffer is
    /// allocated.
    pub open spec fn opaque(self) -> bool {
        forall|coord: Coord| self.contains(coord) ==> (#[trigger] self.pad_at(coord)) == 255
    }

    /// Every cell of the grid in the order of `coords`, each with the colour it
    /// reads as.
    pub open spec fn cells(self) -> Seq<(Color, Coord)> {
        Seq::new(
            self.cell_count() as nat,
            |index: int| (self.color_at(self.coord_at(index))->Some_0, self.coord_at(index)),
        )
    }

    /// Whether a cell reads as background, as a function of the cell alone.
    pub open spec fn is_free(self) -> spec_fn(Coord) -> bool {
        |coord: Coord| self.color_at(coord) == Some(Color::Background)
    }

    /// The cells that read as background, in row-major order.
    pub open spec fn free_cells(self) -> Seq<Coord> {
        self.coords().filter(self.is_free())
    }

    /// Whether `coord` is a cell of the grid and the only one that reads as food.
    pub open spec fn food_only_at(self, coord: Coord) -> bool {
        &&& self.contains(coord)
        &&& forall|other: Coord|
            self.contains(other) ==> ((#[trigger] self.color_at(other)) == Some(Color::Food)
                <==> other == coord)
    }

    /// Whether exactly one cell of the grid reads as food.
    pub open spec fn has_one_food(self) -> bool {
        exists|coord: Coord| #[trigger] self.food_only_at(coord)
    }

    /// The free cells are cells of the grid that read as background, and every
    /// such cell is among them.
    pub proof fn lemma_free_cells(self)
        requires
            self.wf(),
        ensures
            forall|i: int|
                0 <= i < self.free_cells().len() ==> self.contains(#[trigger] self.free_cells()[i])
                    && self.color_at(self.free_cells()[i]) == Some(Color::Background),
            forall|coord: Coord|
                self.contains(coord) && self.color_at(coord) == Some(Color::Background)
                    ==> #[trigger] self.free_cells().contains(coord),
    {
        let free = self.free_cells();
        let coords = self.coords();
        assert forall|i: int| 0 <= i < free.len() implies self.contains(#[trigger] free[i])
            && self.color_at(free[i]) == Some(Color::Background) by {
            coords.lemma_filter_contains_rev(self.is_free(), free[i]);
            let n = choose|n: int| 0 <= n < coords.len() && coords[n] == free[i];
            self.lemma_coord_at_index(n);
        }
        assert forall|coord: Coord|
            self.contains(coord) && self.color_at(coord) == Some(
                Color::Background,
            ) implies #[trigger] free.contains(coord) by {
            self.lemma_index_of_coord(coord);
            coords.lemma_filter_contains(self.is_free(), self.index_of(coord));
        }
    }

    /// A well-formed canvas is determined by what each cell reads as and by the
    /// fourth byte of each cell, given that every cell reads as some colour.
    pub proof fn lemma_cells_determine_canvas(self, other: Canvas)
        requires
            self.wf(),
            other.wf(),
            self.width == other.width,
            self.height == other.height,
            self.legible(),
            forall|coord: Coord| #[trigger]
                self.contains(coord) ==> self.color_at(coord) == other.color_at(coord)
                    && self.pad_at(coord) == other.pad_at(coord),
        ensures
            self == other,
    {
        assert forall|at: int| 0 <= at < self.pixels.len() implies self.pixels[at]
            == other.pixels[at] by {
            self.lemma_coord_at_index(at / 4);
        }
        assert(self.pixels =~= other.pixels);
    }
}

// How a canvas is made and painted.
impl Canvas {
    /// The canvas as it is allocated: every byte 255.
    pub open spec fn blank(width: int, height: int) -> Canvas {
        Canvas { width, height, pixels: Seq::new((width * height * 4) as nat, |at: int| 255u8) }
    }

    /// The canvas whose cells read as `shown` says, each with 255 as its fourth byte.
    pub open spec fn showing(width: int, height: int, shown: spec_fn(Coord) -> Color) -> Canvas {
        let frame = Canvas::blank(width, height);
        Canvas {
            pixels: Seq::new(
                frame.pixels.len(),
                |at: int|
                    if at % 4 == 3 {
                        255u8
                    } else {
                        shown(frame.coord_at(at / 4)).rgb()[at % 4]
                    },
            ),
            ..frame
        }
    }

    /// The canvas after the three colour bytes of one cell are overwritten.
    pub open spec fn painted(self, coord: Coord, color: Color) -> Canvas {
        let at = self.offset(coord);
        let rgb = color.rgb();
        Canvas {
            pixels: self.pixels.update(at, rgb[0]).update(at + 1, rgb[1]).update(at + 2, rgb[2]),
            ..self
        }
    }

    /// The canvas after each cell of `coords` is painted with `color`, first to last.
    pub open spec fn painted_all(self, coords: Seq<Coord>, color: Color) -> Canvas
        decreases coords.len(),
    {
        if coords.len() == 0 {
            self
        } else {
            self.painted_all(coords.drop_last(), color).painted(coords.last(), color)
        }
    }

    /// The canvas after every cell is painted with the background colour: the three
    /// colour bytes of each cell are those of the background, the fourth is kept.
    pub open spec fn cleared(self) -> Canvas {
        Canvas {
            pixels: Seq::new(
                self.pixels.len(),
                |at: int|
                    if at % 4 == 3 {
                        self.pixels[at]
                    } else {
                        Color::Background.rgb()[at % 4]
                    },
            ),
            ..self
        }
    }

    /// The canvas after every cell of the outer border is painted with `color`.
    pub open spec fn edges_painted(self, color: Color) -> Canvas {
        Canvas {
            pixels: Seq::new(
                self.pixels.len(),
                |at: int|
                    if at % 4 != 3 && self.on_edge(self.coord_at(at / 4)) {
                        color.rgb()[at % 4]
                    } else {
                        self.pixels[at]
                    },
            ),
            ..self
        }
    }

    /// A freshly allocated canvas is well formed and opaque.
    pub proof fn lemma_blank(width: int, height: int)
        requires
            width > 0,
            height > 0,
            width * height * 4 <= u32::MAX,
        ensures
            Canvas::blank(width, height).wf(),
            Canvas::blank(width, height).opaque(),
    {
        let canvas = Canvas::blank(width, height);
        assert forall|coord: Coord| canvas.contains(coord) implies (#[trigger] canvas.pad_at(coord))
            == 255 by {
            canvas.lemma_index_of_coord(coord);
        }
    }

    /// A canvas made by `showing` is well formed, legible and opaque, and each cell
    /// reads as was asked.
    pub proof fn lemma_showing(width: int, height: int, shown: spec_fn(Coord) -> Color)
        requires
            width > 0,
            height > 0,
            width * height * 4 <= u32::MAX,
        ensures
            Canvas::showing(width, height, shown).wf(),
            Canvas::showing(width, height, shown).legible(),
            Canvas::showing(width, height, shown).opaque(),
            forall|coord: Coord| #[trigger]
                Canvas::showing(width, height, shown).contains(coord) ==> Canvas::showing(
                    width,
                    height,
                    shown,
                ).color_at(coord) == Some(shown(coord)),
    {
        let canvas = Canvas::showing(width, height, shown);
        assert forall|coord: Coord| #[trigger] canvas.contains(coord) implies canvas.color_at(coord)
            == Some(shown(coord)) && canvas.pad_at(coord) == 255 by {
            canvas.lemma_index_of_coord(coord);
        }
    }

    /// What is painted is read back: painting a cell keeps the canvas well formed
    /// and makes that cell read as the colour painted. It changes what no other
    /// cell reads as, and leaves the fourth byte of every cell as it was.
    pub proof fn lemma_painted_color_at(self, coord: Coord, color: Color, other: Coord)
        requires
            self.wf(),
            self.contains(coord),
            self.contains(other),
        ensures
            self.painted(coord, color).wf(),
            self.painted(coord, color).color_at(coord) == Some(color),
            other != coord ==> self.painted(coord, color).color_at(other) == self.color_at(other),
            self.painted(coord, color).pad_at(other) == self.pad_at(other),
    {
        self.lemma_index_of_coord(coord);
        self.lemma_index_of_coord(other);
    }

    /// Painting several cells keeps the canvas well formed, makes each of them read
    /// as the colour painted, changes what no other cell reads as, and leaves the
    /// fourth byte of every cell as it was.
    pub proof fn lemma_painted_all_color_at(self, coords: Seq<Coord>, color: Color, other: Coord)
        requires
            self.wf(),
            forall|i: int| 0 <= i < coords.len() ==> self.contains(#[trigger] coords[i]),
            self.contains(other),
        ensures
            self.painted_all(coords, color).wf(),
            self.painted_all(coords, color).width == self.width,
            self.painted_all(coords, color).height == self.height,
            self.painted_all(coords, color).color_at(other) == if coords.contains(other) {
                Some(color)
            } else {
                self.color_at(other)
            },
            self.painted_all(coords, color).pad_at(other) == self.pad_at(other),
        decreases coords.len(),
    {
        if coords.len() > 0 {
            let front = coords.drop_last();
            self.lemma_painted_all_color_at(front, color, other);
            self.painted_all(front, color).lemma_painted_color_at(coords.last(), color, other);
            if coords.contains(other) && other != coords.last() {
                let i = choose|i: int| 0 <= i < coords.len() && coords[i] == other;
                assert(front[i] == other);
            }
        }
    }

    /// After a clear the canvas is well formed, every cell reads as background, and
    /// the fourth byte of every cell is as it was.
    pub proof fn lemma_cleared_color_at(self, coord: Coord)
        requires
            self.wf(),
            self.contains(coord),
        ensures
            self.cleared().wf(),
            self.cleared().color_at(coord) == Some(Color::Background),
            self.cleared().pad_at(coord) == self.pad_at(coord),
    {
        self.lemma_index_of_coord(coord);
    }

    /// After the border is painted the canvas is well formed, a border cell reads as
    /// the colour painted, every other cell reads as it did, and the fourth byte of
    /// every cell is as it was.
    pub proof fn lemma_edges_painted_color_at(self, color: Color, coord: Coord)
        requires
            self.wf(),
            self.contains(coord),
        ensures
            self.edges_painted(color).wf(),
            self.edges_painted(color).color_at(coord) == if self.on_edge(coord) {
                Some(color)
            } else {
                self.color_at(coord)
            },
            self.edges_painted(color).pad_at(coord) == self.pad_at(coord),
    {
        self.lemma_index_of_coord(coord);
    }
}

} // verus!
