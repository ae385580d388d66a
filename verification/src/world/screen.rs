//! The grid of cells and the byte buffer that holds it.

use crate::world::canvas::Canvas;
use crate::world::color::Color;
use crate::world::color::Rgb;
use crate::world::coord::Coord;
use crate::world::error::InternalConsistencyError;
use vstd::prelude::*;

verus! {

/// How many bytes of the buffer one cell takes: red, green, blue, and one byte that
/// no write touches.
pub const BYTES_PER_PIXEL: u32 = 4;

/// A rectangle of cells, stored row by row from the top left, four bytes to a cell.
pub struct Screen {
    /// The bytes of all cells, ready to be shown as they are.
    pub pixel_buffer: Vec<u8>,
    /// The number of cells.
    pub pixel_count: u32,
    /// The number of cells in a row.
    pub width: u32,
    /// The number of rows.
    pub height: u32,
}

impl View for Screen {
    type V = Canvas;

    open spec fn view(&self) -> Canvas {
        Canvas {
            width: self.width as int,
            height: self.height as int,
            pixels: self.pixel_buffer@,
        }
    }
}

impl Screen {
    /// The canvas is well formed and `pixel_count` is the number of its cells.
    pub open spec fn wf(&self) -> bool {
        &&& self@.wf()
        &&& self.pixel_count == self.width * self.height
    }

    /// Allocates the buffer of a `width` by `height` grid, every byte 255.
    pub fn new(width: u32, height: u32) -> (screen: Screen)
        requires
            width > 0,
            height > 0,
            width * height * 4 <= u32::MAX,
        ensures
            screen.wf(),
            screen@ == Canvas::blank(width as int, height as int),
    {
        assert(width * height <= width * height * 4) by (nonlinear_arith)
            requires
                width > 0,
                height > 0,
        ;
        let pixel_count = width * height;
        let screen_size_in_bytes = pixel_count * BYTES_PER_PIXEL;
        let screen = Screen {
            pixel_count,
            width,
            height,
            pixel_buffer: vec![255u8; screen_size_in_bytes as usize],
        };
        assert(screen@.pixels =~= Canvas::blank(width as int, height as int).pixels);
        screen
    }

    /// Paints every cell with the background colour. The fourth byte of each cell
    /// stays as it is.
    pub fn clear(&mut self)
        requires
            old(self).wf(),
        ensures
            final(self).wf(),
            final(self)@ == old(self)@.cleared(),
            forall|coord: Coord|
                final(self)@.contains(coord) ==> (#[trigger] final(self)@.color_at(coord)) == Some(
                    Color::Background,
                ),
    {
        let ghost before = self@;
        let coords = self.iter_coords();
        let mut n: usize = 0;
        while n < coords.len()
            invariant
                self.wf(),
                before.wf(),
                self@.width == before.width,
                self@.height == before.height,
                coords@ == before.coords(),
                n <= coords.len(),
                forall|at: int|
                    0 <= at < before.pixels.len() ==> (#[trigger] self@.pixels[at]) == if at / 4
                        < n && at % 4 != 3 {
                        Color::Background.rgb()[at % 4]
                    } else {
                        before.pixels[at]
                    },
            decreases coords.len() - n,
        {
            proof {
                before.lemma_coord_at_index(n as int);
            }
            self.set_color_at(&coords[n], Color::Background);
            n += 1;
        }
        proof {
            assert(self@.pixels =~= before.cleared().pixels);
            assert forall|coord: Coord| self@.contains(coord) implies (#[trigger] self@.color_at(
                coord,
            )) == Some(Color::Background) by {
                before.lemma_cleared_color_at(coord);
            }
        }
    }

    /// Writes the three colour bytes of one cell. The fourth byte of the cell, and
    /// every other cell, stay as they are; the cell then reads as `color`.
    pub fn set_color_at(&mut self, coord: &Coord, color: Color)
        requires
            old(self).wf(),
            old(self)@.contains(*coord),
        ensures
            final(self).wf(),
            final(self)@ == old(self)@.painted(*coord, color),
            final(self)@.color_at(*coord) == Some(color),
    {
        proof {
            self@.lemma_index_of_coord(*coord);
        }
        let i = self.get_buffer_index_for(coord);
        let rgb = Rgb::from(&color);
        self.pixel_buffer[i] = rgb[0];
        self.pixel_buffer[i + 1] = rgb[1];
        self.pixel_buffer[i + 2] = rgb[2];
    }

    /// Paints every cell of the outer border with `color`: the cells of the first
    /// and last row and of the first and last column. Every other cell stays as it
    /// is.
    pub fn set_color_at_edges(&mut self, color: Color)
        requires
            old(self).wf(),
        ensures
            final(self).wf(),
            final(self)@ == old(self)@.edges_painted(color),
            forall|coord: Coord|
                final(self)@.contains(coord) ==> (#[trigger] final(self)@.color_at(coord)) == if old(
                    self,
                )@.on_edge(coord) {
                    Some(color)
                } else {
                    old(self)@.color_at(coord)
                },
    {
        let ghost before = self@;
        proof {
            before.lemma_dimensions_fit();
        }
        let screen_width = self.width as i32;
        let screen_height = self.height as i32;
        let coords = self.iter_coords();
        let mut n: usize = 0;
        while n < coords.len()
            invariant
                self.wf(),
                before.wf(),
                self@.width == before.width,
                self@.height == before.height,
                screen_width == before.width,
                screen_height == before.height,
                coords@ == before.coords(),
                n <= coords.len(),
                forall|at: int|
                    0 <= at < before.pixels.len() ==> (#[trigger] self@.pixels[at]) == if at / 4
                        < n && at % 4 != 3 && before.on_edge(before.coord_at(at / 4)) {
                        color.rgb()[at % 4]
                    } else {
                        before.pixels[at]
                    },
            decreases coords.len() - n,
        {
            let coord = coords[n];
            if coord.x == 0 || coord.y == 0 || coord.x == screen_width - 1 || coord.y
                == screen_height - 1 {
                proof {
                    before.lemma_coord_at_index(n as int);
                }
                self.set_color_at(&coord, color);
            }
            n += 1;
        }
        proof {
            assert(self@.pixels =~= before.edges_painted(color).pixels);
            assert forall|coord: Coord| self@.contains(coord) implies (#[trigger] self@.color_at(
                coord,
            )) == if before.on_edge(coord) {
                Some(color)
            } else {
                before.color_at(coord)
            } by {
                before.lemma_edges_painted_color_at(color, coord);
            }
        }
    }

    /// Reads the three colour bytes of one cell and decodes them. It fails exactly
    /// when they are the encoding of no colour.
    pub fn get_color_at(&self, coord: &Coord) -> (color: Result<Color, InternalConsistencyError>)
        requires
            self.wf(),
            self@.contains(*coord),
        ensures
            color is Ok <==> self@.color_at(*coord) is Some,
            color matches Ok(found) ==> self@.color_at(*coord) == Some(found),
            color matches Err(error) ==> error == InternalConsistencyError::UnknownColor,
    {
        proof {
            self@.lemma_index_of_coord(*coord);
        }
        let i = self.get_buffer_index_for(coord);
        let rgb: Rgb = [self.pixel_buffer[i], self.pixel_buffer[i + 1], self.pixel_buffer[i + 2]];
        Color::try_from(&rgb)
    }

    /// Where in the buffer the bytes of a cell begin: `(y * width + x) * 4`.
    pub fn get_buffer_index_for(&self, coord: &Coord) -> (index: usize)
        requires
            coord.x >= 0,
            coord.y >= 0,
            (coord.y * self.width + coord.x) * 4 <= usize::MAX,
        ensures
            index == (coord.y * self.width + coord.x) * 4,
            index == self@.offset(*coord),
    {
        assert(0 <= coord.y * self.width <= coord.y * self.width + coord.x) by (nonlinear_arith)
            requires
                coord.x >= 0,
                coord.y >= 0,
                self.width >= 0,
        ;
        (coord.y as usize * self.width as usize + coord.x as usize) * BYTES_PER_PIXEL as usize
    }

    /// Every cell of the grid, row by row from the top left.
    pub fn iter_coords(&self) -> (coords: Vec<Coord>)
        requires
            self.wf(),
        ensures
            coords@ == self@.coords(),
    {
        let width = self.width;
        let height = self.height;
        let mut coords: Vec<Coord> = Vec::new();
        proof {
            self@.lemma_dimensions_fit();
        }
        for y in 0..height as i32
            invariant
                self.wf(),
                width == self.width,
                height == self.height,
                coords@.len() == y * width,
                forall|index: int|
                    0 <= index < coords@.len() ==> coords@[index] == self@.coord_at(index),
        {
            proof {
                self@.lemma_dimensions_fit();
            }
            for x in 0..width as i32
                invariant
                    self.wf(),
                    width == self.width,
                    height == self.height,
                    0 <= y < height,
                    coords@.len() == y * width + x,
                    forall|index: int|
                        0 <= index < coords@.len() ==> coords@[index] == self@.coord_at(index),
            {
                proof {
                    self@.lemma_index_of_coord(Coord { x, y });
                }
                coords.push((x, y).into());
            }
            assert((y + 1) * width == y * width + width) by (nonlinear_arith);
        }
        assert(width * height == height * width) by (nonlinear_arith);
        coords
    }

    /// Every cell in the order of `iter_coords`, each with the colour it reads as.
    /// It fails exactly when the bytes of some cell are the encoding of no colour.
    pub fn iter_pixels(&self) -> (pixels: Result<Vec<(Color, Coord)>, InternalConsistencyError>)
        requires
            self.wf(),
        ensures
            pixels is Ok <==> self@.legible(),
            pixels matches Ok(cells) ==> cells@ == self@.cells(),
            pixels matches Err(error) ==> error == InternalConsistencyError::UnknownColor,
    {
        let coords = self.iter_coords();
        let mut cells: Vec<(Color, Coord)> = Vec::new();
        let mut n: usize = 0;
        while n < coords.len()
            invariant
                self.wf(),
                coords@ == self@.coords(),
                n <= coords.len(),
                cells@.len() == n,
                forall|index: int|
                    0 <= index < n ==> (#[trigger] self@.color_at(self@.coord_at(index))) is Some,
                forall|index: int| 0 <= index < n ==> cells@[index] == self@.cells()[index],
            decreases coords.len() - n,
        {
            let coord = coords[n];
            proof {
                self@.lemma_coord_at_index(n as int);
            }
            match self.get_color_at(&coord) {
                Ok(color) => cells.push((color, coord)),
                Err(error) => {
                    return Err(error);
                },
            }
            n += 1;
        }
        proof {
            assert forall|coord: Coord| self@.contains(coord) implies (#[trigger] self@.color_at(
                coord,
            )) is Some by {
                self@.lemma_index_of_coord(coord);
            }
        }
        Ok(cells)
    }
}

} // verus!
