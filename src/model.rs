//! The mathematical model of an engine: its grid, counters and pixels,
//! and the transition rule stated over them.
use vstd::prelude::*;

use crate::canvas::{pixel_col, pixel_row};
use crate::pattern::{offsets_of, Pattern};

verus! {

/// Colour of a dead cell.
pub const BACKGROUND: u32 = 0x000000;

/// Colour of every live cell under `ColorScheme::Uniform`.
pub const LAVENDER: u32 = 0xe6e6fa;

/// Number of colours in the cycling palette.
pub const PALETTE_LEN: usize = 5;

/// How `render` colours a live cell.
#[derive(Clone, Copy, PartialEq, Eq, Structural, Debug)]
pub enum ColorScheme {
    /// Palette entry picked by the cell's 20x20 region and the generation.
    Regional,
    /// Palette entry picked by the cell's age.
    ByAge,
    /// One fixed colour.
    Uniform,
}

/// The cycling palette.
pub open spec fn palette(i: nat) -> u32 {
    if i == 0 {
        0xffd6ff
    } else if i == 1 {
        0xe7c6ff
    } else if i == 2 {
        0xc8b6ff
    } else if i == 3 {
        0xb8c0ff
    } else {
        0xbbd0ff
    }
}

/// `v` taken modulo `n`, in `0..n`.
pub open spec fn wrap(v: int, n: nat) -> int {
    v % (n as int)
}

/// The eight Moore-neighbourhood offsets, scanned row by row over the 3x3
/// window with its centre left out.
pub open spec fn neighbor_offsets() -> Seq<(int, int)> {
    Seq::new(8, |k: int| window_offset(if k < 4 { k } else { k + 1 }))
}

/// Offset of position `j` (0..9) of the 3x3 window, row by row.
pub open spec fn window_offset(j: int) -> (int, int) {
    (j % 3 - 1, j / 3 - 1)
}

/// The transition rule on one cell, from its age and its count of live
/// neighbours. Without ageing a live cell stays at age 1; with ageing a
/// surviving cell's age goes up by one and stops at the largest `u8`.
pub open spec fn next_age(age: u8, n: nat, aged: bool) -> u8 {
    if age > 0 && (n == 2 || n == 3) {
        if !aged {
            1
        } else if age < u8::MAX {
            (age + 1) as u8
        } else {
            u8::MAX
        }
    } else if age == 0 && n == 3 {
        1
    } else {
        0
    }
}

/// Number of nonzero entries of a row.
pub open spec fn row_live(row: Seq<u8>) -> nat
    decreases row.len(),
{
    if row.len() == 0 {
        0
    } else {
        row_live(row.drop_last()) + if row.last() > 0 { 1nat } else { 0nat }
    }
}

/// Number of nonzero entries of a grid.
pub open spec fn grid_live(rows: Seq<Seq<u8>>) -> nat
    decreases rows.len(),
{
    if rows.len() == 0 {
        0
    } else {
        grid_live(rows.drop_last()) + row_live(rows.last())
    }
}

/// The cells of a `width`-wide rectangle, read row by row, whose random
/// draw falls below `threshold`, as offsets `(column, row)`.
pub open spec fn scatter_offsets(draws: Seq<u32>, width: nat, threshold: u32) -> Seq<(usize, usize)>
    decreases draws.len(),
{
    if draws.len() == 0 {
        Seq::empty()
    } else {
        let k = draws.len() - 1;
        let rest = scatter_offsets(draws.drop_last(), width, threshold);
        if draws.last() < threshold {
            rest.push(((k % (width as int)) as usize, (k / (width as int)) as usize))
        } else {
            rest
        }
    }
}

/// A grid of `width` x `height` dead cells.
pub open spec fn dead_grid(width: nat, height: nat) -> Seq<Seq<u8>> {
    Seq::new(height, |y: int| Seq::new(width, |x: int| 0u8))
}

/// The state of an engine.
pub struct Life {
    pub width: nat,
    pub height: nat,
    pub cell_size: nat,
    /// Ages, row by row: `cells[y][x]`, 0 for a dead cell.
    pub cells: Seq<Seq<u8>>,
    /// The magnified canvas, row by row.
    pub pixels: Seq<u32>,
    pub generation: nat,
    pub paused: bool,
    pub aged: bool,
    pub scheme: ColorScheme,
    /// Least number of milliseconds between two accepted ticks.
    pub tick_rate: nat,
    /// Time, in milliseconds, of the last accepted tick.
    pub last_update: nat,
}

impl Life {
    /// A fresh engine: every cell dead, a background canvas, generation 0,
    /// running, and no tick taken yet (time 0).
    pub open spec fn blank(
        width: nat,
        height: nat,
        cell_size: nat,
        aged: bool,
        scheme: ColorScheme,
        tick_rate: nat,
    ) -> Life {
        Life {
            width,
            height,
            cell_size,
            cells: dead_grid(width, height),
            pixels: Seq::new((width * cell_size) * (height * cell_size), |p: int| BACKGROUND),
            generation: 0,
            paused: false,
            aged,
            scheme,
            tick_rate,
            last_update: 0,
        }
    }

    pub open spec fn canvas_width(self) -> nat {
        self.width * self.cell_size
    }

    pub open spec fn canvas_height(self) -> nat {
        self.height * self.cell_size
    }

    pub open spec fn pixel_count(self) -> nat {
        self.canvas_width() * self.canvas_height()
    }

    /// Dimensions are positive, the canvas fits in memory, the grid and the
    /// canvas have the stated sizes and the counters fit their machine types.
    pub open spec fn wf(self) -> bool {
        &&& self.width >= 1
        &&& self.height >= 1
        &&& self.cell_size >= 1
        &&& self.pixel_count() <= usize::MAX
        &&& self.cells.len() == self.height
        &&& forall|y: int| 0 <= y < self.height ==> #[trigger] self.cells[y].len() == self.width
        &&& self.pixels.len() == self.pixel_count()
        &&& self.generation <= usize::MAX
        &&& self.tick_rate <= u64::MAX
        &&& self.last_update <= u64::MAX
    }

    /// Age of the cell at `(x, y)`, both taken around the torus.
    pub open spec fn age(self, x: int, y: int) -> u8 {
        self.cells[wrap(y, self.height)][wrap(x, self.width)]
    }

    pub open spec fn live(self, x: int, y: int) -> bool {
        self.age(x, y) > 0
    }

    /// One step of the neighbour count of `(x, y)`: adds one when the cell
    /// at offset `d` is live.
    pub open spec fn tally(self, x: int, y: int) -> spec_fn(nat, (int, int)) -> nat {
        |n: nat, d: (int, int)| if self.live(x + d.0, y + d.1) { n + 1 } else { n }
    }

    /// Live cells among the eight toroidal neighbours of `(x, y)`.
    pub open spec fn neighbors(self, x: int, y: int) -> nat {
        neighbor_offsets().fold_left(0nat, self.tally(x, y))
    }

    /// The grid after one tick, every cell computed from the current grid.
    pub open spec fn next_cells(self) -> Seq<Seq<u8>> {
        Seq::new(
            self.height,
            |y: int|
                Seq::new(
                    self.width,
                    |x: int| next_age(self.cells[y][x], self.neighbors(x, y), self.aged),
                ),
        )
    }

    /// One tick: the next grid, and the generation counted up.
    pub open spec fn stepped(self) -> Life {
        Life { cells: self.next_cells(), generation: self.generation + 1, ..self }
    }

    pub open spec fn elapsed(self, now: nat) -> nat {
        if now >= self.last_update {
            (now - self.last_update) as nat
        } else {
            0
        }
    }

    /// A tick at time `now` is taken: not paused, and the tick interval has passed.
    pub open spec fn ready(self, now: nat) -> bool {
        !self.paused && self.elapsed(now) >= self.tick_rate
    }

    /// The state after a call to advance at time `now`.
    pub open spec fn advanced(self, now: nat) -> Life {
        if self.ready(now) {
            Life { last_update: now, ..self.stepped() }
        } else {
            self
        }
    }

    pub open spec fn toggled(self) -> Life {
        Life { paused: !self.paused, ..self }
    }

    pub open spec fn cleared(self) -> Life {
        Life { cells: dead_grid(self.width, self.height), generation: 0, ..self }
    }

    /// The cell at `(x, y)` set to age 1 when it lies on the grid; otherwise
    /// nothing changes.
    pub open spec fn with_cell(self, x: int, y: int) -> Life {
        if 0 <= x < self.width && 0 <= y < self.height {
            Life { cells: self.cells.update(y, self.cells[y].update(x, 1u8)), ..self }
        } else {
            self
        }
    }

    /// Some offset of `offsets`, added to the anchor `(x, y)`, lands on `(c, r)`
    /// around the torus.
    pub open spec fn marked(self, offsets: Seq<(usize, usize)>, x: int, y: int, c: int, r: int) -> bool {
        exists|k: int|
            0 <= k < offsets.len() && #[trigger] wrap(x + offsets[k].0, self.width) == c && wrap(
                y + offsets[k].1,
                self.height,
            ) == r
    }

    /// Every cell that an offset lands on set to age 1, the rest unchanged.
    pub open spec fn stamped(self, offsets: Seq<(usize, usize)>, x: int, y: int) -> Life {
        Life {
            cells: Seq::new(
                self.height,
                |r: int|
                    Seq::new(
                        self.width,
                        |c: int|
                            if self.marked(offsets, x, y, c, r) {
                                1u8
                            } else {
                                self.cells[r][c]
                            },
                    ),
            ),
            ..self
        }
    }

    /// The patterns of `scene` stamped in order at their anchors.
    pub open spec fn seeded(self, scene: Seq<(Pattern, usize, usize)>) -> Life
        decreases scene.len(),
    {
        if scene.len() == 0 {
            self
        } else {
            let (p, x, y) = scene.last();
            self.seeded(scene.drop_last()).stamped(offsets_of(p), x as int, y as int)
        }
    }

    /// Number of live cells.
    pub open spec fn live_count(self) -> nat {
        grid_live(self.cells)
    }

    /// Colour of the cell at `(x, y)`.
    pub open spec fn cell_color(self, x: int, y: int) -> u32 {
        let a = self.cells[y][x];
        if a == 0 {
            BACKGROUND
        } else {
            match self.scheme {
                ColorScheme::Regional => palette(
                    ((x / 20 + y / 20 + self.generation / 10) % (PALETTE_LEN as int)) as nat,
                ),
                ColorScheme::ByAge => palette(((a - 1) % (PALETTE_LEN as int)) as nat),
                ColorScheme::Uniform => LAVENDER,
            }
        }
    }

    /// Column of the cell whose block holds pixel `p`.
    pub open spec fn block_x(self, p: int) -> int {
        pixel_col(p, self.width, self.cell_size) / (self.cell_size as int)
    }

    /// Row of the cell whose block holds pixel `p`.
    pub open spec fn block_y(self, p: int) -> int {
        pixel_row(p, self.width, self.cell_size) / (self.cell_size as int)
    }

    /// Column of pixel `p` inside its block.
    pub open spec fn block_dx(self, p: int) -> int {
        pixel_col(p, self.width, self.cell_size) % (self.cell_size as int)
    }

    /// Row of pixel `p` inside its block.
    pub open spec fn block_dy(self, p: int) -> int {
        pixel_row(p, self.width, self.cell_size) % (self.cell_size as int)
    }

    /// Colour of pixel `p` of the canvas: that of the cell whose block holds it.
    pub open spec fn pixel_color(self, p: int) -> u32 {
        self.cell_color(self.block_x(p), self.block_y(p))
    }

    /// The canvas redrawn from the grid and the generation.
    pub open spec fn rendered(self) -> Life {
        Life { pixels: Seq::new(self.pixel_count(), |p: int| self.pixel_color(p)), ..self }
    }
}

} // verus!
