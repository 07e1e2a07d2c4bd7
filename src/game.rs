//! The engine: grid, counters, tick interval and pixel buffer.
use vstd::prelude::*;

use vstd::arithmetic::div_mod::{
    lemma_add_mod_noop, lemma_fundamental_div_mod_converse, lemma_small_mod,
};

use crate::canvas::{lemma_block_pixel, lemma_pixel_split};
use crate::model::{
    dead_grid, grid_live, neighbor_offsets, next_age, palette, row_live, scatter_offsets,
    window_offset, wrap, ColorScheme, Life, BACKGROUND, LAVENDER, PALETTE_LEN,
};
use crate::pattern::{offsets_of, Pattern};

verus! {

/// Grid width of the showcase engine.
pub const WIDTH: usize = 100;

/// Grid height of the showcase engine.
pub const HEIGHT: usize = 100;

/// Side, in pixels, of the square that shows one cell.
pub const CELL_SIZE: usize = 5;

/// Least interval, in milliseconds, between two ticks of the showcase engine.
pub const TICK_RATE_MS: u64 = 70;

/// A Game of Life engine on a torus of fixed size.
pub struct Game {
    grid: Vec<Vec<u8>>,
    buffer: Vec<u32>,
    width: usize,
    height: usize,
    cell_size: usize,
    generation: usize,
    paused: bool,
    aged: bool,
    scheme: ColorScheme,
    tick_rate: u64,
    last_update: u64,
}

impl View for Game {
    type V = Life;

    closed spec fn view(&self) -> Life {
        Life {
            width: self.width as nat,
            height: self.height as nat,
            cell_size: self.cell_size as nat,
            cells: Seq::new(self.grid@.len(), |y: int| self.grid@[y]@),
            pixels: self.buffer@,
            generation: self.generation as nat,
            paused: self.paused,
            aged: self.aged,
            scheme: self.scheme,
            tick_rate: self.tick_rate as nat,
            last_update: self.last_update as nat,
        }
    }
}

/// `(v + d - 1) mod n`: one of the three neighbouring coordinates of `v`.
fn wrap_step(v: usize, d: usize, n: usize) -> (r: usize)
    requires
        v < n,
        d < 3,
    ensures
        r as int == wrap(v + d - 1, n as nat),
{
    if d == 0 {
        if v == 0 {
            proof { lemma_fundamental_div_mod_converse(-1, n as int, -1, n - 1); }
            n - 1
        } else {
            proof { lemma_small_mod((v - 1) as nat, n as nat); }
            v - 1
        }
    } else if d == 1 {
        proof { lemma_small_mod(v as nat, n as nat); }
        v
    } else if v + 1 == n {
        proof { lemma_fundamental_div_mod_converse(n as int, n as int, 1, 0); }
        0
    } else {
        proof { lemma_small_mod((v + 1) as nat, n as nat); }
        v + 1
    }
}

impl Game {
    /// The grid and the buffer have the sizes the model states.
    pub closed spec fn inv(&self) -> bool {
        &&& self@.wf()
        &&& self.grid@.len() == self.height
    }

    /// Live cells among the eight neighbours of `(x, y)`, around the torus.
    pub fn count_live_neighbors(&self, x: usize, y: usize) -> (r: u8)
        requires
            self.inv(),
            x < self@.width,
            y < self@.height,
        ensures
            r as nat == self@.neighbors(x as int, y as int),
            r <= 8,
    {
        let ghost model = self@;
        let ghost f = model.tally(x as int, y as int);
        let mut count: u8 = 0;
        let mut k: usize = 0;
        while k < 8
            invariant
                k <= 8,
                count <= k,
                count as nat == neighbor_offsets().take(k as int).fold_left(0nat, f),
                model == self@,
                f == model.tally(x as int, y as int),
                self.inv(),
                x < self.width,
                y < self.height,
            decreases 8 - k,
        {
            let j: usize = if k < 4 { k } else { k + 1 };
            let nx = wrap_step(x, j % 3, self.width);
            let ny = wrap_step(y, j / 3, self.height);
            let ghost d = window_offset(j as int);
            proof {
                assert(neighbor_offsets()[k as int] == d);
                assert(neighbor_offsets().take(k + 1).drop_last() =~= neighbor_offsets().take(
                    k as int,
                ));
                assert(neighbor_offsets().take(k + 1).last() == d);
                assert(nx as int == wrap(x + d.0, model.width));
                assert(ny as int == wrap(y + d.1, model.height));
                assert(self.grid@[ny as int]@ == model.cells[ny as int]);
                assert(model.live(x + d.0, y + d.1) == (self.grid@[ny as int]@[nx as int] > 0));
            }
            let ghost before = count as nat;
            if self.grid[ny][nx] > 0 {
                count = count + 1;
            }
            proof {
                let t = neighbor_offsets().take(k + 1);
                assert(t.fold_left(0nat, f) == f(t.drop_last().fold_left(0nat, f), t.last()));
                assert(model.tally(x as int, y as int)(before, d) == if model.live(x + d.0, y + d.1) {
                    before + 1
                } else {
                    before
                });
            }
            k = k + 1;
        }
        proof {
            assert(neighbor_offsets().take(8) =~= neighbor_offsets());
        }
        count
    }

    /// The grid after one tick, each cell computed from the current grid.
    fn next_grid(&self) -> (r: Vec<Vec<u8>>)
        requires
            self.inv(),
        ensures
            r@.len() == self@.height,
            forall|y: int| 0 <= y < self@.height ==> #[trigger] r@[y]@ == self@.next_cells()[y],
    {
        let ghost model = self@;
        let mut rows: Vec<Vec<u8>> = Vec::new();
        let mut y: usize = 0;
        while y < self.height
            invariant
                y <= self.height,
                model == self@,
                self.inv(),
                rows@.len() == y,
                forall|i: int| 0 <= i < y ==> #[trigger] rows@[i]@ == model.next_cells()[i],
            decreases self.height - y,
        {
            let mut row: Vec<u8> = Vec::new();
            let mut x: usize = 0;
            while x < self.width
                invariant
                    x <= self.width,
                    y < self.height,
                    model == self@,
                    self.inv(),
                    row@.len() == x,
                    forall|i: int|
                        0 <= i < x ==> #[trigger] row@[i] == model.next_cells()[y as int][i],
                decreases self.width - x,
            {
                let n = self.count_live_neighbors(x, y);
                proof {
                    assert(self.grid@[y as int]@ == model.cells[y as int]);
                }
                row.push(next_cell(self.grid[y][x], n, self.aged));
                x = x + 1;
            }
            proof {
                assert(row@ =~= model.next_cells()[y as int]);
            }
            rows.push(row);
            y = y + 1;
        }
        rows
    }

    /// One tick at time `now` (milliseconds on the caller's clock): nothing
    /// happens while paused or before the tick interval has passed since the
    /// last tick; otherwise every cell takes its next state from the current
    /// grid, the generation counts up and `now` becomes the last tick's time.
    pub fn update(&mut self, now: u64)
        requires
            old(self).inv(),
            old(self)@.ready(now as nat) ==> old(self)@.generation < usize::MAX,
        ensures
            final(self).inv(),
            final(self)@ == old(self)@.advanced(now as nat),
    {
        let elapsed: u64 = if now >= self.last_update {
            now - self.last_update
        } else {
            0
        };
        if self.paused || elapsed < self.tick_rate {
            return;
        }
        let ghost before = self@;
        let new_grid = self.next_grid();
        self.grid = new_grid;
        self.generation = self.generation + 1;
        self.last_update = now;
        proof {
            assert(self@.cells =~~= before.next_cells());
            assert(self@ == Life { last_update: now as nat, ..before.stepped() });
        }
    }

    /// Flips the pause flag; nothing else changes.
    pub fn toggle_pause(&mut self)
        requires
            old(self).inv(),
        ensures
            final(self).inv(),
            final(self)@ == old(self)@.toggled(),
    {
        self.paused = !self.paused;
    }

    /// Kills every cell and sets the generation back to 0. The buffer keeps
    /// its pixels until the next `render`.
    pub fn clear(&mut self)
        requires
            old(self).inv(),
        ensures
            final(self).inv(),
            final(self)@ == old(self)@.cleared(),
    {
        let ghost before = self@;
        self.grid = dead_rows(self.width, self.height);
        self.generation = 0;
        proof {
            assert(self@.cells =~~= dead_grid(before.width, before.height));
        }
    }

    /// Number of ticks taken since construction or the last `clear`.
    pub fn get_generation(&self) -> (r: usize)
        requires
            self.inv(),
        ensures
            r == self@.generation,
    {
        self.generation
    }

    /// Sets the cell at `(x, y)` to age 1 when it lies on the grid; a
    /// coordinate off the grid is ignored, not wrapped.
    pub fn add_cell(&mut self, x: usize, y: usize)
        requires
            old(self).inv(),
        ensures
            final(self).inv(),
            final(self)@ == old(self)@.with_cell(x as int, y as int),
    {
        if x < self.width && y < self.height {
            self.set_alive(x, y);
        }
    }

    /// Sets the cell at `(x, y)` to age 1.
    fn set_alive(&mut self, x: usize, y: usize)
        requires
            old(self).inv(),
            x < old(self).width,
            y < old(self).height,
        ensures
            final(self).inv(),
            final(self)@ == old(self)@.with_cell(x as int, y as int),
    {
        let ghost before = self@;
        let mut row = self.grid[y].clone();
        row.set(x, 1);
        self.grid.set(y, row);
        proof {
            assert(self@.cells =~~= before.cells.update(
                y as int,
                before.cells[y as int].update(x as int, 1u8),
            ));
        }
    }

    /// Sets every cell that an offset of `pattern` reaches from the anchor
    /// `(x, y)` to age 1, wrapping around the torus; other cells keep their state.
    pub fn set_cells(&mut self, x: usize, y: usize, pattern: &Vec<(usize, usize)>)
        requires
            old(self).inv(),
        ensures
            final(self).inv(),
            final(self)@ == old(self)@.stamped(pattern@, x as int, y as int),
    {
        let ghost before = self@;
        let mut k: usize = 0;
        proof {
            assert(before.stamped(pattern@.take(0), x as int, y as int).cells =~~= before.cells);
        }
        while k < pattern.len()
            invariant
                k <= pattern@.len(),
                self.inv(),
                self@ == before.stamped(pattern@.take(k as int), x as int, y as int),
            decreases pattern@.len() - k,
        {
            let (dx, dy) = pattern[k];
            let nx = wrap_add(x, dx, self.width);
            let ny = wrap_add(y, dy, self.height);
            self.set_alive(nx, ny);
            proof {
                let t0 = pattern@.take(k as int);
                let t1 = pattern@.take(k + 1);
                assert(t1[k as int] == (dx, dy));
                assert forall|r: int, c: int|
                    0 <= r < before.height && 0 <= c < before.width implies before.marked(
                        t1,
                        x as int,
                        y as int,
                        c,
                        r,
                    ) == (before.marked(t0, x as int, y as int, c, r) || (c == nx && r == ny)) by {
                    if before.marked(t0, x as int, y as int, c, r) {
                        let i = choose|i: int|
                            0 <= i < t0.len() && #[trigger] wrap(x + t0[i].0, before.width) == c
                                && wrap(y + t0[i].1, before.height) == r;
                        assert(t1[i] == t0[i]);
                    }
                    if c == nx && r == ny {
                        assert(wrap(x + t1[k as int].0, before.width) == c);
                    }
                    if before.marked(t1, x as int, y as int, c, r) {
                        let i = choose|i: int|
                            0 <= i < t1.len() && #[trigger] wrap(x + t1[i].0, before.width) == c
                                && wrap(y + t1[i].1, before.height) == r;
                        if i < k {
                            assert(t0[i] == t1[i]);
                        }
                    }
                }
                assert(self@.cells =~~= before.stamped(t1, x as int, y as int).cells);
            }
            k = k + 1;
        }
        proof {
            assert(pattern@.take(pattern@.len() as int) =~= pattern@);
        }
    }

    /// Stamps the pattern `p` with its anchor at `(x, y)`.
    pub fn stamp(&mut self, p: Pattern, x: usize, y: usize)
        requires
            old(self).inv(),
        ensures
            final(self).inv(),
            final(self)@ == old(self)@.stamped(offsets_of(p), x as int, y as int),
    {
        let offsets = p.offsets();
        self.set_cells(x, y, &offsets);
    }

    /// Stamps each pattern of `scene` at its anchor, in order.
    pub fn seed_scene(&mut self, scene: &Vec<(Pattern, usize, usize)>)
        requires
            old(self).inv(),
        ensures
            final(self).inv(),
            final(self)@ == old(self)@.seeded(scene@),
    {
        let ghost before = self@;
        let mut i: usize = 0;
        proof {
            assert(scene@.take(0) =~= Seq::<(Pattern, usize, usize)>::empty());
        }
        while i < scene.len()
            invariant
                i <= scene@.len(),
                self.inv(),
                self@ == before.seeded(scene@.take(i as int)),
            decreases scene@.len() - i,
        {
            let (p, x, y) = scene[i];
            self.stamp(p, x, y);
            proof {
                assert(scene@.take(i + 1).drop_last() =~= scene@.take(i as int));
            }
            i = i + 1;
        }
        proof {
            assert(scene@.take(scene@.len() as int) =~= scene@);
        }
    }

    /// Noise seeding: `draws` holds one random draw per cell of a rectangle
    /// `width` cells wide, row by row, anchored at `(x, y)` and wrapped around
    /// the torus. Each cell whose draw is below `threshold` is set to age 1,
    /// so with uniform draws a cell turns live with probability
    /// `threshold / 2^32`.
    pub fn scatter(
        &mut self,
        x: usize,
        y: usize,
        width: usize,
        draws: &Vec<u32>,
        threshold: u32,
    )
        requires
            old(self).inv(),
            width >= 1,
        ensures
            final(self).inv(),
            final(self)@ == old(self)@.stamped(
                scatter_offsets(draws@, width as nat, threshold),
                x as int,
                y as int,
            ),
    {
        let mut picked: Vec<(usize, usize)> = Vec::new();
        let mut k: usize = 0;
        while k < draws.len()
            invariant
                k <= draws@.len(),
                width >= 1,
                picked@ == scatter_offsets(draws@.take(k as int), width as nat, threshold),
            decreases draws@.len() - k,
        {
            proof {
                assert(draws@.take(k + 1).drop_last() =~= draws@.take(k as int));
            }
            if draws[k] < threshold {
                picked.push((k % width, k / width));
            }
            k = k + 1;
        }
        proof {
            assert(draws@.take(draws@.len() as int) =~= draws@);
        }
        self.set_cells(x, y, &picked);
    }

    /// Seeds the showcase arrangement: flowers, pulsars, oscillators, still
    /// lifes and spaceships spread over the grid.
    fn initialize_grid(&mut self)
        requires
            old(self).inv(),
        ensures
            final(self).inv(),
            final(self)@ == old(self)@.seeded(showcase_scene()),
    {
        let scene = showcase();
        self.seed_scene(&scene);
    }

    /// Colour of the cell at `(x, y)` under the engine's colour scheme.
    fn color_at(&self, x: usize, y: usize) -> (r: u32)
        requires
            self.inv(),
            x < self@.width,
            y < self@.height,
        ensures
            r == self@.cell_color(x as int, y as int),
    {
        proof {
            assert(self.grid@[y as int]@ == self@.cells[y as int]);
        }
        let a = self.grid[y][x];
        if a == 0 {
            BACKGROUND
        } else {
            match self.scheme {
                ColorScheme::Regional => palette_color(
                    (x / 20 + y / 20 + self.generation / 10) % PALETTE_LEN,
                ),
                ColorScheme::ByAge => palette_color(((a - 1) as usize) % PALETTE_LEN),
                ColorScheme::Uniform => LAVENDER,
            }
        }
    }

    /// Paints every pixel of the block of cell `(x, y)` with `color`.
    fn draw_cell(&mut self, x: usize, y: usize, color: u32)
        requires
            old(self).inv(),
            x < old(self)@.width,
            y < old(self)@.height,
        ensures
            final(self).inv(),
            final(self)@ == (Life { pixels: final(self)@.pixels, ..old(self)@ }),
            final(self)@.pixels.len() == old(self)@.pixels.len(),
            forall|p: int|
                0 <= p < old(self)@.pixels.len() ==> #[trigger] final(self)@.pixels[p] == if old(
                    self,
                )@.block_x(p) == x && old(self)@.block_y(p) == y {
                    color
                } else {
                    old(self)@.pixels[p]
                },
    {
        let ghost before = self@;
        let ghost (w, h, cs) = (before.width, before.height, before.cell_size);
        let cell = self.cell_size;
        proof {
            assert(w * cs <= (w * cs) * (h * cs)) by (nonlinear_arith)
                requires h >= 1, cs >= 1, w >= 1;
        }
        let cw = self.width * cell;
        let mut dy: usize = 0;
        while dy < cell
            invariant
                dy <= cell,
                cell == cs,
                cw == w * cs,
                w == before.width,
                h == before.height,
                cs == before.cell_size,
                x < w,
                y < h,
                self.inv(),
                self@ == (Life { pixels: self@.pixels, ..before }),
                self@.pixels.len() == before.pixels.len(),
                forall|p: int|
                    0 <= p < before.pixels.len() ==> #[trigger] self@.pixels[p] == if before.block_x(p)
                        == x && before.block_y(p) == y && before.block_dy(p) < dy {
                        color
                    } else {
                        before.pixels[p]
                    },
            decreases cell - dy,
        {
            proof {
                lemma_blocks_in_range(before);
            }
            let mut dx: usize = 0;
            while dx < cell
                invariant
                    dx <= cell,
                    dy < cell,
                    cell == cs,
                    cw == w * cs,
                    w == before.width,
                    h == before.height,
                    cs == before.cell_size,
                    x < w,
                    y < h,
                    self.inv(),
                    self@ == (Life { pixels: self@.pixels, ..before }),
                    self@.pixels.len() == before.pixels.len(),
                    forall|p: int|
                        0 <= p < before.pixels.len() ==> #[trigger] self@.pixels[p] == if before.block_x(
                            p,
                        ) == x && before.block_y(p) == y && (before.block_dy(p) < dy || (
                        before.block_dy(p) == dy && before.block_dx(p) < dx)) {
                            color
                        } else {
                            before.pixels[p]
                        },
                decreases cell - dx,
            {
                proof {
                    lemma_block_pixel(x as int, y as int, dx as int, dy as int, w, h, cs);
                    lemma_blocks_in_range(before);
                    let row = y * cs + dy;
                    assert(0 <= y * cs <= row < h * cs) by (nonlinear_arith)
                        requires row == y * cs + dy, 0 <= y < h, 0 <= dy < cs;
                    assert(h * cs <= (w * cs) * (h * cs)) by (nonlinear_arith)
                        requires w >= 1, cs >= 1;
                    assert(0 <= x * cs <= x * cs + dx) by (nonlinear_arith)
                        requires 0 <= x, 0 <= dx, cs >= 1;
                    assert(0 <= row * (w * cs)) by (nonlinear_arith)
                        requires 0 <= row, w >= 1, cs >= 1;
                    assert(before.pixel_count() == (w * cs) * (h * cs));
                }
                let row_start = (y * cell + dy) * cw;
                let index = row_start + x * cell + dx;
                let ghost mid = self@.pixels;
                self.buffer.set(index, color);
                proof {
                    assert forall|p: int| 0 <= p < before.pixels.len() implies #[trigger] self@.pixels[p]
                        == if before.block_x(p) == x && before.block_y(p) == y && (before.block_dy(p)
                        < dy || (before.block_dy(p) == dy && before.block_dx(p) < dx + 1)) {
                        color
                    } else {
                        before.pixels[p]
                    } by {
                        if p != index {
                            lemma_pixel_split(p, w, h, cs);
                            assert(self@.pixels[p] == mid[p]);
                        }
                    }
                }
                dx = dx + 1;
            }
            proof {
                lemma_blocks_in_range(before);
            }
            dy = dy + 1;
        }
        proof {
            assert forall|p: int| 0 <= p < before.pixels.len() implies before.block_dy(p) < cs by {
                lemma_pixel_split(p, w, h, cs);
            }
        }
    }

    /// Redraws the whole canvas from the grid: each cell's block takes the
    /// cell's colour, dead cells the background.
    pub fn render(&mut self)
        requires
            old(self).inv(),
        ensures
            final(self).inv(),
            final(self)@ == old(self)@.rendered(),
    {
        let ghost before = self@;
        proof {
            lemma_blocks_in_range(before);
        }
        let mut y: usize = 0;
        while y < self.height
            invariant
                y <= before.height,
                self.inv(),
                self@ == (Life { pixels: self@.pixels, ..before }),
                self@.pixels.len() == before.pixels.len(),
                forall|p: int|
                    0 <= p < before.pixels.len() ==> #[trigger] self@.pixels[p] == if before.block_y(p)
                        < y {
                        before.pixel_color(p)
                    } else {
                        before.pixels[p]
                    },
            decreases before.height - y,
        {
            proof {
                lemma_blocks_in_range(before);
            }
            let mut x: usize = 0;
            while x < self.width
                invariant
                    x <= before.width,
                    y < before.height,
                    self.inv(),
                    self@ == (Life { pixels: self@.pixels, ..before }),
                    self@.pixels.len() == before.pixels.len(),
                    forall|p: int|
                        0 <= p < before.pixels.len() ==> #[trigger] self@.pixels[p] == if before.block_y(
                            p,
                        ) < y || (before.block_y(p) == y && before.block_x(p) < x) {
                            before.pixel_color(p)
                        } else {
                            before.pixels[p]
                        },
                decreases before.width - x,
            {
                let color = self.color_at(x, y);
                assert(color == before.cell_color(x as int, y as int));
                self.draw_cell(x, y, color);
                proof {
                    lemma_blocks_in_range(before);
                }
                x = x + 1;
            }
            proof {
                lemma_blocks_in_range(before);
            }
            y = y + 1;
        }
        proof {
            assert forall|p: int| 0 <= p < before.pixels.len() implies before.block_y(p)
                < before.height by {
                lemma_pixel_split(p, before.width, before.height, before.cell_size);
            }
            assert(self@.pixels =~= before.rendered().pixels);
        }
    }

    /// An engine with every cell dead, a background canvas of
    /// `(width * cell_size) x (height * cell_size)` pixels, generation 0, not
    /// paused, and ticks at least `tick_rate` milliseconds apart (0: every
    /// call to `update` ticks). With `aged`, cells count the generations they
    /// have lived; otherwise a live cell has age 1. `None` when a dimension
    /// is 0 or the canvas would not fit in memory.
    pub fn with_config(
        width: usize,
        height: usize,
        cell_size: usize,
        aged: bool,
        scheme: ColorScheme,
        tick_rate: u64,
    ) -> (r: Option<Game>)
        ensures
            r.is_some() == (width >= 1 && height >= 1 && cell_size >= 1 && (width * cell_size) * (
            height * cell_size) <= usize::MAX),
            r matches Some(g) ==> g.inv() && g@ == Life::blank(
                width as nat,
                height as nat,
                cell_size as nat,
                aged,
                scheme,
                tick_rate as nat,
            ),
    {
        if width == 0 || height == 0 || cell_size == 0 {
            return None;
        }
        let cw = width.checked_mul(cell_size);
        let ch = height.checked_mul(cell_size);
        match (cw, ch) {
            (Some(cw), Some(ch)) => match cw.checked_mul(ch) {
                Some(_) => Some(Game::blank(width, height, cell_size, aged, scheme, tick_rate)),
                None => None,
            },
            _ => {
                proof {
                    assert(width * cell_size <= (width * cell_size) * (height * cell_size))
                        by (nonlinear_arith)
                        requires height >= 1, cell_size >= 1;
                    assert(height * cell_size <= (width * cell_size) * (height * cell_size))
                        by (nonlinear_arith)
                        requires width >= 1, cell_size >= 1;
                }
                None
            },
        }
    }

    /// An engine as `with_config` describes, for dimensions known to fit.
    fn blank(
        width: usize,
        height: usize,
        cell_size: usize,
        aged: bool,
        scheme: ColorScheme,
        tick_rate: u64,
    ) -> (r: Game)
        requires
            width >= 1,
            height >= 1,
            cell_size >= 1,
            (width * cell_size) * (height * cell_size) <= usize::MAX,
        ensures
            r.inv(),
            r@ == Life::blank(
                width as nat,
                height as nat,
                cell_size as nat,
                aged,
                scheme,
                tick_rate as nat,
            ),
    {
        proof {
            assert(width * cell_size <= (width * cell_size) * (height * cell_size)) by (nonlinear_arith)
                requires height >= 1, cell_size >= 1;
            assert(height * cell_size <= (width * cell_size) * (height * cell_size)) by (nonlinear_arith)
                requires width >= 1, cell_size >= 1;
        }
        let n = (width * cell_size) * (height * cell_size);
        let mut buffer: Vec<u32> = Vec::new();
        let mut i: usize = 0;
        while i < n
            invariant
                i <= n,
                buffer@.len() == i,
                forall|p: int| 0 <= p < i ==> #[trigger] buffer@[p] == BACKGROUND,
            decreases n - i,
        {
            buffer.push(BACKGROUND);
            i = i + 1;
        }
        let r = Game {
            grid: dead_rows(width, height),
            buffer,
            width,
            height,
            cell_size,
            generation: 0,
            paused: false,
            aged,
            scheme,
            tick_rate,
            last_update: 0,
        };
        proof {
            let b = Life::blank(width as nat, height as nat, cell_size as nat, aged, scheme, tick_rate as nat);
            assert(r@.cells =~~= b.cells);
            assert(r@.pixels =~= b.pixels);
        }
        r
    }

    /// The showcase engine: a 100 x 100 grid shown in 5 x 5 blocks, the
    /// regional palette, ticks at least 70 ms apart, seeded with the
    /// showcase arrangement.
    pub fn new() -> (r: Game)
        ensures
            r.inv(),
            r@ == Life::blank(
                WIDTH as nat,
                HEIGHT as nat,
                CELL_SIZE as nat,
                false,
                ColorScheme::Regional,
                TICK_RATE_MS as nat,
            ).seeded(showcase_scene()),
    {
        assert((WIDTH * CELL_SIZE) * (HEIGHT * CELL_SIZE) == 250000) by (nonlinear_arith)
            requires WIDTH == 100, HEIGHT == 100, CELL_SIZE == 5;
        let mut game = Game::blank(
            WIDTH,
            HEIGHT,
            CELL_SIZE,
            false,
            ColorScheme::Regional,
            TICK_RATE_MS,
        );
        game.initialize_grid();
        game
    }

    /// Number of live cells.
    pub fn get_live_cells(&self) -> (r: usize)
        requires
            self.inv(),
        ensures
            r == self@.live_count(),
    {
        let ghost m = self@;
        let mut count: usize = 0;
        let mut y: usize = 0;
        while y < self.height
            invariant
                y <= m.height,
                m == self@,
                self.inv(),
                count == grid_live(m.cells.take(y as int)),
                count <= y * m.width,
            decreases m.height - y,
        {
            proof {
                assert(self.grid@[y as int]@ == m.cells[y as int]);
                assert(m.width * m.height <= m.pixel_count()) by (nonlinear_arith)
                    requires m.cell_size >= 1, m.pixel_count() == (m.width * m.cell_size) * (
                        m.height * m.cell_size), m.width >= 1, m.height >= 1;
                assert((y + 1) * m.width <= m.width * m.height) by (nonlinear_arith)
                    requires y < m.height;
            }
            let mut x: usize = 0;
            let ghost start = count;
            while x < self.width
                invariant
                    x <= m.width,
                    y < m.height,
                    m == self@,
                    self.inv(),
                    self.grid@[y as int]@ == m.cells[y as int],
                    start == grid_live(m.cells.take(y as int)),
                    count == start + row_live(m.cells[y as int].take(x as int)),
                    count <= y * m.width + x,
                    (y + 1) * m.width <= usize::MAX,
                decreases m.width - x,
            {
                proof {
                    let t = m.cells[y as int].take(x + 1);
                    assert(t.drop_last() =~= m.cells[y as int].take(x as int));
                    assert((y + 1) * m.width == y * m.width + m.width) by (nonlinear_arith);
                }
                if self.grid[y][x] > 0 {
                    count = count + 1;
                }
                x = x + 1;
            }
            proof {
                assert(m.cells[y as int].take(m.width as int) =~= m.cells[y as int]);
                assert(m.cells.take(y + 1).drop_last() =~= m.cells.take(y as int));
                assert((y + 1) * m.width == y * m.width + m.width) by (nonlinear_arith);
            }
            y = y + 1;
        }
        proof {
            assert(m.cells.take(m.height as int) =~= m.cells);
        }
        count
    }

    /// The canvas: `(width * cell_size) x (height * cell_size)` colours, row
    /// by row.
    pub fn buffer(&self) -> (r: &Vec<u32>)
        requires
            self.inv(),
        ensures
            r@ == self@.pixels,
    {
        &self.buffer
    }

    /// Age of the cell at `(x, y)`; 0 for a dead cell.
    pub fn age(&self, x: usize, y: usize) -> (r: u8)
        requires
            self.inv(),
            x < self@.width,
            y < self@.height,
        ensures
            r == self@.cells[y as int][x as int],
    {
        proof {
            assert(self.grid@[y as int]@ == self@.cells[y as int]);
        }
        self.grid[y][x]
    }

    pub fn width(&self) -> (r: usize)
        requires
            self.inv(),
        ensures
            r == self@.width,
    {
        self.width
    }

    pub fn height(&self) -> (r: usize)
        requires
            self.inv(),
        ensures
            r == self@.height,
    {
        self.height
    }

    pub fn cell_size(&self) -> (r: usize)
        requires
            self.inv(),
        ensures
            r == self@.cell_size,
    {
        self.cell_size
    }

    pub fn is_paused(&self) -> (r: bool)
        requires
            self.inv(),
        ensures
            r == self@.paused,
    {
        self.paused
    }
}

/// Every pixel of the canvas lies in the block of a cell of the grid.
proof fn lemma_blocks_in_range(l: Life)
    requires
        l.wf(),
    ensures
        forall|p: int|
            #![trigger l.block_x(p)]
            #![trigger l.block_y(p)]
            #![trigger l.block_dx(p)]
            #![trigger l.block_dy(p)]
            0 <= p < l.pixels.len() ==> 0 <= l.block_x(p) < l.width && 0 <= l.block_y(p) < l.height
                && 0 <= l.block_dx(p) < l.cell_size && 0 <= l.block_dy(p) < l.cell_size,
{
    assert forall|p: int| 0 <= p < l.pixels.len() implies 0 <= #[trigger] l.block_x(p) < l.width && 0 <= l.block_y(
        p,
    ) < l.height && 0 <= l.block_dx(p) < l.cell_size && 0 <= l.block_dy(p) < l.cell_size by {
        lemma_pixel_split(p, l.width, l.height, l.cell_size);
    }
}

/// Entry `i` of the cycling palette.
fn palette_color(i: usize) -> (r: u32)
    requires
        i < PALETTE_LEN,
    ensures
        r == palette(i as nat),
{
    if i == 0 {
        0xffd6ff
    } else if i == 1 {
        0xe7c6ff
    } else if i == 2 {
        0xc8b6ff
    } else if i == 3 {
        0xb8c0ff
    } else {
        0xbbd0ff
    }
}

/// The showcase arrangement on the 100 x 100 grid: a flower at the centre,
/// pulsars and pentadecathlons around it, gliders near the corners, still
/// lifes and oscillators along the edges and spaceships in between.
pub open spec fn showcase_scene() -> Seq<(Pattern, usize, usize)> {
    seq![
        (Pattern::Flower, 50usize, 50usize),
        (Pattern::Pulsar, 50, 30),
        (Pattern::Pulsar, 50, 70),
        (Pattern::Pentadecathlon, 30, 50),
        (Pattern::Pentadecathlon, 70, 50),
        (Pattern::Glider, 5, 5),
        (Pattern::Glider, 90, 5),
        (Pattern::Glider, 5, 90),
        (Pattern::Glider, 90, 90),
        (Pattern::Blinker, 25, 5),
        (Pattern::Blinker, 75, 95),
        (Pattern::Block, 5, 50),
        (Pattern::Block, 95, 50),
        (Pattern::Beehive, 33, 33),
        (Pattern::Beehive, 66, 66),
        (Pattern::Loaf, 25, 75),
        (Pattern::Loaf, 75, 25),
        (Pattern::Boat, 20, 20),
        (Pattern::Tub, 80, 80),
        (Pattern::Toad, 16, 50),
        (Pattern::Beacon, 83, 50),
        (Pattern::LightweightSpaceship, 50, 16),
        (Pattern::MiddleweightSpaceship, 50, 83),
        (Pattern::HeavyweightSpaceship, 33, 50),
        (Pattern::Heart, 25, 25),
        (Pattern::Star, 75, 75),
        (Pattern::Glider, 33, 25),
        (Pattern::Glider, 66, 75),
        (Pattern::LightweightSpaceship, 25, 66),
        (Pattern::MiddleweightSpaceship, 75, 33),
        (Pattern::Block, 12, 12),
        (Pattern::Block, 87, 87),
        (Pattern::Beehive, 75, 12),
        (Pattern::Beehive, 12, 75),
        (Pattern::Loaf, 83, 16),
        (Pattern::Loaf, 16, 83),
    ]
}

/// The showcase arrangement, as `showcase_scene` gives it.
pub fn showcase() -> (r: Vec<(Pattern, usize, usize)>)
    ensures
        r@ == showcase_scene(),
{
    let v = vec![
        (Pattern::Flower, 50usize, 50usize),
        (Pattern::Pulsar, 50, 30),
        (Pattern::Pulsar, 50, 70),
        (Pattern::Pentadecathlon, 30, 50),
        (Pattern::Pentadecathlon, 70, 50),
        (Pattern::Glider, 5, 5),
        (Pattern::Glider, 90, 5),
        (Pattern::Glider, 5, 90),
        (Pattern::Glider, 90, 90),
        (Pattern::Blinker, 25, 5),
        (Pattern::Blinker, 75, 95),
        (Pattern::Block, 5, 50),
        (Pattern::Block, 95, 50),
        (Pattern::Beehive, 33, 33),
        (Pattern::Beehive, 66, 66),
        (Pattern::Loaf, 25, 75),
        (Pattern::Loaf, 75, 25),
        (Pattern::Boat, 20, 20),
        (Pattern::Tub, 80, 80),
        (Pattern::Toad, 16, 50),
        (Pattern::Beacon, 83, 50),
        (Pattern::LightweightSpaceship, 50, 16),
        (Pattern::MiddleweightSpaceship, 50, 83),
        (Pattern::HeavyweightSpaceship, 33, 50),
        (Pattern::Heart, 25, 25),
        (Pattern::Star, 75, 75),
        (Pattern::Glider, 33, 25),
        (Pattern::Glider, 66, 75),
        (Pattern::LightweightSpaceship, 25, 66),
        (Pattern::MiddleweightSpaceship, 75, 33),
        (Pattern::Block, 12, 12),
        (Pattern::Block, 87, 87),
        (Pattern::Beehive, 75, 12),
        (Pattern::Beehive, 12, 75),
        (Pattern::Loaf, 83, 16),
        (Pattern::Loaf, 16, 83),
    ];
    assert(v@ =~= showcase_scene());
    v
}

/// `(v + d) mod n`, without overflow.
fn wrap_add(v: usize, d: usize, n: usize) -> (r: usize)
    requires
        n >= 1,
    ensures
        r < n,
        r as int == wrap(v + d, n as nat),
{
    let a = v % n;
    let b = d % n;
    proof {
        lemma_add_mod_noop(v as int, d as int, n as int);
    }
    if a >= n - b {
        proof {
            lemma_fundamental_div_mod_converse(a + b, n as int, 1, a + b - n);
        }
        a - (n - b)
    } else {
        proof {
            lemma_small_mod((a + b) as nat, n as nat);
        }
        a + b
    }
}

/// The rule on one cell: see `next_age`.
fn next_cell(age: u8, n: u8, aged: bool) -> (r: u8)
    ensures
        r == next_age(age, n as nat, aged),
{
    if age > 0 && (n == 2 || n == 3) {
        if !aged {
            1
        } else if age < u8::MAX {
            age + 1
        } else {
            u8::MAX
        }
    } else if age == 0 && n == 3 {
        1
    } else {
        0
    }
}

/// A `width` x `height` grid of dead cells.
fn dead_rows(width: usize, height: usize) -> (r: Vec<Vec<u8>>)
    ensures
        r@.len() == height,
        forall|y: int| 0 <= y < height ==> #[trigger] r@[y]@ == dead_grid(width as nat, height as nat)[y],
{
    let mut rows: Vec<Vec<u8>> = Vec::new();
    let mut y: usize = 0;
    while y < height
        invariant
            y <= height,
            rows@.len() == y,
            forall|i: int| 0 <= i < y ==> #[trigger] rows@[i]@ == dead_grid(width as nat, height as nat)[i],
        decreases height - y,
    {
        let mut row: Vec<u8> = Vec::new();
        let mut x: usize = 0;
        while x < width
            invariant
                x <= width,
                row@.len() == x,
                forall|i: int| 0 <= i < x ==> #[trigger] row@[i] == 0u8,
            decreases width - x,
        {
            row.push(0);
            x = x + 1;
        }
        proof {
            assert(row@ =~= dead_grid(width as nat, height as nat)[y as int]);
        }
        rows.push(row);
        y = y + 1;
    }
    rows
}

} // verus!
