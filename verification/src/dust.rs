//! The decisions of infrared dust removal, following @a6o's [openICE](https://github.com/a6o/openICE)
//!
//! What is decided rather than computed: which film counts as clear, which
//! pixels are worth rebuilding, which neighbors a pixel is rebuilt from, and what
//! is written back. The densities themselves are floating point and are worked
//! out around this.

use crate::protocol::model::Model as Unit;
use vstd::prelude::*;

verus! {

/// Past which resolution the weight goes by the least of three horizontal neighbors
pub const MIN3_DPI: u32 = 550;

/// The lowest raw infrared value that counts as "clear" film, which is above
/// 8847.23
pub const CLEAR: u16 = 8848;

/// Which scanner's constants to run
#[derive(Debug, Clone, Copy, PartialEq, Eq, Structural)]
pub enum Model {
    Ls9000,
    Ls5000,
    Ls50,
}

impl Default for Model {
    fn default() -> (r: Model)
        ensures
            r == Model::Ls9000,
    {
        Model::Ls9000
    }
}

impl Model {
    /// The constants a unit is run with
    ///
    /// The units without a table of their own are put with the sibling they
    /// share a generation and a sensor format with.
    pub open spec fn of(unit: Unit) -> Model {
        match unit {
            Unit::Ls9000 | Unit::Ls8000 => Model::Ls9000,
            Unit::Ls5000 | Unit::Ls4000 => Model::Ls5000,
            Unit::Ls50 | Unit::Ls40 => Model::Ls50,
        }
    }

    /// At or below this resolution the contrast is measured at the center alone
    pub open spec fn contrast_dpi_of(self) -> u32 {
        match self {
            Model::Ls9000 => 950,
            Model::Ls5000 => 1600,
            Model::Ls50 => 2500,
        }
    }

    /// At or below this resolution the contrast is measured at the center alone
    pub fn contrast_dpi(self) -> (r: u32)
        ensures
            r == self.contrast_dpi_of(),
    {
        match self {
            Model::Ls9000 => 950,
            Model::Ls5000 => 1600,
            Model::Ls50 => 2500,
        }
    }
}

impl From<Unit> for Model {
    fn from(unit: Unit) -> (r: Model) {
        match unit {
            Unit::Ls9000 | Unit::Ls8000 => Model::Ls9000,
            Unit::Ls5000 | Unit::Ls4000 => Model::Ls5000,
            Unit::Ls50 | Unit::Ls40 => Model::Ls50,
        }
    }
}

impl vstd::std_specs::convert::FromSpecImpl<Unit> for Model {
    open spec fn obeys_from_spec() -> bool {
        true
    }

    open spec fn from_spec(unit: Unit) -> Model {
        Model::of(unit)
    }
}

/// The two settings
#[derive(Debug, Clone, Copy, PartialEq, Eq, Structural)]
pub enum Quality {
    /// Detail boosted, and no pixel comes out darker than it scanned
    Normal,
    /// Detail at unity with both clamps off, so every pixel is rewritten
    Fine,
}

impl Default for Quality {
    fn default() -> (r: Quality)
        ensures
            r == Quality::Normal,
    {
        Quality::Normal
    }
}

/// What the model, the quality and the resolution switch on
#[derive(Debug, Clone, Copy, PartialEq, Eq, Structural)]
pub struct Switches {
    /// Never darken a pixel, and leave certain film alone. Off in Fine
    pub clamp_l3: bool,
    /// Feed the weight the minimum of three horizontal gates instead of one
    pub min3: bool,
    /// Measure the contrast over the 5-point cross rather than the center
    pub cross_beta: bool,
}

/// What the model, the quality and the resolution switch on
pub fn switches(model: Model, quality: Quality, dpi: u32) -> (r: Switches)
    ensures
        r == (Switches {
            clamp_l3: quality is Normal,
            min3: dpi > MIN3_DPI,
            cross_beta: dpi > model.contrast_dpi_of(),
        }),
{
    Switches {
        clamp_l3: match quality {
            Quality::Normal => true,
            Quality::Fine => false,
        },
        min3: dpi > MIN3_DPI,
        cross_beta: dpi > model.contrast_dpi(),
    }
}

// ----- clear film

/// Whether an infrared sample is of clear film
pub open spec fn clear_sample(ir: u16) -> bool {
    ir >= CLEAR
}

/// Whether an infrared sample is of clear film
pub fn is_clear(ir: u16) -> (r: bool)
    ensures
        r == clear_sample(ir),
{
    ir >= CLEAR
}

/// Whether an 8x8 tile is clear film all the way through, so any variation
/// inside it has to be dye rather than dust
pub open spec fn clear_tile(ir: Seq<u16>, cols: int, row0: int, col0: int) -> bool {
    forall|dy: int, dx: int|
        0 <= dy < 8 && 0 <= dx < 8 ==> clear_sample(
            #[trigger] ir[(row0 + dy) * cols + (col0 + dx)],
        )
}

/// Where tile `n` starts, counting them along a row of tiles first
pub open spec fn tile_origin(cols: int, n: int) -> (int, int) {
    ((n / (cols / 8)) * 8, (n % (cols / 8)) * 8)
}

/// The clear ones among the first `n` tiles, in order
pub open spec fn clear_before(ir: Seq<u16>, cols: int, n: int) -> Seq<(int, int)>
    decreases n,
{
    if n <= 0 {
        Seq::empty()
    } else {
        let (row0, col0) = tile_origin(cols, n - 1);
        let before = clear_before(ir, cols, n - 1);
        if clear_tile(ir, cols, row0, col0) {
            before.push((row0, col0))
        } else {
            before
        }
    }
}

/// The pixel of a row and a column is in the plane
proof fn lemma_in_plane(rows: int, cols: int, y: int, x: int)
    requires
        0 <= y < rows,
        0 <= x < cols,
    ensures
        0 <= y * cols,
        0 <= y * cols + x < rows * cols,
        y * cols + cols <= rows * cols,
{
    assert(0 <= y * cols && y * cols + cols <= rows * cols) by (nonlinear_arith)
        requires
            0 <= y,
            y + 1 <= rows,
            0 <= cols,
    ;
}

/// Whether a tile is clear film all the way through
fn tile_is_clear(ir: &[u16], rows: usize, cols: usize, row0: usize, col0: usize) -> (r: bool)
    requires
        ir@.len() == rows * cols,
        row0 + 8 <= rows,
        col0 + 8 <= cols,
    ensures
        r == clear_tile(ir@, cols as int, row0 as int, col0 as int),
{
    assert(ir@.len() == ir.len());
    let mut dy: usize = 0;
    while dy < 8
        invariant
            dy <= 8,
            ir@.len() == rows * cols,
            ir@.len() == ir.len(),
            row0 + 8 <= rows,
            col0 + 8 <= cols,
            forall|a: int, b: int|
                0 <= a < dy && 0 <= b < 8 ==> clear_sample(
                    #[trigger] ir@[(row0 + a) * cols + (col0 + b)],
                ),
        decreases 8 - dy,
    {
        let mut dx: usize = 0;
        while dx < 8
            invariant
                dy < 8,
                dx <= 8,
                ir@.len() == rows * cols,
                ir@.len() == ir.len(),
                row0 + 8 <= rows,
                col0 + 8 <= cols,
                forall|a: int, b: int|
                    0 <= a < dy && 0 <= b < 8 ==> clear_sample(
                        #[trigger] ir@[(row0 + a) * cols + (col0 + b)],
                    ),
                forall|b: int|
                    0 <= b < dx ==> clear_sample(
                        #[trigger] ir@[(row0 + dy) * cols + (col0 + b)],
                    ),
            decreases 8 - dx,
        {
            proof {
                lemma_in_plane(rows as int, cols as int, row0 + dy, col0 + dx);
            }
            if !is_clear(ir[(row0 + dy) * cols + (col0 + dx)]) {
                assert(!clear_sample(ir@[(row0 + dy) * cols + (col0 + dx)]));
                return false;
            }
            dx += 1;
        }
        dy += 1;
    }
    true
}

/// Where the tiles of clear film start, row and column, in order
pub fn clear_tiles(ir: &[u16], rows: usize, cols: usize) -> (r: Vec<(usize, usize)>)
    requires
        ir@.len() == rows * cols,
    ensures
        ({
            let want = clear_before(ir@, cols as int, (rows / 8) * (cols / 8));
            &&& r@.len() == want.len()
            &&& forall|k: int|
                0 <= k < want.len() ==> (#[trigger] r@[k]).0 == want[k].0 && r@[k].1 == want[k].1
        }),
{
    let mut tiles: Vec<(usize, usize)> = Vec::new();
    let across: usize = cols / 8;
    let down: usize = rows / 8;
    assert(ir@.len() == ir.len());
    proof {
        assert(down * across <= rows * cols) by (nonlinear_arith)
            requires
                0 <= down <= rows,
                0 <= across <= cols,
        ;
    }
    let count: usize = down * across;
    let mut n: usize = 0;
    while n < count
        invariant
            n <= count,
            ir@.len() == rows * cols,
            across == cols / 8,
            down == rows / 8,
            count == down * across,
            tiles@.len() == clear_before(ir@, cols as int, n as int).len(),
            forall|k: int|
                0 <= k < tiles@.len() ==> (#[trigger] tiles@[k]).0 == clear_before(
                    ir@,
                    cols as int,
                    n as int,
                )[k].0 && tiles@[k].1 == clear_before(ir@, cols as int, n as int)[k].1,
        decreases count - n,
    {
        proof {
            assert(across > 0 && 0 <= n as int / across as int) by (nonlinear_arith)
                requires
                    0 <= n < down * across,
                    0 <= across,
                    0 <= down,
            ;
            assert(n as int / (across as int) < down) by (nonlinear_arith)
                requires
                    0 <= n < down * across,
                    0 < across,
            ;
        }
        let row0: usize = (n / across) * 8;
        let col0: usize = (n % across) * 8;
        if tile_is_clear(ir, rows, cols, row0, col0) {
            tiles.push((row0, col0));
        }
        n += 1;
    }
    tiles
}

// ----- which pixels are worth rebuilding

/// `k` before `v`, clamped at the edge
pub open spec fn back(v: int, k: int) -> int {
    if v < k {
        0
    } else {
        v - k
    }
}

/// `k` past `v`, clamped at the edge of `len`
pub open spec fn ahead(v: int, k: int, len: int) -> int {
    if v + k < len {
        v + k
    } else {
        len - 1
    }
}

/// AND of a plane over columns `x - k`, `x`, `x + k`, clamped at the edges
pub open spec fn all_across(src: Seq<bool>, cols: int, k: int) -> Seq<bool> {
    Seq::new(
        src.len(),
        |i: int|
            {
                let row = (i / cols) * cols;
                let x = i % cols;
                src[row + back(x, k)] && src[i] && src[row + ahead(x, k, cols)]
            },
    )
}

/// AND of a plane over rows `y - k`, `y`, `y + k`, clamped at the edges
pub open spec fn all_down(src: Seq<bool>, rows: int, cols: int, k: int) -> Seq<bool> {
    Seq::new(
        src.len(),
        |i: int|
            {
                let y = i / cols;
                let x = i % cols;
                src[back(y, k) * cols + x] && src[i] && src[ahead(y, k, rows) * cols + x]
            },
    )
}

/// The pixels worth rebuilding
///
/// Not one of certain film, where that is left alone, and not one next to a
/// stretch of dark nine pixels long, above, below or to either side: what is
/// that large is not dust.
pub open spec fn worth_rebuilding(
    dark: Seq<bool>,
    certain: Seq<bool>,
    rows: int,
    cols: int,
    clamp: bool,
) -> Seq<bool> {
    let row_dark = all_across(all_across(dark, cols, 1), cols, 3);
    let col_dark = all_down(all_down(dark, rows, cols, 1), rows, cols, 3);
    Seq::new(
        dark.len(),
        |i: int|
            {
                let y = i / cols;
                let x = i % cols;
                &&& !(clamp && certain[i])
                &&& !row_dark[back(y, 4) * cols + x]
                &&& !row_dark[ahead(y, 4, rows) * cols + x]
                &&& !col_dark[y * cols + back(x, 4)]
                &&& !col_dark[y * cols + ahead(x, 4, cols)]
            },
    )
}

/// Where a pixel of a plane is
proof fn lemma_row_and_column(rows: int, cols: int, i: int)
    requires
        0 < cols,
        0 <= i < rows * cols,
    ensures
        0 <= i / cols < rows,
        0 <= i % cols < cols,
        i == (i / cols) * cols + i % cols,
{
    assert(0 <= i / cols < rows) by (nonlinear_arith)
        requires
            0 < cols,
            0 <= i < rows * cols,
    ;
    vstd::arithmetic::div_mod::lemma_fundamental_div_mod(i, cols);
    assert(cols * (i / cols) == (i / cols) * cols) by (nonlinear_arith);
}

/// `k` before `v`, clamped at the edge
fn before(v: usize, k: usize) -> (r: usize)
    ensures
        r == back(v as int, k as int),
{
    if v < k {
        0
    } else {
        v - k
    }
}

/// `k` past `v`, clamped at the edge of `len`
fn past(v: usize, k: usize, len: usize) -> (r: usize)
    requires
        v < len,
    ensures
        r == ahead(v as int, k as int, len as int),
{
    if k < len - v {
        v + k
    } else {
        len - 1
    }
}

/// AND of `src` over columns `x - k`, `x`, `x + k`, clamped at the edges
pub fn and3_cols(src: &[bool], rows: usize, cols: usize, k: usize) -> (r: Vec<bool>)
    requires
        0 < cols,
        src@.len() == rows * cols,
    ensures
        r@ == all_across(src@, cols as int, k as int),
{
    let mut out: Vec<bool> = Vec::new();
    let mut i: usize = 0;
    while i < src.len()
        invariant
            0 < cols,
            src@.len() == rows * cols,
            src@.len() == src.len(),
            i <= src@.len(),
            out@ == all_across(src@, cols as int, k as int).take(i as int),
        decreases src@.len() - i,
    {
        proof {
            lemma_row_and_column(rows as int, cols as int, i as int);
        }
        let y: usize = i / cols;
        let x: usize = i % cols;
        let lo: usize = before(x, k);
        let hi: usize = past(x, k, cols);
        proof {
            lemma_in_plane(rows as int, cols as int, y as int, lo as int);
            lemma_in_plane(rows as int, cols as int, y as int, hi as int);
        }
        let row: usize = y * cols;
        out.push(src[row + lo] && src[i] && src[row + hi]);
        i += 1;
    }
    out
}

/// AND of `src` over rows `y - k`, `y`, `y + k`, clamped at the edges
pub fn and3_rows(src: &[bool], rows: usize, cols: usize, k: usize) -> (r: Vec<bool>)
    requires
        0 < cols,
        src@.len() == rows * cols,
    ensures
        r@ == all_down(src@, rows as int, cols as int, k as int),
{
    let mut out: Vec<bool> = Vec::new();
    let mut i: usize = 0;
    while i < src.len()
        invariant
            0 < cols,
            src@.len() == rows * cols,
            src@.len() == src.len(),
            i <= src@.len(),
            out@ == all_down(src@, rows as int, cols as int, k as int).take(i as int),
        decreases src@.len() - i,
    {
        proof {
            lemma_row_and_column(rows as int, cols as int, i as int);
        }
        let y: usize = i / cols;
        let x: usize = i % cols;
        let up: usize = before(y, k);
        let down: usize = past(y, k, rows);
        proof {
            lemma_in_plane(rows as int, cols as int, up as int, x as int);
            lemma_in_plane(rows as int, cols as int, down as int, x as int);
        }
        out.push(src[up * cols + x] && src[i] && src[down * cols + x]);
        i += 1;
    }
    out
}

/// Decide which pixels are worth reconstructing
///
/// `dark` is where the infrared is under the dust floor, and `certain` where the
/// confidence is full.
pub fn decide(dark: &[bool], certain: &[bool], rows: usize, cols: usize, clamp_l3: bool) -> (r: Vec<
    bool,
>)
    requires
        0 < cols,
        dark@.len() == rows * cols,
        certain@.len() == dark@.len(),
    ensures
        r@ == worth_rebuilding(dark@, certain@, rows as int, cols as int, clamp_l3),
{
    let row_near = and3_cols(dark, rows, cols, 1);
    let row_dark = and3_cols(row_near.as_slice(), rows, cols, 3);
    let col_near = and3_rows(dark, rows, cols, 1);
    let col_dark = and3_rows(col_near.as_slice(), rows, cols, 3);
    let ghost want = worth_rebuilding(dark@, certain@, rows as int, cols as int, clamp_l3);
    let mut mask: Vec<bool> = Vec::new();
    let mut i: usize = 0;
    while i < dark.len()
        invariant
            0 < cols,
            dark@.len() == rows * cols,
            dark@.len() == dark.len(),
            certain@.len() == dark@.len(),
            row_dark@ == all_across(all_across(dark@, cols as int, 1), cols as int, 3),
            col_dark@ == all_down(
                all_down(dark@, rows as int, cols as int, 1),
                rows as int,
                cols as int,
                3,
            ),
            want == worth_rebuilding(dark@, certain@, rows as int, cols as int, clamp_l3),
            i <= dark@.len(),
            mask@ == want.take(i as int),
        decreases dark@.len() - i,
    {
        proof {
            lemma_row_and_column(rows as int, cols as int, i as int);
        }
        let y: usize = i / cols;
        let x: usize = i % cols;
        let up: usize = before(y, 4);
        let down: usize = past(y, 4, rows);
        let left: usize = before(x, 4);
        let right: usize = past(x, 4, cols);
        proof {
            lemma_in_plane(rows as int, cols as int, up as int, x as int);
            lemma_in_plane(rows as int, cols as int, down as int, x as int);
            lemma_in_plane(rows as int, cols as int, y as int, left as int);
            lemma_in_plane(rows as int, cols as int, y as int, right as int);
        }
        let near = row_dark[up * cols + x] || row_dark[down * cols + x] || col_dark[y * cols + left]
            || col_dark[y * cols + right];
        mask.push(!(clamp_l3 && certain[i]) && !near);
        i += 1;
    }
    mask
}

/// With both clamps on, film the infrared is certain of is left alone
pub proof fn law_certain_film_is_left_alone(
    dark: Seq<bool>,
    certain: Seq<bool>,
    rows: int,
    cols: int,
    i: int,
)
    requires
        0 <= i < dark.len(),
        certain[i],
    ensures
        !worth_rebuilding(dark, certain, rows, cols, true)[i],
{
}

/// With the clamps off, every pixel of a frame with no dark in it is rewritten
pub proof fn law_fine_rewrites_every_pixel(
    dark: Seq<bool>,
    certain: Seq<bool>,
    rows: int,
    cols: int,
    i: int,
)
    requires
        0 < cols,
        dark.len() == rows * cols,
        forall|j: int| 0 <= j < dark.len() ==> !dark[j],
        0 <= i < dark.len(),
    ensures
        worth_rebuilding(dark, certain, rows, cols, false)[i],
{
    lemma_row_and_column(rows, cols, i);
    let y = i / cols;
    let x = i % cols;
    lemma_in_plane(rows, cols, back(y, 4), x);
    lemma_in_plane(rows, cols, ahead(y, 4, rows), x);
    lemma_in_plane(rows, cols, y, back(x, 4));
    lemma_in_plane(rows, cols, y, ahead(x, 4, cols));
    let near = all_across(dark, cols, 1);
    let tall = all_down(dark, rows, cols, 1);
    assert forall|j: int| 0 <= j < dark.len() implies !near[j] && !tall[j] by {}
    assert forall|j: int| 0 <= j < dark.len() implies !all_across(near, cols, 3)[j] && !all_down(
        tall,
        rows,
        cols,
        3,
    )[j] by {}
}

// ----- which neighbors a pixel is rebuilt from

/// `base + delta`, or `None` where that falls off a plane of `len`
pub fn offset(base: usize, delta: i32, len: usize) -> (r: Option<usize>)
    ensures
        r == if 0 <= base + delta < len {
            Some((base + delta) as usize)
        } else {
            None
        },
{
    let v: i128 = base as i128 + delta as i128;
    if v >= 0 && v < len as i128 {
        Some(v as usize)
    } else {
        None
    }
}

/// `base + delta`, clamped into a plane of `len`
pub fn clamped(base: usize, delta: i32, len: usize) -> (r: usize)
    requires
        0 < len,
    ensures
        r == if base + delta < 0 {
            0
        } else if base + delta >= len {
            len - 1
        } else {
            base + delta
        },
{
    let v: i128 = base as i128 + delta as i128;
    if v < 0 {
        0
    } else if v >= len as i128 {
        len - 1
    } else {
        v as usize
    }
}

/// Whether a cell of a box is in its octagon: within `reach` along each axis,
/// and within `slant` along both together
pub open spec fn in_octagon(reach: int, slant: int, dy: int, dx: int) -> bool {
    let (ay, ax) = (
        if dy < 0 {
            -dy
        } else {
            dy
        },
        if dx < 0 {
            -dx
        } else {
            dx
        },
    );
    ay <= reach && ax <= reach && ay + ax <= slant
}

/// The two boxes a pixel is averaged over
#[derive(Debug, Clone, Copy, PartialEq, Eq, Structural)]
pub enum Level {
    /// The 9x9 octagon: `max(|dx|,|dy|) <= 4` and `|dx| + |dy| <= 6`
    Wide,
    /// The 5x5 octagon: `max(|dx|,|dy|) <= 2` and `|dx| + |dy| <= 3`
    Near,
}

impl Level {
    /// How far the box reaches along one axis
    pub open spec fn reach(self) -> int {
        match self {
            Level::Wide => 4,
            Level::Near => 2,
        }
    }

    /// How far it reaches along both together
    pub open spec fn slant(self) -> int {
        match self {
            Level::Wide => 6,
            Level::Near => 3,
        }
    }

    /// How far row `dy` of the box reaches to either side
    pub open spec fn half_of(self, dy: int) -> int {
        let left = self.slant() - if dy < 0 {
            -dy
        } else {
            dy
        };
        if left < self.reach() {
            left
        } else {
            self.reach()
        }
    }

    /// How many cells the rows from `-reach` up to `dy` have
    pub open spec fn cells_to(self, dy: int) -> int
        decreases dy + self.reach() + 1,
    {
        if dy < -self.reach() {
            0
        } else {
            self.cells_to(dy - 1) + 2 * self.half_of(dy) + 1
        }
    }

    /// How many cells it has
    pub fn cells(self) -> (r: u32)
        ensures
            r == self.cells_to(self.reach()),
    {
        proof {
            reveal_with_fuel(Level::cells_to, 11);
        }
        match self {
            Level::Wide => 69,
            Level::Near => 21,
        }
    }

    /// How far the box reaches along one axis
    pub fn radius(self) -> (r: i32)
        ensures
            r == self.reach(),
    {
        match self {
            Level::Wide => 4,
            Level::Near => 2,
        }
    }

    /// How far row `dy` of the box reaches to either side
    pub fn half_width(self, dy: i32) -> (r: i32)
        requires
            -self.reach() <= dy <= self.reach(),
        ensures
            r == self.half_of(dy as int),
            r >= 0,
            forall|dx: int|
                #[trigger] in_octagon(self.reach(), self.slant(), dy as int, dx) <==> -r <= dx <= r,
    {
        let ay: i32 = if dy < 0 {
            -dy
        } else {
            dy
        };
        match self {
            Level::Wide => if ay <= 2 {
                4
            } else {
                6 - ay
            },
            Level::Near => if ay <= 1 {
                2
            } else {
                3 - ay
            },
        }
    }

    /// The run of cells of one row of the box that are in the plane, as pixels
    /// of it, both ends in the run
    pub fn span(self, y: usize, x: usize, dy: i32, rows: usize, cols: usize) -> (r: Option<
        (usize, usize),
    >)
        requires
            y < rows,
            x < cols,
            rows * cols <= usize::MAX,
            -self.reach() <= dy <= self.reach(),
        ensures
            r is Some <==> 0 <= y + dy < rows,
            r matches Some((lo, hi)) ==> {
                let row = (y + dy) * cols;
                &&& row <= lo <= hi < row + cols <= rows * cols
                &&& forall|nx: int|
                    #![trigger in_octagon(self.reach(), self.slant(), dy as int, nx - x)]
                    0 <= nx < cols ==> (lo <= row + nx <= hi <==> in_octagon(
                        self.reach(),
                        self.slant(),
                        dy as int,
                        nx - x,
                    ))
            },
    {
        match offset(y, dy, rows) {
            None => None,
            Some(ny) => {
                let half: i32 = self.half_width(dy);
                proof {
                    lemma_in_plane(rows as int, cols as int, ny as int, x as int);
                }
                let base: usize = ny * cols;
                let from: usize = clamped(x, -half, cols);
                let to: usize = clamped(x, half, cols);
                Some((base + from, base + to))
            },
        }
    }
}

/// What decides the dither of a pixel: 24 bits fixed per pixel and channel
pub open spec fn dither_mix(pixel: u64, channel: u64) -> u64 {
    let x = pixel << 2 | channel;
    let x = ((x ^ (x >> 30)) as int * 0xbf58_476d_1ce4_e5b9int % 0x1_0000_0000_0000_0000) as u64;
    let x = ((x ^ (x >> 27)) as int * 0x94d0_49bb_1331_11ebint % 0x1_0000_0000_0000_0000) as u64;
    (x ^ (x >> 31)) & 0x00ff_ffff
}

/// What decides the dither of a pixel: 24 bits fixed per pixel and channel
///
/// Not a real random number, for speed: two rounds of Stafford's Mix13.
pub fn dither_bits(pixel: u64, channel: u64) -> (r: u32)
    ensures
        r == dither_mix(pixel, channel),
{
    let x: u64 = pixel << 2 | channel;
    let x: u64 = (x ^ (x >> 30)).wrapping_mul(0xbf58_476d_1ce4_e5b9);
    let x: u64 = (x ^ (x >> 27)).wrapping_mul(0x94d0_49bb_1331_11eb);
    let y: u64 = (x ^ (x >> 31)) & 0x00ff_ffff;
    proof {
        let z = x ^ (x >> 31);
        assert(z & 0x00ff_ffff <= 0x00ff_ffff) by (bit_vector);
    }
    y as u32
}

// ----- what is written back

/// The pixels of a mask, in order
pub open spec fn flagged(mask: Seq<bool>, n: int) -> Seq<u32>
    decreases n,
{
    if n <= 0 {
        Seq::empty()
    } else if mask[n - 1] {
        flagged(mask, n - 1).push((n - 1) as u32)
    } else {
        flagged(mask, n - 1)
    }
}

/// The pixels of a mask, in order
pub fn pixels_of(mask: &[bool]) -> (r: Vec<u32>)
    requires
        mask@.len() <= u32::MAX,
    ensures
        r@ == flagged(mask@, mask@.len() as int),
{
    let mut at: Vec<u32> = Vec::new();
    let mut n: usize = 0;
    while n < mask.len()
        invariant
            n <= mask@.len() <= u32::MAX,
            at@ == flagged(mask@, n as int),
        decreases mask@.len() - n,
    {
        if mask[n] {
            at.push(n as u32);
        }
        n += 1;
    }
    at
}

/// What a pixel is left at: the rebuilt value, or with the clamp on the lighter
/// of that and what was scanned
pub open spec fn settled(scanned: u16, rebuilt: u16, clamp: bool) -> u16 {
    if clamp && rebuilt < scanned {
        scanned
    } else {
        rebuilt
    }
}

/// A plane with the first `n` rebuilt pixels written back
pub open spec fn patched(
    plane: Seq<u16>,
    at: Seq<u32>,
    values: Seq<u16>,
    clamp: bool,
    n: int,
) -> Seq<u16>
    decreases n,
{
    if n <= 0 {
        plane
    } else {
        let before = patched(plane, at, values, clamp, n - 1);
        let i = at[n - 1] as int;
        before.update(i, settled(before[i], values[n - 1], clamp))
    }
}

/// Writing pixels back does not change how many there are
proof fn lemma_patched_len(plane: Seq<u16>, at: Seq<u32>, values: Seq<u16>, clamp: bool, n: int)
    requires
        n <= at.len(),
        forall|k: int| 0 <= k < n ==> (#[trigger] at[k]) < plane.len(),
    ensures
        patched(plane, at, values, clamp, n).len() == plane.len(),
    decreases n,
{
    if n > 0 {
        lemma_patched_len(plane, at, values, clamp, n - 1);
    }
}

/// Write the rebuilt pixels back, only ever filling in where the clamp is on
pub fn write_back(plane: &mut Vec<u16>, at: &[u32], values: &[u16], clamp_l3: bool)
    requires
        at@.len() == values@.len(),
        forall|n: int| 0 <= n < at@.len() ==> (#[trigger] at@[n]) < old(plane)@.len(),
    ensures
        final(plane)@ == patched(old(plane)@, at@, values@, clamp_l3, at@.len() as int),
{
    let ghost start = plane@;
    let mut n: usize = 0;
    while n < at.len()
        invariant
            n <= at@.len(),
            at@.len() == values@.len(),
            forall|k: int| 0 <= k < at@.len() ==> (#[trigger] at@[k]) < start.len(),
            plane@ == patched(start, at@, values@, clamp_l3, n as int),
            plane@.len() == start.len(),
        decreases at@.len() - n,
    {
        let i: usize = at[n] as usize;
        let v: u16 = values[n];
        let was: u16 = plane[i];
        plane[i] = if clamp_l3 && v < was {
            was
        } else {
            v
        };
        n += 1;
    }
}

/// In Normal quality no pixel comes out darker than it scanned
pub proof fn law_normal_never_darkens(
    plane: Seq<u16>,
    at: Seq<u32>,
    values: Seq<u16>,
    n: int,
    i: int,
)
    requires
        0 <= i < plane.len(),
        n <= at.len(),
        forall|k: int| 0 <= k < n ==> (#[trigger] at[k]) < plane.len(),
    ensures
        patched(plane, at, values, true, n)[i] >= plane[i],
    decreases n,
{
    if n > 0 {
        law_normal_never_darkens(plane, at, values, n - 1, i);
        lemma_patched_len(plane, at, values, true, n - 1);
    }
}

/// Only the pixels that were rebuilt are written
pub proof fn law_other_pixels_stay(
    plane: Seq<u16>,
    at: Seq<u32>,
    values: Seq<u16>,
    clamp: bool,
    n: int,
    i: int,
)
    requires
        0 <= i < plane.len(),
        n <= at.len(),
        forall|k: int| 0 <= k < n ==> (#[trigger] at[k]) < plane.len() && at[k] != i,
    ensures
        patched(plane, at, values, clamp, n)[i] == plane[i],
    decreases n,
{
    if n > 0 {
        law_other_pixels_stay(plane, at, values, clamp, n - 1, i);
        lemma_patched_len(plane, at, values, clamp, n - 1);
        assert(at[n - 1] != i);
    }
}

// ----- what the decisions come to

/// Whether every pixel of row `r` within four columns of `x` is dark
pub open spec fn dark_along(dark: Seq<bool>, cols: int, r: int, x: int) -> bool {
    forall|c: int| 0 <= c < cols && x - 4 <= c <= x + 4 ==> #[trigger] dark[r * cols + c]
}

/// Whether every pixel of column `c` within four rows of `y` is dark
pub open spec fn dark_up_and_down(dark: Seq<bool>, rows: int, cols: int, y: int, c: int) -> bool {
    forall|r: int| 0 <= r < rows && y - 4 <= r <= y + 4 ==> #[trigger] dark[r * cols + c]
}

/// Pixel `(y, x)` of a plane, and where it is
proof fn lemma_at(rows: int, cols: int, y: int, x: int)
    requires
        0 <= y < rows,
        0 <= x < cols,
    ensures
        0 <= y * cols + x < rows * cols,
        (y * cols + x) / cols == y,
        (y * cols + x) % cols == x,
{
    lemma_in_plane(rows, cols, y, x);
    vstd::arithmetic::div_mod::lemma_fundamental_div_mod_converse(y * cols + x, cols, y, x);
}

/// Two rounds of neighbors across reach four columns either way, and leave none
/// of them out
proof fn lemma_across_twice(dark: Seq<bool>, rows: int, cols: int, y: int, x: int)
    requires
        dark.len() == rows * cols,
        0 <= y < rows,
        0 <= x < cols,
    ensures
        all_across(all_across(dark, cols, 1), cols, 3)[y * cols + x] <==> dark_along(
            dark,
            cols,
            y,
            x,
        ),
{
    let near = all_across(dark, cols, 1);
    let far = all_across(near, cols, 3);
    assert forall|c: int| 0 <= c < cols implies #[trigger] near[y * cols + c] == (dark[y * cols
        + back(c, 1)] && dark[y * cols + c] && dark[y * cols + ahead(c, 1, cols)]) by {
        lemma_at(rows, cols, y, c);
    }
    lemma_at(rows, cols, y, x);
    let (lo, hi) = (back(x, 3), ahead(x, 3, cols));
    assert(far[y * cols + x] == (near[y * cols + lo] && near[y * cols + x] && near[y * cols + hi]));
    if far[y * cols + x] {
        assert forall|c: int| 0 <= c < cols && x - 4 <= c <= x + 4 implies #[trigger] dark[y * cols
            + c] by {
            if c < x - 1 {
                assert(c == lo || c == back(lo, 1) || c == ahead(lo, 1, cols));
            } else if c > x + 1 {
                assert(c == hi || c == back(hi, 1) || c == ahead(hi, 1, cols));
            } else {
                assert(c == x || c == back(x, 1) || c == ahead(x, 1, cols));
            }
        }
    }
    if dark_along(dark, cols, y, x) {
        assert forall|c: int| (c == lo || c == x || c == hi) implies #[trigger] near[y * cols
            + c] by {
            assert(dark[y * cols + c]);
            assert(dark[y * cols + back(c, 1)]);
            assert(dark[y * cols + ahead(c, 1, cols)]);
        }
    }
}

/// Two rounds of neighbors down reach four rows either way, and leave none of
/// them out
proof fn lemma_down_twice(dark: Seq<bool>, rows: int, cols: int, y: int, x: int)
    requires
        dark.len() == rows * cols,
        0 <= y < rows,
        0 <= x < cols,
    ensures
        all_down(all_down(dark, rows, cols, 1), rows, cols, 3)[y * cols + x] <==> dark_up_and_down(
            dark,
            rows,
            cols,
            y,
            x,
        ),
{
    let near = all_down(dark, rows, cols, 1);
    let far = all_down(near, rows, cols, 3);
    assert forall|r: int| 0 <= r < rows implies #[trigger] near[r * cols + x] == (dark[back(r, 1)
        * cols + x] && dark[r * cols + x] && dark[ahead(r, 1, rows) * cols + x]) by {
        lemma_at(rows, cols, r, x);
    }
    lemma_at(rows, cols, y, x);
    let (lo, hi) = (back(y, 3), ahead(y, 3, rows));
    assert(far[y * cols + x] == (near[lo * cols + x] && near[y * cols + x] && near[hi * cols + x]));
    if far[y * cols + x] {
        assert forall|r: int| 0 <= r < rows && y - 4 <= r <= y + 4 implies #[trigger] dark[r * cols
            + x] by {
            if r < y - 1 {
                assert(r == lo || r == back(lo, 1) || r == ahead(lo, 1, rows));
            } else if r > y + 1 {
                assert(r == hi || r == back(hi, 1) || r == ahead(hi, 1, rows));
            } else {
                assert(r == y || r == back(y, 1) || r == ahead(y, 1, rows));
            }
        }
    }
    if dark_up_and_down(dark, rows, cols, y, x) {
        assert forall|r: int| (r == lo || r == y || r == hi) implies #[trigger] near[r * cols
            + x] by {
            assert(dark[r * cols + x]);
            assert(dark[back(r, 1) * cols + x]);
            assert(dark[ahead(r, 1, rows) * cols + x]);
        }
    }
}

/// A pixel is rebuilt exactly where neither holds: it is certain film and the
/// clamps are on; or four rows above or below it, or at the edge where that is
/// nearer, the row is dark for four pixels either way, or four columns to either
/// side, or at the edge, the column is. Whether it is dark itself says nothing.
pub proof fn law_what_is_rebuilt(
    dark: Seq<bool>,
    certain: Seq<bool>,
    rows: int,
    cols: int,
    clamp: bool,
    y: int,
    x: int,
)
    requires
        dark.len() == rows * cols,
        0 <= y < rows,
        0 <= x < cols,
    ensures
        worth_rebuilding(dark, certain, rows, cols, clamp).len() == dark.len(),
        ({
            let above = if y < 4 { 0 } else { y - 4 };
            let below = if y + 4 < rows { y + 4 } else { rows - 1 };
            let left = if x < 4 { 0 } else { x - 4 };
            let right = if x + 4 < cols { x + 4 } else { cols - 1 };
            let i = y * cols + x;
            worth_rebuilding(dark, certain, rows, cols, clamp)[i] <==> {
                &&& !clamp || !certain[i]
                &&& !dark_along(dark, cols, above, x)
                &&& !dark_along(dark, cols, below, x)
                &&& !dark_up_and_down(dark, rows, cols, y, left)
                &&& !dark_up_and_down(dark, rows, cols, y, right)
            }
        }),
{
    lemma_at(rows, cols, y, x);
    lemma_across_twice(dark, rows, cols, back(y, 4), x);
    lemma_across_twice(dark, rows, cols, ahead(y, 4, rows), x);
    lemma_down_twice(dark, rows, cols, y, back(x, 4));
    lemma_down_twice(dark, rows, cols, y, ahead(x, 4, cols));
}

/// A pixel of a plane is kept across or down exactly where it and its neighbors
/// `k` away are set, the edge standing in for a neighbor past it
pub proof fn law_neighbors_all_set(
    src: Seq<bool>,
    rows: int,
    cols: int,
    k: int,
    y: int,
    x: int,
)
    requires
        src.len() == rows * cols,
        0 <= k,
        0 <= y < rows,
        0 <= x < cols,
    ensures
        ({
            let left = if x - k < 0 { 0 } else { x - k };
            let right = if x + k > cols - 1 { cols - 1 } else { x + k };
            all_across(src, cols, k)[y * cols + x] <==> src[y * cols + left] && src[y * cols + x]
                && src[y * cols + right]
        }),
        ({
            let up = if y - k < 0 { 0 } else { y - k };
            let down = if y + k > rows - 1 { rows - 1 } else { y + k };
            all_down(src, rows, cols, k)[y * cols + x] <==> src[up * cols + x] && src[y * cols + x]
                && src[down * cols + x]
        }),
        all_across(src, cols, k).len() == src.len(),
        all_down(src, rows, cols, k).len() == src.len(),
{
    lemma_at(rows, cols, y, x);
}

/// The pixels of a mask ascend, and they are exactly those it is set at
pub proof fn law_flagged_pixels(mask: Seq<bool>, n: int)
    requires
        0 <= n <= mask.len(),
        n <= u32::MAX,
    ensures
        forall|a: int, b: int|
            0 <= a < b < flagged(mask, n).len() ==> flagged(mask, n)[a] < flagged(mask, n)[b],
        forall|k: int|
            0 <= k < flagged(mask, n).len() ==> (#[trigger] flagged(mask, n)[k]) < n
                && mask[flagged(mask, n)[k] as int],
        forall|i: int|
            0 <= i < n && #[trigger] mask[i] ==> flagged(mask, n).contains(i as u32),
    decreases n,
{
    if n > 0 {
        law_flagged_pixels(mask, n - 1);
        let before = flagged(mask, n - 1);
        let all = flagged(mask, n);
        assert forall|i: int| 0 <= i < n && #[trigger] mask[i] implies all.contains(i as u32) by {
            if i < n - 1 {
                assert(before.contains(i as u32));
                let k = choose|k: int| 0 <= k < before.len() && before[k] == i as u32;
                assert(all[k] == i as u32);
            } else {
                assert(all[all.len() - 1] == i as u32);
            }
        }
    }
}

/// A rebuilt pixel that is written once is left at its rebuilt value, or with the
/// clamp on at the greater of that and what was scanned
pub proof fn law_a_rebuilt_pixel_is_written(
    plane: Seq<u16>,
    at: Seq<u32>,
    values: Seq<u16>,
    clamp: bool,
    n: int,
    k: int,
)
    requires
        0 <= k < n <= at.len(),
        forall|j: int| 0 <= j < n ==> (#[trigger] at[j]) < plane.len(),
        forall|j: int| 0 <= j < n && j != k ==> #[trigger] at[j] != at[k],
    ensures
        ({
            let (was, v) = (plane[at[k] as int], values[k]);
            let left = patched(plane, at, values, clamp, n)[at[k] as int];
            &&& !clamp ==> left == v
            &&& clamp ==> left >= v && left >= was && (left == v || left == was)
        }),
    decreases n,
{
    lemma_patched_len(plane, at, values, clamp, n - 1);
    if k == n - 1 {
        law_other_pixels_stay(plane, at, values, clamp, n - 1, at[k] as int);
    } else {
        law_a_rebuilt_pixel_is_written(plane, at, values, clamp, n - 1, k);
        assert(at[n - 1] != at[k]);
    }
}

/// The boxes are the octagons they are drawn as, of 69 and 21 cells
pub proof fn law_the_boxes_are_octagons(dy: int, dx: int)
    ensures
        in_octagon(Level::Wide.reach(), Level::Wide.slant(), dy, dx) <==> -4 <= dy <= 4 && -4 <= dx
            <= 4 && -6 <= dy + dx <= 6 && -6 <= dy - dx <= 6,
        in_octagon(Level::Near.reach(), Level::Near.slant(), dy, dx) <==> -2 <= dy <= 2 && -2 <= dx
            <= 2 && -3 <= dy + dx <= 3 && -3 <= dy - dx <= 3,
        Level::Wide.reach() == 4 && Level::Near.reach() == 2,
        Level::Wide.cells_to(4) == 69 && Level::Near.cells_to(2) == 21,
{
    reveal_with_fuel(Level::cells_to, 11);
}

/// A tile is clear film exactly where each of its 64 infrared samples is past
/// 8847.23
pub proof fn law_what_clear_film_is(ir: Seq<u16>, cols: int, row0: int, col0: int)
    ensures
        clear_tile(ir, cols, row0, col0) <==> forall|r: int, c: int|
            row0 <= r < row0 + 8 && col0 <= c < col0 + 8 ==> 100 * #[trigger] ir[r * cols + c]
                > 884723,
{
    if clear_tile(ir, cols, row0, col0) {
        assert forall|r: int, c: int| row0 <= r < row0 + 8 && col0 <= c < col0 + 8 implies 100
            * #[trigger] ir[r * cols + c] > 884723 by {
            assert(clear_sample(ir[(row0 + (r - row0)) * cols + (col0 + (c - col0))]));
        }
    }
    if forall|r: int, c: int|
        row0 <= r < row0 + 8 && col0 <= c < col0 + 8 ==> 100 * #[trigger] ir[r * cols + c]
            > 884723 {
        assert forall|dy: int, dx: int| 0 <= dy < 8 && 0 <= dx < 8 implies clear_sample(
            #[trigger] ir[(row0 + dy) * cols + (col0 + dx)],
        ) by {}
    }
}

/// The tiles that are listed are whole ones on an 8x8 grid, row after row, each
/// one once: the ones of clear film, and every one of them
pub proof fn law_every_clear_tile_is_listed(ir: Seq<u16>, rows: int, cols: int, n: int)
    requires
        0 <= rows,
        0 <= cols,
        0 <= n <= (rows / 8) * (cols / 8),
    ensures
        ({
            let tiles = clear_before(ir, cols, n);
            &&& forall|k: int|
                0 <= k < tiles.len() ==> {
                    let (r, c) = #[trigger] tiles[k];
                    &&& 0 <= r && r + 8 <= rows && r % 8 == 0
                    &&& 0 <= c && c + 8 <= cols && c % 8 == 0
                    &&& clear_tile(ir, cols, r, c)
                    &&& (r / 8) * (cols / 8) + c / 8 < n
                }
            &&& forall|a: int, b: int|
                0 <= a < b < tiles.len() ==> {
                    ||| (#[trigger] tiles[a]).0 < (#[trigger] tiles[b]).0
                    ||| tiles[a].0 == tiles[b].0 && tiles[a].1 < tiles[b].1
                }
            &&& forall|r: int, c: int|
                0 <= r && 0 <= c < cols / 8 && r * (cols / 8) + c < n && #[trigger] clear_tile(
                    ir,
                    cols,
                    8 * r,
                    8 * c,
                ) ==> tiles.contains((8 * r, 8 * c))
        }),
    decreases n,
{
    let across = cols / 8;
    if n > 0 {
        law_every_clear_tile_is_listed(ir, rows, cols, n - 1);
        let before = clear_before(ir, cols, n - 1);
        let tiles = clear_before(ir, cols, n);
        let down = rows / 8;
        assert(across > 0) by (nonlinear_arith)
            requires
                0 < n <= down * across,
                0 <= down,
                0 <= across,
        ;
        lemma_row_and_column(down, across, n - 1);
        let (row0, col0) = tile_origin(cols, n - 1);
        assert(row0 == 8 * ((n - 1) / across) && col0 == 8 * ((n - 1) % across));
        assert(row0 / 8 == (n - 1) / across && col0 / 8 == (n - 1) % across);
        assert forall|a: int, b: int| 0 <= a < b < tiles.len() implies {
            ||| (#[trigger] tiles[a]).0 < (#[trigger] tiles[b]).0
            ||| tiles[a].0 == tiles[b].0 && tiles[a].1 < tiles[b].1
        } by {
            if b == before.len() {
                let (r, c) = tiles[a];
                assert(before[a] == tiles[a]);
                assert((r / 8) * across + c / 8 < n - 1);
                assert(c / 8 < across);
                assert(r / 8 < row0 / 8 || r / 8 == row0 / 8 && c / 8 < col0 / 8) by (
                    nonlinear_arith)
                    requires
                        (r / 8) * across + c / 8 < (row0 / 8) * across + col0 / 8,
                        0 <= c / 8,
                        0 <= col0 / 8 < across,
                ;
            } else {
                assert(before[a] == tiles[a] && before[b] == tiles[b]);
            }
        }
        assert forall|r: int, c: int|
            0 <= r && 0 <= c < cols / 8 && r * (cols / 8) + c < n && #[trigger] clear_tile(
                ir,
                cols,
                8 * r,
                8 * c,
            ) implies tiles.contains((8 * r, 8 * c)) by {
            if r * across + c < n - 1 {
                assert(before.contains((8 * r, 8 * c)));
                let k = choose|k: int| 0 <= k < before.len() && before[k] == (8 * r, 8 * c);
                assert(tiles[k] == (8 * r, 8 * c));
            } else {
                vstd::arithmetic::div_mod::lemma_fundamental_div_mod_converse(
                    r * across + c,
                    across,
                    r,
                    c,
                );
                assert(tiles[tiles.len() - 1] == (8 * r, 8 * c));
            }
        }
    }
}

/// What a unit is run with, and past which resolution its contrast goes by the
/// cross
pub proof fn law_what_each_unit_is_run_with(unit: Unit)
    ensures
        ({
            let dpi = Model::of(unit).contrast_dpi_of();
            &&& unit == Unit::Ls9000 || unit == Unit::Ls8000 ==> dpi == 950
            &&& unit == Unit::Ls5000 || unit == Unit::Ls4000 ==> dpi == 1600
            &&& unit == Unit::Ls50 || unit == Unit::Ls40 ==> dpi == 2500
        }),
        Model::Ls9000.contrast_dpi_of() == 950,
        Model::Ls5000.contrast_dpi_of() == 1600,
        Model::Ls50.contrast_dpi_of() == 2500,
{
}

/// The dither of a pixel is drawn from its number and its channel's, four
/// channels to a pixel: twice folded onto itself and multiplied, folded once
/// more, and cut to 24 bits
pub proof fn law_what_the_dither_is_drawn_from(pixel: u64, channel: u64, first: u64, second: u64)
    requires
        pixel < 0x4000_0000_0000_0000,
        channel < 4,
        first == ((4 * pixel + channel) as u64 ^ ((4 * pixel + channel) / 0x4000_0000) as u64)
            * 13787848793156543929 % 18446744073709551616,
        second == (first ^ (first / 0x800_0000) as u64) * 10723151780598845931
            % 18446744073709551616,
    ensures
        dither_mix(pixel, channel) == (second ^ (second / 0x8000_0000) as u64) % 0x100_0000,
{
    let x = pixel << 2 | channel;
    assert(x == 4 * pixel + channel) by (bit_vector)
        requires
            pixel < 0x4000_0000_0000_0000,
            channel < 4,
            x == pixel << 2 | channel,
    ;
    assert(x >> 30 == x / 0x4000_0000) by (bit_vector);
    assert(first >> 27 == first / 0x800_0000) by (bit_vector);
    assert(second >> 31 == second / 0x8000_0000) by (bit_vector);
    let z = second ^ (second >> 31);
    assert(z & 0x00ff_ffff == z % 0x100_0000) by (bit_vector);
}

/// Which resolutions a neighborhood is measured from, and which film is clear
pub proof fn law_what_counts_as_fine_and_clear(dpi: u32, ir: u16)
    ensures
        dpi > MIN3_DPI <==> dpi >= 551,
        clear_sample(ir) <==> ir > 8847,
{
}

/// What a scan switches on: the clamps in Normal, the three gates past 550 dots
/// per inch and the cross past what the unit's contrast goes to
pub proof fn law_what_is_switched_on(model: Model, quality: Quality, dpi: u32, r: Switches)
    requires
        call_ensures(switches, (model, quality, dpi), r),
    ensures
        r.clamp_l3 <==> quality == Quality::Normal,
        r.min3 <==> dpi >= 551,
        model is Ls9000 ==> (r.cross_beta <==> dpi >= 951),
        model is Ls5000 ==> (r.cross_beta <==> dpi >= 1601),
        model is Ls50 ==> (r.cross_beta <==> dpi >= 2501),
{
}

/// A step off a plane is none, or is held at its edge
pub proof fn law_where_a_step_ends(
    base: usize,
    delta: i32,
    len: usize,
    r: Option<usize>,
    held: usize,
)
    requires
        0 < len,
        call_ensures(offset, (base, delta, len), r),
        call_ensures(clamped, (base, delta, len), held),
    ensures
        r is None <==> base + delta < 0 || base + delta >= len,
        r matches Some(v) ==> v == base + delta && held == v,
        held < len,
        base + delta < 0 ==> held == 0,
        base + delta >= len ==> held + 1 == len,
{
}

} // verus!
