use vstd::prelude::*;
use crate::bch::{bch_reduce, ecc_format_u16, ecc_format_u32, ECC_FORMAT_MASK, GEN_POLY_FORMAT, GEN_POLY_VERSION};
use crate::capacity::{get_indices_for_dimensions, square_count_spec};
use crate::cell::{black, black_color, white, white_color, Cell, CellType, PlotPoint, Point};
use crate::config::{ECLevel, QRConfig};
use crate::geometry::{stamp_all, stamp_points, MAX_SIZE};
use crate::penalty::{grid_ok, penalty_spec};
use crate::qr::QR;

verus! {

/// The eight mask conditions; where one holds, a data module is flipped.
pub open spec fn mask_spec(n: int, row: int, col: int) -> bool {
    if n == 0 {
        (row + col) % 2 == 0
    } else if n == 1 {
        row % 2 == 0
    } else if n == 2 {
        col % 3 == 0
    } else if n == 3 {
        (row + col) % 3 == 0
    } else if n == 4 {
        ((row / 2) + (col / 3)) % 2 == 0
    } else if n == 5 {
        ((row * col) % 2) + ((row * col) % 3) == 0
    } else if n == 6 {
        (((row * col) % 2) + ((row * col) % 3)) % 2 == 0
    } else {
        (((row + col) % 2) + ((row * col) % 3)) % 2 == 0
    }
}

pub open spec fn flip(c: Cell) -> Cell {
    Cell { module_type: c.module_type, value: c.value, point: c.point, color: if c.dark() { white() } else { black() } }
}

/// Mask `n` applied to the data modules; every other module is kept.
pub open spec fn apply_mask_spec(g: Seq<Cell>, size: int, n: int) -> Seq<Cell> {
    Seq::new(g.len(), |i: int|
        if g[i].module_type == CellType::Message && mask_spec(n, i / size, i % size) {
            flip(g[i])
        } else {
            g[i]
        })
}

pub open spec fn mask_score(g: Seq<Cell>, size: int, n: int) -> int {
    penalty_spec(apply_mask_spec(g, size, n), size)
}

/// The lowest-scoring of masks 0 .. k - 1, the first one on ties.
pub open spec fn best_mask_upto(g: Seq<Cell>, size: int, k: int) -> int
    decreases k,
{
    if k <= 1 {
        0
    } else {
        let b = best_mask_upto(g, size, k - 1);
        if mask_score(g, size, k - 1) < mask_score(g, size, b) {
            k - 1
        } else {
            b
        }
    }
}

pub open spec fn best_mask(g: Seq<Cell>, size: int) -> int {
    best_mask_upto(g, size, 8)
}

/// Two-bit code of the error-correction level in the format information.
pub open spec fn level_code(level: ECLevel) -> int {
    match level {
        ECLevel::Low => 1,
        ECLevel::Medium => 0,
        ECLevel::Q => 3,
        ECLevel::High => 2,
    }
}

/// The 15-bit format string of a level and a mask.
pub open spec fn format_string_spec(level: ECLevel, pattern: int) -> u16 {
    let data = (level_code(level) * 8 + pattern) as u32;
    ((((data << 10u32) | bch_reduce(data << 10u32, GEN_POLY_FORMAT as u32, 10, 14)) ^ ECC_FORMAT_MASK as u32) as u16)
}

/// The 18-bit version string.
pub open spec fn version_string_spec(version: int) -> u32 {
    let v = version as u32;
    (v << 12u32) | bch_reduce(v << 12u32, GEN_POLY_VERSION, 12, 17)
}

/// Module of format bit `k` (0 .. 30): the first copy runs along row 8 and
/// up column 8 round the top-left finder, skipping the timing modules; the
/// second runs up column 8 from the bottom, then along row 8 at the right.
pub open spec fn format_pos(size: int, k: int) -> (int, int) {
    if k < 6 {
        (8, k)
    } else if k == 6 {
        (8, 7)
    } else if k == 7 {
        (8, 8)
    } else if k == 8 {
        (7, 8)
    } else if k < 15 {
        (14 - k, 8)
    } else if k < 22 {
        (size - 1 - (k - 15), 8)
    } else {
        (8, size - 8 + (k - 22))
    }
}

/// Colour of bit `j` of `bits`.
pub open spec fn bit_color(bits: u32, j: int) -> crate::cell::Color {
    if (bits >> (j as u32)) & 1u32 == 1u32 { black() } else { white() }
}

/// The 30 format modules with their colours; bit 14 comes first in each copy.
pub open spec fn format_bits_spec(size: int, fmt: u16) -> Seq<PlotPoint> {
    Seq::new(30, |k: int| PlotPoint {
        point: Point(format_pos(size, k).0 as usize, format_pos(size, k).1 as usize),
        color: bit_color(fmt as u32, 14 - k % 15),
    })
}

/// Colours module `idxs[k]` by bit `k` of `bits`, for every `k`.
pub open spec fn paint_indices(g: Seq<Cell>, idxs: Seq<usize>, bits: u32) -> Seq<Cell>
    decreases idxs.len(),
{
    if idxs.len() == 0 {
        g
    } else {
        let k = idxs.len() - 1;
        let h = paint_indices(g, idxs.drop_last(), bits);
        let i = idxs[k] as int;
        if i < h.len() {
            h.update(i, Cell { module_type: h[i].module_type, value: h[i].value, point: h[i].point, color: bit_color(bits, k) })
        } else {
            h
        }
    }
}

/// Entry `n` of the version block left of the top-right finder.
pub open spec fn upper_version_indices(size: int) -> Seq<usize> {
    Seq::new(18, |n: int| (size - 11 + n % 3 + (n / 3) * size) as usize)
}

/// Entry `n` of the version block above the bottom-left finder.
pub open spec fn lower_version_indices(size: int) -> Seq<usize> {
    Seq::new(18, |n: int| ((size - 11) * size + (n % 3) * size + n / 3) as usize)
}

pub open spec fn version_info_spec(g: Seq<Cell>, version: int) -> Seq<Cell> {
    let size = square_count_spec(version);
    let bits = version_string_spec(version);
    paint_indices(paint_indices(g, upper_version_indices(size), bits), lower_version_indices(size), bits)
}

/// The grid after the chosen mask, the format information and (from
/// version 7) the version information.
pub open spec fn finish_spec(g: Seq<Cell>, version: int, level: ECLevel) -> Seq<Cell> {
    let size = square_count_spec(version);
    let m = best_mask(g, size);
    let masked = apply_mask_spec(g, size, m);
    let formatted = stamp_all(masked, size, format_bits_spec(size, format_string_spec(level, m)), CellType::Format, false);
    if version >= 7 {
        version_info_spec(formatted, version)
    } else {
        formatted
    }
}

proof fn lemma_paint_len(g: Seq<Cell>, idxs: Seq<usize>, bits: u32)
    ensures
        paint_indices(g, idxs, bits).len() == g.len(),
    decreases idxs.len(),
{
    if idxs.len() > 0 {
        lemma_paint_len(g, idxs.drop_last(), bits);
    }
}

fn paint(body: &mut Vec<Cell>, idxs: &Vec<usize>, bits: u32)
    requires
        idxs@.len() <= 32,
    ensures
        final(body)@ == paint_indices(old(body)@, idxs@, bits),
{
    let ghost g0 = body@;
    let mut k: usize = 0;
    while k < idxs.len()
        invariant
            k <= idxs@.len(),
            idxs@.len() <= 32,
            body@ == paint_indices(g0, idxs@.take(k as int), bits),
        decreases idxs@.len() - k,
    {
        proof {
            assert(idxs@.take(k as int + 1).drop_last() =~= idxs@.take(k as int));
            lemma_paint_len(g0, idxs@.take(k as int), bits);
        }
        let i = idxs[k];
        if i < body.len() {
            let c = body[i];
            let color = if (bits >> (k as u32)) & 1 == 1 { black_color() } else { white_color() };
            body.set(i, Cell { module_type: c.module_type, value: c.value, point: c.point, color: color });
        }
        k += 1;
    }
    proof {
        assert(idxs@.take(idxs@.len() as int) =~= idxs@);
    }
}

fn copy_grid(body: &Vec<Cell>) -> (r: Vec<Cell>)
    ensures
        r@ == body@,
{
    let mut out: Vec<Cell> = Vec::new();
    let mut i: usize = 0;
    while i < body.len()
        invariant
            i <= body@.len(),
            out@ =~= body@.take(i as int),
        decreases body@.len() - i,
    {
        out.push(body[i]);
        i += 1;
    }
    proof {
        assert(body@.take(body@.len() as int) =~= body@);
    }
    out
}

fn format_position(size: usize, k: usize) -> (r: (usize, usize))
    requires
        21 <= size <= MAX_SIZE,
        k < 30,
    ensures
        r.0 == format_pos(size as int, k as int).0,
        r.1 == format_pos(size as int, k as int).1,
{
    if k < 6 {
        (8, k)
    } else if k == 6 {
        (8, 7)
    } else if k == 7 {
        (8, 8)
    } else if k == 8 {
        (7, 8)
    } else if k < 15 {
        (14 - k, 8)
    } else if k < 22 {
        (size - 1 - (k - 15), 8)
    } else {
        (8, size - 8 + (k - 22))
    }
}

impl QRConfig {
    /// Whether mask `n` flips the module at (`row`, `col`).
    pub fn get_mask_pattern(&self, n: usize, row: usize, col: usize) -> (r: bool)
        requires
            row <= MAX_SIZE,
            col <= MAX_SIZE,
        ensures
            r == mask_spec(n as int, row as int, col as int),
    {
        proof {
            assert(row * col <= MAX_SIZE * MAX_SIZE) by (nonlinear_arith)
                requires row <= MAX_SIZE, col <= MAX_SIZE;
        }
        match n {
            0 => (row + col) % 2 == 0,
            1 => row % 2 == 0,
            2 => col % 3 == 0,
            3 => (row + col) % 3 == 0,
            4 => ((row / 2) + (col / 3)) % 2 == 0,
            5 => ((row * col) % 2) + ((row * col) % 3) == 0,
            6 => (((row * col) % 2) + ((row * col) % 3)) % 2 == 0,
            _ => (((row + col) % 2) + ((row * col) % 3)) % 2 == 0,
        }
    }

    /// Flips every data module where mask `n` holds.
    pub fn apply_mask_pattern(&self, body: &mut Vec<Cell>, n: usize)
        requires
            grid_ok(old(body)@, self.size as int),
        ensures
            final(body)@ == apply_mask_spec(old(body)@, self.size as int, n as int),
    {
        let ghost g0 = body@;
        let size = self.size;
        let mut i: usize = 0;
        while i < body.len()
            invariant
                size == self.size,
                grid_ok(g0, size as int),
                body@.len() == g0.len(),
                i <= g0.len(),
                forall|j: int| 0 <= j < i ==> #[trigger] body@[j] == apply_mask_spec(g0, size as int, n as int)[j],
                forall|j: int| i <= j < g0.len() ==> #[trigger] body@[j] == g0[j],
            decreases g0.len() - i,
        {
            let cell = body[i];
            let row = i / size;
            let col = i % size;
            proof {
                vstd::arithmetic::div_mod::lemma_div_is_ordered(i as int, g0.len() as int, size as int);
                vstd::arithmetic::div_mod::lemma_div_by_multiple(size as int, size as int);
            }
            match cell.module_type {
                CellType::Message => {
                    if self.get_mask_pattern(n, row, col) {
                        let color = if cell.is_black() { white_color() } else { black_color() };
                        body.set(i, Cell { module_type: cell.module_type, value: cell.value, point: cell.point, color: color });
                    }
                },
                _ => {},
            }
            i += 1;
        }
        proof {
            assert(body@ =~= apply_mask_spec(g0, size as int, n as int));
        }
    }

    /// Writes the format string of the level and mask `pattern` into the
    /// format bands.
    pub fn encode_format_areas(&self, body: &mut Vec<Cell>, pattern: u8)
        requires
            pattern < 8,
            21 <= self.size,
            grid_ok(old(body)@, self.size as int),
        ensures
            final(body)@ == stamp_all(old(body)@, self.size as int,
                format_bits_spec(self.size as int, format_string_spec(self.err_correction_level, pattern as int)),
                CellType::Format, false),
    {
        let ec_level: u16 = match self.err_correction_level {
            ECLevel::Low => 1,
            ECLevel::Medium => 0,
            ECLevel::Q => 3,
            ECLevel::High => 2,
        };
        let data = ec_level * 8 + pattern as u16;
        let format_str = ecc_format_u16(data, GEN_POLY_FORMAT, ECC_FORMAT_MASK);
        assert(format_str == format_string_spec(self.err_correction_level, pattern as int));
        let ghost fs = format_bits_spec(self.size as int, format_str);
        let mut pts: Vec<PlotPoint> = Vec::new();
        let mut k: usize = 0;
        while k < 30
            invariant
                21 <= self.size <= MAX_SIZE,
                k <= 30,
                fs == format_bits_spec(self.size as int, format_str),
                pts@ =~= fs.take(k as int),
            decreases 30 - k,
        {
            let (x, y) = format_position(self.size, k);
            let shift = (14 - k % 15) as u32;
            let color = if ((format_str as u32) >> shift) & 1 == 1 { black_color() } else { white_color() };
            pts.push(PlotPoint { point: Point(x, y), color: color });
            k += 1;
        }
        assert(pts@ =~= fs);
        stamp_points(body, self.size, &pts, CellType::Format, false);
    }

    /// Writes the version string into both version blocks, bit 0 first.
    pub fn apply_version_information(&self, body: &mut Vec<Cell>)
        requires
            self.wf(),
            self.version >= 7,
        ensures
            final(body)@ == version_info_spec(old(body)@, self.version as int),
    {
        let n = self.size;
        let bit_string = ecc_format_u32(self.version as u32, GEN_POLY_VERSION);
        proof {
            assert(n <= MAX_SIZE);
            assert((n - 11) * n <= MAX_SIZE * MAX_SIZE) by (nonlinear_arith)
                requires 11 <= n <= MAX_SIZE;
        }
        let upper_right_indices = get_indices_for_dimensions(n - 11, 1, n);
        let lower_left_indices = get_indices_for_dimensions((n - 11) * n, n, 1);
        assert(upper_right_indices@ =~= upper_version_indices(n as int));
        assert(lower_left_indices@ =~= lower_version_indices(n as int));
        paint(body, &upper_right_indices, bit_string);
        paint(body, &lower_left_indices, bit_string);
    }

    /// Scores all eight masks on scratch copies, applies the lowest-scoring
    /// one (the first on ties) to the grid, then writes the format and
    /// version information. Returns the chosen mask.
    pub fn post_process_data(&self, canvas: &mut QR) -> (m: usize)
        requires
            self.wf(),
            grid_ok(old(canvas).body@, self.size as int),
        ensures
            m == best_mask(old(canvas).body@, self.size as int),
            m < 8,
            final(canvas).body@ == finish_spec(old(canvas).body@, self.version as int, self.err_correction_level),
    {
        let ghost g0 = canvas.body@;
        let size = self.size;
        let mut best_pattern: usize = 0;
        let mut first = copy_grid(&canvas.body);
        self.apply_mask_pattern(&mut first, 0);
        let mut best = self.eval_penalty_scores(&first);
        let mut pattern: usize = 1;
        while pattern < 8
            invariant
                self.wf(),
                size == self.size,
                canvas.body@ == g0,
                grid_ok(g0, size as int),
                1 <= pattern <= 8,
                best_pattern == best_mask_upto(g0, size as int, pattern as int),
                best_pattern < 8,
                best == mask_score(g0, size as int, best_pattern as int),
            decreases 8 - pattern,
        {
            let mut copy = copy_grid(&canvas.body);
            self.apply_mask_pattern(&mut copy, pattern);
            let score = self.eval_penalty_scores(&copy);
            if score < best {
                best = score;
                best_pattern = pattern;
            }
            pattern += 1;
        }
        self.apply_mask_pattern(&mut canvas.body, best_pattern);
        self.encode_format_areas(&mut canvas.body, best_pattern as u8);
        if self.version >= 7 {
            self.apply_version_information(&mut canvas.body);
        }
        best_pattern
    }
}

proof fn lemma_best_mask_upto(g: Seq<Cell>, size: int, k: int)
    requires
        1 <= k,
    ensures
        0 <= best_mask_upto(g, size, k) < k,
        forall|n: int| 0 <= n < k ==> mask_score(g, size, best_mask_upto(g, size, k)) <= #[trigger] mask_score(g, size, n),
        forall|n: int| 0 <= n < best_mask_upto(g, size, k) ==> mask_score(g, size, best_mask_upto(g, size, k)) < #[trigger] mask_score(g, size, n),
    decreases k,
{
    if k > 1 {
        lemma_best_mask_upto(g, size, k - 1);
    }
}

/// Mask selection is a function of the grid: the same grid always yields
/// the same mask, and that mask has the lowest total penalty of the eight,
/// every earlier mask scoring strictly higher.
pub proof fn lemma_mask_choice(g1: Seq<Cell>, g2: Seq<Cell>, size: int)
    requires
        g1 == g2,
    ensures
        best_mask(g1, size) == best_mask(g2, size),
        0 <= best_mask(g1, size) < 8,
        forall|n: int| 0 <= n < 8 ==> mask_score(g1, size, best_mask(g1, size)) <= #[trigger] mask_score(g1, size, n),
        forall|n: int| 0 <= n < best_mask(g1, size) ==> mask_score(g1, size, best_mask(g1, size)) < #[trigger] mask_score(g1, size, n),
{
    lemma_best_mask_upto(g1, size, 8);
}

} // verus!
