use vstd::prelude::*;
use crate::cell::{black, black_color, white, white_color, Cell, CellType};
use crate::config::{remainder_bits_spec, CellTrack, QRConfig, QrError};
use crate::geometry::{lemma_index_bound, MAX_SIZE};
use crate::qr::QR;

verus! {

/// Column of grid index `i`.
pub open spec fn column_of(i: int, size: int) -> int {
    i % size
}

/// Band of step `k` of the zig-zag walk: bands are two columns wide and
/// hold `2 * size` steps each.
pub open spec fn zz_band(size: int, k: int) -> int {
    k / (2 * size)
}

/// Right-hand column of band `p`: bands start at the right edge and move
/// left two columns at a time, skipping column 6.
pub open spec fn zz_right(size: int, p: int) -> int {
    if size - 1 - 2 * p > 6 { size - 1 - 2 * p } else { size - 2 - 2 * p }
}

/// Row of step `k`: the first band runs upward and the direction alternates.
pub open spec fn zz_row(size: int, k: int) -> int {
    let p = zz_band(size, k);
    let step = (k % (2 * size)) / 2;
    if p % 2 == 0 { size - 1 - step } else { step }
}

/// Column of step `k`: within a band the right column comes first.
pub open spec fn zz_col(size: int, k: int) -> int {
    zz_right(size, zz_band(size, k)) - (k % (2 * size)) % 2
}

/// Grid index of step `k` of the zig-zag walk.
pub open spec fn zig_zag_index(size: int, k: int) -> int {
    zz_row(size, k) * size + zz_col(size, k)
}

proof fn lemma_zz_parts(size: int, k: int)
    requires
        21 <= size,
        size % 2 == 1,
        0 <= k < size * (size - 1),
    ensures
        k == 2 * size * zz_band(size, k) + k % (2 * size),
        0 <= k % (2 * size) < 2 * size,
        0 <= zz_band(size, k) < (size - 1) / 2,
        0 <= zz_row(size, k) < size,
        0 <= zz_col(size, k) < size,
        zz_col(size, k) != 6,
        zz_col(size, k) > 6 <==> size - 1 - 2 * zz_band(size, k) > 6,
{
    let w = 2 * size;
    vstd::arithmetic::div_mod::lemma_fundamental_div_mod(k, w);
    vstd::arithmetic::div_mod::lemma_div_pos_is_pos(k, w);
    let h = (size - 1) / 2;
    assert(size - 1 == 2 * h);
    assert(size * (size - 1) == w * h) by (nonlinear_arith)
        requires size - 1 == 2 * h, w == 2 * size;
    vstd::arithmetic::div_mod::lemma_multiply_divide_lt(k, w, (size - 1) / 2);
    assert(w * zz_band(size, k) == 2 * size * zz_band(size, k)) by (nonlinear_arith) requires w == 2 * size;
}

/// No two steps of the walk land on the same module.
pub proof fn lemma_zig_zag_injective(size: int, k1: int, k2: int)
    requires
        21 <= size,
        size % 2 == 1,
        0 <= k1 < size * (size - 1),
        0 <= k2 < size * (size - 1),
        k1 != k2,
    ensures
        zig_zag_index(size, k1) != zig_zag_index(size, k2),
{
    lemma_zz_parts(size, k1);
    lemma_zz_parts(size, k2);
    if zig_zag_index(size, k1) == zig_zag_index(size, k2) {
        crate::geometry::lemma_index_unique(size, zz_row(size, k1), zz_col(size, k1), zz_row(size, k2), zz_col(size, k2));
        let p1 = zz_band(size, k1);
        let p2 = zz_band(size, k2);
        assert(p1 == p2);
        assert(k1 % (2 * size) == k2 % (2 * size));
    }
}

/// Every module outside column 6 is a step of the walk.
pub proof fn lemma_zig_zag_covers(size: int, row: int, col: int) -> (k: int)
    requires
        21 <= size,
        size % 2 == 1,
        0 <= row < size,
        0 <= col < size,
        col != 6,
    ensures
        0 <= k < size * (size - 1),
        zz_row(size, k) == row,
        zz_col(size, k) == col,
{
    let w = 2 * size;
    let p = if col > 6 { (size - 1 - col) / 2 } else { (size - 2 - col) / 2 };
    let t = if col > 6 { (size - 1 - col) % 2 } else { (size - 2 - col) % 2 };
    let step = if p % 2 == 0 { size - 1 - row } else { row };
    let s = 2 * step + t;
    let k = w * p + s;
    vstd::arithmetic::div_mod::lemma_fundamental_div_mod_converse(k, w, p, s);
    let h = (size - 1) / 2;
    assert(size - 1 == 2 * h);
    assert(w * (p + 1) <= w * h) by (nonlinear_arith)
        requires p + 1 <= h, w > 0;
    assert(size * (size - 1) == w * h) by (nonlinear_arith)
        requires size - 1 == 2 * h, w == 2 * size;
    assert(w * (p + 1) == w * p + w) by (nonlinear_arith);
    assert(0 <= w * p) by (nonlinear_arith) requires 0 <= p, 0 < w;
    k
}

pub open spec fn zig_zag_spec(size: int) -> Seq<usize> {
    Seq::new((size * (size - 1)) as nat, |k: int| zig_zag_index(size, k) as usize)
}

/// Bit `k` of the codewords, most significant bit of each codeword first.
pub open spec fn codeword_bits(cw: Seq<u8>) -> Seq<bool> {
    Seq::new((8 * cw.len()) as nat, |k: int| (cw[k / 8] >> ((7 - k % 8) as u8)) & 1u8 == 1u8)
}

/// The codeword bits followed by `rem` zero remainder bits.
pub open spec fn message_bits(cw: Seq<u8>, rem: int) -> Seq<bool> {
    codeword_bits(cw) + Seq::new(rem as nat, |k: int| false)
}

/// The module after a data bit is written into it.
pub open spec fn message_cell(c: Cell, bit: bool) -> Cell {
    Cell {
        module_type: CellType::Message,
        value: if bit { 1 } else { 0 },
        point: c.point,
        color: if bit { black() } else { white() },
    }
}

/// The grid and the number of bits placed after the first `t` steps of
/// `path`: a step onto a free module writes the next bit, if one is left;
/// any other step changes nothing.
pub open spec fn run_placement(g: Seq<Cell>, path: Seq<usize>, bits: Seq<bool>, t: int) -> (Seq<Cell>, int)
    decreases t,
{
    if t <= 0 {
        (g, 0)
    } else {
        let (h, b) = run_placement(g, path, bits, t - 1);
        let i = path[t - 1] as int;
        if b < bits.len() && i < h.len() && h[i].module_type == CellType::Unassigned {
            (h.update(i, message_cell(h[i], bits[b])), b + 1)
        } else {
            (h, b)
        }
    }
}

pub proof fn lemma_run_bounds(g: Seq<Cell>, path: Seq<usize>, bits: Seq<bool>, t: int)
    requires
        0 <= t,
    ensures
        run_placement(g, path, bits, t).0.len() == g.len(),
        0 <= run_placement(g, path, bits, t).1 <= bits.len() || bits.len() == 0 && run_placement(g, path, bits, t).1 == 0,
        run_placement(g, path, bits, t).1 <= t,
    decreases t,
{
    if t > 0 {
        lemma_run_bounds(g, path, bits, t - 1);
    }
}

/// The zig-zag walk over a grid of odd side `canvas_size`, as grid indices.
pub fn zig_zag_points(canvas_size: usize) -> (r: Vec<usize>)
    requires
        21 <= canvas_size <= MAX_SIZE,
        canvas_size % 2 == 1,
    ensures
        r@ == zig_zag_spec(canvas_size as int),
        forall|k: int| 0 <= k < r@.len() ==> #[trigger] r@[k] < canvas_size * canvas_size,
        forall|k: int| 0 <= k < r@.len() ==> #[trigger] r@[k] % canvas_size != 6,
        forall|k1: int, k2: int| 0 <= k1 < r@.len() && 0 <= k2 < r@.len() && k1 != k2 ==> #[trigger] r@[k1] != #[trigger] r@[k2],
        forall|i: int| 0 <= i < canvas_size * canvas_size && #[trigger] column_of(i, canvas_size as int) != 6 ==> exists|k: int| 0 <= k < r@.len() && #[trigger] r@[k] == i,
{
    let n = canvas_size;
    let ghost w = 2 * n as int;
    let pairs = (n - 1) / 2;
    let mut indices: Vec<usize> = Vec::new();
    let mut p: usize = 0;
    while p < pairs
        invariant
            21 <= n <= MAX_SIZE,
            n % 2 == 1,
            w == 2 * n,
            pairs == (n - 1) / 2,
            p <= pairs,
            indices@.len() == p * w,
            forall|k: int| 0 <= k < p * w ==> #[trigger] indices@[k] == zig_zag_spec(n as int)[k],
            forall|k: int| 0 <= k < indices@.len() ==> #[trigger] indices@[k] < n * n,
        decreases pairs - p,
    {
        let right = if n - 1 - 2 * p > 6 { n - 1 - 2 * p } else { n - 2 - 2 * p };
        proof {
            assert(p < (n - 1) / 2);
        }
        let mut s: usize = 0;
        while s < 2 * n
            invariant
                21 <= n <= MAX_SIZE,
                n % 2 == 1,
                w == 2 * n,
                pairs == (n - 1) / 2,
                p < pairs,
                right == if n - 1 - 2 * p > 6 { n - 1 - 2 * p } else { n - 2 - 2 * p },
                s <= 2 * n,
                indices@.len() == p * w + s,
                forall|k: int| 0 <= k < p * w + s ==> #[trigger] indices@[k] == zig_zag_spec(n as int)[k],
                forall|k: int| 0 <= k < indices@.len() ==> #[trigger] indices@[k] < n * n,
            decreases 2 * n - s,
        {
            let step = s / 2;
            let row = if p % 2 == 0 { n - 1 - step } else { step };
            let col = right - s % 2;
            proof {
                let k = p * w + s;
                vstd::arithmetic::div_mod::lemma_fundamental_div_mod_converse(k, w, p as int, s as int);
                lemma_index_bound(n as int, row as int, col as int);
                assert((p + 1) * w <= pairs * w) by (nonlinear_arith) requires p + 1 <= pairs, w > 0;
                assert(2 * pairs <= n - 1);
                assert(pairs * w <= n * (n - 1)) by (nonlinear_arith) requires 2 * pairs <= n - 1, w == 2 * n;
                assert((p + 1) * w == p * w + w) by (nonlinear_arith);
                assert(n * n <= MAX_SIZE * MAX_SIZE) by (nonlinear_arith) requires n <= MAX_SIZE;
            }
            indices.push(row * n + col);
            s += 1;
        }
        proof {
            assert((p + 1) * w == p * w + w) by (nonlinear_arith);
        }
        p += 1;
    }
    proof {
        assert(2 * pairs == n - 1);
        assert(pairs * w == n * (n - 1)) by (nonlinear_arith) requires 2 * pairs == n - 1, w == 2 * n;
        assert(indices@ =~= zig_zag_spec(n as int));
        assert(n * n <= MAX_SIZE * MAX_SIZE) by (nonlinear_arith) requires n <= MAX_SIZE;
        assert forall|k: int| 0 <= k < indices@.len() implies #[trigger] indices@[k] % n != 6 by {
            lemma_zz_parts(n as int, k);
            lemma_index_bound(n as int, zz_row(n as int, k), zz_col(n as int, k));
            vstd::arithmetic::div_mod::lemma_fundamental_div_mod_converse(
                zig_zag_index(n as int, k), n as int, zz_row(n as int, k), zz_col(n as int, k));
        }
        assert forall|k1: int, k2: int| 0 <= k1 < indices@.len() && 0 <= k2 < indices@.len() && k1 != k2 implies #[trigger] indices@[k1] != #[trigger] indices@[k2] by {
            lemma_zz_parts(n as int, k1);
            lemma_zz_parts(n as int, k2);
            lemma_index_bound(n as int, zz_row(n as int, k1), zz_col(n as int, k1));
            lemma_index_bound(n as int, zz_row(n as int, k2), zz_col(n as int, k2));
            lemma_zig_zag_injective(n as int, k1, k2);
        }
        assert forall|i: int| 0 <= i < n * n && #[trigger] column_of(i, n as int) != 6 implies exists|k: int| 0 <= k < indices@.len() && #[trigger] indices@[k] == i by {
            let row = i / n as int;
            let col = i % n as int;
            vstd::arithmetic::div_mod::lemma_fundamental_div_mod(i, n as int);
            vstd::arithmetic::div_mod::lemma_div_pos_is_pos(i, n as int);
            vstd::arithmetic::div_mod::lemma_multiply_divide_lt(i, n as int, n as int);
            let k = lemma_zig_zag_covers(n as int, row, col);
            assert(n * row == row * n) by (nonlinear_arith);
            assert(indices@[k] == i);
        }
    }
    indices
}

/// Writes a data bit into the module at `index` if it is free; returns -1
/// when the bit was written, 0 when the module was already taken.
fn assign_bit_from_codeword(index: usize, body: &mut Vec<Cell>, dark: bool) -> (r: isize)
    requires
        index < old(body)@.len(),
    ensures
        old(body)@[index as int].module_type == CellType::Unassigned ==> r == -1 && final(body)@ == old(body)@.update(
            index as int,
            message_cell(old(body)@[index as int], dark),
        ),
        old(body)@[index as int].module_type != CellType::Unassigned ==> r == 0 && final(body)@ == old(body)@,
{
    let cell = body[index];
    if cell.is_free() {
        let color = if dark { black_color() } else { white_color() };
        body.set(index, Cell { module_type: CellType::Message, value: if dark { 1 } else { 0 }, point: cell.point, color: color });
        -1
    } else {
        0
    }
}

impl QRConfig {
    /// Writes the codeword bits, then the remainder bits, into the free
    /// modules along the zig-zag walk. Fails when the walk runs out of free
    /// modules first.
    pub fn process_data(&self, canvas: &mut QR) -> (r: Result<CellTrack, QrError>)
        requires
            self.wf(),
            old(canvas).body@.len() == self.size * self.size,
            self.codewords@.len() <= 20000,
        ensures
            ({
                let path = zig_zag_spec(self.size as int);
                let bits = message_bits(self.codewords@, remainder_bits_spec(self.version as int));
                let (g, b) = run_placement(old(canvas).body@, path, bits, path.len() as int);
                &&& final(canvas).body@ == g
                &&& (r is Ok <==> b == bits.len())
                &&& (r is Err ==> r == Err::<CellTrack, QrError>(QrError::LayoutMismatch))
                &&& (r matches Ok(track) ==> {
                    &&& track.0@.len() == track.1@.len()
                    &&& track.2@.len() == track.1@.len()
                    &&& track.2@.len() <= path.len()
                    &&& forall|j: int| 0 <= j < track.2@.len() ==> {
                        let bj = #[trigger] run_placement(old(canvas).body@, path, bits, j).1;
                        &&& bj < 8 * self.codewords@.len()
                        &&& track.0@[j] == 7 - bj % 8
                        &&& track.1@[j] == bj / 8
                        &&& track.2@[j] == path[j]
                    }
                    &&& (track.2@.len() == path.len() || run_placement(
                        old(canvas).body@,
                        path,
                        bits,
                        track.2@.len() as int,
                    ).1 == 8 * self.codewords@.len())
                })
            }),
    {
        let ghost g0 = canvas.body@;
        let n = self.size;
        let pathing = zig_zag_points(n);
        let ghost path = pathing@;
        let remainder = self.get_remainder_bit_length();
        let ghost bits = message_bits(self.codewords@, remainder_bits_spec(self.version as int));
        let cw_bits = 8 * self.codewords.len();
        let total_bits = cw_bits + remainder as usize;
        let mut bit_order: Vec<usize> = Vec::new();
        let mut cw_order: Vec<usize> = Vec::new();
        let mut point_order: Vec<usize> = Vec::new();
        let mut tracking = true;
        let mut placed: usize = 0;
        let mut t: usize = 0;
        while t < pathing.len()
            invariant
                n == self.size,
                n <= MAX_SIZE,
                path == pathing@,
                path == zig_zag_spec(n as int),
                forall|k: int| 0 <= k < path.len() ==> #[trigger] path[k] < n * n,
                g0.len() == n * n,
                bits == message_bits(self.codewords@, remainder_bits_spec(self.version as int)),
                bits.len() == total_bits,
                cw_bits == 8 * self.codewords@.len(),
                cw_bits <= total_bits,
                self.codewords@.len() <= 20000,
                t <= path.len(),
                (canvas.body@, placed as int) == run_placement(g0, path, bits, t as int),
                bit_order@.len() == cw_order@.len(),
                point_order@.len() == cw_order@.len(),
                point_order@.len() <= t,
                tracking ==> point_order@.len() == t && placed <= cw_bits,
                !tracking ==> run_placement(g0, path, bits, point_order@.len() as int).1 == cw_bits,
                forall|j: int| 0 <= j < point_order@.len() ==> {
                    let bj = #[trigger] run_placement(g0, path, bits, j).1;
                    &&& bj < cw_bits
                    &&& bit_order@[j] == 7 - bj % 8
                    &&& cw_order@[j] == bj / 8
                    &&& point_order@[j] == path[j]
                },
            decreases path.len() - t,
        {
            proof {
                lemma_run_bounds(g0, path, bits, t as int);
            }
            let idx = pathing[t];
            if tracking && placed >= cw_bits {
                tracking = false;
            }
            if tracking {
                bit_order.push(7 - placed % 8);
                cw_order.push(placed / 8);
                point_order.push(idx);
            }
            if placed < total_bits {
                let dark = if placed < cw_bits {
                    let cw = self.codewords[placed / 8];
                    (cw >> ((7 - placed % 8) as u8)) & 1 == 1
                } else {
                    false
                };
                assert(dark == bits[placed as int]);
                let consumed = assign_bit_from_codeword(idx, &mut canvas.body, dark);
                if consumed == -1 {
                    placed += 1;
                }
            }
            t += 1;
        }
        if placed == total_bits {
            Ok(CellTrack(bit_order, cw_order, point_order))
        } else {
            Err(QrError::LayoutMismatch)
        }
    }
}

} // verus!
