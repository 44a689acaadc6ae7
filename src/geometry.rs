use vstd::prelude::*;
use crate::config::QRConfig;
use crate::capacity::square_count_spec;
use crate::cell::{black, black_color, ring_color, white, white_color, Cell, CellType, Color, PlotPoint, Point};

verus! {

/// Largest grid side the helpers accept; version 40 has 177.
pub const MAX_SIZE: usize = 1000;

pub open spec fn blank_grid(size: nat) -> Seq<Cell> {
    Seq::new(size * size, |i: int| Cell::blank((i / size as int) as usize, (i % size as int) as usize))
}

/// Stamps one point: the module under it takes `kind` and the point's colour.
/// Points outside the grid change nothing; with `timing` set, only free or
/// format-reserved modules are taken.
pub open spec fn stamp_one(g: Seq<Cell>, size: int, p: PlotPoint, kind: CellType, timing: bool) -> Seq<Cell> {
    let i = p.point.0 * size + p.point.1;
    if p.point.0 < size && p.point.1 < size && (!timing || g[i].module_type == CellType::Unassigned
        || g[i].module_type == CellType::Format) {
        g.update(i, Cell { module_type: kind, value: g[i].value, point: g[i].point, color: p.color })
    } else {
        g
    }
}

/// Stamps the points in order; a later point wins over an earlier one.
pub open spec fn stamp_all(g: Seq<Cell>, size: int, pts: Seq<PlotPoint>, kind: CellType, timing: bool) -> Seq<Cell>
    decreases pts.len(),
{
    if pts.len() == 0 {
        g
    } else {
        stamp_one(stamp_all(g, size, pts.drop_last(), kind, timing), size, pts.last(), kind, timing)
    }
}

pub proof fn lemma_index_bound(size: int, r: int, c: int)
    requires
        0 <= r < size,
        0 <= c < size,
    ensures
        0 <= r * size + c < size * size,
{
    assert(0 <= r * size + c < size * size) by (nonlinear_arith)
        requires 0 <= r < size, 0 <= c < size;
}

pub proof fn lemma_stamp_all_len(g: Seq<Cell>, size: int, pts: Seq<PlotPoint>, kind: CellType, timing: bool)
    requires
        g.len() == size * size,
    ensures
        stamp_all(g, size, pts, kind, timing).len() == g.len(),
    decreases pts.len(),
{
    if pts.len() > 0 {
        lemma_stamp_all_len(g, size, pts.drop_last(), kind, timing);
        let p = pts.last();
        if p.point.0 < size && p.point.1 < size {
            lemma_index_bound(size, p.point.0 as int, p.point.1 as int);
        }
    }
}

/// Stamps `points` into the grid with classification `kind`.
pub fn stamp_points(body: &mut Vec<Cell>, size: usize, points: &Vec<PlotPoint>, kind: CellType, timing: bool)
    requires
        size <= MAX_SIZE,
        old(body)@.len() == size * size,
    ensures
        final(body)@ == stamp_all(old(body)@, size as int, points@, kind, timing),
        final(body)@.len() == old(body)@.len(),
{
    let ghost g0 = body@;
    let mut k: usize = 0;
    while k < points.len()
        invariant
            size <= MAX_SIZE,
            k <= points@.len(),
            g0.len() == size * size,
            body@ == stamp_all(g0, size as int, points@.take(k as int), kind, timing),
        decreases points@.len() - k,
    {
        proof {
            lemma_stamp_all_len(g0, size as int, points@.take(k as int), kind, timing);
            assert(points@.take(k as int + 1).drop_last() =~= points@.take(k as int));
            assert(size * size <= MAX_SIZE * MAX_SIZE) by (nonlinear_arith)
                requires size <= MAX_SIZE;
        }
        let p = points[k];
        if p.point.0 < size && p.point.1 < size {
            proof {
                lemma_index_bound(size as int, p.point.0 as int, p.point.1 as int);
            }
            let i = p.point.0 * size + p.point.1;
            let t = body[i].module_type;
            let free = match t {
                CellType::Unassigned | CellType::Format => true,
                _ => false,
            };
            if !timing || free {
                let old_cell = body[i];
                body.set(i, Cell { module_type: kind, value: old_cell.value, point: old_cell.point, color: p.color });
            }
        }
        k += 1;
    }
    proof {
        assert(points@.take(points@.len() as int) =~= points@);
        lemma_stamp_all_len(g0, size as int, points@, kind, timing);
    }
}

/// `n` points from (r0, c0), down a column when `down` is set, else along a row.
/// With `alternate` set the colours alternate, black where row + column is
/// even; otherwise every point has `color`.
pub open spec fn line_spec(r0: int, c0: int, down: bool, n: int, color: Color, alternate: bool) -> Seq<PlotPoint> {
    Seq::new(n as nat, |k: int| {
        let r = if down { r0 + k } else { r0 };
        let c = if down { c0 } else { c0 + k };
        PlotPoint {
            point: Point(r as usize, c as usize),
            color: if alternate {
                if (r + c) % 2 == 0 { black() } else { white() }
            } else {
                color
            },
        }
    })
}

pub fn line_points(r0: usize, c0: usize, down: bool, n: usize, color: Color, alternate: bool) -> (r: Vec<PlotPoint>)
    requires
        r0 + c0 + n <= usize::MAX,
    ensures
        r@ == line_spec(r0 as int, c0 as int, down, n as int, color, alternate),
{
    let mut pts: Vec<PlotPoint> = Vec::new();
    let mut k: usize = 0;
    while k < n
        invariant
            k <= n,
            r0 + c0 + n <= usize::MAX,
            pts@ =~= line_spec(r0 as int, c0 as int, down, n as int, color, alternate).take(k as int),
        decreases n - k,
    {
        let r = if down { r0 + k } else { r0 };
        let c = if down { c0 } else { c0 + k };
        let col = if alternate {
            if (r + c) % 2 == 0 { black_color() } else { white_color() }
        } else {
            color
        };
        pts.push(PlotPoint { point: Point(r, c), color: col });
        k += 1;
    }
    pts
}

/// Colour of ring `depth` (0 outermost) of a concentric pattern `n + 1`
/// modules wide: rings alternate from black, and the centre is black.
pub open spec fn spiral_color(n: int, depth: int) -> Color {
    if 2 * depth == n {
        black()
    } else {
        ring_color(depth)
    }
}

pub open spec fn min4(a: int, b: int, c: int, d: int) -> int {
    let ab = if a < b { a } else { b };
    let cd = if c < d { c } else { d };
    if ab < cd { ab } else { cd }
}

/// The `(n + 1) x (n + 1)` square of concentric rings with top-left corner
/// (ox, oy), row by row.
pub open spec fn spiral_spec(ox: int, oy: int, n: int) -> Seq<PlotPoint> {
    Seq::new(((n + 1) * (n + 1)) as nat, |k: int| {
        let i = k / (n + 1);
        let j = k % (n + 1);
        PlotPoint {
            point: Point((ox + i) as usize, (oy + j) as usize),
            color: spiral_color(n, min4(i, j, n - i, n - j)),
        }
    })
}

pub fn spiral_points(ox: usize, oy: usize, n: usize) -> (r: Vec<PlotPoint>)
    requires
        n <= 16,
        ox + n <= usize::MAX,
        oy + n <= usize::MAX,
    ensures
        r@ == spiral_spec(ox as int, oy as int, n as int),
{
    let ghost w = (n + 1) as int;
    let mut pts: Vec<PlotPoint> = Vec::new();
    let mut i: usize = 0;
    while i <= n
        invariant
            n <= 16,
            w == n + 1,
            ox + n <= usize::MAX,
            oy + n <= usize::MAX,
            i <= n + 1,
            pts@.len() == i * w,
            forall|k: int| 0 <= k < i * w ==> #[trigger] pts@[k] == spiral_spec(ox as int, oy as int, n as int)[k],
        decreases n + 1 - i,
    {
        let mut j: usize = 0;
        while j <= n
            invariant
                n <= 16,
                w == n + 1,
                ox + n <= usize::MAX,
                oy + n <= usize::MAX,
                i <= n,
                j <= n + 1,
                pts@.len() == i * w + j,
                forall|k: int| 0 <= k < i * w + j ==> #[trigger] pts@[k] == spiral_spec(ox as int, oy as int, n as int)[k],
            decreases n + 1 - j,
        {
            let a = if i < j { i } else { j };
            let b = if n - i < n - j { n - i } else { n - j };
            let depth = if a < b { a } else { b };
            let color = if 2 * depth == n {
                black_color()
            } else if depth % 2 == 0 {
                black_color()
            } else {
                white_color()
            };
            proof {
                let k = i * w + j;
                vstd::arithmetic::div_mod::lemma_fundamental_div_mod_converse(k, w, i as int, j as int);
                assert((i + 1) * w <= w * w) by (nonlinear_arith) requires i + 1 <= w;
                assert((i + 1) * w == i * w + w) by (nonlinear_arith);
                assert(k < w * w);
            }
            pts.push(PlotPoint { point: Point(ox + i, oy + j), color: color });
            j += 1;
        }
        proof {
            assert((i + 1) * w == i * w + w) by (nonlinear_arith);
        }
        i += 1;
    }
    proof {
        assert(pts@ =~= spiral_spec(ox as int, oy as int, n as int));
    }
    pts
}

/// Tint of the reserved format modules.
pub open spec fn format_tint() -> Color {
    Color { r: 10, g: 140, b: 230 }
}

/// Tint of the reserved version-information modules.
pub open spec fn version_tint() -> Color {
    Color { r: 200, g: 200, b: 123 }
}

/// The white border of the finder pattern whose top-left corner is `corner`:
/// the top-left finder when both coordinates agree, the bottom-left one when
/// the row is larger, else the top-right one.
pub open spec fn separator_spec(size: int, corner: (usize, usize)) -> Seq<PlotPoint> {
    if corner.0 == corner.1 {
        line_spec(7, 0, false, 8, white(), false) + line_spec(0, 7, true, 7, white(), false)
    } else if corner.0 > corner.1 {
        line_spec(size - 8, 0, false, 8, white(), false) + line_spec(size - 7, 7, true, 7, white(), false)
    } else {
        line_spec(0, size - 8, true, 8, white(), false) + line_spec(7, size - 7, false, 7, white(), false)
    }
}

/// Row 8 and column 8 next to the top-left finder (nine modules each), and
/// their copies next to the other two finders (eight modules each).
pub open spec fn format_area_spec(size: int) -> Seq<PlotPoint> {
    line_spec(8, 0, false, 9, format_tint(), false) + line_spec(8, size - 8, false, 8, format_tint(), false)
        + line_spec(0, 8, true, 9, format_tint(), false) + line_spec(size - 8, 8, true, 8, format_tint(), false)
}

pub open spec fn dark_module_spec(version: int) -> Seq<PlotPoint> {
    seq![PlotPoint { point: Point((4 * version + 9) as usize, 8), color: black() }]
}

/// Row 6 from column 6 to column size - 8, then column 6 from row 7 to row
/// size - 8, alternating black and white.
pub open spec fn timing_spec(size: int) -> Seq<PlotPoint> {
    line_spec(6, 6, false, size - 13, black(), true) + line_spec(7, 6, true, size - 14, black(), true)
}

/// The 6 x 3 block above the bottom-left finder, then its mirror left of the
/// top-right finder.
pub open spec fn version_area_spec(size: int) -> Seq<PlotPoint> {
    Seq::new(18, |k: int| PlotPoint { point: Point((size - 11 + k / 6) as usize, (k % 6) as usize), color: version_tint() })
        + Seq::new(18, |k: int| PlotPoint { point: Point((k % 6) as usize, (size - 11 + k / 6) as usize), color: version_tint() })
}

/// How many spacings the alignment coordinates of a version span: one more
/// for every seven versions, none for version 1.
pub open spec fn alignment_bracket(version: int) -> int {
    if version <= 1 {
        0
    } else {
        version / 7 + 1
    }
}

/// The spacing between alignment coordinates after the first; version 32
/// is the one exception to the rounding rule.
pub open spec fn alignment_step(version: int) -> int {
    let b = alignment_bracket(version);
    if b == 0 {
        0
    } else if version == 32 {
        26
    } else {
        (4 * version + 2 * (b + 1) + 1) / (2 * b) * 2
    }
}

/// Alignment-centre coordinates: 6, then `bracket` coordinates spaced by the
/// step and ending at size - 7.
pub open spec fn alignment_coords(version: int, size: int) -> Seq<usize> {
    let b = alignment_bracket(version);
    Seq::new((b + 1) as nat, |k: int| if k == 0 { 6usize } else { (size - 7 - (b - k) * alignment_step(version)) as usize })
}

/// Every ordered pair of `numbers`, row-major.
pub open spec fn combinations_spec(numbers: Seq<usize>) -> Seq<Point<usize>> {
    Seq::new(numbers.len() * numbers.len(), |k: int| Point(numbers[k / numbers.len() as int], numbers[k % numbers.len() as int]))
}

/// A centre is kept when its module is still free.
pub open spec fn alignment_kept(g: Seq<Cell>, size: int, c: Point<usize>) -> bool {
    &&& c.0 < size && c.1 < size
    &&& 2 <= c.0 && 2 <= c.1
    &&& g[c.0 * size + c.1].module_type == CellType::Unassigned
}

/// The 5 x 5 ring patterns of the kept centres, in order.
pub open spec fn kept_alignment(g: Seq<Cell>, size: int, centers: Seq<Point<usize>>) -> Seq<PlotPoint>
    decreases centers.len(),
{
    if centers.len() == 0 {
        Seq::empty()
    } else {
        let c = centers.last();
        kept_alignment(g, size, centers.drop_last()) + if alignment_kept(g, size, c) {
            spiral_spec(c.0 - 2, c.1 - 2, 4)
        } else {
            Seq::empty()
        }
    }
}

impl QRConfig {
    /// size x size free white modules, row-major.
    pub fn create_body(&self) -> (r: Vec<Cell>)
        requires
            self.size <= MAX_SIZE,
        ensures
            r@ == blank_grid(self.size as nat),
    {
        let n = self.size;
        let mut rows: Vec<Cell> = Vec::new();
        let mut x: usize = 0;
        while x < n
            invariant
                n <= MAX_SIZE,
                x <= n,
                rows@.len() == x * n,
                forall|k: int| 0 <= k < x * n ==> #[trigger] rows@[k] == blank_grid(n as nat)[k],
            decreases n - x,
        {
            let mut y: usize = 0;
            while y < n
                invariant
                    n <= MAX_SIZE,
                    x < n,
                    y <= n,
                    rows@.len() == x * n + y,
                    forall|k: int| 0 <= k < x * n + y ==> #[trigger] rows@[k] == blank_grid(n as nat)[k],
                decreases n - y,
            {
                proof {
                    vstd::arithmetic::div_mod::lemma_fundamental_div_mod_converse((x * n + y) as int, n as int, x as int, y as int);
                    lemma_index_bound(n as int, x as int, y as int);
                }
                rows.push(Cell::new(x, y));
                y += 1;
            }
            proof {
                assert((x + 1) * n == x * n + n) by (nonlinear_arith);
            }
            x += 1;
        }
        proof {
            assert(rows@ =~= blank_grid(n as nat));
        }
        rows
    }

    /// The concentric-ring pattern `size + 1` modules wide around
    /// `origin_pt`, whose top-left corner lies `diff` up and left of it.
    pub fn plot_spiral(&self, origin_pt: &Point<usize>, size: usize, diff: usize) -> (r: Vec<PlotPoint>)
        requires
            size <= 16,
            diff <= origin_pt.0,
            diff <= origin_pt.1,
            origin_pt.0 <= MAX_SIZE,
            origin_pt.1 <= MAX_SIZE,
        ensures
            r@ == spiral_spec(origin_pt.0 - diff, origin_pt.1 - diff, size as int),
    {
        spiral_points(origin_pt.0 - diff, origin_pt.1 - diff, size)
    }

    /// Stamps the 7 x 7 finder pattern whose top-left corner is `alignment_point`.
    pub fn apply_finder_patterns(&self, body: &mut Vec<Cell>, alignment_point: Point<usize>)
        requires
            self.size <= MAX_SIZE,
            old(body)@.len() == self.size * self.size,
            alignment_point.0 <= MAX_SIZE,
            alignment_point.1 <= MAX_SIZE,
        ensures
            final(body)@ == stamp_all(old(body)@, self.size as int,
                spiral_spec(alignment_point.0 as int, alignment_point.1 as int, 6), CellType::Finder, false),
    {
        let pts = self.plot_spiral(&alignment_point, 6, 0);
        stamp_points(body, self.size, &pts, CellType::Finder, false);
    }

    /// Stamps the white separator around the finder at `alignment_point`.
    pub fn apply_separators(&self, body: &mut Vec<Cell>, alignment_point: (usize, usize))
        requires
            8 <= self.size <= MAX_SIZE,
            old(body)@.len() == self.size * self.size,
        ensures
            final(body)@ == stamp_all(old(body)@, self.size as int,
                separator_spec(self.size as int, alignment_point), CellType::Separator, false),
    {
        let n = self.size;
        let (x, y) = alignment_point;
        let mut pts;
        let mut rest;
        if x == y {
            pts = line_points(7, 0, false, 8, white_color(), false);
            rest = line_points(0, 7, true, 7, white_color(), false);
        } else if x > y {
            pts = line_points(n - 8, 0, false, 8, white_color(), false);
            rest = line_points(n - 7, 7, true, 7, white_color(), false);
        } else {
            pts = line_points(0, n - 8, true, 8, white_color(), false);
            rest = line_points(7, n - 7, false, 7, white_color(), false);
        }
        pts.append(&mut rest);
        stamp_points(body, n, &pts, CellType::Separator, false);
    }

    /// Every ordered pair of `numbers`, row-major.
    pub fn get_point_combinations(&self, numbers: Vec<usize>) -> (r: Vec<Point<usize>>)
        requires
            numbers@.len() <= 64,
        ensures
            r@ == combinations_spec(numbers@),
    {
        let w = numbers.len();
        let mut pairs: Vec<Point<usize>> = Vec::new();
        let mut a: usize = 0;
        while a < w
            invariant
                w == numbers@.len(),
                w <= 64,
                a <= w,
                pairs@.len() == a * w,
                forall|k: int| 0 <= k < a * w ==> #[trigger] pairs@[k] == combinations_spec(numbers@)[k],
            decreases w - a,
        {
            let mut b: usize = 0;
            while b < w
                invariant
                    w == numbers@.len(),
                    w <= 64,
                    a < w,
                    b <= w,
                    pairs@.len() == a * w + b,
                    forall|k: int| 0 <= k < a * w + b ==> #[trigger] pairs@[k] == combinations_spec(numbers@)[k],
                decreases w - b,
            {
                proof {
                    vstd::arithmetic::div_mod::lemma_fundamental_div_mod_converse((a * w + b) as int, w as int, a as int, b as int);
                    lemma_index_bound(w as int, a as int, b as int);
                }
                pairs.push(Point(numbers[a], numbers[b]));
                b += 1;
            }
            proof {
                assert((a + 1) * w == a * w + w) by (nonlinear_arith);
            }
            a += 1;
        }
        proof {
            assert(pairs@ =~= combinations_spec(numbers@));
        }
        pairs
    }

    /// The ring patterns of the alignment centres whose module is still free.
    pub fn get_alignment_points(&self, body: &Vec<Cell>) -> (r: Vec<PlotPoint>)
        requires
            self.wf(),
            body@.len() == self.size * self.size,
        ensures
            r@ == kept_alignment(body@, self.size as int,
                combinations_spec(alignment_coords(self.version as int, self.size as int))),
    {
        let n = self.size;
        let version_bracket: usize = if self.version <= 1 {
            0
        } else {
            self.version / 7 + 1
        };
        let modifier: usize = if version_bracket == 0 {
            0
        } else if self.version == 32 {
            26
        } else {
            (4 * self.version + 2 * (version_bracket + 1) + 1) / (2 * version_bracket) * 2
        };
        let ghost coords = alignment_coords(self.version as int, n as int);
        assert(modifier == alignment_step(self.version as int));
        assert(modifier <= 100) by (nonlinear_arith)
            requires
                modifier == alignment_step(self.version as int),
                1 <= self.version <= 40,
                version_bracket == alignment_bracket(self.version as int);
        let mut pts: Vec<usize> = Vec::new();
        pts.push(6);
        let mut k: usize = 1;
        while k <= version_bracket
            invariant
                version_bracket <= 6,
                version_bracket == alignment_bracket(self.version as int),
                modifier == alignment_step(self.version as int),
                modifier <= 100,
                n == self.size,
                self.size == square_count_spec(self.version as int),
                1 <= self.version <= 40,
                coords == alignment_coords(self.version as int, n as int),
                1 <= k <= version_bracket + 1,
                pts@ =~= coords.take(k as int),
            decreases version_bracket + 1 - k,
        {
            proof {
                assert((version_bracket - k) * modifier <= 6 * 100) by (nonlinear_arith)
                    requires version_bracket - k <= 6, modifier <= 100;
                assert((version_bracket - k) * modifier <= n - 7 || version_bracket == 0) by (nonlinear_arith)
                    requires
                        version_bracket == alignment_bracket(self.version as int),
                        modifier == alignment_step(self.version as int),
                        1 <= k <= version_bracket,
                        n == square_count_spec(self.version as int),
                        1 <= self.version <= 40;
            }
            pts.push(n - 7 - (version_bracket - k) * modifier);
            k += 1;
        }
        assert(pts@ =~= coords);
        let centers = self.get_point_combinations(pts);
        let ghost cs = combinations_spec(coords);
        let mut out: Vec<PlotPoint> = Vec::new();
        let mut i: usize = 0;
        while i < centers.len()
            invariant
                n == self.size,
                n <= MAX_SIZE,
                body@.len() == n * n,
                centers@ == cs,
                i <= cs.len(),
                out@ == kept_alignment(body@, n as int, cs.take(i as int)),
            decreases cs.len() - i,
        {
            let c = centers[i];
            proof {
                assert(cs.take(i as int + 1).drop_last() =~= cs.take(i as int));
            }
            if c.0 < n && c.1 < n && 2 <= c.0 && 2 <= c.1 {
                proof {
                    lemma_index_bound(n as int, c.0 as int, c.1 as int);
                    assert(n * n <= MAX_SIZE * MAX_SIZE) by (nonlinear_arith) requires n <= MAX_SIZE;
                }
                if body[c.0 * n + c.1].is_free() {
                    let mut ring = self.plot_spiral(&c, 4, 2);
                    out.append(&mut ring);
                } else {
                    assert(out@ + Seq::<PlotPoint>::empty() =~= out@);
                }
            } else {
                assert(out@ + Seq::<PlotPoint>::empty() =~= out@);
            }
            i += 1;
        }
        assert(cs.take(cs.len() as int) =~= cs);
        out
    }

    /// Stamps the alignment patterns given by `points`.
    pub fn apply_alignment_patterns(&self, body: &mut Vec<Cell>, points: &Vec<PlotPoint>)
        requires
            self.size <= MAX_SIZE,
            old(body)@.len() == self.size * self.size,
        ensures
            final(body)@ == stamp_all(old(body)@, self.size as int, points@, CellType::Alignment, false),
    {
        stamp_points(body, self.size, points, CellType::Alignment, false);
    }

    /// Reserves the two format bands.
    pub fn apply_reserve_format_areas(&self, body: &mut Vec<Cell>)
        requires
            8 <= self.size <= MAX_SIZE,
            old(body)@.len() == self.size * self.size,
        ensures
            final(body)@ == stamp_all(old(body)@, self.size as int, format_area_spec(self.size as int),
                CellType::Format, false),
    {
        let n = self.size;
        let tint = Color { r: 10, g: 140, b: 230 };
        let mut pts = line_points(8, 0, false, 9, tint, false);
        let mut b = line_points(8, n - 8, false, 8, tint, false);
        let mut c = line_points(0, 8, true, 9, tint, false);
        let mut d = line_points(n - 8, 8, true, 8, tint, false);
        pts.append(&mut b);
        pts.append(&mut c);
        pts.append(&mut d);
        stamp_points(body, n, &pts, CellType::Format, false);
    }

    /// Stamps the dark module at (4 * version + 9, 8).
    pub fn apply_dark_module(&self, body: &mut Vec<Cell>)
        requires
            self.wf(),
            old(body)@.len() == self.size * self.size,
        ensures
            final(body)@ == stamp_all(old(body)@, self.size as int, dark_module_spec(self.version as int),
                CellType::DarkModule, false),
    {
        let mut pts: Vec<PlotPoint> = Vec::new();
        pts.push(PlotPoint { point: Point((4 * self.version) + 9, 8), color: black_color() });
        assert(pts@ =~= dark_module_spec(self.version as int));
        stamp_points(body, self.size, &pts, CellType::DarkModule, false);
    }

    /// Stamps the timing strips into free and format-reserved modules.
    pub fn apply_timer_patterns(&self, body: &mut Vec<Cell>)
        requires
            21 <= self.size <= MAX_SIZE,
            old(body)@.len() == self.size * self.size,
        ensures
            final(body)@ == stamp_all(old(body)@, self.size as int, timing_spec(self.size as int),
                CellType::Timing, true),
    {
        let n = self.size;
        let mut pts = line_points(6, 6, false, n - 13, black_color(), true);
        let mut rest = line_points(7, 6, true, n - 14, black_color(), true);
        pts.append(&mut rest);
        stamp_points(body, n, &pts, CellType::Timing, true);
    }

    /// Reserves the two 6 x 3 version-information blocks.
    pub fn apply_version_information_areas(&self, body: &mut Vec<Cell>)
        requires
            11 <= self.size <= MAX_SIZE,
            old(body)@.len() == self.size * self.size,
        ensures
            final(body)@ == stamp_all(old(body)@, self.size as int, version_area_spec(self.size as int),
                CellType::VersionInformation, false),
    {
        let n = self.size;
        let tint = Color { r: 200, g: 200, b: 123 };
        let mut lower: Vec<PlotPoint> = Vec::new();
        let mut upper: Vec<PlotPoint> = Vec::new();
        let mut k: usize = 0;
        while k < 18
            invariant
                11 <= n <= MAX_SIZE,
                tint == version_tint(),
                k <= 18,
                lower@ =~= version_area_spec(n as int).take(k as int),
                upper@ =~= version_area_spec(n as int).subrange(18, 18 + k as int),
            decreases 18 - k,
        {
            lower.push(PlotPoint { point: Point(n - 11 + k / 6, k % 6), color: tint });
            upper.push(PlotPoint { point: Point(k % 6, n - 11 + k / 6), color: tint });
            k += 1;
        }
        lower.append(&mut upper);
        assert(lower@ =~= version_area_spec(n as int));
        stamp_points(body, n, &lower, CellType::VersionInformation, false);
    }
}

/// Some point of `pts` lies on (r, c).
pub open spec fn hits(pts: Seq<PlotPoint>, r: int, c: int) -> bool {
    exists|k: int| 0 <= k < pts.len() && #[trigger] pts[k].point.0 == r && pts[k].point.1 == c
}

pub proof fn lemma_index_unique(size: int, r1: int, c1: int, r2: int, c2: int)
    requires
        0 <= r1,
        0 <= r2,
        0 <= c1 < size,
        0 <= c2 < size,
        r1 * size + c1 == r2 * size + c2,
    ensures
        r1 == r2,
        c1 == c2,
{
    let x = r1 * size + c1;
    vstd::arithmetic::div_mod::lemma_fundamental_div_mod_converse(x, size, r1, c1);
    vstd::arithmetic::div_mod::lemma_fundamental_div_mod_converse(x, size, r2, c2);
}

/// What stamping does to one module: it keeps its classification or takes
/// `kind` from a point on it; it stays free only when it was free and no
/// point lies on it; and without the timing condition a point on it always
/// gives it `kind`.
pub proof fn lemma_stamp_all_cell(g: Seq<Cell>, size: int, pts: Seq<PlotPoint>, kind: CellType, timing: bool, r: int, c: int)
    requires
        g.len() == size * size,
        0 <= r < size,
        0 <= c < size,
        kind != CellType::Unassigned,
    ensures
        ({
            let i = r * size + c;
            let out = stamp_all(g, size, pts, kind, timing)[i].module_type;
            &&& (out == g[i].module_type || (out == kind && hits(pts, r, c)))
            &&& ((out == CellType::Unassigned) <==> (g[i].module_type == CellType::Unassigned && !hits(pts, r, c)))
            &&& (!timing && hits(pts, r, c) ==> out == kind)
        }),
    decreases pts.len(),
{
    let i = r * size + c;
    lemma_index_bound(size, r, c);
    if pts.len() > 0 {
        let prev = pts.drop_last();
        lemma_stamp_all_cell(g, size, prev, kind, timing, r, c);
        lemma_stamp_all_len(g, size, prev, kind, timing);
        let h = stamp_all(g, size, prev, kind, timing);
        let p = pts.last();
        let j = p.point.0 * size + p.point.1;
        let on = p.point.0 == r && p.point.1 == c;
        if p.point.0 < size && p.point.1 < size {
            lemma_index_bound(size, p.point.0 as int, p.point.1 as int);
            if j == i {
                lemma_index_unique(size, p.point.0 as int, p.point.1 as int, r, c);
            }
        }
        if on {
            assert(pts[pts.len() - 1].point.0 == r && pts[pts.len() - 1].point.1 == c);
        }
        if hits(prev, r, c) {
            let k = choose|k: int| 0 <= k < prev.len() && #[trigger] prev[k].point.0 == r && prev[k].point.1 == c;
            assert(pts[k] == prev[k]);
        }
        if hits(pts, r, c) && !on {
            let k = choose|k: int| 0 <= k < pts.len() && #[trigger] pts[k].point.0 == r && pts[k].point.1 == c;
            assert(k < prev.len());
            assert(prev[k] == pts[k]);
        }
    } else {
        assert(!hits(pts, r, c));
    }
}

} // verus!
