use vstd::prelude::*;
use crate::cell::Cell;
use crate::config::QRConfig;
use crate::geometry::{lemma_index_bound, MAX_SIZE};

verus! {

/// Darkness of the module at (r, c).
pub open spec fn dark_at(g: Seq<Cell>, size: int, r: int, c: int) -> bool {
    g[r * size + c].dark()
}

/// Row `k` (or column `k`) of the grid as darkness values.
pub open spec fn line_of(g: Seq<Cell>, size: int, k: int, is_row: bool) -> Seq<bool> {
    Seq::new(size as nat, |j: int| if is_row { dark_at(g, size, k, j) } else { dark_at(g, size, j, k) })
}

/// The penalty of a finished run of `len` equal modules.
pub open spec fn run_cost(len: int) -> int {
    if len >= 5 { len - 2 } else { 0 }
}

/// After the first `j` modules of `line`: the length of the current run and
/// the penalty of the runs already finished.
pub open spec fn run_state(line: Seq<bool>, j: int) -> (int, int)
    decreases j,
{
    if j <= 0 {
        (0, 0)
    } else if j == 1 {
        (1, 0)
    } else {
        let (len, acc) = run_state(line, j - 1);
        if line[j - 1] == line[j - 2] {
            (len + 1, acc)
        } else {
            (1, acc + run_cost(len))
        }
    }
}

/// Rule 1 on one line: every maximal run of five or more equal modules
/// costs its length minus 2.
pub open spec fn line_penalty(line: Seq<bool>) -> int {
    let (len, acc) = run_state(line, line.len() as int);
    acc + run_cost(len)
}

pub open spec fn rule_one_upto(g: Seq<Cell>, size: int, k: int) -> int
    decreases k,
{
    if k <= 0 {
        0
    } else {
        rule_one_upto(g, size, k - 1) + line_penalty(line_of(g, size, k - 1, true)) + line_penalty(
            line_of(g, size, k - 1, false),
        )
    }
}

/// Rule 1 over every row and every column.
pub open spec fn rule_one(g: Seq<Cell>, size: int) -> int {
    rule_one_upto(g, size, size)
}

/// The 2 x 2 block with top-left corner (x, y) has one colour.
pub open spec fn same_block(g: Seq<Cell>, size: int, x: int, y: int) -> bool {
    let d = dark_at(g, size, x, y);
    &&& dark_at(g, size, x + 1, y) == d
    &&& dark_at(g, size, x + 1, y + 1) == d
    &&& dark_at(g, size, x, y + 1) == d
}

pub open spec fn rule_two_row(g: Seq<Cell>, size: int, x: int, y: int) -> int
    decreases y,
{
    if y <= 0 {
        0
    } else {
        rule_two_row(g, size, x, y - 1) + if same_block(g, size, x, y - 1) { 3int } else { 0int }
    }
}

pub open spec fn rule_two_upto(g: Seq<Cell>, size: int, x: int) -> int
    decreases x,
{
    if x <= 0 {
        0
    } else {
        rule_two_upto(g, size, x - 1) + rule_two_row(g, size, x - 1, size - 1)
    }
}

/// Rule 2: 3 for every single-coloured 2 x 2 block, overlaps included.
pub open spec fn rule_two(g: Seq<Cell>, size: int) -> int {
    rule_two_upto(g, size, size - 1)
}

/// Dark, light, dark, dark, dark, light, dark, then four light modules.
pub open spec fn finder_like(t: int) -> bool {
    t == 0 || t == 2 || t == 3 || t == 4 || t == 6
}

/// The eleven modules from `s` read the finder-like sequence forward or backward.
pub open spec fn window_matches(line: Seq<bool>, s: int) -> bool {
    (forall|t: int| 0 <= t < 11 ==> #[trigger] line[s + t] == finder_like(t))
        || (forall|t: int| 0 <= t < 11 ==> #[trigger] line[s + t] == finder_like(10 - t))
}

/// Matching windows that start before `e`.
pub open spec fn finder_count(line: Seq<bool>, e: int) -> int
    decreases e,
{
    if e <= 0 {
        0
    } else {
        finder_count(line, e - 1) + if window_matches(line, e - 1) { 1int } else { 0int }
    }
}

/// Matching windows of one line.
pub open spec fn line_finder_count(line: Seq<bool>) -> int {
    finder_count(line, line.len() - 10)
}

pub open spec fn rule_three_upto(g: Seq<Cell>, size: int, k: int) -> int
    decreases k,
{
    if k <= 0 {
        0
    } else {
        rule_three_upto(g, size, k - 1) + 40 * line_finder_count(line_of(g, size, k - 1, false)) + 40
            * line_finder_count(line_of(g, size, k - 1, true))
    }
}

/// Rule 3: 40 for every finder-like window in a row or a column.
pub open spec fn rule_three(g: Seq<Cell>, size: int) -> int {
    rule_three_upto(g, size, size)
}

/// Dark modules among the first `k`.
pub open spec fn dark_count(g: Seq<Cell>, k: int) -> int
    decreases k,
{
    if k <= 0 {
        0
    } else {
        dark_count(g, k - 1) + if g[k - 1].dark() { 1int } else { 0int }
    }
}

pub open spec fn abs_diff(a: int, b: int) -> int {
    if a >= b { a - b } else { b - a }
}

/// Rule 4: the dark share in whole percent (rounded half up), the multiples
/// of 5 below and above it, and 10 for each step of 5 that the nearer one
/// lies from 50.
pub open spec fn rule_four(g: Seq<Cell>) -> int {
    let total = g.len() as int;
    let percent = (200 * dark_count(g, total) + total) / (2 * total);
    let prev = percent - percent % 5;
    let next = prev + 5;
    let a = abs_diff(50, prev) / 5;
    let b = abs_diff(50, next) / 5;
    10 * if a < b { a } else { b }
}

pub open spec fn penalty_spec(g: Seq<Cell>, size: int) -> int {
    rule_one(g, size) + rule_two(g, size) + rule_three(g, size) + rule_four(g)
}

pub open spec fn grid_ok(g: Seq<Cell>, size: int) -> bool {
    2 <= size <= MAX_SIZE && g.len() == size * size
}

proof fn lemma_run_state_bounds(line: Seq<bool>, j: int)
    requires
        0 <= j,
    ensures
        0 <= run_state(line, j).0 <= j,
        0 <= run_state(line, j).1,
        run_state(line, j).0 + run_state(line, j).1 <= j,
        j > 0 ==> run_state(line, j).0 >= 1,
    decreases j,
{
    if j > 1 {
        lemma_run_state_bounds(line, j - 1);
    }
}

proof fn lemma_finder_count_bounds(line: Seq<bool>, e: int)
    ensures
        0 <= finder_count(line, e),
        e >= 0 ==> finder_count(line, e) <= e,
    decreases e,
{
    if e > 0 {
        lemma_finder_count_bounds(line, e - 1);
    }
}

proof fn lemma_rule_two_row_bounds(g: Seq<Cell>, size: int, x: int, y: int)
    requires
        0 <= y,
    ensures
        0 <= rule_two_row(g, size, x, y) <= 3 * y,
    decreases y,
{
    if y > 0 {
        lemma_rule_two_row_bounds(g, size, x, y - 1);
    }
}

proof fn lemma_dark_count_bounds(g: Seq<Cell>, k: int)
    requires
        0 <= k,
    ensures
        0 <= dark_count(g, k) <= k,
    decreases k,
{
    if k > 0 {
        lemma_dark_count_bounds(g, k - 1);
    }
}

fn dark_at_exec(body: &Vec<Cell>, size: usize, r: usize, c: usize) -> (d: bool)
    requires
        grid_ok(body@, size as int),
        r < size,
        c < size,
    ensures
        d == dark_at(body@, size as int, r as int, c as int),
{
    proof {
        lemma_index_bound(size as int, r as int, c as int);
        assert(size * size <= MAX_SIZE * MAX_SIZE) by (nonlinear_arith) requires size <= MAX_SIZE;
    }
    body[r * size + c].is_black()
}

fn line_dark(body: &Vec<Cell>, size: usize, k: usize, j: usize, is_row: bool) -> (d: bool)
    requires
        grid_ok(body@, size as int),
        k < size,
        j < size,
    ensures
        d == line_of(body@, size as int, k as int, is_row)[j as int],
{
    if is_row {
        dark_at_exec(body, size, k, j)
    } else {
        dark_at_exec(body, size, j, k)
    }
}

/// Rule 1 on row or column `k`.
fn line_penalty_exec(body: &Vec<Cell>, size: usize, k: usize, is_row: bool) -> (p: usize)
    requires
        grid_ok(body@, size as int),
        k < size,
    ensures
        p == line_penalty(line_of(body@, size as int, k as int, is_row)),
        p <= size,
{
    let ghost line = line_of(body@, size as int, k as int, is_row);
    let mut len: usize = 1;
    let mut acc: usize = 0;
    let mut prev = line_dark(body, size, k, 0, is_row);
    let mut j: usize = 1;
    while j < size
        invariant
            grid_ok(body@, size as int),
            k < size,
            line == line_of(body@, size as int, k as int, is_row),
            1 <= j <= size,
            (len as int, acc as int) == run_state(line, j as int),
            prev == line[j - 1],
            len + acc <= j,
        decreases size - j,
    {
        let d = line_dark(body, size, k, j, is_row);
        if d == prev {
            len += 1;
        } else {
            if len >= 5 {
                acc += len - 2;
            }
            len = 1;
        }
        prev = d;
        j += 1;
    }
    if len >= 5 {
        acc + (len - 2)
    } else {
        acc
    }
}

/// Finder-like windows of row or column `k`.
fn line_finder_exec(body: &Vec<Cell>, size: usize, k: usize, is_row: bool) -> (n: usize)
    requires
        grid_ok(body@, size as int),
        11 <= size,
        k < size,
    ensures
        n == line_finder_count(line_of(body@, size as int, k as int, is_row)),
        n <= size,
{
    let ghost line = line_of(body@, size as int, k as int, is_row);
    let mut count: usize = 0;
    let mut s: usize = 0;
    while s + 11 <= size
        invariant
            grid_ok(body@, size as int),
            11 <= size,
            k < size,
            line == line_of(body@, size as int, k as int, is_row),
            s <= size - 10,
            count == finder_count(line, s as int),
            count <= s,
        decreases size - s,
    {
        let mut forward = true;
        let mut backward = true;
        let mut t: usize = 0;
        while t < 11
            invariant
                grid_ok(body@, size as int),
                k < size,
                s + 11 <= size,
                line == line_of(body@, size as int, k as int, is_row),
                t <= 11,
                forward == (forall|u: int| 0 <= u < t ==> #[trigger] line[s + u] == finder_like(u)),
                backward == (forall|u: int| 0 <= u < t ==> #[trigger] line[s + u] == finder_like(10 - u)),
            decreases 11 - t,
        {
            let d = line_dark(body, size, k, s + t, is_row);
            let want = t == 0 || t == 2 || t == 3 || t == 4 || t == 6;
            let want_rev = t == 10 || t == 8 || t == 7 || t == 6 || t == 4;
            proof {
                if !(d == want) {
                    assert(!(line[s + t] == finder_like(t as int)));
                }
                if !(d == want_rev) {
                    assert(!(line[s + t] == finder_like(10 - t)));
                }
            }
            forward = forward && d == want;
            backward = backward && d == want_rev;
            t += 1;
        }
        if forward || backward {
            count += 1;
        }
        s += 1;
    }
    proof {
        lemma_finder_count_bounds(line, s as int);
    }
    count
}

impl QRConfig {
    /// Rule 1: runs of five or more equal modules in rows and columns.
    pub fn penalty_score_eval_one(&self, body: &Vec<Cell>) -> (p: usize)
        requires
            grid_ok(body@, self.size as int),
        ensures
            p == rule_one(body@, self.size as int),
            p <= 2 * self.size * self.size,
    {
        let n = self.size;
        let mut total: usize = 0;
        let mut k: usize = 0;
        while k < n
            invariant
                n == self.size,
                grid_ok(body@, n as int),
                k <= n,
                total == rule_one_upto(body@, n as int, k as int),
                total <= 2 * k * n,
            decreases n - k,
        {
            let a = line_penalty_exec(body, n, k, true);
            let b = line_penalty_exec(body, n, k, false);
            proof {
                assert(2 * (k + 1) * n == 2 * k * n + 2 * n) by (nonlinear_arith);
                assert(2 * (k + 1) * n <= 2 * MAX_SIZE * MAX_SIZE) by (nonlinear_arith)
                    requires k + 1 <= n, n <= MAX_SIZE;
            }
            total = total + a + b;
            k += 1;
        }
        total
    }

    /// Rule 2: 3 for every single-coloured 2 x 2 block.
    pub fn penalty_score_eval_two(&self, body: &Vec<Cell>) -> (p: usize)
        requires
            grid_ok(body@, self.size as int),
        ensures
            p == rule_two(body@, self.size as int),
            p <= 3 * self.size * self.size,
    {
        let n = self.size;
        let mut penalty_total: usize = 0;
        let mut x: usize = 0;
        while x < n - 1
            invariant
                n == self.size,
                grid_ok(body@, n as int),
                x <= n - 1,
                penalty_total == rule_two_upto(body@, n as int, x as int),
                penalty_total <= 3 * x * n,
            decreases n - 1 - x,
        {
            let mut row_total: usize = 0;
            let mut y: usize = 0;
            while y < n - 1
                invariant
                    n == self.size,
                    grid_ok(body@, n as int),
                    x < n - 1,
                    y <= n - 1,
                    row_total == rule_two_row(body@, n as int, x as int, y as int),
                    row_total <= 3 * y,
                decreases n - 1 - y,
            {
                let d = dark_at_exec(body, n, x, y);
                let square = dark_at_exec(body, n, x + 1, y) == d && dark_at_exec(body, n, x + 1, y + 1) == d
                    && dark_at_exec(body, n, x, y + 1) == d;
                if square {
                    row_total += 3;
                }
                y += 1;
            }
            proof {
                assert(3 * (x + 1) * n == 3 * x * n + 3 * n) by (nonlinear_arith);
                assert(3 * (x + 1) * n <= 3 * MAX_SIZE * MAX_SIZE) by (nonlinear_arith)
                    requires x + 1 <= n, n <= MAX_SIZE;
            }
            penalty_total += row_total;
            x += 1;
        }
        proof {
            assert(3 * (n - 1) * n <= 3 * n * n) by (nonlinear_arith) requires n >= 1;
        }
        penalty_total
    }

    /// Rule 3 on column `column`: 40 for every finder-like window.
    fn check_column(&self, body: &Vec<Cell>, column: usize) -> (p: usize)
        requires
            grid_ok(body@, self.size as int),
            11 <= self.size,
            column < self.size,
        ensures
            p == 40 * line_finder_count(line_of(body@, self.size as int, column as int, false)),
            p <= 40 * self.size,
    {
        40 * line_finder_exec(body, self.size, column, false)
    }

    /// Rule 3 on row `row`: 40 for every finder-like window.
    fn check_row(&self, body: &Vec<Cell>, row: usize) -> (p: usize)
        requires
            grid_ok(body@, self.size as int),
            11 <= self.size,
            row < self.size,
        ensures
            p == 40 * line_finder_count(line_of(body@, self.size as int, row as int, true)),
            p <= 40 * self.size,
    {
        40 * line_finder_exec(body, self.size, row, true)
    }

    /// Rule 3: finder-like windows in rows and columns.
    pub fn penalty_score_eval_three(&self, body: &Vec<Cell>) -> (p: usize)
        requires
            grid_ok(body@, self.size as int),
            11 <= self.size,
        ensures
            p == rule_three(body@, self.size as int),
            p <= 80 * self.size * self.size,
    {
        let n = self.size;
        let mut penalty_total: usize = 0;
        let mut i: usize = 0;
        while i < n
            invariant
                n == self.size,
                11 <= n,
                grid_ok(body@, n as int),
                i <= n,
                penalty_total == rule_three_upto(body@, n as int, i as int),
                penalty_total <= 80 * i * n,
            decreases n - i,
        {
            let a = self.check_column(body, i);
            let b = self.check_row(body, i);
            proof {
                assert(80 * (i + 1) * n == 80 * i * n + 80 * n) by (nonlinear_arith);
                assert(80 * (i + 1) * n <= 80 * MAX_SIZE * MAX_SIZE) by (nonlinear_arith)
                    requires i + 1 <= n, n <= MAX_SIZE;
            }
            penalty_total = penalty_total + a + b;
            i += 1;
        }
        penalty_total
    }

    /// Rule 4: distance of the dark share from 50 percent.
    pub fn penalty_score_eval_four(&self, body: &Vec<Cell>) -> (p: usize)
        requires
            grid_ok(body@, self.size as int),
        ensures
            p == rule_four(body@),
            p <= 100,
    {
        let total_modules = body.len();
        proof {
            assert(self.size * self.size <= MAX_SIZE * MAX_SIZE) by (nonlinear_arith)
                requires self.size <= MAX_SIZE;
        }
        let mut black_modules: usize = 0;
        let mut i: usize = 0;
        while i < total_modules
            invariant
                total_modules == body@.len(),
                total_modules <= MAX_SIZE * MAX_SIZE,
                i <= total_modules,
                black_modules == dark_count(body@, i as int),
                black_modules <= i,
            decreases total_modules - i,
        {
            if body[i].is_black() {
                black_modules += 1;
            }
            i += 1;
        }
        proof {
            assert(self.size * self.size >= 4) by (nonlinear_arith) requires self.size >= 2;
            assert(200 * black_modules + total_modules <= 201 * total_modules);
            assert((200 * black_modules + total_modules) / (2 * total_modules as int) <= 100) by (nonlinear_arith)
                requires black_modules <= total_modules, total_modules > 0;
        }
        let black_percentage = (200 * black_modules + total_modules) / (2 * total_modules);
        let remainder = black_percentage % 5;
        let prev_mul = black_percentage - remainder;
        let next_mul = prev_mul + 5;
        let prev_abs = if prev_mul >= 50 { prev_mul - 50 } else { 50 - prev_mul };
        let next_abs = if next_mul >= 50 { next_mul - 50 } else { 50 - next_mul };
        let prev_div = prev_abs / 5;
        let next_div = next_abs / 5;
        if prev_div < next_div {
            prev_div * 10
        } else {
            next_div * 10
        }
    }

    /// The sum of the four penalty rules.
    pub fn eval_penalty_scores(&self, body: &Vec<Cell>) -> (p: usize)
        requires
            grid_ok(body@, self.size as int),
            11 <= self.size,
        ensures
            p == penalty_spec(body@, self.size as int),
    {
        let one = self.penalty_score_eval_one(body);
        let two = self.penalty_score_eval_two(body);
        let three = self.penalty_score_eval_three(body);
        let four = self.penalty_score_eval_four(body);
        proof {
            let n = self.size as int;
            assert(n * n <= MAX_SIZE * MAX_SIZE) by (nonlinear_arith)
                requires 0 <= n <= MAX_SIZE;
            assert(2 * n * n == 2 * (n * n) && 3 * n * n == 3 * (n * n) && 80 * n * n == 80 * (n * n))
                by (nonlinear_arith);
        }
        one + two + three + four
    }
}

} // verus!
