//! The bit-extraction strategies: mean-threshold, horizontal and vertical
//! gradients, and block averaging against the median.

use vstd::prelude::*;

use crate::grid::GrayscaleGrid;
use crate::grid::GridModel;
use crate::grid::MAX_DIM;

verus! {

/// The sum of a sample sequence.
pub open spec fn sum_seq(s: Seq<u8>) -> int
    decreases s.len(),
{
    if s.len() == 0 {
        0
    } else {
        sum_seq(s.drop_last()) + s.last()
    }
}

/// The floor of the mean intensity of a grid.
pub open spec fn spec_mean(m: GridModel) -> int {
    sum_seq(m.data) / m.data.len() as int
}

/// The mean-threshold bits: one bit per sample in row-major order, set
/// exactly when the sample reaches the grid's mean intensity (the
/// threshold is inclusive: a sample equal to the mean yields a set bit).
pub open spec fn spec_mean_bits(m: GridModel) -> Seq<bool> {
    Seq::new(m.data.len(), |i: int| m.data[i] >= spec_mean(m))
}

/// Mean-threshold extraction, exactly as `spec_mean_bits` states it.
pub fn mean_bits(g: &GrayscaleGrid) -> (r: Vec<bool>)
    requires
        g.wf(),
    ensures
        r@ == spec_mean_bits(g@),
{
    let n = g.data.len();
    proof {
        assert(1 <= g@.width * g@.height <= 16777216) by (nonlinear_arith)
            requires
                1 <= g@.width <= MAX_DIM as int,
                1 <= g@.height <= MAX_DIM as int,
        ;
    }
    let mut sum: u64 = 0;
    let mut i: usize = 0;
    while i < n
        invariant
            i <= n,
            n == g@.data.len(),
            n <= 16777216,
            sum == sum_seq(g@.data.take(i as int)),
            sum <= 255 * i,
        decreases n - i,
    {
        proof {
            assert(g@.data.take(i as int + 1).drop_last() =~= g@.data.take(i as int));
        }
        sum = sum + (g.data[i] as u64);
        i = i + 1;
    }
    proof {
        assert(g@.data.take(n as int) =~= g@.data);
    }
    let mean = sum / (n as u64);
    let mut out: Vec<bool> = Vec::new();
    let mut j: usize = 0;
    while j < n
        invariant
            j <= n,
            out@.len() == j,
            mean == spec_mean(g@),
            forall|k: int| 0 <= k < j ==> out@[k] == spec_mean_bits(g@)[k],
        decreases n - j,
    {
        out.push((g.data[j] as u64) >= mean);
        j = j + 1;
    }
    proof {
        assert(out@ =~= spec_mean_bits(g@));
    }
    out
}

/// The horizontal-gradient bits over an `nx` by `ny` comparison lattice:
/// bit `(x, y)` is set exactly when the sample right of `(x, y)` strictly
/// exceeds the sample at `(x, y)`.
pub open spec fn spec_h_bits(m: GridModel, nx: int, ny: int) -> Seq<bool> {
    Seq::new((nx * ny) as nat, |i: int| m.at(i % nx + 1, i / nx) > m.at(i % nx, i / nx))
}

/// The vertical-gradient bits: bit `(x, y)` is set exactly when the
/// sample below `(x, y)` strictly exceeds the sample at `(x, y)`.
pub open spec fn spec_v_bits(m: GridModel, nx: int, ny: int) -> Seq<bool> {
    Seq::new((nx * ny) as nat, |i: int| m.at(i % nx, i / nx + 1) > m.at(i % nx, i / nx))
}

/// Horizontal-gradient extraction, exactly as `spec_h_bits` states it.
pub fn h_bits(g: &GrayscaleGrid, nx: usize, ny: usize) -> (r: Vec<bool>)
    requires
        g.wf(),
        1 <= nx,
        nx + 1 <= g@.width,
        1 <= ny <= g@.height,
    ensures
        r@ == spec_h_bits(g@, nx as int, ny as int),
{
    let mut out: Vec<bool> = Vec::new();
    let mut y: usize = 0;
    proof {
        lemma_lattice_bound(nx as int, ny as int);
    }
    while y < ny
        invariant
            y <= ny,
            out@.len() == y * nx,
            forall|k: int|
                0 <= k < out@.len() ==> out@[k] == spec_h_bits(g@, nx as int, ny as int)[k],
        decreases ny - y,
    {
        let mut x: usize = 0;
        proof {
            lemma_row_step(y as int, nx as int, ny as int);
        }
        while x < nx
            invariant
                x <= nx,
                y < ny,
                out@.len() == y * nx + x,
                forall|k: int|
                    0 <= k < out@.len() ==> out@[k] == spec_h_bits(g@, nx as int, ny as int)[k],
            decreases nx - x,
        {
            proof {
                lemma_flat_index(y as int, x as int, nx as int);
            }
            let b = g.at(x + 1, y) > g.at(x, y);
            out.push(b);
            x = x + 1;
        }
        y = y + 1;
    }
    proof {
        assert(out@ =~= spec_h_bits(g@, nx as int, ny as int));
    }
    out
}

/// Vertical-gradient extraction, exactly as `spec_v_bits` states it.
pub fn v_bits(g: &GrayscaleGrid, nx: usize, ny: usize) -> (r: Vec<bool>)
    requires
        g.wf(),
        1 <= nx <= g@.width,
        1 <= ny,
        ny + 1 <= g@.height,
    ensures
        r@ == spec_v_bits(g@, nx as int, ny as int),
{
    let mut out: Vec<bool> = Vec::new();
    let mut y: usize = 0;
    proof {
        lemma_lattice_bound(nx as int, ny as int);
    }
    while y < ny
        invariant
            y <= ny,
            out@.len() == y * nx,
            forall|k: int|
                0 <= k < out@.len() ==> out@[k] == spec_v_bits(g@, nx as int, ny as int)[k],
        decreases ny - y,
    {
        let mut x: usize = 0;
        proof {
            lemma_row_step(y as int, nx as int, ny as int);
        }
        while x < nx
            invariant
                x <= nx,
                y < ny,
                out@.len() == y * nx + x,
                forall|k: int|
                    0 <= k < out@.len() ==> out@[k] == spec_v_bits(g@, nx as int, ny as int)[k],
            decreases nx - x,
        {
            proof {
                lemma_flat_index(y as int, x as int, nx as int);
            }
            let b = g.at(x, y + 1) > g.at(x, y);
            out.push(b);
            x = x + 1;
        }
        y = y + 1;
    }
    proof {
        assert(out@ =~= spec_v_bits(g@, nx as int, ny as int));
    }
    out
}

/// A comparison lattice never exceeds the largest grid area.
pub proof fn lemma_lattice_bound(nx: int, ny: int)
    requires
        1 <= nx <= MAX_DIM as int,
        1 <= ny <= MAX_DIM as int,
    ensures
        1 <= nx * ny <= MAX_DIM as int * MAX_DIM as int,
        nx * ny == ny * nx,
{
    assert(1 <= nx * ny <= MAX_DIM as int * MAX_DIM as int && nx * ny == ny * nx)
        by (nonlinear_arith)
        requires
            1 <= nx <= MAX_DIM as int,
            1 <= ny <= MAX_DIM as int,
    ;
}

/// Stepping one row forward in a flat row-major index.
pub proof fn lemma_row_step(y: int, nx: int, ny: int)
    requires
        0 <= y < ny,
        1 <= nx <= MAX_DIM as int,
        ny <= MAX_DIM as int,
    ensures
        (y + 1) * nx == y * nx + nx,
        (y + 1) * nx <= ny * nx,
        ny * nx <= MAX_DIM as int * MAX_DIM as int,
{
    assert((y + 1) * nx == y * nx + nx && (y + 1) * nx <= ny * nx && ny * nx <= MAX_DIM as int
        * MAX_DIM as int) by (nonlinear_arith)
        requires
            0 <= y < ny,
            1 <= nx <= MAX_DIM as int,
            ny <= MAX_DIM as int,
    ;
}

/// A flat row-major index decomposes into its row and column.
pub proof fn lemma_flat_index(y: int, x: int, nx: int)
    requires
        0 <= x < nx,
        0 <= y,
    ensures
        (y * nx + x) % nx == x,
        (y * nx + x) / nx == y,
{
    vstd::arithmetic::div_mod::lemma_fundamental_div_mod_converse_mod(y * nx + x, nx, y, x);
    vstd::arithmetic::div_mod::lemma_fundamental_div_mod_converse_div(y * nx + x, nx, y, x);
}

/// The sum of the samples of one row segment, columns `x0` (inclusive)
/// to `x1` (exclusive) of row `y`.
pub open spec fn row_sum(m: GridModel, x0: int, x1: int, y: int) -> int
    decreases x1 - x0,
{
    if x1 <= x0 {
        0
    } else {
        row_sum(m, x0, x1 - 1, y) + m.at(x1 - 1, y)
    }
}

/// The sum of the samples of a rectangle, rows `y0` to `y1` exclusive.
pub open spec fn rect_sum(m: GridModel, x0: int, x1: int, y0: int, y1: int) -> int
    decreases y1 - y0,
{
    if y1 <= y0 {
        0
    } else {
        rect_sum(m, x0, x1, y0, y1 - 1) + row_sum(m, x0, x1, y1 - 1)
    }
}

/// A row segment sums to at most 255 per sample.
proof fn lemma_row_sum_bounds(m: GridModel, x0: int, x1: int, y: int)
    requires
        x0 <= x1,
    ensures
        0 <= row_sum(m, x0, x1, y) <= 255 * (x1 - x0),
    decreases x1 - x0,
{
    if x0 < x1 {
        lemma_row_sum_bounds(m, x0, x1 - 1, y);
    }
}

/// A rectangle sums to at most 255 per sample.
proof fn lemma_rect_sum_bounds(m: GridModel, x0: int, x1: int, y0: int, y1: int)
    requires
        x0 <= x1,
        y0 <= y1,
    ensures
        0 <= rect_sum(m, x0, x1, y0, y1) <= 255 * ((x1 - x0) * (y1 - y0)),
    decreases y1 - y0,
{
    if y0 < y1 {
        lemma_rect_sum_bounds(m, x0, x1, y0, y1 - 1);
        lemma_row_sum_bounds(m, x0, x1, y1 - 1);
        assert(255 * ((x1 - x0) * (y1 - y0 - 1)) + 255 * (x1 - x0) == 255 * ((x1 - x0) * (y1
            - y0)) && 0 <= (x1 - x0) * (y1 - y0 - 1)) by (nonlinear_arith)
            requires
                x0 <= x1,
                y0 < y1,
        ;
    }
}

/// The column range block `i` of `b` covers in a grid `w` samples wide:
/// from `i * w / b` to `(i + 1) * w / b`, widened to at least one column.
/// When there are more blocks than columns, neighbouring blocks overlap
/// rather than any block going empty.
pub open spec fn block_lo(i: int, w: int, b: int) -> int {
    i * w / b
}

pub open spec fn block_hi(i: int, w: int, b: int) -> int {
    let hi = (i + 1) * w / b;
    if hi <= block_lo(i, w, b) {
        block_lo(i, w, b) + 1
    } else {
        hi
    }
}

/// Every block range is nonempty and stays inside the axis.
proof fn lemma_block_range(i: int, w: int, b: int)
    requires
        0 <= i < b,
        1 <= w,
        1 <= b,
    ensures
        0 <= block_lo(i, w, b),
        block_lo(i, w, b) < block_hi(i, w, b),
        block_hi(i, w, b) <= w,
{
    vstd::arithmetic::div_mod::lemma_div_pos_is_pos(i * w, b);
    assert(i * w >= 0 && i * w < b * w && (i + 1) * w <= b * w && b * w == w * b)
        by (nonlinear_arith)
        requires
            0 <= i < b,
            1 <= w,
    ;
    vstd::arithmetic::div_mod::lemma_multiply_divide_lt(i * w, b, w);
    div_le_count((i + 1) * w, b, w);
}

/// A dividend of at most `c` divisors yields a quotient of at most `c`.
proof fn div_le_count(num: int, den: int, c: int)
    requires
        0 <= num,
        1 <= den,
        0 <= c,
        num <= c * den,
    ensures
        num / den <= c,
{
    vstd::arithmetic::div_mod::lemma_div_is_ordered(num, c * den, den);
    vstd::arithmetic::div_mod::lemma_div_by_multiple(c, den);
}

/// The average intensity (floor) of block `(i, j)` in a `b` by `b`
/// partition of the grid.
pub open spec fn spec_block_avg(m: GridModel, b: int, i: int, j: int) -> u64 {
    let x0 = block_lo(i, m.width, b);
    let x1 = block_hi(i, m.width, b);
    let y0 = block_lo(j, m.height, b);
    let y1 = block_hi(j, m.height, b);
    (rect_sum(m, x0, x1, y0, y1) / ((x1 - x0) * (y1 - y0))) as u64
}

/// Inserting a value into a sorted sequence, keeping it sorted.
pub open spec fn spec_insert_sorted(x: u64, s: Seq<u64>) -> Seq<u64>
    decreases s.len(),
{
    if s.len() == 0 {
        seq![x]
    } else if x >= s.last() {
        s.push(x)
    } else {
        spec_insert_sorted(x, s.drop_last()).push(s.last())
    }
}

/// Insertion sort of a sequence.
pub open spec fn spec_sort(s: Seq<u64>) -> Seq<u64>
    decreases s.len(),
{
    if s.len() == 0 {
        Seq::empty()
    } else {
        spec_insert_sorted(s.last(), spec_sort(s.drop_last()))
    }
}

/// Insertion grows a sequence by exactly one element.
pub proof fn lemma_insert_sorted_len(x: u64, s: Seq<u64>)
    ensures
        spec_insert_sorted(x, s).len() == s.len() + 1,
    decreases s.len(),
{
    if s.len() > 0 && x < s.last() {
        lemma_insert_sorted_len(x, s.drop_last());
    }
}

/// Sorting preserves the length.
pub proof fn lemma_sort_len(s: Seq<u64>)
    ensures
        spec_sort(s).len() == s.len(),
    decreases s.len(),
{
    if s.len() > 0 {
        lemma_sort_len(s.drop_last());
        lemma_insert_sorted_len(s.last(), spec_sort(s.drop_last()));
    }
}

/// Inserting at the position where every later element strictly exceeds
/// the new value (and the earlier neighbour does not) is what the
/// recursive insertion computes.
proof fn lemma_insert_at(s: Seq<u64>, x: u64, p: int)
    requires
        0 <= p <= s.len(),
        forall|k: int| p <= k < s.len() ==> s[k] > x,
        p > 0 ==> s[p - 1] <= x,
    ensures
        spec_insert_sorted(x, s) == s.insert(p, x),
    decreases s.len(),
{
    if p == s.len() {
        if s.len() == 0 {
            assert(spec_insert_sorted(x, s) =~= s.insert(p, x));
        } else {
            assert(x >= s.last());
            assert(s.push(x) =~= s.insert(p, x));
        }
    } else {
        assert(s[s.len() - 1] > x);
        lemma_insert_at(s.drop_last(), x, p);
        assert(spec_insert_sorted(x, s.drop_last()).push(s.last()) =~= s.insert(p, x));
    }
}

/// Insert a value into a sorted vector, exactly as `spec_insert_sorted` does.
fn insert_sorted(v: &mut Vec<u64>, x: u64)
    requires
        old(v)@.len() < usize::MAX,
    ensures
        final(v)@ == spec_insert_sorted(x, old(v)@),
{
    let mut p: usize = v.len();
    while p > 0 && v[p - 1] > x
        invariant
            0 <= p <= v@.len(),
            v@ == old(v)@,
            forall|k: int| p <= k < v@.len() ==> v@[k] > x,
        decreases p,
    {
        p = p - 1;
    }
    proof {
        lemma_insert_at(v@, x, p as int);
    }
    v.insert(p, x);
}

/// The block-average bits: the grid is partitioned into `b * b` blocks,
/// and a bit is set exactly when its block average strictly exceeds the
/// median of all block averages (for an even block count, the upper of
/// the two middle values in sorted order).
pub open spec fn spec_blockhash_bits(m: GridModel, b: int) -> Seq<bool> {
    let avgs = Seq::new((b * b) as nat, |i: int| spec_block_avg(m, b, i % b, i / b));
    let med = spec_sort(avgs)[b * b / 2];
    Seq::new((b * b) as nat, |i: int| avgs[i] > med)
}

/// The average of one block, exactly as `spec_block_avg` states it.
fn block_avg(g: &GrayscaleGrid, b: usize, i: usize, j: usize) -> (r: u64)
    requires
        g.wf(),
        1 <= b <= 256,
        i < b,
        j < b,
    ensures
        r == spec_block_avg(g@, b as int, i as int, j as int),
{
    proof {
        lemma_block_range(i as int, g@.width, b as int);
        lemma_block_range(j as int, g@.height, b as int);
        assert(0 <= (i as int) * g@.width && (i as int) * g@.width <= 16777216 && (i as int + 1)
            * g@.width <= 16777216) by (nonlinear_arith)
            requires
                0 <= (i as int) < b as int,
                b as int <= 256,
                1 <= g@.width <= MAX_DIM as int,
        ;
        assert(0 <= (j as int) * g@.height && (j as int) * g@.height <= 16777216 && (j as int
            + 1) * g@.height <= 16777216) by (nonlinear_arith)
            requires
                0 <= (j as int) < b as int,
                b as int <= 256,
                1 <= g@.height <= MAX_DIM as int,
        ;
    }
    let x0 = i * g.width / b;
    let x1h = (i + 1) * g.width / b;
    let x1 = if x1h <= x0 {
        x0 + 1
    } else {
        x1h
    };
    let y0 = j * g.height / b;
    let y1h = (j + 1) * g.height / b;
    let y1 = if y1h <= y0 {
        y0 + 1
    } else {
        y1h
    };
    let mut acc: u64 = 0;
    let mut y = y0;
    proof {
        lemma_rect_sum_bounds(g@, x0 as int, x1 as int, y0 as int, y1 as int);
        assert(255 * ((x1 as int - x0 as int) * (y1 as int - y0 as int)) <= 0x1_0000_0000_0000)
            by (nonlinear_arith)
            requires
                0 < x1 as int - x0 as int <= 4096,
                0 < y1 as int - y0 as int <= 4096,
        ;
    }
    while y < y1
        invariant
            y0 <= y <= y1,
            acc == rect_sum(g@, x0 as int, x1 as int, y0 as int, y as int),
        decreases y1 - y,
    {
        let mut x = x0;
        proof {
            lemma_rect_sum_bounds(g@, x0 as int, x1 as int, y0 as int, y as int);
            lemma_row_sum_bounds(g@, x0 as int, x1 as int, y as int);
        }
        while x < x1
            invariant
                x0 <= x <= x1,
                y0 <= y < y1,
                acc == rect_sum(g@, x0 as int, x1 as int, y0 as int, y as int) + row_sum(
                    g@,
                    x0 as int,
                    x as int,
                    y as int,
                ),
            decreases x1 - x,
        {
            proof {
                lemma_rect_sum_bounds(g@, x0 as int, x1 as int, y0 as int, y as int);
                lemma_row_sum_bounds(g@, x0 as int, x as int, y as int);
                assert(255 * ((x1 as int - x0 as int) * (y as int - y0 as int)) + 255 * (x as int
                    - x0 as int) <= 0xffff_ffff_ffff) by (nonlinear_arith)
                    requires
                        0 <= x1 as int - x0 as int <= 4096,
                        0 <= y as int - y0 as int <= 4096,
                        0 <= x as int - x0 as int <= 4096,
                ;
            }
            acc = acc + (g.at(x, y) as u64);
            x = x + 1;
        }
        y = y + 1;
    }
    proof {
        assert((x1 as int - x0 as int) * (y1 as int - y0 as int) >= 1 && (x1 as int - x0 as int) * (
        y1 as int - y0 as int) <= 16777216) by (nonlinear_arith)
            requires
                0 < x1 as int - x0 as int <= 4096,
                0 < y1 as int - y0 as int <= 4096,
        ;
    }
    acc / (((x1 - x0) * (y1 - y0)) as u64)
}

/// Block-average extraction, exactly as `spec_blockhash_bits` states it.
pub fn blockhash_bits(g: &GrayscaleGrid, b: usize) -> (r: Vec<bool>)
    requires
        g.wf(),
        1 <= b <= 256,
    ensures
        r@ == spec_blockhash_bits(g@, b as int),
{
    let ghost avgs_spec = Seq::new(
        ((b as int) * (b as int)) as nat,
        |i: int| spec_block_avg(g@, b as int, i % b as int, i / b as int),
    );
    let mut avgs: Vec<u64> = Vec::new();
    let mut j: usize = 0;
    while j < b
        invariant
            j <= b,
            avgs@.len() == j * b,
            forall|k: int| 0 <= k < avgs@.len() ==> avgs@[k] == avgs_spec[k],
        decreases b - j,
    {
        let mut i: usize = 0;
        proof {
            lemma_row_step(j as int, b as int, b as int);
        }
        while i < b
            invariant
                i <= b,
                j < b,
                avgs@.len() == j * b + i,
                forall|k: int| 0 <= k < avgs@.len() ==> avgs@[k] == avgs_spec[k],
            decreases b - i,
        {
            proof {
                lemma_flat_index(j as int, i as int, b as int);
            }
            let a = block_avg(g, b, i, j);
            avgs.push(a);
            i = i + 1;
        }
        j = j + 1;
    }
    proof {
        lemma_lattice_bound(b as int, b as int);
        assert(avgs@ =~= avgs_spec);
    }
    let mut sorted: Vec<u64> = Vec::new();
    let mut t: usize = 0;
    let n = avgs.len();
    while t < n
        invariant
            t <= n,
            n == avgs@.len(),
            sorted@ == spec_sort(avgs@.take(t as int)),
        decreases n - t,
    {
        proof {
            assert(avgs@.take(t as int + 1).drop_last() =~= avgs@.take(t as int));
            lemma_sort_len(avgs@.take(t as int));
        }
        insert_sorted(&mut sorted, avgs[t]);
        t = t + 1;
    }
    proof {
        assert(avgs@.take(n as int) =~= avgs@);
        lemma_sort_len(avgs@);
    }
    let med = sorted[n / 2];
    let mut out: Vec<bool> = Vec::new();
    let mut k: usize = 0;
    while k < n
        invariant
            k <= n,
            out@.len() == k,
            n == avgs@.len(),
            avgs@ == avgs_spec,
            med == spec_sort(avgs_spec)[(b as int) * (b as int) / 2],
            forall|q: int| 0 <= q < k ==> out@[q] == (avgs_spec[q] > med),
        decreases n - k,
    {
        out.push(avgs[k] > med);
        k = k + 1;
    }
    proof {
        assert(out@ =~= spec_blockhash_bits(g@, b as int));
    }
    out
}

} // verus!
