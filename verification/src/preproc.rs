//! The pre-processor chain: frequency-domain compaction (a Haar-style
//! low-frequency band, halving each dimension) and a
//! difference-of-Gaussians edge enhancement approximated by the
//! difference of two box blurs. Both transforms are pure and total over
//! any well-formed grid; all arithmetic is integer arithmetic, so every
//! output sample is defined.

use vstd::prelude::*;

use crate::grid::GrayscaleGrid;
use crate::grid::GridModel;
use crate::grid::MAX_DIM;

verus! {

/// One sample of the low-frequency band: the average of a two-by-two
/// window anchored at `(2x, 2y)`, edge-clamped.
pub open spec fn spec_compact_at(m: GridModel, x: int, y: int) -> u8 {
    ((m.at_clamped(2 * x, 2 * y) + m.at_clamped(2 * x + 1, 2 * y) + m.at_clamped(2 * x, 2 * y + 1)
        + m.at_clamped(2 * x + 1, 2 * y + 1)) / 4) as u8
}

/// The compacted grid: each dimension halves (rounding up, so it never
/// drops below one), and each sample is the average of its source window.
pub open spec fn spec_compact(m: GridModel) -> GridModel {
    let ow = (m.width + 1) / 2;
    let oh = (m.height + 1) / 2;
    GridModel {
        width: ow,
        height: oh,
        data: Seq::new((ow * oh) as nat, |i: int| spec_compact_at(m, i % ow, i / ow)),
    }
}

/// Frequency-domain compaction, exactly as `spec_compact` states it.
pub fn compact(g: &GrayscaleGrid) -> (r: GrayscaleGrid)
    requires
        g.wf(),
    ensures
        r.wf(),
        r@ == spec_compact(g@),
{
    let ow = (g.width + 1) / 2;
    let oh = (g.height + 1) / 2;
    let mut data: Vec<u8> = Vec::new();
    let mut y: usize = 0;
    while y < oh
        invariant
            y <= oh,
            ow == (g@.width + 1) / 2,
            oh == (g@.height + 1) / 2,
            data@.len() == y * ow,
            forall|k: int|
                0 <= k < data@.len() ==> data@[k] == spec_compact_at(g@, k % ow as int, k / ow as int),
        decreases oh - y,
    {
        let mut x: usize = 0;
        proof {
            crate::bits::lemma_row_step(y as int, ow as int, oh as int);
        }
        while x < ow
            invariant
                x <= ow,
                y < oh,
                ow == (g@.width + 1) / 2,
                oh == (g@.height + 1) / 2,
                data@.len() == y * ow + x,
                forall|k: int|
                    0 <= k < data@.len() ==> data@[k] == spec_compact_at(
                        g@,
                        k % ow as int,
                        k / ow as int,
                    ),
            decreases ow - x,
        {
            proof {
                crate::bits::lemma_flat_index(y as int, x as int, ow as int);
            }
            let v = ((g.at_clamped(2 * (x as i64), 2 * (y as i64)) as u32) + (g.at_clamped(
                2 * (x as i64) + 1,
                2 * (y as i64),
            ) as u32) + (g.at_clamped(2 * (x as i64), 2 * (y as i64) + 1) as u32) + (g.at_clamped(
                2 * (x as i64) + 1,
                2 * (y as i64) + 1,
            ) as u32)) / 4;
            data.push(v as u8);
            x = x + 1;
        }
        y = y + 1;
    }
    proof {
        crate::bits::lemma_lattice_bound(ow as int, oh as int);
        assert(data@ =~= spec_compact(g@).data);
    }
    GrayscaleGrid { width: ow, height: oh, data }
}

/// The edge-clamped three-by-three box average around `(x, y)`.
pub open spec fn spec_box3_at(m: GridModel, x: int, y: int) -> int {
    (m.at_clamped(x - 1, y - 1) + m.at_clamped(x, y - 1) + m.at_clamped(x + 1, y - 1) + m.at_clamped(x - 1, y) + m.at_clamped(x, y) + m.at_clamped(x + 1, y) + m.at_clamped(x - 1, y + 1) + m.at_clamped(x, y + 1) + m.at_clamped(x + 1, y + 1)) / 9
}

/// The edge-clamped five-by-five box average around `(x, y)`.
pub open spec fn spec_box5_at(m: GridModel, x: int, y: int) -> int {
    (m.at_clamped(x - 2, y - 2) + m.at_clamped(x - 1, y - 2) + m.at_clamped(x, y - 2) + m.at_clamped(x + 1, y - 2) + m.at_clamped(x + 2, y - 2) + m.at_clamped(x - 2, y - 1) + m.at_clamped(x - 1, y - 1) + m.at_clamped(x, y - 1) + m.at_clamped(x + 1, y - 1) + m.at_clamped(x + 2, y - 1) + m.at_clamped(x - 2, y) + m.at_clamped(x - 1, y) + m.at_clamped(x, y) + m.at_clamped(x + 1, y) + m.at_clamped(x + 2, y) + m.at_clamped(x - 2, y + 1) + m.at_clamped(x - 1, y + 1) + m.at_clamped(x, y + 1) + m.at_clamped(x + 1, y + 1) + m.at_clamped(x + 2, y + 1) + m.at_clamped(x - 2, y + 2) + m.at_clamped(x - 1, y + 2) + m.at_clamped(x, y + 2) + m.at_clamped(x + 1, y + 2) + m.at_clamped(x + 2, y + 2)) / 25
}

/// One sample of the edge-enhanced grid: the narrow blur minus the wide
/// blur, re-centred at 128 and clamped to the sample range.
pub open spec fn spec_dog_at(m: GridModel, x: int, y: int) -> u8 {
    let d = spec_box3_at(m, x, y) + 128;
    let w = spec_box5_at(m, x, y);
    if d <= w {
        0
    } else if d - w > 255 {
        255
    } else {
        (d - w) as u8
    }
}

/// The edge-enhanced grid: dimensions are preserved and every sample is
/// the clamped, re-centred difference of the two box averages.
pub open spec fn spec_dog(m: GridModel) -> GridModel {
    GridModel {
        width: m.width,
        height: m.height,
        data: Seq::new(
            (m.width * m.height) as nat,
            |i: int| spec_dog_at(m, i % m.width, i / m.width),
        ),
    }
}

/// The three-by-three box average, exactly as `spec_box3_at` states it.
fn box3_at(g: &GrayscaleGrid, x: i64, y: i64) -> (r: u32)
    requires
        g.wf(),
        -8192 <= x <= 8192,
        -8192 <= y <= 8192,
    ensures
        r == spec_box3_at(g@, x as int, y as int),
        r <= 255,
{
    (l3(g, x, y - 1) + l3(g, x, y) + l3(g, x, y + 1)) / 9
}

/// One row of three clamped samples.
fn l3(g: &GrayscaleGrid, x: i64, y: i64) -> (r: u32)
    requires
        g.wf(),
        -16384 <= x <= 16384,
        -16384 <= y <= 16384,
    ensures
        r == g@.at_clamped(x as int - 1, y as int) + g@.at_clamped(x as int, y as int)
            + g@.at_clamped(x as int + 1, y as int),
        r <= 765,
{
    (g.at_clamped(x - 1, y) as u32) + (g.at_clamped(x, y) as u32) + (g.at_clamped(x + 1, y) as u32)
}

/// One row of five clamped samples.
fn l5(g: &GrayscaleGrid, x: i64, y: i64) -> (r: u32)
    requires
        g.wf(),
        -16384 <= x <= 16384,
        -16384 <= y <= 16384,
    ensures
        r == g@.at_clamped(x as int - 2, y as int) + g@.at_clamped(x as int - 1, y as int)
            + g@.at_clamped(x as int, y as int) + g@.at_clamped(x as int + 1, y as int)
            + g@.at_clamped(x as int + 2, y as int),
        r <= 1275,
{
    (g.at_clamped(x - 2, y) as u32) + (g.at_clamped(x - 1, y) as u32) + (g.at_clamped(x, y) as u32)
        + (g.at_clamped(x + 1, y) as u32) + (g.at_clamped(x + 2, y) as u32)
}

/// The five-by-five box average, exactly as `spec_box5_at` states it.
fn box5_at(g: &GrayscaleGrid, x: i64, y: i64) -> (r: u32)
    requires
        g.wf(),
        -8192 <= x <= 8192,
        -8192 <= y <= 8192,
    ensures
        r == spec_box5_at(g@, x as int, y as int),
        r <= 255,
{
    (l5(g, x, y - 2) + l5(g, x, y - 1) + l5(g, x, y) + l5(g, x, y + 1) + l5(g, x, y + 2)) / 25
}

/// Difference-of-Gaussians edge enhancement, exactly as `spec_dog` states it.
pub fn diff_gauss(g: &GrayscaleGrid) -> (r: GrayscaleGrid)
    requires
        g.wf(),
    ensures
        r.wf(),
        r@ == spec_dog(g@),
{
    let w = g.width;
    let h = g.height;
    let mut data: Vec<u8> = Vec::new();
    let mut y: usize = 0;
    while y < h
        invariant
            y <= h,
            w == g@.width,
            h == g@.height,
            data@.len() == y * w,
            forall|k: int|
                0 <= k < data@.len() ==> data@[k] == spec_dog_at(g@, k % w as int, k / w as int),
        decreases h - y,
    {
        let mut x: usize = 0;
        proof {
            crate::bits::lemma_row_step(y as int, w as int, h as int);
        }
        while x < w
            invariant
                x <= w,
                y < h,
                w == g@.width,
                h == g@.height,
                data@.len() == y * w + x,
                forall|k: int|
                    0 <= k < data@.len() ==> data@[k] == spec_dog_at(g@, k % w as int, k / w as int),
            decreases w - x,
        {
            proof {
                crate::bits::lemma_flat_index(y as int, x as int, w as int);
            }
            let narrow = box3_at(g, x as i64, y as i64);
            let wide = box5_at(g, x as i64, y as i64);
            let d = narrow + 128;
            let v: u8 = if d <= wide {
                0
            } else if d - wide > 255 {
                255
            } else {
                (d - wide) as u8
            };
            data.push(v);
            x = x + 1;
        }
        y = y + 1;
    }
    proof {
        crate::bits::lemma_lattice_bound(w as int, h as int);
        assert(data@ =~= spec_dog(g@).data);
    }
    GrayscaleGrid { width: w, height: h, data }
}

} // verus!
