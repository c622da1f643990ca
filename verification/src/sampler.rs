use vstd::prelude::*;

verus! {

/// A single-channel luminance buffer, row-major.
pub struct GrayBuffer {
    pub width: u32,
    pub height: u32,
    pub data: Vec<u8>,
}

impl GrayBuffer {
    /// One byte per pixel.
    pub open spec fn wf(&self) -> bool {
        self.data@.len() == self.width as int * self.height as int
    }
}

/// An RGBA buffer, row-major, four bytes per pixel.
pub struct RgbaBuffer {
    pub width: u32,
    pub height: u32,
    pub data: Vec<u8>,
}

impl RgbaBuffer {
    /// Four bytes per pixel.
    pub open spec fn wf(&self) -> bool {
        self.data@.len() == 4 * self.width as int * self.height as int
    }
}

/// The extent, along one axis, of the pixel block behind output cell
/// `i`: the intersection of `[i*sf, (i+1)*sf)` with `[0, total)`.
pub open spec fn block_extent(total: int, sf: int, i: int) -> int {
    if sf <= 0 || i * sf >= total {
        0
    } else if i * sf + sf <= total {
        sf
    } else {
        total - i * sf
    }
}

/// A gray pixel value.
pub open spec fn gray_px(g: Seq<u8>, w: int, x: int, y: int) -> int {
    g[y * w + x] as int
}

/// The sum of `len` gray pixels of row `y` starting at column `x0`.
pub open spec fn gray_row_sum(g: Seq<u8>, w: int, y: int, x0: int, len: int) -> int
    decreases len,
{
    if len <= 0 {
        0
    } else {
        gray_row_sum(g, w, y, x0, len - 1) + gray_px(g, w, x0 + len - 1, y)
    }
}

/// The sum of the gray pixels of the `bw x bh` block at `(x0, y0)`.
pub open spec fn gray_block_sum(g: Seq<u8>, w: int, x0: int, y0: int, bw: int, bh: int) -> int
    decreases bh,
{
    if bh <= 0 {
        0
    } else {
        gray_block_sum(g, w, x0, y0, bw, bh - 1) + gray_row_sum(g, w, y0 + bh - 1, x0, bw)
    }
}

/// One channel of an RGBA pixel.
pub open spec fn rgba_px(d: Seq<u8>, w: int, x: int, y: int, ch: int) -> int {
    d[4 * (y * w + x) + ch] as int
}

/// The sum of one channel over `len` RGBA pixels of row `y` starting
/// at column `x0`.
pub open spec fn rgba_row_sum(d: Seq<u8>, w: int, y: int, x0: int, len: int, ch: int) -> int
    decreases len,
{
    if len <= 0 {
        0
    } else {
        rgba_row_sum(d, w, y, x0, len - 1, ch) + rgba_px(d, w, x0 + len - 1, y, ch)
    }
}

/// The sum of one channel over the `bw x bh` RGBA block at `(x0, y0)`.
pub open spec fn rgba_block_sum(d: Seq<u8>, w: int, x0: int, y0: int, bw: int, bh: int, ch: int) -> int
    decreases bh,
{
    if bh <= 0 {
        0
    } else {
        rgba_block_sum(d, w, x0, y0, bw, bh - 1, ch) + rgba_row_sum(d, w, y0 + bh - 1, x0, bw, ch)
    }
}

proof fn lemma_gray_row_sum_bound(g: Seq<u8>, w: int, y: int, x0: int, len: int)
    requires
        0 <= w,
        0 <= x0,
        0 <= y,
        0 <= len,
        x0 + len <= w,
    ensures
        0 <= gray_row_sum(g, w, y, x0, len) <= 255 * len,
    decreases len,
{
    if len > 0 {
        lemma_gray_row_sum_bound(g, w, y, x0, len - 1);
    }
}

/// A block sum of gray pixels lies between 0 and 255 per pixel counted.
pub proof fn lemma_gray_block_sum_bound(g: Seq<u8>, w: int, x0: int, y0: int, bw: int, bh: int)
    requires
        0 <= w,
        0 <= x0,
        0 <= y0,
        0 <= bw,
        0 <= bh,
        x0 + bw <= w,
    ensures
        0 <= gray_block_sum(g, w, x0, y0, bw, bh) <= 255 * (bw * bh),
    decreases bh,
{
    if bh > 0 {
        lemma_gray_block_sum_bound(g, w, x0, y0, bw, bh - 1);
        lemma_gray_row_sum_bound(g, w, y0 + bh - 1, x0, bw);
        assert(255 * (bw * (bh - 1)) + 255 * bw == 255 * (bw * bh)) by (nonlinear_arith);
    }
}

proof fn lemma_rgba_row_sum_bound(d: Seq<u8>, w: int, y: int, x0: int, len: int, ch: int)
    requires
        0 <= w,
        0 <= x0,
        0 <= y,
        0 <= len,
        x0 + len <= w,
    ensures
        0 <= rgba_row_sum(d, w, y, x0, len, ch) <= 255 * len,
    decreases len,
{
    if len > 0 {
        lemma_rgba_row_sum_bound(d, w, y, x0, len - 1, ch);
    }
}

/// A block sum of one RGBA channel lies between 0 and 255 per pixel.
pub proof fn lemma_rgba_block_sum_bound(d: Seq<u8>, w: int, x0: int, y0: int, bw: int, bh: int, ch: int)
    requires
        0 <= w,
        0 <= x0,
        0 <= y0,
        0 <= bw,
        0 <= bh,
        x0 + bw <= w,
    ensures
        0 <= rgba_block_sum(d, w, x0, y0, bw, bh, ch) <= 255 * (bw * bh),
    decreases bh,
{
    if bh > 0 {
        lemma_rgba_block_sum_bound(d, w, x0, y0, bw, bh - 1, ch);
        lemma_rgba_row_sum_bound(d, w, y0 + bh - 1, x0, bw, ch);
        assert(255 * (bw * (bh - 1)) + 255 * bw == 255 * (bw * bh)) by (nonlinear_arith);
    }
}

/// The executable block extent along one axis.
pub fn block_extent_exec(total: u32, sf: u32, i: u32) -> (r: u32)
    ensures
        r as int == block_extent(total as int, sf as int, i as int),
        r <= sf,
        r <= total,
{
    if sf == 0 {
        return 0;
    }
    proof {
        assert((i as int) * (sf as int) < 0x1_0000_0000_0000_0000) by (nonlinear_arith)
            requires
                0 <= (i as int) < 0x1_0000_0000,
                0 <= (sf as int) < 0x1_0000_0000;
    }
    let base: u64 = (i as u64) * (sf as u64);
    if base >= total as u64 {
        0
    } else if base + sf as u64 <= total as u64 {
        sf
    } else {
        (total as u64 - base) as u32
    }
}

/// The executable gray block sum.
pub fn gray_block_sum_exec(g: &Vec<u8>, w: u32, x0: u64, y0: u64, bw: u32, bh: u32) -> (s: u128)
    requires
        x0 + bw <= w,
        y0 + bh <= 0xffff_ffff,
        (y0 + bh) * w <= g@.len(),
    ensures
        s as int == gray_block_sum(g@, w as int, x0 as int, y0 as int, bw as int, bh as int),
        s as int <= 255 * (bw as int) * (bh as int),
{
    let glen: usize = g.len();
    proof {
        lemma_gray_block_sum_bound(g@, w as int, x0 as int, y0 as int, bw as int, bh as int);
        assert(255 * ((bw as int) * (bh as int)) == 255 * (bw as int) * (bh as int)) by (nonlinear_arith);
    }
    let mut s: u128 = 0;
    let mut dy: u32 = 0;
    while dy < bh
        invariant
            dy <= bh,
            x0 + bw <= w,
            y0 + bh <= 0xffff_ffff,
            (y0 + bh) * w <= g@.len(),
            g@.len() == glen,
            s as int == gray_block_sum(g@, w as int, x0 as int, y0 as int, bw as int, dy as int),
        decreases bh - dy,
    {
        let mut dx: u32 = 0;
        while dx < bw
            invariant
                dx <= bw,
                dy < bh,
                x0 + bw <= w,
                y0 + bh <= 0xffff_ffff,
                (y0 + bh) * w <= g@.len(),
                g@.len() == glen,
                s as int == gray_block_sum(g@, w as int, x0 as int, y0 as int, bw as int, dy as int)
                    + gray_row_sum(g@, w as int, y0 as int + dy as int, x0 as int, dx as int),
            decreases bw - dx,
        {
            proof {
                let wi = w as int;
                let x0i = x0 as int;
                let y0i = y0 as int;
                let dyi = dy as int;
                let dxi = dx as int;
                assert((y0i + dyi) * wi <= (y0i + bh) * wi
                    && (y0i + dyi + 1) * wi <= (y0i + bh) * wi) by (nonlinear_arith)
                    requires 0 <= wi && 0 <= y0i && 0 <= dyi && dyi < bh as int;
                lemma_gray_block_sum_bound(g@, wi, x0i, y0i, bw as int, dyi);
                lemma_gray_row_sum_bound(g@, wi, y0i + dyi, x0i, dxi + 1);
                assert((bw as int) * dyi <= 0x1_0000_0000_0000_0000) by (nonlinear_arith)
                    requires 0 <= bw as int <= 0x1_0000_0000 && 0 <= dyi <= 0x1_0000_0000;
                assert(0 <= (y0i + dyi) * wi + x0i + dxi
                    && (y0i + dyi) * wi + x0i + dxi < (y0i + dyi + 1) * wi) by (nonlinear_arith)
                    requires 0 <= y0i && 0 <= dyi && 0 <= x0i && 0 <= dxi && x0i + dxi < wi;
            }
            let idx: u64 = (y0 + dy as u64) * (w as u64) + x0 + dx as u64;
            let px = g[idx as usize];
            s = s + px as u128;
            dx = dx + 1;
        }
        dy = dy + 1;
    }
    s
}

/// The executable RGBA block sums: one pass computing the red, green
/// and blue channel sums of one block.
pub fn rgba_block_sums_exec(d: &Vec<u8>, w: u32, x0: u64, y0: u64, bw: u32, bh: u32) -> (s: (u128, u128, u128))
    requires
        x0 + bw <= w,
        y0 + bh <= 0xffff_ffff,
        4 * ((y0 + bh) * w) <= d@.len(),
    ensures
        s.0 as int == rgba_block_sum(d@, w as int, x0 as int, y0 as int, bw as int, bh as int, 0),
        s.1 as int == rgba_block_sum(d@, w as int, x0 as int, y0 as int, bw as int, bh as int, 1),
        s.2 as int == rgba_block_sum(d@, w as int, x0 as int, y0 as int, bw as int, bh as int, 2),
        s.0 as int <= 255 * (bw as int) * (bh as int),
        s.1 as int <= 255 * (bw as int) * (bh as int),
        s.2 as int <= 255 * (bw as int) * (bh as int),
{
    let dlen: usize = d.len();
    proof {
        lemma_rgba_block_sum_bound(d@, w as int, x0 as int, y0 as int, bw as int, bh as int, 0);
        lemma_rgba_block_sum_bound(d@, w as int, x0 as int, y0 as int, bw as int, bh as int, 1);
        lemma_rgba_block_sum_bound(d@, w as int, x0 as int, y0 as int, bw as int, bh as int, 2);
        assert(255 * ((bw as int) * (bh as int)) == 255 * (bw as int) * (bh as int)) by (nonlinear_arith);
    }
    let mut sr: u128 = 0;
    let mut sg: u128 = 0;
    let mut sb: u128 = 0;
    let mut dy: u32 = 0;
    while dy < bh
        invariant
            dy <= bh,
            x0 + bw <= w,
            y0 + bh <= 0xffff_ffff,
            4 * ((y0 + bh) * w) <= d@.len(),
            d@.len() == dlen,
            sr as int == rgba_block_sum(d@, w as int, x0 as int, y0 as int, bw as int, dy as int, 0),
            sg as int == rgba_block_sum(d@, w as int, x0 as int, y0 as int, bw as int, dy as int, 1),
            sb as int == rgba_block_sum(d@, w as int, x0 as int, y0 as int, bw as int, dy as int, 2),
        decreases bh - dy,
    {
        let mut dx: u32 = 0;
        while dx < bw
            invariant
                dx <= bw,
                dy < bh,
                x0 + bw <= w,
                y0 + bh <= 0xffff_ffff,
                4 * ((y0 + bh) * w) <= d@.len(),
                d@.len() == dlen,
                sr as int == rgba_block_sum(d@, w as int, x0 as int, y0 as int, bw as int, dy as int, 0)
                    + rgba_row_sum(d@, w as int, y0 as int + dy as int, x0 as int, dx as int, 0),
                sg as int == rgba_block_sum(d@, w as int, x0 as int, y0 as int, bw as int, dy as int, 1)
                    + rgba_row_sum(d@, w as int, y0 as int + dy as int, x0 as int, dx as int, 1),
                sb as int == rgba_block_sum(d@, w as int, x0 as int, y0 as int, bw as int, dy as int, 2)
                    + rgba_row_sum(d@, w as int, y0 as int + dy as int, x0 as int, dx as int, 2),
            decreases bw - dx,
        {
            proof {
                let wi = w as int;
                let x0i = x0 as int;
                let y0i = y0 as int;
                let dyi = dy as int;
                let dxi = dx as int;
                assert((y0i + dyi) * wi <= (y0i + bh) * wi
                    && (y0i + dyi + 1) * wi <= (y0i + bh) * wi) by (nonlinear_arith)
                    requires 0 <= wi && 0 <= y0i && 0 <= dyi && dyi < bh as int;
                lemma_rgba_block_sum_bound(d@, wi, x0i, y0i, bw as int, dyi, 0);
                lemma_rgba_block_sum_bound(d@, wi, x0i, y0i, bw as int, dyi, 1);
                lemma_rgba_block_sum_bound(d@, wi, x0i, y0i, bw as int, dyi, 2);
                lemma_rgba_row_sum_bound(d@, wi, y0i + dyi, x0i, dxi + 1, 0);
                lemma_rgba_row_sum_bound(d@, wi, y0i + dyi, x0i, dxi + 1, 1);
                lemma_rgba_row_sum_bound(d@, wi, y0i + dyi, x0i, dxi + 1, 2);
                assert((bw as int) * dyi <= 0x1_0000_0000_0000_0000) by (nonlinear_arith)
                    requires 0 <= bw as int <= 0x1_0000_0000 && 0 <= dyi <= 0x1_0000_0000;
                assert(0 <= (y0i + dyi) * wi + x0i + dxi
                    && (y0i + dyi) * wi + x0i + dxi < (y0i + dyi + 1) * wi) by (nonlinear_arith)
                    requires 0 <= y0i && 0 <= dyi && 0 <= x0i && 0 <= dxi && x0i + dxi < wi;
            }
            let pix: u64 = (y0 + dy as u64) * (w as u64) + x0 + dx as u64;
            let base: usize = (4 * pix) as usize;
            sr = sr + d[base] as u128;
            sg = sg + d[base + 1] as u128;
            sb = sb + d[base + 2] as u128;
            dx = dx + 1;
        }
        dy = dy + 1;
    }
    (sr, sg, sb)
}

} // verus!
