use vstd::prelude::*;
use vstd::string::StringExecFns;

use crate::alphabet::color_alpha;
use crate::alphabet::color_alphabet;
use crate::alphabet::gray_alpha;
use crate::alphabet::gray_alphabet;
use crate::alphabet::lemma_select_index_in_range;
use crate::alphabet::lemma_select_index_symmetry;
use crate::alphabet::select_glyph_index;
use crate::alphabet::select_index;
use crate::sampler::GrayBuffer;
use crate::sampler::RgbaBuffer;
use crate::sampler::block_extent;
use crate::sampler::block_extent_exec;
use crate::sampler::gray_block_sum;
use crate::sampler::gray_block_sum_exec;
use crate::sampler::lemma_gray_block_sum_bound;
use crate::sampler::rgba_block_sum;
use crate::sampler::rgba_block_sums_exec;

verus! {

/// Appends one character to a string.
///
/// Relies on String::push: appends the given char to the end of the
/// string.
#[verifier::external_body]
fn push_char(s: &mut String, c: char)
    ensures
        final(s)@ == old(s)@ + seq![c],
{
    s.push(c);
}

/// A decimal digit as a character.
pub open spec fn digit_char(d: int) -> char {
    if d == 0 { '0' }
    else if d == 1 { '1' }
    else if d == 2 { '2' }
    else if d == 3 { '3' }
    else if d == 4 { '4' }
    else if d == 5 { '5' }
    else if d == 6 { '6' }
    else if d == 7 { '7' }
    else if d == 8 { '8' }
    else { '9' }
}

/// The decimal rendering of an 8-bit value, without leading zeros.
pub open spec fn dec_u8(v: int) -> Seq<char> {
    if v < 10 {
        seq![digit_char(v)]
    } else if v < 100 {
        seq![digit_char(v / 10), digit_char(v % 10)]
    } else {
        seq![digit_char(v / 100), digit_char((v / 10) % 10), digit_char(v % 10)]
    }
}

fn digit_exec(d: u8) -> (c: char)
    requires
        d < 10,
    ensures
        c == digit_char(d as int),
{
    match d {
        0 => '0',
        1 => '1',
        2 => '2',
        3 => '3',
        4 => '4',
        5 => '5',
        6 => '6',
        7 => '7',
        8 => '8',
        _ => '9',
    }
}

/// Appends the decimal rendering of an 8-bit value.
pub fn push_dec_u8(s: &mut String, v: u8)
    ensures
        final(s)@ == old(s)@ + dec_u8(v as int),
{
    if v < 10 {
        push_char(s, digit_exec(v));
    } else if v < 100 {
        push_char(s, digit_exec(v / 10));
        push_char(s, digit_exec(v % 10));
    } else {
        push_char(s, digit_exec(v / 100));
        push_char(s, digit_exec((v / 10) % 10));
        push_char(s, digit_exec(v % 10));
    }
    proof {
        assert(final(s)@ =~= old(s)@ + dec_u8(v as int));
    }
}

/// The brightness-driven glyph index of one grayscale cell: the mean
/// block brightness, inverted on demand, mapped over an `n`-glyph
/// alphabet. An empty block selects index 0.
pub open spec fn gray_cell_index(
    g: Seq<u8>, gw: int, gh: int, sf: int, invert: bool, n: int, x: int, y: int,
) -> int {
    let bw = block_extent(gw, sf, x);
    let bh = block_extent(gh, sf, y);
    let cnt = bw * bh;
    let s = gray_block_sum(g, gw, x * sf, y * sf, bw, bh);
    let num = if invert { 255 * cnt - s } else { s };
    select_index(num, 255 * cnt, n)
}

/// The first `k` glyphs of grayscale output row `y`.
pub open spec fn gray_row_chars(
    g: Seq<u8>, gw: int, gh: int, sf: int, invert: bool, alpha: Seq<char>, y: int, k: int,
) -> Seq<char>
    decreases k,
{
    if k <= 0 {
        Seq::empty()
    } else {
        gray_row_chars(g, gw, gh, sf, invert, alpha, y, k - 1)
            + seq![alpha[gray_cell_index(g, gw, gh, sf, invert, alpha.len() as int, k - 1, y)]]
    }
}

/// The first `k` newline-terminated rows of grayscale output.
pub open spec fn gray_rows(
    g: Seq<u8>, gw: int, gh: int, sf: int, invert: bool, alpha: Seq<char>, width: int, k: int,
) -> Seq<char>
    decreases k,
{
    if k <= 0 {
        Seq::empty()
    } else {
        gray_rows(g, gw, gh, sf, invert, alpha, width, k - 1)
            + gray_row_chars(g, gw, gh, sf, invert, alpha, k - 1, width)
            + seq!['\n']
    }
}

/// The whole grayscale output of a `gw x gh` luminance buffer on a
/// `width x height` glyph grid.
pub open spec fn gray_output(
    g: Seq<u8>, gw: int, gh: int, sf: int, invert: bool,
    use_high_density: bool, use_detailed: bool, width: int, height: int,
) -> Seq<char> {
    gray_rows(g, gw, gh, sf, invert, gray_alpha(use_high_density, use_detailed), width, height)
}

/// A grayscale cell index stays within its alphabet.
pub proof fn lemma_gray_cell_index_in_range(
    g: Seq<u8>, gw: int, gh: int, sf: int, invert: bool, n: int, x: int, y: int,
)
    requires
        n >= 2,
        0 <= gw,
        0 <= gh,
        0 <= x,
        0 <= y,
    ensures
        0 <= gray_cell_index(g, gw, gh, sf, invert, n, x, y) < n,
{
    let bw = block_extent(gw, sf, x);
    let bh = block_extent(gh, sf, y);
    let cnt = bw * bh;
    let s = gray_block_sum(g, gw, x * sf, y * sf, bw, bh);
    if cnt > 0 {
        assert(bw > 0 && bh > 0) by (nonlinear_arith)
            requires cnt == bw * bh && cnt > 0 && bw >= 0 && bh >= 0;
        assert(0 <= x * sf && x * sf + bw <= gw) by (nonlinear_arith)
            requires
                bw == block_extent(gw, sf, x),
                bw > 0,
                0 <= x;
        lemma_gray_block_sum_bound(g, gw, x * sf, y * sf, bw, bh);
        assert(255 * (bw * bh) == 255 * cnt);
        assert(0 <= y * sf) by (nonlinear_arith)
            requires 0 <= y && sf > 0;
    } else {
        assert(cnt >= 0) by (nonlinear_arith)
            requires bw >= 0 && bh >= 0 && cnt == bw * bh;
    }
    let num = if invert { 255 * cnt - s } else { s };
    lemma_select_index_in_range(num, 255 * cnt, n);
}

/// The plain and the inverted grayscale selections of one cell are
/// symmetric around the alphabet midpoint: for a covered block the two
/// indices sum to `n - 1` or to `n - 2`.
pub proof fn lemma_gray_cell_invert_symmetry(
    g: Seq<u8>, gw: int, gh: int, sf: int, n: int, x: int, y: int,
)
    requires
        n >= 2,
        0 <= gw,
        0 <= gh,
        0 <= x,
        0 <= y,
        block_extent(gw, sf, x) * block_extent(gh, sf, y) > 0,
    ensures
        n - 2
            <= gray_cell_index(g, gw, gh, sf, true, n, x, y)
                + gray_cell_index(g, gw, gh, sf, false, n, x, y)
            <= n - 1,
{
    let bw = block_extent(gw, sf, x);
    let bh = block_extent(gh, sf, y);
    let cnt = bw * bh;
    let s = gray_block_sum(g, gw, x * sf, y * sf, bw, bh);
    assert(bw > 0 && bh > 0) by (nonlinear_arith)
        requires cnt == bw * bh && cnt > 0 && bw >= 0 && bh >= 0;
    assert(0 <= x * sf && x * sf + bw <= gw) by (nonlinear_arith)
        requires
            bw == block_extent(gw, sf, x),
            bw > 0,
            0 <= x;
    lemma_gray_block_sum_bound(g, gw, x * sf, y * sf, bw, bh);
    assert(255 * (bw * bh) == 255 * cnt);
    assert(255 * cnt > 0) by (nonlinear_arith)
        requires cnt > 0;
    lemma_select_index_symmetry(s, 255 * cnt, n);
}

/// Every grayscale row has exactly `k` glyphs and holds no newline.
pub proof fn lemma_gray_row_shape(
    g: Seq<u8>, gw: int, gh: int, sf: int, invert: bool, alpha: Seq<char>, y: int, k: int,
)
    requires
        alpha.len() >= 2,
        forall|i: int| 0 <= i < alpha.len() ==> alpha[i] != '\n',
        0 <= gw,
        0 <= gh,
        0 <= y,
        0 <= k,
    ensures
        gray_row_chars(g, gw, gh, sf, invert, alpha, y, k).len() == k,
        forall|i: int| 0 <= i < k
            ==> #[trigger] gray_row_chars(g, gw, gh, sf, invert, alpha, y, k)[i] != '\n',
    decreases k,
{
    if k > 0 {
        lemma_gray_row_shape(g, gw, gh, sf, invert, alpha, y, k - 1);
        lemma_gray_cell_index_in_range(g, gw, gh, sf, invert, alpha.len() as int, k - 1, y);
    }
}

/// The character of a newline-terminated glyph grid at row `r` and
/// column `c`; column `width` is the line terminator.
pub open spec fn grid_char(out: Seq<char>, width: int, r: int, c: int) -> char {
    out[r * (width + 1) + c]
}

/// Grayscale output is exactly `height` newline-terminated lines of
/// exactly `width` glyphs each.
pub proof fn lemma_gray_output_shape(
    g: Seq<u8>, gw: int, gh: int, sf: int, invert: bool,
    use_high_density: bool, use_detailed: bool, width: int, height: int,
)
    requires
        0 <= gw,
        0 <= gh,
        0 <= width,
        0 <= height,
    ensures
        gray_output(g, gw, gh, sf, invert, use_high_density, use_detailed, width, height).len()
            == height * (width + 1),
        forall|r: int| 0 <= r < height
            ==> #[trigger] grid_char(
                gray_output(g, gw, gh, sf, invert, use_high_density, use_detailed, width, height),
                width, r, width,
            ) == '\n',
        forall|r: int, c: int| 0 <= r < height && 0 <= c < width
            ==> #[trigger] grid_char(
                gray_output(g, gw, gh, sf, invert, use_high_density, use_detailed, width, height),
                width, r, c,
            ) != '\n',
    decreases height,
{
    let alpha = gray_alpha(use_high_density, use_detailed);
    crate::alphabet::lemma_alphabets_no_newline();
    let out = gray_rows(g, gw, gh, sf, invert, alpha, width, height);
    if height > 0 {
        lemma_gray_output_shape(g, gw, gh, sf, invert, use_high_density, use_detailed, width, height - 1);
        let prev = gray_rows(g, gw, gh, sf, invert, alpha, width, height - 1);
        let row = gray_row_chars(g, gw, gh, sf, invert, alpha, height - 1, width);
        lemma_gray_row_shape(g, gw, gh, sf, invert, alpha, height - 1, width);
        assert((height - 1) * (width + 1) + (width + 1) == height * (width + 1)) by (nonlinear_arith);
        assert(out.len() == height * (width + 1));
        assert forall|r: int| 0 <= r < height implies #[trigger] grid_char(out, width, r, width) == '\n' by {
            if r < height - 1 {
                assert(r * (width + 1) + width < (height - 1) * (width + 1)
                    && 0 <= r * (width + 1)) by (nonlinear_arith)
                    requires 0 <= r && r < height - 1 && 0 <= width;
                assert(grid_char(
                    gray_output(g, gw, gh, sf, invert, use_high_density, use_detailed, width, height - 1),
                    width, r, width,
                ) == '\n');
                assert(out[r * (width + 1) + width] == prev[r * (width + 1) + width]);
            } else {
                assert(r * (width + 1) + width == prev.len() + row.len()) by (nonlinear_arith)
                    requires
                        r == height - 1,
                        prev.len() == (height - 1) * (width + 1),
                        row.len() == width;
            }
        }
        assert forall|r: int, c: int| 0 <= r < height && 0 <= c < width
            implies #[trigger] grid_char(out, width, r, c) != '\n' by {
            if r < height - 1 {
                assert(r * (width + 1) + c < (height - 1) * (width + 1)
                    && 0 <= r * (width + 1)) by (nonlinear_arith)
                    requires 0 <= r && r < height - 1 && 0 <= c < width;
                assert(grid_char(
                    gray_output(g, gw, gh, sf, invert, use_high_density, use_detailed, width, height - 1),
                    width, r, c,
                ) != '\n');
                assert(out[r * (width + 1) + c] == prev[r * (width + 1) + c]);
            } else {
                assert(r * (width + 1) + c == prev.len() + c && c < row.len()) by (nonlinear_arith)
                    requires
                        r == height - 1,
                        prev.len() == (height - 1) * (width + 1),
                        row.len() == width,
                        0 <= c < width;
                assert(out[prev.len() + c] == row[c]);
            }
        }
    }
}

/// Renders a luminance buffer as a grid of glyphs, one row per output
/// line, row-major, each row terminated by a newline.
pub fn render_gray(
    buf: &GrayBuffer, width: u32, height: u32, sf: u32, invert: bool,
    use_high_density: bool, use_detailed: bool,
) -> (s: String)
    requires
        buf.wf(),
    ensures
        s@ == gray_output(
            buf.data@, buf.width as int, buf.height as int, sf as int, invert,
            use_high_density, use_detailed, width as int, height as int,
        ),
{
    let ghost alpha_s = gray_alpha(use_high_density, use_detailed);
    let alpha: Vec<char> = gray_alphabet(use_high_density, use_detailed);
    let n: usize = alpha.len();
    let gw: u32 = buf.width;
    let gh: u32 = buf.height;
    let mut out: String = String::new();
    let mut y: u32 = 0;
    while y < height
        invariant
            y <= height,
            buf.wf(),
            gw == buf.width,
            gh == buf.height,
            alpha@ == alpha_s,
            alpha_s == gray_alpha(use_high_density, use_detailed),
            n == alpha@.len(),
            2 <= n <= 70,
            out@ == gray_rows(
                buf.data@, gw as int, gh as int, sf as int, invert, alpha_s,
                width as int, y as int,
            ),
        decreases height - y,
    {
        let mut x: u32 = 0;
        while x < width
            invariant
                x <= width,
                y < height,
                buf.wf(),
                gw == buf.width,
                gh == buf.height,
                alpha@ == alpha_s,
                alpha_s == gray_alpha(use_high_density, use_detailed),
                n == alpha@.len(),
                2 <= n <= 70,
                out@ == gray_rows(
                    buf.data@, gw as int, gh as int, sf as int, invert, alpha_s,
                    width as int, y as int,
                ) + gray_row_chars(
                    buf.data@, gw as int, gh as int, sf as int, invert, alpha_s,
                    y as int, x as int,
                ),
            decreases width - x,
        {
            let idx = gray_cell_index_exec(buf, sf, invert, n, x, y);
            let glyph = alpha[idx];
            push_char(&mut out, glyph);
            proof {
                assert(out@ =~= gray_rows(
                    buf.data@, gw as int, gh as int, sf as int, invert, alpha_s,
                    width as int, y as int,
                ) + gray_row_chars(
                    buf.data@, gw as int, gh as int, sf as int, invert, alpha_s,
                    y as int, x as int + 1,
                ));
            }
            x = x + 1;
        }
        push_char(&mut out, '\n');
        proof {
            assert(out@ =~= gray_rows(
                buf.data@, gw as int, gh as int, sf as int, invert, alpha_s,
                width as int, y as int + 1,
            ));
        }
        y = y + 1;
    }
    out
}

/// The executable grayscale cell selection: aggregates one pixel block
/// and selects the glyph index for its mean brightness.
fn gray_cell_index_exec(buf: &GrayBuffer, sf: u32, invert: bool, n: usize, x: u32, y: u32) -> (i: usize)
    requires
        buf.wf(),
        2 <= n <= 1000,
    ensures
        i as int == gray_cell_index(
            buf.data@, buf.width as int, buf.height as int, sf as int, invert, n as int,
            x as int, y as int,
        ),
        i < n,
{
    let gw: u32 = buf.width;
    let gh: u32 = buf.height;
    let bw: u32 = block_extent_exec(gw, sf, x);
    let bh: u32 = block_extent_exec(gh, sf, y);
    proof {
        assert((bw as int) * (bh as int) < 0x1_0000_0000_0000_0000
            && (bw as int) * (bh as int) >= 0) by (nonlinear_arith)
            requires
                0 <= (bw as int) < 0x1_0000_0000,
                0 <= (bh as int) < 0x1_0000_0000;
    }
    let cnt: u64 = (bw as u64) * (bh as u64);
    let ghost gws = buf.data@;
    let ghost cnt_i = (bw as int) * (bh as int);
    let ghost s_spec = gray_block_sum(
        gws, gw as int, x as int * sf as int, y as int * sf as int, bw as int, bh as int,
    );
    if cnt == 0 {
        proof {
            lemma_select_index_in_range(0, 0, n as int);
        }
        return select_glyph_index(0, 0, n);
    }
    proof {
        assert(bw > 0 && bh > 0) by (nonlinear_arith)
            requires cnt_i == (bw as int) * (bh as int) && cnt_i > 0 && bw >= 0 && bh >= 0;
        assert((x as int) * (sf as int) >= 0 && (x as int) * (sf as int) < 0x1_0000_0000_0000_0000
            && (y as int) * (sf as int) >= 0 && (y as int) * (sf as int) < 0x1_0000_0000_0000_0000) by (nonlinear_arith)
            requires
                0 <= (x as int) < 0x1_0000_0000,
                0 <= (y as int) < 0x1_0000_0000,
                0 <= (sf as int) < 0x1_0000_0000;
        assert((x as int) * (sf as int) + bw <= gw) by (nonlinear_arith)
            requires
                bw == block_extent(gw as int, sf as int, x as int),
                bw > 0;
        assert((y as int) * (sf as int) + bh <= gh) by (nonlinear_arith)
            requires
                bh == block_extent(gh as int, sf as int, y as int),
                bh > 0;
        assert(((y as int) * (sf as int) + bh) * (gw as int) <= (gh as int) * (gw as int)) by (nonlinear_arith)
            requires (y as int) * (sf as int) + bh <= gh && 0 <= gw;
        assert((gh as int) * (gw as int) == (gw as int) * (gh as int)) by (nonlinear_arith);
    }
    let x0: u64 = (x as u64) * (sf as u64);
    let y0: u64 = (y as u64) * (sf as u64);
    let s: u128 = gray_block_sum_exec(&buf.data, gw, x0, y0, bw, bh);
    proof {
        assert(255 * ((bw as int) * (bh as int)) == 255 * (bw as int) * (bh as int)) by (nonlinear_arith);
        lemma_gray_block_sum_bound(gws, gw as int, x0 as int, y0 as int, bw as int, bh as int);
    }
    let den: u128 = 255 * (cnt as u128);
    let num: u128 = if invert { den - s } else { s };
    select_glyph_index(num, den, n)
}

/// The blend of one averaged color channel with neutral gray by the
/// saturation weight, scaled to an 8-bit channel: the floor of
/// `(avg * sat + (1 - sat) / 2) * 255` clamped to `[0, 255]`, where
/// `avg` is `s / (255 * cnt)` and `sat` is in thousandths.
pub open spec fn blend_channel(s: int, cnt: int, sat: int) -> int {
    if cnt <= 0 {
        0
    } else {
        let raw = 2 * s * sat + 255 * cnt * (1000 - sat);
        if raw < 0 {
            0
        } else if raw / (2000 * cnt) > 255 {
            255
        } else {
            raw / (2000 * cnt)
        }
    }
}

/// The executable channel blend.
pub fn blend_channel_exec(s: u128, cnt: u64, sat: u32) -> (r: u8)
    requires
        cnt > 0,
        s as int <= 255 * (cnt as int),
    ensures
        r as int == blend_channel(s as int, cnt as int, sat as int),
{
    proof {
        assert(0 <= 2 * (s as int) * (sat as int) < 0x1000_0000_0000_0000_0000_0000_0000_0000) by (nonlinear_arith)
            requires
                0 <= (s as int) <= 255 * (cnt as int),
                (cnt as int) < 0x1_0000_0000_0000_0000,
                0 <= (sat as int) < 0x1_0000_0000;
        assert(-0x1000_0000_0000_0000_0000_0000_0000 <= 255 * (cnt as int) * (1000 - sat as int)
            <= 0x1000_0000_0000_0000_0000_0000_0000) by (nonlinear_arith)
            requires
                0 < (cnt as int) < 0x1_0000_0000_0000_0000,
                0 <= (sat as int) < 0x1_0000_0000;
    }
    let a: i128 = 2 * (s as i128) * (sat as i128);
    let b: i128 = 255 * (cnt as i128) * (1000 - sat as i128);
    let raw: i128 = a + b;
    if raw < 0 {
        0
    } else {
        let q: u128 = (raw as u128) / (2000 * (cnt as u128));
        if q > 255 {
            255
        } else {
            q as u8
        }
    }
}

/// The HTML document head of colored output.
pub open spec fn html_header() -> Seq<char> {
    "<!DOCTYPE html>\n<html>\n<head>\n<style>\nbody { background-color: #000; margin: 0; padding: 10px; }\npre { font-family: monospace; font-size: 10px; line-height: 0.9; }\n</style>\n</head>\n<body>\n<pre>\n"@
}

/// The HTML document tail of colored output.
pub open spec fn html_footer() -> Seq<char> {
    "</pre>\n</body>\n</html>"@
}

/// One colored glyph: an inline-styled span around the glyph.
pub open spec fn span_chars(r: int, g: int, b: int, glyph: char) -> Seq<char> {
    "<span style=\"color:rgb("@ + dec_u8(r) + ","@ + dec_u8(g) + ","@ + dec_u8(b) + ")\">"@
        + seq![glyph] + "</span>"@
}

/// The colored rendering of one cell: one styled span. A block that
/// covers no pixel defaults to all-zero aggregates — the darkest
/// brightness and the pure neutral-gray blend — instead of failing or
/// emitting nothing.
pub open spec fn color_cell_chars(
    d: Seq<u8>, gw: int, gh: int, sf: int, invert: bool, sat: int,
    use_detailed: bool, use_high_density: bool, x: int, y: int,
) -> Seq<char> {
    let bw = block_extent(gw, sf, x);
    let bh = block_extent(gh, sf, y);
    let cnt = if bw * bh > 0 { bw * bh } else { 1 };
    let covered = bw * bh > 0;
    let sr = if covered { rgba_block_sum(d, gw, x * sf, y * sf, bw, bh, 0) } else { 0 };
    let sg = if covered { rgba_block_sum(d, gw, x * sf, y * sf, bw, bh, 1) } else { 0 };
    let sb = if covered { rgba_block_sum(d, gw, x * sf, y * sf, bw, bh, 2) } else { 0 };
    let l = 30 * sr + 59 * sg + 11 * sb;
    let num = if invert { 25500 * cnt - l } else { l };
    let alpha = color_alpha(use_detailed, use_high_density);
    let idx = select_index(num, 25500 * cnt, alpha.len() as int);
    span_chars(
        blend_channel(sr, cnt, sat), blend_channel(sg, cnt, sat), blend_channel(sb, cnt, sat),
        alpha[idx],
    )
}

/// The first `k` cells of colored output row `y`.
pub open spec fn color_row_chars(
    d: Seq<u8>, gw: int, gh: int, sf: int, invert: bool, sat: int,
    use_detailed: bool, use_high_density: bool, y: int, k: int,
) -> Seq<char>
    decreases k,
{
    if k <= 0 {
        Seq::empty()
    } else {
        color_row_chars(d, gw, gh, sf, invert, sat, use_detailed, use_high_density, y, k - 1)
            + color_cell_chars(d, gw, gh, sf, invert, sat, use_detailed, use_high_density, k - 1, y)
    }
}

/// The first `k` rows of colored output, each closed by a line break.
pub open spec fn color_rows(
    d: Seq<u8>, gw: int, gh: int, sf: int, invert: bool, sat: int,
    use_detailed: bool, use_high_density: bool, width: int, k: int,
) -> Seq<char>
    decreases k,
{
    if k <= 0 {
        Seq::empty()
    } else {
        color_rows(d, gw, gh, sf, invert, sat, use_detailed, use_high_density, width, k - 1)
            + color_row_chars(d, gw, gh, sf, invert, sat, use_detailed, use_high_density, k - 1, width)
            + "<br/>\n"@
    }
}

/// The whole colored output: a minimal HTML document around the grid.
pub open spec fn color_output(
    d: Seq<u8>, gw: int, gh: int, sf: int, invert: bool, sat: int,
    use_detailed: bool, use_high_density: bool, width: int, height: int,
) -> Seq<char> {
    html_header()
        + color_rows(d, gw, gh, sf, invert, sat, use_detailed, use_high_density, width, height)
        + html_footer()
}

/// Appends one styled span.
fn push_span(out: &mut String, r: u8, g: u8, b: u8, glyph: char)
    ensures
        final(out)@ == old(out)@ + span_chars(r as int, g as int, b as int, glyph),
{
    out.append("<span style=\"color:rgb(");
    push_dec_u8(out, r);
    out.append(",");
    push_dec_u8(out, g);
    out.append(",");
    push_dec_u8(out, b);
    out.append(")\">");
    push_char(out, glyph);
    out.append("</span>");
    proof {
        assert(final(out)@ =~= old(out)@ + span_chars(r as int, g as int, b as int, glyph));
    }
}

/// The colored rendering of one cell, appended to the output.
fn push_color_cell(
    out: &mut String, buf: &RgbaBuffer, sf: u32, invert: bool, sat: u32,
    use_detailed: bool, use_high_density: bool, x: u32, y: u32,
)
    requires
        buf.wf(),
    ensures
        final(out)@ == old(out)@ + color_cell_chars(
            buf.data@, buf.width as int, buf.height as int, sf as int, invert, sat as int,
            use_detailed, use_high_density, x as int, y as int,
        ),
{
    let gw: u32 = buf.width;
    let gh: u32 = buf.height;
    let bw: u32 = block_extent_exec(gw, sf, x);
    let bh: u32 = block_extent_exec(gh, sf, y);
    proof {
        assert((bw as int) * (bh as int) < 0x1_0000_0000_0000_0000
            && (bw as int) * (bh as int) >= 0) by (nonlinear_arith)
            requires
                0 <= (bw as int) < 0x1_0000_0000,
                0 <= (bh as int) < 0x1_0000_0000;
    }
    let raw_cnt: u64 = (bw as u64) * (bh as u64);
    let ghost ds = buf.data@;
    let ghost cnt_i = (bw as int) * (bh as int);
    let mut sr: u128 = 0;
    let mut sg: u128 = 0;
    let mut sb: u128 = 0;
    let mut cnt: u64 = 1;
    if raw_cnt > 0 {
        proof {
            assert(bw > 0 && bh > 0) by (nonlinear_arith)
                requires cnt_i == (bw as int) * (bh as int) && cnt_i > 0 && bw >= 0 && bh >= 0;
            assert((x as int) * (sf as int) >= 0 && (x as int) * (sf as int) < 0x1_0000_0000_0000_0000
                && (y as int) * (sf as int) >= 0 && (y as int) * (sf as int) < 0x1_0000_0000_0000_0000) by (nonlinear_arith)
                requires
                    0 <= (x as int) < 0x1_0000_0000,
                    0 <= (y as int) < 0x1_0000_0000,
                    0 <= (sf as int) < 0x1_0000_0000;
            assert((x as int) * (sf as int) + bw <= gw) by (nonlinear_arith)
                requires
                    bw == block_extent(gw as int, sf as int, x as int),
                    bw > 0;
            assert((y as int) * (sf as int) + bh <= gh) by (nonlinear_arith)
                requires
                    bh == block_extent(gh as int, sf as int, y as int),
                    bh > 0;
            assert(((y as int) * (sf as int) + bh) * (gw as int) <= (gh as int) * (gw as int)) by (nonlinear_arith)
                requires (y as int) * (sf as int) + bh <= gh && 0 <= gw;
            assert(4 * ((gh as int) * (gw as int)) == 4 * (gw as int) * (gh as int)) by (nonlinear_arith);
        }
        let x0: u64 = (x as u64) * (sf as u64);
        let y0: u64 = (y as u64) * (sf as u64);
        let sums = rgba_block_sums_exec(&buf.data, gw, x0, y0, bw, bh);
        proof {
            assert(255 * ((bw as int) * (bh as int)) == 255 * (bw as int) * (bh as int)) by (nonlinear_arith);
        }
        sr = sums.0;
        sg = sums.1;
        sb = sums.2;
        cnt = raw_cnt;
    }
    proof {
        assert(sr as int <= 255 * (cnt as int)
            && sg as int <= 255 * (cnt as int)
            && sb as int <= 255 * (cnt as int));
    }
    let l: u128 = 30 * sr + 59 * sg + 11 * sb;
    let den: u128 = 25500 * (cnt as u128);
    let num: u128 = if invert { den - l } else { l };
    let alpha: Vec<char> = color_alphabet(use_detailed, use_high_density);
    let idx = select_glyph_index(num, den, alpha.len());
    let r = blend_channel_exec(sr, cnt, sat);
    let g = blend_channel_exec(sg, cnt, sat);
    let b = blend_channel_exec(sb, cnt, sat);
    push_span(out, r, g, b, alpha[idx]);
}

/// Renders an RGBA buffer as a colored HTML document: one styled span
/// per covered cell, a line break per row.
pub fn render_color(
    buf: &RgbaBuffer, width: u32, height: u32, sf: u32, invert: bool, sat: u32,
    use_detailed: bool, use_high_density: bool,
) -> (s: String)
    requires
        buf.wf(),
    ensures
        s@ == color_output(
            buf.data@, buf.width as int, buf.height as int, sf as int, invert, sat as int,
            use_detailed, use_high_density, width as int, height as int,
        ),
{
    let mut out: String = String::new();
    out.append("<!DOCTYPE html>\n<html>\n<head>\n<style>\nbody { background-color: #000; margin: 0; padding: 10px; }\npre { font-family: monospace; font-size: 10px; line-height: 0.9; }\n</style>\n</head>\n<body>\n<pre>\n");
    let ghost ds = buf.data@;
    let gw: u32 = buf.width;
    let gh: u32 = buf.height;
    let mut y: u32 = 0;
    while y < height
        invariant
            y <= height,
            buf.wf(),
            gw == buf.width,
            gh == buf.height,
            ds == buf.data@,
            out@ == html_header() + color_rows(
                ds, gw as int, gh as int, sf as int, invert, sat as int,
                use_detailed, use_high_density, width as int, y as int,
            ),
        decreases height - y,
    {
        let mut x: u32 = 0;
        while x < width
            invariant
                x <= width,
                y < height,
                buf.wf(),
                gw == buf.width,
                gh == buf.height,
                ds == buf.data@,
                out@ == html_header() + color_rows(
                    ds, gw as int, gh as int, sf as int, invert, sat as int,
                    use_detailed, use_high_density, width as int, y as int,
                ) + color_row_chars(
                    ds, gw as int, gh as int, sf as int, invert, sat as int,
                    use_detailed, use_high_density, y as int, x as int,
                ),
            decreases width - x,
        {
            push_color_cell(&mut out, buf, sf, invert, sat, use_detailed, use_high_density, x, y);
            proof {
                assert(out@ =~= html_header() + color_rows(
                    ds, gw as int, gh as int, sf as int, invert, sat as int,
                    use_detailed, use_high_density, width as int, y as int,
                ) + color_row_chars(
                    ds, gw as int, gh as int, sf as int, invert, sat as int,
                    use_detailed, use_high_density, y as int, x as int + 1,
                ));
            }
            x = x + 1;
        }
        out.append("<br/>\n");
        proof {
            assert(out@ =~= html_header() + color_rows(
                ds, gw as int, gh as int, sf as int, invert, sat as int,
                use_detailed, use_high_density, width as int, y as int + 1,
            ));
        }
        y = y + 1;
    }
    out.append("</pre>\n</body>\n</html>");
    proof {
        assert(out@ =~= color_output(
            ds, gw as int, gh as int, sf as int, invert, sat as int,
            use_detailed, use_high_density, width as int, height as int,
        ));
    }
    out
}

} // verus!
