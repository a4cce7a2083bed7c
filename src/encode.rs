//! Encoding pairs of raster rows as truecolor terminal cells.
use vstd::prelude::*;
use crate::decimal::{decimal, to_num};
use crate::raster::{Raster, RasterModel};

verus! {

/// Alpha at or above which a pixel is drawn: half of 255, rounded up.
pub const THRESHOLD: u8 = 128;

/// Whether the pixel `p` (red, green, blue, alpha) is drawn.
pub open spec fn visible(p: Seq<u8>) -> bool {
    p[3] >= THRESHOLD
}

/// `ESC[48;2;`, which starts a background color.
pub open spec fn bg_prefix() -> Seq<u8> {
    seq![27u8, 91, 52, 56, 59, 50, 59]
}

/// `ESC[38;2;`, which starts a foreground color.
pub open spec fn fg_prefix() -> Seq<u8> {
    seq![27u8, 91, 51, 56, 59, 50, 59]
}

/// `ESC[39;49m`, which resets the foreground and background colors.
pub open spec fn reset_seq() -> Seq<u8> {
    seq![27u8, 91, 51, 57, 59, 52, 57, 109]
}

/// UTF-8 of the glyph drawn with the upper pixel's color over the lower's.
pub open spec fn full_glyph() -> Seq<u8> {
    seq![0xF0u8, 0x9F, 0xAE, 0x84]
}

/// UTF-8 of the glyph whose ink fills the lower part of the cell.
pub open spec fn lower_glyph() -> Seq<u8> {
    seq![0xF0u8, 0x9F, 0xAC, 0xAD]
}

/// A space, drawn where neither pixel is visible.
pub open spec fn blank_glyph() -> Seq<u8> {
    seq![32u8]
}

/// The escape that sets the color `r;g;b` after `prefix`.
pub open spec fn color_seq(prefix: Seq<u8>, r: u8, g: u8, b: u8) -> Seq<u8> {
    prefix + decimal(r) + seq![59u8] + decimal(g) + seq![59u8] + decimal(b) + seq![109u8]
}

/// The bytes of the cell showing pixel `upper` above pixel `lower`.
pub open spec fn cell(upper: Seq<u8>, lower: Seq<u8>) -> Seq<u8> {
    if visible(upper) && visible(lower) {
        color_seq(bg_prefix(), lower[0], lower[1], lower[2]) + color_seq(
            fg_prefix(),
            upper[0],
            upper[1],
            upper[2],
        ) + full_glyph() + reset_seq()
    } else if visible(upper) {
        color_seq(fg_prefix(), upper[0], upper[1], upper[2]) + full_glyph() + reset_seq()
    } else if visible(lower) {
        color_seq(fg_prefix(), lower[0], lower[1], lower[2]) + lower_glyph() + reset_seq()
    } else {
        blank_glyph()
    }
}

/// The cells of the first `n` columns of row pair `k` (rows `2k` and `2k + 1`).
pub open spec fn row_cells(r: RasterModel, k: int, n: int) -> Seq<u8>
    decreases n,
{
    if n <= 0 {
        Seq::empty()
    } else {
        row_cells(r, k, n - 1) + cell(r.pixel(n - 1, 2 * k), r.pixel(n - 1, 2 * k + 1))
    }
}

/// The line for row pair `k`: its cells, then a newline.
pub open spec fn line(r: RasterModel, k: int) -> Seq<u8> {
    row_cells(r, k, r.width as int) + seq![10u8]
}

/// The lines of the first `n` row pairs.
pub open spec fn lines(r: RasterModel, n: int) -> Seq<u8>
    decreases n,
{
    if n <= 0 {
        Seq::empty()
    } else {
        lines(r, n - 1) + line(r, n - 1)
    }
}

/// The whole encoding: one line for each complete pair of rows.
pub open spec fn encoded(r: RasterModel) -> Seq<u8> {
    lines(r, (r.height / 2) as int)
}

/// Appends `bytes` to `out`.
fn push_bytes(out: &mut Vec<u8>, bytes: &[u8])
    ensures
        final(out)@ == old(out)@ + bytes@,
{
    let ghost start = out@;
    let mut i: usize = 0;
    while i < bytes.len()
        invariant
            i <= bytes@.len(),
            out@ == start + bytes@.subrange(0, i as int),
        decreases bytes@.len() - i,
    {
        out.push(bytes[i]);
        i = i + 1;
        assert(out@ =~= start + bytes@.subrange(0, i as int));
    }
    assert(bytes@.subrange(0, i as int) =~= bytes@);
}

/// Appends the escape setting the background (or else the foreground) color.
fn push_color(out: &mut Vec<u8>, background: bool, r: u8, g: u8, b: u8)
    ensures
        final(out)@ == old(out)@ + color_seq(
            if background {
                bg_prefix()
            } else {
                fg_prefix()
            },
            r,
            g,
            b,
        ),
{
    let ghost start = out@;
    if background {
        push_bytes(out, &[27u8, 91, 52, 56, 59, 50, 59]);
    } else {
        push_bytes(out, &[27u8, 91, 51, 56, 59, 50, 59]);
    }
    to_num(r, out);
    out.push(59u8);
    to_num(g, out);
    out.push(59u8);
    to_num(b, out);
    out.push(109u8);
    assert(out@ =~= start + color_seq(
        if background {
            bg_prefix()
        } else {
            fg_prefix()
        },
        r,
        g,
        b,
    ));
}

/// Appends the cell showing pixel `upper` above pixel `lower`, each given as
/// red, green, blue and alpha.
pub fn encode_cell(upper: [u8; 4], lower: [u8; 4], out: &mut Vec<u8>)
    ensures
        final(out)@ == old(out)@ + cell(upper@, lower@),
{
    let ghost start = out@;
    let upper_visible = upper[3] >= THRESHOLD;
    let lower_visible = lower[3] >= THRESHOLD;
    if upper_visible && lower_visible {
        push_color(out, true, lower[0], lower[1], lower[2]);
        push_color(out, false, upper[0], upper[1], upper[2]);
        push_bytes(out, &[0xF0u8, 0x9F, 0xAE, 0x84]);
        push_bytes(out, &[27u8, 91, 51, 57, 59, 52, 57, 109]);
    } else if upper_visible {
        push_color(out, false, upper[0], upper[1], upper[2]);
        push_bytes(out, &[0xF0u8, 0x9F, 0xAE, 0x84]);
        push_bytes(out, &[27u8, 91, 51, 57, 59, 52, 57, 109]);
    } else if lower_visible {
        push_color(out, false, lower[0], lower[1], lower[2]);
        push_bytes(out, &[0xF0u8, 0x9F, 0xAC, 0xAD]);
        push_bytes(out, &[27u8, 91, 51, 57, 59, 52, 57, 109]);
    } else {
        out.push(32u8);
    }
    assert(out@ =~= start + cell(upper@, lower@));
}

/// Appends the line for row pair `k`: one cell for each column, pairing
/// row `2k` above row `2k + 1`, then a newline.
pub fn encode_row_pair(r: &Raster, k: u32, out: &mut Vec<u8>)
    requires
        r.wf(),
        2 * k + 1 < r.height,
    ensures
        final(out)@ == old(out)@ + line(r@, k as int),
{
    let ghost start = out@;
    let len: usize = r.data.len();
    let w: usize = r.width as usize;
    let ghost h = r.height as int;
    assert(len == h * w * 4) by (nonlinear_arith)
        requires len == r.width * r.height * 4, w == r.width, h == r.height;
    assert((2 * k as int + 2) * w * 4 <= h * w * 4) by (nonlinear_arith)
        requires 2 * k as int + 2 <= h, w >= 0;
    assert(4 * ((2 * k as int) * w) + 4 * w == (2 * k as int + 1) * w * 4) by (nonlinear_arith);
    assert(4 * ((2 * k as int + 1) * w) + 4 * w == (2 * k as int + 2) * w * 4) by (nonlinear_arith);
    assert(4 * ((2 * k as int) * w) <= (2 * k as int + 2) * w * 4) by (nonlinear_arith)
        requires w >= 0;
    let top: usize = 4 * ((2 * k as usize) * w);
    let bottom: usize = top + 4 * w;
    let mut x: usize = 0;
    while x < w
        invariant
            r.wf(),
            w == r.width,
            len == r.data@.len(),
            len == h * w * 4,
            top + 4 * w == bottom,
            0 <= 2 * k + 1 < h,
            top == 4 * ((2 * k as int) * w),
            bottom == 4 * ((2 * k as int + 1) * w),
            bottom + 4 * w <= len,
            x <= w,
            out@ == start + row_cells(r@, k as int, x as int),
        decreases w - x,
    {
        let i: usize = top + 4 * x;
        let j: usize = bottom + 4 * x;
        let upper: [u8; 4] = [r.data[i], r.data[i + 1], r.data[i + 2], r.data[i + 3]];
        let lower: [u8; 4] = [r.data[j], r.data[j + 1], r.data[j + 2], r.data[j + 3]];
        assert(r@.offset(x as int, 2 * k as int) == i) by (nonlinear_arith)
            requires i == top + 4 * x, top == 4 * ((2 * k as int) * w), r.width == w;
        assert(r@.offset(x as int, 2 * k as int + 1) == j) by (nonlinear_arith)
            requires j == bottom + 4 * x, bottom == 4 * ((2 * k as int + 1) * w), r.width == w;
        assert(upper@ =~= r@.pixel(x as int, 2 * k as int));
        assert(lower@ =~= r@.pixel(x as int, 2 * k as int + 1));
        encode_cell(upper, lower, out);
        x = x + 1;
    }
    out.push(10u8);
    assert(out@ =~= start + line(r@, k as int));
}

/// Appends the encoding of the raster: one line for each complete pair of
/// rows; a last unpaired row is left out.
pub fn encode(r: &Raster, out: &mut Vec<u8>)
    requires
        r.wf(),
    ensures
        final(out)@ == old(out)@ + encoded(r@),
{
    let ghost start = out@;
    let pairs: u32 = r.height / 2;
    let mut k: u32 = 0;
    while k < pairs
        invariant
            r.wf(),
            pairs == r.height / 2,
            k <= pairs,
            out@ == start + lines(r@, k as int),
        decreases pairs - k,
    {
        encode_row_pair(r, k, out);
        k = k + 1;
        assert(out@ =~= start + lines(r@, k as int));
    }
}

/// The bytes of the raster that the complete row pairs cover.
pub open spec fn paired_len(r: RasterModel) -> int {
    (r.height / 2) as int * 2 * r.width * 4
}

proof fn lemma_row_cells_agree(a: RasterModel, b: RasterModel, k: int, n: int)
    requires
        a.wf(),
        b.wf(),
        a.width == b.width,
        a.height == b.height,
        0 <= k,
        2 * k + 1 < a.height,
        n <= a.width,
        a.data.subrange(0, 4 * ((2 * k + 2) * a.width)) == b.data.subrange(
            0,
            4 * ((2 * k + 2) * a.width),
        ),
    ensures
        row_cells(a, k, n) == row_cells(b, k, n),
    decreases n,
{
    if n > 0 {
        lemma_row_cells_agree(a, b, k, n - 1);
        let w = a.width as int;
        let end = 4 * ((2 * k + 2) * w);
        let x = n - 1;
        assert(a.offset(x, 2 * k) + 4 <= end && a.offset(x, 2 * k + 1) + 4 <= end
            && 0 <= a.offset(x, 2 * k)) by (nonlinear_arith)
            requires 0 <= x < w, 0 <= k, a.width == w, end == 4 * ((2 * k + 2) * w);
        assert(end <= a.data.len()) by (nonlinear_arith)
            requires 2 * k + 2 <= a.height, a.data.len() == a.width * a.height * 4,
                end == 4 * ((2 * k + 2) * w), a.width == w, w >= 0;
        let pa = a.data.subrange(0, end);
        let pb = b.data.subrange(0, end);
        assert(a.pixel(x, 2 * k) =~= pa.subrange(a.offset(x, 2 * k), a.offset(x, 2 * k) + 4));
        assert(b.pixel(x, 2 * k) =~= pb.subrange(a.offset(x, 2 * k), a.offset(x, 2 * k) + 4));
        assert(a.pixel(x, 2 * k + 1) =~= pa.subrange(
            a.offset(x, 2 * k + 1),
            a.offset(x, 2 * k + 1) + 4,
        ));
        assert(b.pixel(x, 2 * k + 1) =~= pb.subrange(
            a.offset(x, 2 * k + 1),
            a.offset(x, 2 * k + 1) + 4,
        ));
    }
}

proof fn lemma_lines_agree(a: RasterModel, b: RasterModel, m: int)
    requires
        a.wf(),
        b.wf(),
        a.width == b.width,
        a.height == b.height,
        0 <= m <= a.height / 2,
        a.data.subrange(0, paired_len(a)) == b.data.subrange(0, paired_len(a)),
    ensures
        lines(a, m) == lines(b, m),
    decreases m,
{
    if m > 0 {
        lemma_lines_agree(a, b, m - 1);
        let k = m - 1;
        let w = a.width as int;
        let end = 4 * ((2 * k + 2) * w);
        assert(end <= paired_len(a)) by (nonlinear_arith)
            requires 2 * k + 2 <= (a.height / 2) as int * 2, w >= 0, a.width == w,
                end == 4 * ((2 * k + 2) * w), paired_len(a) == (a.height / 2) as int * 2 * a.width * 4;
        assert(paired_len(a) <= a.data.len()) by (nonlinear_arith)
            requires (a.height / 2) as int * 2 <= a.height, w >= 0, a.width == w,
                paired_len(a) == (a.height / 2) as int * 2 * a.width * 4,
                a.data.len() == a.width * a.height * 4;
        assert(a.data.subrange(0, end) =~= a.data.subrange(0, paired_len(a)).subrange(0, end));
        assert(b.data.subrange(0, end) =~= b.data.subrange(0, paired_len(a)).subrange(0, end));
        lemma_row_cells_agree(a, b, k, w);
    }
}

/// The encoding reads only the rows of complete pairs: two rasters of the
/// same size whose bytes agree on those rows encode alike, whatever a last
/// unpaired row holds.
pub proof fn lemma_unpaired_row_unread(a: RasterModel, b: RasterModel)
    requires
        a.wf(),
        b.wf(),
        a.width == b.width,
        a.height == b.height,
        a.data.subrange(0, paired_len(a)) == b.data.subrange(0, paired_len(a)),
    ensures
        encoded(a) == encoded(b),
{
    lemma_lines_agree(a, b, (a.height / 2) as int);
}

} // verus!
