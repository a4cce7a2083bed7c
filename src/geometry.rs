//! Fitting an image into a grid of terminal cells.
use vstd::prelude::*;

verus! {

/// Cells on each side of the grid assumed when the terminal size is unknown.
pub const FALLBACK_CELLS: u16 = 50;

/// Multiplier of one, in millionths.
pub const UNIT_STRETCH: u32 = 1_000_000;

/// Smallest horizontal stretch applied, in millionths.
pub const MIN_STRETCH: u32 = 100_000;

/// Largest horizontal stretch applied, in millionths.
pub const MAX_STRETCH: u32 = 50_000_000;

/// The grid used for a probed terminal size: the probe when it gave a
/// non-degenerate size, else the fallback square.
pub open spec fn grid_of(probed: Option<(u16, u16)>) -> (u16, u16) {
    match probed {
        Some((cols, rows)) => if cols > 0 && rows > 0 {
            (cols, rows)
        } else {
            (FALLBACK_CELLS, FALLBACK_CELLS)
        },
        None => (FALLBACK_CELLS, FALLBACK_CELLS),
    }
}

/// Columns of the grid: the override if any, else the terminal's, at least one.
pub open spec fn effective_cols(term_cols: u16, width_override: Option<u16>) -> int {
    let x = match width_override {
        Some(w) => w as int,
        None => term_cols as int,
    };
    if x < 1 {
        1
    } else {
        x
    }
}

/// Rows of the grid: the override if any, else the terminal's less the
/// offset, at least one.
pub open spec fn effective_rows(term_rows: u16, height_override: Option<u16>, offset: u8) -> int {
    let y = match height_override {
        Some(h) => h as int,
        None => term_rows - offset,
    };
    if y < 1 {
        1
    } else {
        y
    }
}

/// Raster width and cell rows that fit an `img_w` by `img_h` image into `x`
/// by `y` cells. When the grid is narrower than the image (x/y < img_w/img_h)
/// the width fills the grid, else the height does; the width counts two
/// raster columns per cell column.
pub open spec fn fitted(img_w: int, img_h: int, x: int, y: int) -> (int, int) {
    if x * img_h < img_w * y {
        (2 * x, (x * img_h) / img_w)
    } else {
        (2 * ((img_w * y) / img_h), y)
    }
}

/// Whether a stretch in millionths lies in the accepted range.
pub open spec fn stretch_in_range(stretch_micro: u32) -> bool {
    MIN_STRETCH <= stretch_micro <= MAX_STRETCH
}

/// `width` times the stretch, rounded half up; an out-of-range stretch is
/// ignored.
pub open spec fn stretched(width: int, stretch_micro: u32) -> int {
    if stretch_in_range(stretch_micro) {
        (width * stretch_micro + 500_000) / 1_000_000
    } else {
        width
    }
}

/// Raster width and cell rows for the given image, terminal and settings.
pub open spec fn resolved(
    img_w: u32,
    img_h: u32,
    term_cols: u16,
    term_rows: u16,
    width_override: Option<u16>,
    height_override: Option<u16>,
    height_offset: u8,
    stretch_micro: u32,
) -> (int, int) {
    let x = effective_cols(term_cols, width_override);
    let y = effective_rows(term_rows, height_override, height_offset);
    let f = fitted(img_w as int, img_h as int, x, y);
    (stretched(f.0, stretch_micro), f.1)
}

/// The terminal grid to draw in, from what probing the terminal gave.
pub fn terminal_grid(probed: Option<(u16, u16)>) -> (r: (u16, u16))
    ensures
        r == grid_of(probed),
{
    match probed {
        Some((cols, rows)) => if cols > 0 && rows > 0 {
            (cols, rows)
        } else {
            (FALLBACK_CELLS, FALLBACK_CELLS)
        },
        None => (FALLBACK_CELLS, FALLBACK_CELLS),
    }
}

/// Computes the raster width and the number of cell rows for an `img_w` by
/// `img_h` image; the raster is resampled to twice that many pixel rows.
/// `stretch_micro` is the horizontal stretch in millionths.
pub fn resolve(
    img_w: u32,
    img_h: u32,
    term_cols: u16,
    term_rows: u16,
    width_override: Option<u16>,
    height_override: Option<u16>,
    height_offset: u8,
    stretch_micro: u32,
) -> (r: (u32, u32))
    requires
        img_w > 0,
        img_h > 0,
    ensures
        (r.0 as int, r.1 as int) == resolved(
            img_w,
            img_h,
            term_cols,
            term_rows,
            width_override,
            height_override,
            height_offset,
            stretch_micro,
        ),
        r.1 <= u16::MAX,
{
    let x: u64 = match width_override {
        Some(w) => w as u64,
        None => term_cols as u64,
    };
    let x: u64 = if x < 1 { 1 } else { x };
    let y: u64 = match height_override {
        Some(h) => h as u64,
        None => if term_rows > height_offset as u16 { (term_rows - height_offset as u16) as u64 } else { 0 },
    };
    let y: u64 = if y < 1 { 1 } else { y };
    let w: u64 = img_w as u64;
    let h: u64 = img_h as u64;
    assert(x == effective_cols(term_cols, width_override));
    assert(y == effective_rows(term_rows, height_override, height_offset));
    assert(x * h <= 0xffff * 0xffff_ffff) by (nonlinear_arith)
        requires x <= 0xffff, h <= 0xffff_ffff;
    assert(w * y <= 0xffff_ffff * 0xffff) by (nonlinear_arith)
        requires y <= 0xffff, w <= 0xffff_ffff;
    let (width, rows): (u64, u64) = if x * h < w * y {
        assert((x as int * h as int) / (w as int) <= y as int) by (nonlinear_arith)
            requires x * h < w * y, w > 0;
        (2 * x, (x * h) / w)
    } else {
        assert((w as int * y as int) / (h as int) <= x as int) by (nonlinear_arith)
            requires x * h >= w * y, h > 0;
        (2 * ((w * y) / h), y)
    };
    assert((width as int, rows as int) == fitted(img_w as int, img_h as int, x as int, y as int));
    let width: u64 = if MIN_STRETCH <= stretch_micro && stretch_micro <= MAX_STRETCH {
        assert(width * (stretch_micro as u64) <= 0x20000 * 50_000_000) by (nonlinear_arith)
            requires width <= 0x20000, stretch_micro <= 50_000_000;
        assert((width * (stretch_micro as u64) + 500_000) / 1_000_000 <= 0x20000 * 50) by (nonlinear_arith)
            requires width * (stretch_micro as u64) <= 0x20000 * 50_000_000;
        (width * (stretch_micro as u64) + 500_000) / 1_000_000
    } else {
        width
    };
    (width as u32, rows as u32)
}

/// When the grid is narrower than the image (x/y < img_w/img_h) and the
/// stretch is one, the raster keeps the image's aspect ratio up to the
/// rounding of one row: the cell rows are half the raster width times
/// img_h/img_w, rounded down.
pub proof fn lemma_aspect_kept(
    img_w: u32,
    img_h: u32,
    term_cols: u16,
    term_rows: u16,
    width_override: Option<u16>,
    height_override: Option<u16>,
    height_offset: u8,
)
    requires
        img_w > 0,
        img_h > 0,
        effective_cols(term_cols, width_override) * img_h < img_w * effective_rows(
            term_rows,
            height_override,
            height_offset,
        ),
    ensures
        ({
            let r = resolved(
                img_w,
                img_h,
                term_cols,
                term_rows,
                width_override,
                height_override,
                height_offset,
                UNIT_STRETCH,
            );
            &&& r.0 % 2 == 0
            &&& r.1 * img_w <= (r.0 / 2) * img_h < (r.1 + 1) * img_w
        }),
{
    let x = effective_cols(term_cols, width_override);
    let w = img_w as int;
    let h = img_h as int;
    assert((2 * x * 1_000_000 + 500_000) / 1_000_000 == 2 * x);
    let q = (x * h) / w;
    assert(q * w <= x * h < (q + 1) * w) by (nonlinear_arith)
        requires w > 0, q == (x * h) / w;
}

/// An out-of-range stretch leaves the result as a stretch of one does, and a
/// stretch of two gives exactly twice the raster width of a stretch of one.
pub proof fn lemma_stretch(
    img_w: u32,
    img_h: u32,
    term_cols: u16,
    term_rows: u16,
    width_override: Option<u16>,
    height_override: Option<u16>,
    height_offset: u8,
    stretch_micro: u32,
)
    ensures
        !stretch_in_range(stretch_micro) ==> resolved(
            img_w,
            img_h,
            term_cols,
            term_rows,
            width_override,
            height_override,
            height_offset,
            stretch_micro,
        ) == resolved(
            img_w,
            img_h,
            term_cols,
            term_rows,
            width_override,
            height_override,
            height_offset,
            UNIT_STRETCH,
        ),
        resolved(
            img_w,
            img_h,
            term_cols,
            term_rows,
            width_override,
            height_override,
            height_offset,
            2_000_000u32,
        ).0 == 2 * resolved(
            img_w,
            img_h,
            term_cols,
            term_rows,
            width_override,
            height_override,
            height_offset,
            UNIT_STRETCH,
        ).0,
        resolved(
            img_w,
            img_h,
            term_cols,
            term_rows,
            width_override,
            height_override,
            height_offset,
            2_000_000u32,
        ).1 == resolved(
            img_w,
            img_h,
            term_cols,
            term_rows,
            width_override,
            height_override,
            height_offset,
            UNIT_STRETCH,
        ).1,
{
    let f = fitted(
        img_w as int,
        img_h as int,
        effective_cols(term_cols, width_override),
        effective_rows(term_rows, height_override, height_offset),
    );
    assert((f.0 * 1_000_000 + 500_000) / 1_000_000 == f.0);
    assert((f.0 * 2_000_000 + 500_000) / 1_000_000 == 2 * f.0);
}

} // verus!
