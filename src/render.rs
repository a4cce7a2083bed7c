//! The whole rendering: fit, resample, encode.
use vstd::prelude::*;
use crate::encode::{encode, encoded};
use crate::filter::FilterChoice;
use crate::geometry::{grid_of, resolve, resolved, terminal_grid};
use crate::raster::{resample, Raster, RasterModel};

verus! {

/// Raster width and cell rows for `image` drawn in the probed terminal.
pub open spec fn render_size(
    image: RasterModel,
    probed: Option<(u16, u16)>,
    width_override: Option<u16>,
    height_override: Option<u16>,
    height_offset: u8,
    stretch_micro: u32,
) -> (int, int) {
    let grid = grid_of(probed);
    resolved(
        image.width as u32,
        image.height as u32,
        grid.0,
        grid.1,
        width_override,
        height_override,
        height_offset,
        stretch_micro,
    )
}

/// Appends to `out` the terminal text for `image`: fits it into the probed
/// terminal grid (or the fallback grid) under the overrides, offset and
/// stretch (in millionths), resamples it with `filter` to two pixel rows per
/// cell row, and encodes the result. The resampled pixels are whatever the
/// filter gives; the size of the raster that is encoded is exact.
pub fn render(
    image: Raster,
    probed: Option<(u16, u16)>,
    width_override: Option<u16>,
    height_override: Option<u16>,
    height_offset: u8,
    stretch_micro: u32,
    filter: FilterChoice,
    out: &mut Vec<u8>,
)
    requires
        image.wf(),
        image.width > 0,
        image.height > 0,
    ensures
        exists|s: RasterModel|
            {
                let size = render_size(
                    image@,
                    probed,
                    width_override,
                    height_override,
                    height_offset,
                    stretch_micro,
                );
                &&& s.wf()
                &&& s.width == size.0
                &&& s.height == 2 * size.1
                &&& final(out)@ == old(out)@ + #[trigger] encoded(s)
            },
{
    let grid = terminal_grid(probed);
    let size = resolve(
        image.width,
        image.height,
        grid.0,
        grid.1,
        width_override,
        height_override,
        height_offset,
        stretch_micro,
    );
    let resized = resample(image, size.0, 2 * size.1, filter.into());
    encode(&resized, out);
    assert(resized@.width == size.0 && resized@.height == 2 * size.1);
}

} // verus!
