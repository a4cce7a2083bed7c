//! RGBA rasters and their resampling.
use vstd::prelude::*;
use image::imageops::FilterType;

verus! {

/// An RGBA raster of `width` by `height` pixels, row-major, four bytes a pixel.
#[derive(Debug)]
pub struct Raster {
    pub width: u32,
    pub height: u32,
    pub data: Vec<u8>,
}

/// A raster as a mathematical value: its size and its bytes.
pub struct RasterModel {
    pub width: nat,
    pub height: nat,
    pub data: Seq<u8>,
}

impl RasterModel {
    /// The data holds exactly four bytes for each pixel.
    pub open spec fn wf(self) -> bool {
        self.data.len() == self.width * self.height * 4
    }

    /// Offset of the pixel in column `x` of row `y`.
    pub open spec fn offset(self, x: int, y: int) -> int {
        4 * (y * self.width + x)
    }

    /// The red, green, blue and alpha bytes of the pixel in column `x` of row `y`.
    pub open spec fn pixel(self, x: int, y: int) -> Seq<u8> {
        self.data.subrange(self.offset(x, y), self.offset(x, y) + 4)
    }
}

impl View for Raster {
    type V = RasterModel;

    open spec fn view(&self) -> RasterModel {
        RasterModel { width: self.width as nat, height: self.height as nat, data: self.data@ }
    }
}

impl Raster {
    /// The data holds exactly four bytes for each pixel.
    pub open spec fn wf(&self) -> bool {
        self@.wf()
    }

    /// A raster over `data`, when it holds exactly four bytes for each of the
    /// `width` by `height` pixels.
    pub fn from_raw(width: u32, height: u32, data: Vec<u8>) -> (r: Option<Raster>)
        ensures
            r is Some <==> data@.len() == width * height * 4,
            r matches Some(v) ==> v.width == width && v.height == height && v.data@ == data@,
    {
        assert((width as u128) * (height as u128) * 4 <= 0xffff_ffff * 0xffff_ffff * 4) by (nonlinear_arith);
        if (data.len() as u128) == (width as u128) * (height as u128) * 4 {
            Some(Raster { width, height, data })
        } else {
            None
        }
    }
}

/// Relies on image::imageops::resize: it returns a raster of the requested
/// size. Its pixels come from floating-point filter kernels, so nothing is
/// stated of them. Its sampling indexes the source, so the source must not be
/// empty.
#[verifier::external_body]
pub(crate) fn resample(r: Raster, new_width: u32, new_height: u32, filter: FilterType) -> (s: Raster)
    requires
        r.wf(),
        r.width > 0,
        r.height > 0,
    ensures
        s.width == new_width,
        s.height == new_height,
        s.wf(),
{
    let src: image::RgbaImage = image::ImageBuffer::from_raw(r.width, r.height, r.data).unwrap();
    let out = image::imageops::resize(&src, new_width, new_height, filter);
    Raster { width: out.width(), height: out.height(), data: out.into_raw() }
}

} // verus!
