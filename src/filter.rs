//! Choice of the resampling filter.
use vstd::prelude::*;
use image::imageops::FilterType;

verus! {

/// The resampling filter's variants, as `image` defines them.
#[verifier::external_type_specification]
pub struct ExFilterType(FilterType);

/// A resampling filter that can be chosen for resizing the image.
#[derive(Clone, Copy, Debug, PartialEq, Eq)]
pub enum FilterChoice {
    Nearest,
    Lanczos,
    Triangle,
    Gaussian,
    CatmullRom,
}

/// The `image` filter that each choice stands for.
pub open spec fn filter_type_of(c: FilterChoice) -> FilterType {
    match c {
        FilterChoice::Nearest => FilterType::Nearest,
        FilterChoice::Lanczos => FilterType::Lanczos3,
        FilterChoice::Triangle => FilterType::Triangle,
        FilterChoice::Gaussian => FilterType::Gaussian,
        FilterChoice::CatmullRom => FilterType::CatmullRom,
    }
}

impl FilterChoice {
    /// The `image` filter that this choice stands for.
    pub fn into(self) -> (r: FilterType)
        ensures
            r == filter_type_of(self),
    {
        match self {
            FilterChoice::Nearest => FilterType::Nearest,
            FilterChoice::Lanczos => FilterType::Lanczos3,
            FilterChoice::Triangle => FilterType::Triangle,
            FilterChoice::Gaussian => FilterType::Gaussian,
            FilterChoice::CatmullRom => FilterType::CatmullRom,
        }
    }
}

} // verus!
