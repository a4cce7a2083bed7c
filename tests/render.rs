use image::imageops::FilterType;
use oxpen::filter::FilterChoice;
use oxpen::raster::Raster;
use oxpen::render::render;

#[test]
fn filter_choices_map_to_image_filters() {
    assert_eq!(FilterChoice::Nearest.into(), FilterType::Nearest);
    assert_eq!(FilterChoice::Lanczos.into(), FilterType::Lanczos3);
    assert_eq!(FilterChoice::Triangle.into(), FilterType::Triangle);
    assert_eq!(FilterChoice::Gaussian.into(), FilterType::Gaussian);
    assert_eq!(FilterChoice::CatmullRom.into(), FilterType::CatmullRom);
}

#[test]
fn render_resamples_to_the_resolved_size() {
    // a 1 x 1 red image in a 4 x 4 grid: 8 columns, 4 cell rows, 8 pixel rows
    let image = Raster::from_raw(1, 1, vec![255, 0, 0, 255]).unwrap();
    let mut out = Vec::new();
    render(image, Some((4, 4)), None, None, 0, 1_000_000, FilterChoice::Nearest, &mut out);
    let cell = "\x1b[48;2;255;0;0m\x1b[38;2;255;0;0m\u{1FB84}\x1b[39;49m";
    let line = format!("{}\n", cell.repeat(8));
    assert_eq!(String::from_utf8(out).unwrap(), line.repeat(4));
}

#[test]
fn render_uses_fallback_grid_and_stretch() {
    // unknown terminal: 50 x 50 grid; a 2 x 1 image fills the width: 100
    // columns, 25 cell rows; a stretch of 0.5 halves the columns
    let image = Raster::from_raw(2, 1, vec![0, 0, 0, 0, 0, 0, 0, 0]).unwrap();
    let mut out = Vec::new();
    render(image, None, None, None, 0, 500_000, FilterChoice::Triangle, &mut out);
    let line = format!("{}\n", " ".repeat(50));
    assert_eq!(String::from_utf8(out).unwrap(), line.repeat(25));
}
