use oxpen::encode::{encode, encode_cell, encode_row_pair};
use oxpen::raster::Raster;

const FULL: &str = "\u{1FB84}";
const LOWER: &str = "\u{1FB2D}";
const RESET: &str = "\x1b[39;49m";

fn raster(width: u32, height: u32, pixels: &[[u8; 4]]) -> Raster {
    let data: Vec<u8> = pixels.iter().flat_map(|p| p.iter().copied()).collect();
    Raster::from_raw(width, height, data).unwrap()
}

fn encoded(r: &Raster) -> String {
    let mut out = Vec::new();
    encode(r, &mut out);
    String::from_utf8(out).unwrap()
}

fn bg(r: u8, g: u8, b: u8) -> String {
    format!("\x1b[48;2;{};{};{}m", r, g, b)
}

fn fg(r: u8, g: u8, b: u8) -> String {
    format!("\x1b[38;2;{};{};{}m", r, g, b)
}

#[test]
fn both_visible_sets_both_colors() {
    let r = raster(2, 2, &[[10, 20, 30, 255], [40, 50, 60, 255], [70, 80, 90, 255], [100, 110, 120, 255]]);
    let expected = format!(
        "{}{}{}{}{}{}{}{}\n",
        bg(70, 80, 90),
        fg(10, 20, 30),
        FULL,
        RESET,
        bg(100, 110, 120),
        fg(40, 50, 60),
        FULL,
        RESET
    );
    assert_eq!(encoded(&r), expected);
}

#[test]
fn nothing_visible_gives_blanks() {
    let r = raster(2, 2, &[[10, 20, 30, 0], [40, 50, 60, 0], [70, 80, 90, 0], [100, 110, 120, 0]]);
    let out = encoded(&r);
    assert_eq!(out, "  \n");
    assert!(!out.contains('\x1b'));
}

#[test]
fn lower_only_uses_lower_glyph() {
    let r = raster(1, 2, &[[1, 2, 3, 0], [200, 100, 0, 255]]);
    let out = encoded(&r);
    assert_eq!(out, format!("{}{}{}\n", fg(200, 100, 0), LOWER, RESET));
    assert!(!out.contains("\x1b[48;"));
}

#[test]
fn upper_only_sets_foreground() {
    let r = raster(1, 2, &[[9, 99, 199, 255], [1, 2, 3, 0]]);
    assert_eq!(encoded(&r), format!("{}{}{}\n", fg(9, 99, 199), FULL, RESET));
}

#[test]
fn alpha_threshold_is_128() {
    let r = raster(2, 2, &[[1, 1, 1, 128], [2, 2, 2, 127], [3, 3, 3, 127], [4, 4, 4, 128]]);
    let expected = format!("{}{}{}{}{}{}\n", fg(1, 1, 1), FULL, RESET, fg(4, 4, 4), LOWER, RESET);
    assert_eq!(encoded(&r), expected);
}

#[test]
fn odd_height_drops_last_row() {
    let r = raster(1, 3, &[[5, 5, 5, 255], [6, 6, 6, 0], [7, 7, 7, 255]]);
    assert_eq!(encoded(&r), format!("{}{}{}\n", fg(5, 5, 5), FULL, RESET));
    let mut other = raster(1, 3, &[[5, 5, 5, 255], [6, 6, 6, 0], [0, 0, 0, 0]]);
    assert_eq!(encoded(&other), encoded(&r));
    other = raster(1, 1, &[[5, 5, 5, 255]]);
    assert_eq!(encoded(&other), "");
}

#[test]
fn one_line_per_row_pair() {
    let pixels = vec![[0u8, 0, 0, 0]; 3 * 5];
    let r = raster(3, 5, &pixels);
    assert_eq!(encoded(&r), "   \n   \n");
}

#[test]
fn empty_raster_gives_nothing() {
    let r = raster(0, 0, &[]);
    assert_eq!(encoded(&r), "");
}

#[test]
fn single_cell_and_row_pair() {
    let mut out = Vec::new();
    encode_cell([0, 0, 0, 255], [255, 255, 255, 255], &mut out);
    assert_eq!(String::from_utf8(out).unwrap(), format!("{}{}{}{}", bg(255, 255, 255), fg(0, 0, 0), FULL, RESET));
    let r = raster(1, 4, &[[0, 0, 0, 0], [0, 0, 0, 0], [1, 2, 3, 255], [0, 0, 0, 0]]);
    let mut row = Vec::new();
    encode_row_pair(&r, 1, &mut row);
    assert_eq!(String::from_utf8(row).unwrap(), format!("{}{}{}\n", fg(1, 2, 3), FULL, RESET));
}

#[test]
fn from_raw_checks_length() {
    assert!(Raster::from_raw(2, 2, vec![0; 16]).is_some());
    assert!(Raster::from_raw(2, 2, vec![0; 15]).is_none());
    assert!(Raster::from_raw(0, 5, vec![]).is_some());
}
