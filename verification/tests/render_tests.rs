use fontfor::cache::GlyphParagraph;
use fontfor::rasterizer::{Bitmap, Metrics};
use fontfor::render::{AsciiRender, AsciiRenders, MonoRender, MoonRender};

fn bitmap(height: usize, width: usize, cells: Vec<u8>) -> Bitmap {
    assert_eq!(cells.len(), height * width);
    Bitmap::new(Metrics { left: 0, top: 0, height, width }, cells)
}

#[test]
fn mono_all_zero_luminance_is_all_false() {
    let bm = bitmap(3, 3, vec![0; 9]);
    let g = MonoRender::default().render(&bm);
    for r in 0..3 {
        for c in 0..3 {
            assert!(!*g.get(r, c));
        }
    }
}

#[test]
fn mono_single_full_pixel_is_single_true() {
    let mut cells = vec![0u8; 9];
    cells[4] = 255;
    let bm = bitmap(3, 3, cells);
    let g = MonoRender::default().render(&bm);
    let mut count = 0;
    for r in 0..3 {
        for c in 0..3 {
            if *g.get(r, c) {
                count += 1;
                assert_eq!((r, c), (1, 1));
            }
        }
    }
    assert_eq!(count, 1);
}

#[test]
fn mono_threshold_is_exactly_255() {
    let bm = bitmap(1, 2, vec![254, 255]);
    let g = MonoRender::default().render(&bm);
    assert!(!*g.get(0, 0));
    assert!(*g.get(0, 1));
}

#[test]
fn ascii_level10_buckets() {
    let a = AsciiRender::new(AsciiRenders::Level10);
    // bucket = gray * 10 / 256
    assert_eq!(a.render_pixel(0, 0, 0, 0, 0), ' ');
    assert_eq!(a.render_pixel(0, 0, 128, 0, 0), '+'); // 128 * 10 / 256 = 5
    assert_eq!(a.render_pixel(0, 0, 255, 0, 0), '@'); // 255 * 10 / 256 = 9
}

#[test]
fn ascii_level70_has_seventy_levels() {
    let a = AsciiRender::new(AsciiRenders::Level70);
    assert_eq!(a.ramp.len(), 70);
    assert_eq!(a.render_pixel(0, 0, 0, 0, 0), ' ');
    assert_eq!(a.render_pixel(0, 0, 255, 0, 0), '$'); // 255 * 70 / 256 = 69
}

#[test]
fn ascii_bucketing_is_monotonic() {
    let a = AsciiRender::new(AsciiRenders::Level10);
    let ramp = a.ramp.clone();
    let mut last_index = 0usize;
    for gray in 0..=255u8 {
        let ch = a.render_pixel(0, 0, gray, 0, 0);
        let index = ramp.iter().position(|&r| r == ch).unwrap();
        assert!(index >= last_index);
        last_index = index;
    }
}

#[test]
fn moon_zero_luminance_is_darkest_left() {
    let m = MoonRender::new();
    assert_eq!(m.render_pixel(0, 10, 0, 200, 0), '\u{1F311}');
}

#[test]
fn moon_full_luminance_is_full_moon() {
    let m = MoonRender::new();
    assert_eq!(m.render_pixel(0, 0, 255, 0, 0), '\u{1F315}');
}

#[test]
fn moon_gradient_orients_the_glyph() {
    let m = MoonRender::new();
    // (255 - 128) * 5 / 256 = 2: the half-moon pair, oriented by whether
    // the left neighbor is darker than the right.
    assert_eq!(m.render_pixel(0, 10, 128, 200, 0), '\u{1F313}');
    assert_eq!(m.render_pixel(0, 200, 128, 10, 0), '\u{1F317}');
    assert_eq!(m.render_pixel(0, 50, 128, 50, 0), '\u{1F317}');
}

#[test]
fn paragraph_flattens_rows() {
    let bm = bitmap(2, 2, vec![0, 255, 128, 0]);
    let a = AsciiRender::new(AsciiRenders::Level10);
    let g = a.render(&bm);
    let p = GlyphParagraph::new(&g);
    assert_eq!(p.lines, vec![" @".to_string(), "+ ".to_string()]);
}

#[test]
fn bitmap_exposes_its_pixels() {
    let bm = bitmap(2, 3, vec![1, 2, 3, 4, 5, 6]);
    assert_eq!(bm.metrics().height, 2);
    assert_eq!(bm.metrics().width, 3);
    assert_eq!(bm.pixel(0, 0), 1);
    assert_eq!(bm.pixel(1, 2), 6);
}
