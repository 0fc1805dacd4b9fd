use std::rc::Rc;

use fontfor::cache::GlyphCache;
use fontfor::family::{FaceInfo, Family, FilteredFamilies};
use fontfor::rasterizer::{Bitmap, Metrics, RasterError};
use fontfor::render::RenderType;
use fontfor::state::{RenderQuery, State};

fn face(id: usize, family: &str, name: &str) -> FaceInfo {
    FaceInfo {
        id,
        family: family.to_string(),
        name: name.to_string(),
        path: String::new(),
        index: 0,
        gid: 7,
    }
}

fn two_family_state() -> State {
    let mut alpha = Family::new("Alpha".to_string());
    alpha.add_face(face(0, "Alpha", "Alpha Regular"));
    alpha.add_face(face(1, "Alpha", "Alpha Bold"));
    let mut beta = Family::new("Beta".to_string());
    beta.add_face(face(2, "Beta", "Beta Regular"));
    let filtered = FilteredFamilies::new(vec![alpha, beta], String::new());
    State::new(filtered)
}

#[test]
fn new_state_selects_first_face() {
    let s = two_family_state();
    assert_eq!(s.len(), 3);
    assert_eq!(s.index(), Some(0));
    assert_eq!(*s.get_render_type(), RenderType::Mono);
}

#[test]
fn move_up_at_top_stays_at_top() {
    let mut s = two_family_state();
    s.move_up();
    assert_eq!(s.index(), Some(0));
    s.move_down();
    s.move_up();
    assert_eq!(s.index(), Some(0));
}

#[test]
fn move_down_at_bottom_stays_at_bottom() {
    let mut s = two_family_state();
    s.move_down();
    s.move_down();
    assert_eq!(s.index(), Some(2));
    s.move_down();
    assert_eq!(s.index(), Some(2));
}

#[test]
fn empty_match_has_no_selection_and_no_render() {
    let mut s = two_family_state();
    s.update_search_box(Some("zzz"));
    assert_eq!(s.len(), 0);
    assert_eq!(s.index(), None);
    assert!(s.current_name().is_none());
    assert!(matches!(s.render_probe(), RenderQuery::Empty));
}

#[test]
fn style_cycle_forward_and_back() {
    let mut s = two_family_state();
    let forward = [
        RenderType::AsciiLevel10,
        RenderType::AsciiLevel70,
        RenderType::Moon,
        RenderType::Mono,
    ];
    for style in forward {
        s.next_render_type();
        assert_eq!(*s.get_render_type(), style);
    }
    let backward = [
        RenderType::Moon,
        RenderType::AsciiLevel70,
        RenderType::AsciiLevel10,
        RenderType::Mono,
    ];
    for style in backward {
        s.prev_render_type();
        assert_eq!(*s.get_render_type(), style);
    }
}

#[test]
fn render_cache_returns_identical_handle_on_second_probe() {
    let mut s = two_family_state();
    s.update_canvas_size_by_char(4, 2);
    let request = match s.render_probe() {
        RenderQuery::Needs(req) => req,
        _ => panic!("first probe must miss"),
    };
    // Mono draws on the pixel canvas: two across, four down per cell.
    assert_eq!(request.key.width, 8);
    assert_eq!(request.key.height, 8);
    assert_eq!(request.pixel_height, 8);
    assert!(!request.double_hscale);
    assert_eq!(request.gid, 7);
    let bm = Bitmap::new(
        Metrics { left: 0, top: 0, height: 2, width: 2 },
        vec![255, 0, 0, 255],
    );
    let stored = s.render_store(request.key, Ok(bm));
    let cached = match s.render_probe() {
        RenderQuery::Cached(v) => v,
        _ => panic!("second probe must hit"),
    };
    assert!(Rc::ptr_eq(&stored, &cached));
    let again = match s.render_probe() {
        RenderQuery::Cached(v) => v,
        _ => panic!("third probe must hit"),
    };
    assert!(Rc::ptr_eq(&cached, &again));
}

#[test]
fn mono_store_builds_centered_canvas_shape() {
    let mut s = two_family_state();
    s.update_canvas_size_by_char(4, 2);
    let request = match s.render_probe() {
        RenderQuery::Needs(req) => req,
        _ => panic!("probe must miss"),
    };
    let bm = Bitmap::new(
        Metrics { left: 0, top: 0, height: 2, width: 2 },
        vec![255, 0, 0, 255],
    );
    let stored = s.render_store(request.key, Ok(bm));
    match stored.as_ref() {
        Ok(GlyphCache::Canvas(shape)) => {
            assert_eq!(shape.canvas_height, 8);
            assert_eq!(shape.h_pad, 3); // (8 - 2) / 2
            assert_eq!(shape.v_pad, 3);
            // Set cells are (0,0) and (1,1); flipped and padded.
            assert_eq!(shape.points(), vec![(3, 5), (4, 4)]);
        },
        _ => panic!("mono style must store a canvas shape"),
    }
}

#[test]
fn ascii_store_builds_paragraph_lines() {
    let mut s = two_family_state();
    s.next_render_type(); // AsciiLevel10
    s.update_canvas_size_by_char(4, 2);
    let request = match s.render_probe() {
        RenderQuery::Needs(req) => req,
        _ => panic!("probe must miss"),
    };
    assert!(request.double_hscale);
    assert_eq!(request.key.width, 4);
    assert_eq!(request.key.height, 2);
    let bm = Bitmap::new(Metrics { left: 0, top: 0, height: 1, width: 2 }, vec![0, 255]);
    let stored = s.render_store(request.key, Ok(bm));
    match stored.as_ref() {
        Ok(GlyphCache::Paragraph(p)) => {
            assert_eq!(p.lines, vec![" @".to_string()]);
        },
        _ => panic!("character styles must store a paragraph"),
    }
}

#[test]
fn raster_errors_become_messages() {
    let mut s = two_family_state();
    s.update_canvas_size_by_char(4, 2);
    let request = match s.render_probe() {
        RenderQuery::Needs(req) => req,
        _ => panic!("probe must miss"),
    };
    let stored = s.render_store(request.key, Err(RasterError::NoGlyph));
    match stored.as_ref() {
        Err(m) => assert_eq!(m, "Can't get target glyph from this font"),
        _ => panic!("a raster error must be stored as a message"),
    }
}

#[test]
fn search_box_rebuilds_names_and_widths() {
    let mut s = two_family_state();
    assert_eq!(
        s.font_face_names(),
        vec!["Alpha Regular".to_string(), "Alpha Bold".to_string(), "Beta Regular".to_string()]
    );
    assert_eq!(s.name_width_max(), "Alpha Regular".len());
    assert_eq!(s.current_name(), Some(&"Alpha Regular".to_string()));
    s.update_search_box(Some("beta"));
    assert_eq!(s.font_face_names(), vec!["Beta Regular".to_string()]);
    assert_eq!(s.index(), Some(0));
    assert_eq!(s.current_name(), Some(&"Beta Regular".to_string()));
}

#[test]
fn canvas_sizes_scale_for_pixels() {
    let mut s = two_family_state();
    s.update_canvas_size_by_char(10, 6);
    assert_eq!(s.get_canvas_size_by_char(), (10, 6));
    assert_eq!(s.get_canvas_size_by_pixel(), (20, 24));
}
