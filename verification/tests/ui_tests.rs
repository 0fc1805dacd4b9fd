use fontfor::family::{FaceInfo, Family, FilteredFamilies};
use fontfor::ui::{KeyCode, KeyInput, OnEventResult, TerminalEvent, UI};

fn plain(code: KeyCode) -> TerminalEvent {
    TerminalEvent::Key(KeyInput { code, ctrl: false, alt: false })
}

fn catalog() -> FilteredFamilies {
    let mut alpha = Family::new("Alpha".to_string());
    alpha.add_face(FaceInfo {
        id: 0,
        family: "Alpha".to_string(),
        name: "Alpha Regular".to_string(),
        path: String::new(),
        index: 0,
        gid: 3,
    });
    let mut beta = Family::new("Beta".to_string());
    beta.add_face(FaceInfo {
        id: 1,
        family: "Beta".to_string(),
        name: "Beta Regular".to_string(),
        path: String::new(),
        index: 0,
        gid: 4,
    });
    FilteredFamilies::new(vec![alpha, beta], String::new())
}

#[test]
fn empty_catalog_gives_no_ui() {
    let filtered = FilteredFamilies::new(Vec::new(), String::new());
    assert!(UI::new(filtered).is_none());
}

#[test]
fn quit_key_exits() {
    let mut ui = UI::new(catalog()).unwrap();
    assert_eq!(ui.on_event(plain(KeyCode::Char('q'))), OnEventResult::Exit);
}

#[test]
fn modifier_keys_are_ignored() {
    let mut ui = UI::new(catalog()).unwrap();
    let ev = TerminalEvent::Key(KeyInput { code: KeyCode::Char('q'), ctrl: true, alt: false });
    assert_eq!(ui.on_event(ev), OnEventResult::Continue);
}

#[test]
fn every_tenth_tick_redraws() {
    let mut ui = UI::new(catalog()).unwrap();
    for _ in 0..9 {
        assert_eq!(ui.on_event(TerminalEvent::Tick), OnEventResult::Continue);
    }
    assert_eq!(ui.on_event(TerminalEvent::Tick), OnEventResult::ReDraw);
    assert_eq!(ui.on_event(TerminalEvent::Tick), OnEventResult::Continue);
}

#[test]
fn key_redraw_restarts_idle_spacing() {
    let mut ui = UI::new(catalog()).unwrap();
    for _ in 0..5 {
        assert_eq!(ui.on_event(TerminalEvent::Tick), OnEventResult::Continue);
    }
    assert_eq!(ui.on_event(plain(KeyCode::Down)), OnEventResult::ReDraw);
    for _ in 0..9 {
        assert_eq!(ui.on_event(TerminalEvent::Tick), OnEventResult::Continue);
    }
    assert_eq!(ui.on_event(TerminalEvent::Tick), OnEventResult::ReDraw);
}

#[test]
fn arrows_move_the_selection() {
    let mut ui = UI::new(catalog()).unwrap();
    assert_eq!(ui.state.index(), Some(0));
    assert_eq!(ui.on_event(plain(KeyCode::Down)), OnEventResult::ReDraw);
    assert_eq!(ui.state.index(), Some(1));
    assert_eq!(ui.on_event(plain(KeyCode::Up)), OnEventResult::ReDraw);
    assert_eq!(ui.state.index(), Some(0));
}

#[test]
fn vi_keys_move_and_cycle() {
    let mut ui = UI::new(catalog()).unwrap();
    assert_eq!(ui.on_event(plain(KeyCode::Char('j'))), OnEventResult::ReDraw);
    assert_eq!(ui.state.index(), Some(1));
    assert_eq!(ui.on_event(plain(KeyCode::Char('k'))), OnEventResult::ReDraw);
    assert_eq!(ui.state.index(), Some(0));
    assert_eq!(ui.on_event(plain(KeyCode::Char('l'))), OnEventResult::ReDraw);
    assert_eq!(
        *ui.state.get_render_type(),
        fontfor::render::RenderType::AsciiLevel10
    );
    assert_eq!(ui.on_event(plain(KeyCode::Char('h'))), OnEventResult::ReDraw);
    assert_eq!(*ui.state.get_render_type(), fontfor::render::RenderType::Mono);
}

#[test]
fn search_box_editing_forwards_keys() {
    let mut ui = UI::new(catalog()).unwrap();
    assert_eq!(ui.on_event(plain(KeyCode::Char('/'))), OnEventResult::ReDraw);
    assert!(ui.editing);
    assert_eq!(ui.on_event(plain(KeyCode::Char('b'))), OnEventResult::ForwardToInput);
    ui.update_search_box("beta");
    assert_eq!(ui.state.len(), 1);
    assert_eq!(ui.on_event(plain(KeyCode::Enter)), OnEventResult::ReDraw);
    assert!(!ui.editing);
    assert_eq!(ui.on_event(plain(KeyCode::Char('q'))), OnEventResult::Exit);
}

#[test]
fn arrows_still_work_while_editing() {
    let mut ui = UI::new(catalog()).unwrap();
    assert_eq!(ui.on_event(plain(KeyCode::Char('s'))), OnEventResult::ReDraw);
    assert!(ui.editing);
    assert_eq!(ui.on_event(plain(KeyCode::Down)), OnEventResult::ReDraw);
    assert_eq!(ui.state.index(), Some(1));
    assert!(ui.editing);
}
