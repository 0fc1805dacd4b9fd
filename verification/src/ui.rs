//! The event-driven UI state machine.
//!
//! Keyboard and timer events arrive from the input thread; this machine
//! owns the preview state and decides, for each event, how the state
//! changes and whether the screen must be redrawn. Text editing inside the
//! search box is the one thing it delegates: keys meant for the box are
//! answered with `ForwardToInput`, and the box's new value comes back
//! through `update_search_box`.

use crate::family::{lower_of, FilteredFamilies};
use crate::render::{next_style, prev_style};
use crate::state::State;
use vstd::prelude::*;

verus! {

/// The keys the state machine distinguishes.
#[derive(Clone, Copy, PartialEq, Eq, Structural, Debug)]
pub enum KeyCode {
    Up,
    Down,
    Left,
    Right,
    Enter,
    Esc,
    Char(char),
    Other,
}

/// One key press, with its modifier state.
#[derive(Clone, Copy, PartialEq, Eq, Structural, Debug)]
pub struct KeyInput {
    pub code: KeyCode,
    pub ctrl: bool,
    pub alt: bool,
}

/// What the input thread delivers: a timer tick or a key press.
#[derive(Clone, Copy, PartialEq, Eq, Structural, Debug)]
pub enum TerminalEvent {
    Tick,
    Key(KeyInput),
}

/// What the event loop should do after an event.
#[derive(Clone, Copy, PartialEq, Eq, Structural, Debug)]
pub enum OnEventResult {
    /// Repaint the screen.
    ReDraw,
    /// Nothing visible changed.
    Continue,
    /// Leave the event loop and tear the terminal down.
    Exit,
    /// The key belongs to the search box: apply it to the text input and,
    /// if the text changed, call `update_search_box` and repaint.
    ForwardToInput,
}

/// Both states agree on every observable part.
pub open spec fn state_same(a: State, b: State) -> bool {
    &&& a.spec_filtered() == b.spec_filtered()
    &&& a.spec_index_map() == b.spec_index_map()
    &&& a.spec_name_width_max() == b.spec_name_width_max()
    &&& a.spec_selected() == b.spec_selected()
    &&& a.spec_width() == b.spec_width()
    &&& a.spec_height() == b.spec_height()
    &&& a.spec_rt() == b.spec_rt()
    &&& a.spec_cache() == b.spec_cache()
}

/// `b` is `a` with the selection one entry up, saturating at the top.
pub open spec fn state_moved_up(a: State, b: State) -> bool {
    &&& b.spec_selected() == match a.spec_selected() {
        None => None::<usize>,
        Some(sel) => Some(if sel == 0 {
            0usize
        } else {
            (sel - 1) as usize
        }),
    }
    &&& b.spec_filtered() == a.spec_filtered()
    &&& b.spec_index_map() == a.spec_index_map()
    &&& b.spec_name_width_max() == a.spec_name_width_max()
    &&& b.spec_width() == a.spec_width()
    &&& b.spec_height() == a.spec_height()
    &&& b.spec_rt() == a.spec_rt()
    &&& b.spec_cache() == a.spec_cache()
}

/// `b` is `a` with the selection one entry down, saturating at the bottom.
pub open spec fn state_moved_down(a: State, b: State) -> bool {
    &&& b.spec_selected() == match a.spec_selected() {
        None => None::<usize>,
        Some(sel) => Some(
            if sel + 1 < a.spec_index_map().len() {
                (sel + 1) as usize
            } else {
                (a.spec_index_map().len() - 1) as usize
            },
        ),
    }
    &&& b.spec_filtered() == a.spec_filtered()
    &&& b.spec_index_map() == a.spec_index_map()
    &&& b.spec_name_width_max() == a.spec_name_width_max()
    &&& b.spec_width() == a.spec_width()
    &&& b.spec_height() == a.spec_height()
    &&& b.spec_rt() == a.spec_rt()
    &&& b.spec_cache() == a.spec_cache()
}

/// `b` is `a` with the render style stepped by `forward`.
pub open spec fn state_style_stepped(a: State, b: State, forward: bool) -> bool {
    &&& b.spec_rt() == if forward {
        next_style(a.spec_rt())
    } else {
        prev_style(a.spec_rt())
    }
    &&& b.spec_filtered() == a.spec_filtered()
    &&& b.spec_index_map() == a.spec_index_map()
    &&& b.spec_name_width_max() == a.spec_name_width_max()
    &&& b.spec_selected() == a.spec_selected()
    &&& b.spec_width() == a.spec_width()
    &&& b.spec_height() == a.spec_height()
    &&& b.spec_cache() == a.spec_cache()
}

/// The interactive UI: the preview state, whether the search box is being
/// edited, and the tick counter that spaces out idle repaints.
pub struct UI {
    /// Ticks seen since the last repaint; every tenth forces one.
    pub idle_redraw: u8,
    /// Whether keys currently edit the search box.
    pub editing: bool,
    /// The preview state all events act on.
    pub state: State,
}

/// How `on_event` answers each event and transforms the UI.
pub open spec fn transition(pre: UI, event: TerminalEvent, post: UI, r: OnEventResult) -> bool {
    match event {
        TerminalEvent::Tick => {
            &&& state_same(pre.state, post.state)
            &&& post.editing == pre.editing
            &&& if pre.idle_redraw + 1 == 10 {
                post.idle_redraw == 0 && r == OnEventResult::ReDraw
            } else {
                post.idle_redraw == pre.idle_redraw + 1 && r == OnEventResult::Continue
            }
        },
        TerminalEvent::Key(key) => {
            &&& post.idle_redraw == if r == OnEventResult::ReDraw {
                0u8
            } else {
                pre.idle_redraw
            }
            &&& if key.code == KeyCode::Up {
                state_moved_up(pre.state, post.state) && post.editing == pre.editing && r
                    == OnEventResult::ReDraw
            } else if key.code == KeyCode::Down {
                state_moved_down(pre.state, post.state) && post.editing == pre.editing && r
                    == OnEventResult::ReDraw
            } else if pre.editing {
                if key.code == KeyCode::Enter || key.code == KeyCode::Esc {
                    state_same(pre.state, post.state) && !post.editing && r
                        == OnEventResult::ReDraw
                } else {
                    state_same(pre.state, post.state) && post.editing && r
                        == OnEventResult::ForwardToInput
                }
            } else if key.ctrl || key.alt {
                state_same(pre.state, post.state) && !post.editing && r
                    == OnEventResult::Continue
            } else {
                match key.code {
                    KeyCode::Char(c) => {
                        if c == 'q' {
                            state_same(pre.state, post.state) && !post.editing && r
                                == OnEventResult::Exit
                        } else if c == 'h' {
                            state_style_stepped(pre.state, post.state, false) && !post.editing
                                && r == OnEventResult::ReDraw
                        } else if c == 'l' {
                            state_style_stepped(pre.state, post.state, true) && !post.editing
                                && r == OnEventResult::ReDraw
                        } else if c == 'j' {
                            state_moved_down(pre.state, post.state) && !post.editing && r
                                == OnEventResult::ReDraw
                        } else if c == 'k' {
                            state_moved_up(pre.state, post.state) && !post.editing && r
                                == OnEventResult::ReDraw
                        } else if c == 's' || c == '/' {
                            state_same(pre.state, post.state) && post.editing && r
                                == OnEventResult::ReDraw
                        } else {
                            state_same(pre.state, post.state) && !post.editing && r
                                == OnEventResult::Continue
                        }
                    },
                    KeyCode::Left => state_style_stepped(pre.state, post.state, false)
                        && !post.editing && r == OnEventResult::ReDraw,
                    KeyCode::Right => state_style_stepped(pre.state, post.state, true)
                        && !post.editing && r == OnEventResult::ReDraw,
                    _ => state_same(pre.state, post.state) && !post.editing && r
                        == OnEventResult::Continue,
                }
            }
        },
    }
}

impl UI {
    /// A usable UI: valid preview state and a tick counter below its reset
    /// point.
    pub open spec fn wf(self) -> bool {
        &&& self.state.wf()
        &&& self.idle_redraw < 10
    }

    /// Wrap a filtered catalog; an empty catalog has nothing to show and
    /// yields no UI.
    pub fn new(filtered: FilteredFamilies) -> (r: Option<UI>)
        requires
            filtered.wf(),
        ensures
            r is Some <==> filtered.spec_data().len() > 0,
            (r matches Some(ui) ==> {
                &&& ui.wf()
                &&& !ui.editing
                &&& ui.idle_redraw == 0
                &&& ui.state.spec_filtered() == filtered
                &&& ui.state.spec_rt() == crate::render::RenderType::Mono
            }),
    {
        if filtered.is_empty() {
            None
        } else {
            Some(UI { idle_redraw: 0, editing: false, state: State::new(filtered) })
        }
    }

    /// Feed the search box's new value through to the filter and the face
    /// list.
    pub fn update_search_box(&mut self, keyword: &str)
        requires
            old(self).wf(),
        ensures
            final(self).wf(),
            final(self).editing == old(self).editing,
            final(self).idle_redraw == old(self).idle_redraw,
            final(self).state.spec_filtered().spec_keyword() == lower_of(keyword@),
            final(self).state.spec_filtered().spec_data() == old(self).state.spec_filtered().spec_data(),
    {
        self.state.update_search_box(Some(keyword));
    }

    /// Answer one event: move the selection, step the style, enter or
    /// leave search-box editing, space out idle repaints, or quit.
    pub fn on_event(&mut self, event: TerminalEvent) -> (r: OnEventResult)
        requires
            old(self).wf(),
        ensures
            final(self).wf(),
            transition(*old(self), event, *final(self), r),
    {
        match event {
            TerminalEvent::Tick => {
                if self.idle_redraw + 1 == 10 {
                    self.idle_redraw = 0;
                    OnEventResult::ReDraw
                } else {
                    self.idle_redraw = self.idle_redraw + 1;
                    OnEventResult::Continue
                }
            },
            TerminalEvent::Key(key) => {
                let r = match key.code {
                    KeyCode::Up => {
                        self.state.move_up();
                        OnEventResult::ReDraw
                    },
                    KeyCode::Down => {
                        self.state.move_down();
                        OnEventResult::ReDraw
                    },
                    _ => {
                        if self.editing {
                            self.on_event_edit_filter(key)
                        } else {
                            self.on_event_normal(key)
                        }
                    },
                };
                if r == OnEventResult::ReDraw {
                    // A repaint restarts the idle spacing.
                    self.idle_redraw = 0;
                }
                r
            },
        }
    }

    /// A key while the search box is being edited: Enter or Escape leaves
    /// editing mode, anything else belongs to the text input.
    fn on_event_edit_filter(&mut self, key: KeyInput) -> (r: OnEventResult)
        requires
            old(self).wf(),
            old(self).editing,
            key.code != KeyCode::Up,
            key.code != KeyCode::Down,
        ensures
            final(self).wf(),
            final(self).idle_redraw == old(self).idle_redraw,
            state_same(old(self).state, final(self).state),
            if key.code == KeyCode::Enter || key.code == KeyCode::Esc {
                !final(self).editing && r == OnEventResult::ReDraw
            } else {
                final(self).editing && r == OnEventResult::ForwardToInput
            },
    {
        match key.code {
            KeyCode::Enter | KeyCode::Esc => {
                self.editing = false;
                OnEventResult::ReDraw
            },
            _ => OnEventResult::ForwardToInput,
        }
    }

    /// A key outside editing mode: selection, style, search box, or quit.
    fn on_event_normal(&mut self, key: KeyInput) -> (r: OnEventResult)
        requires
            old(self).wf(),
            !old(self).editing,
            key.code != KeyCode::Up,
            key.code != KeyCode::Down,
        ensures
            final(self).wf(),
            final(self).idle_redraw == old(self).idle_redraw,
            if key.ctrl || key.alt {
                state_same(old(self).state, final(self).state) && !final(self).editing && r
                    == OnEventResult::Continue
            } else {
                match key.code {
                    KeyCode::Char(c) => {
                        if c == 'q' {
                            state_same(old(self).state, final(self).state) && !final(self).editing && r == OnEventResult::Exit
                        } else if c == 'h' {
                            state_style_stepped(old(self).state, final(self).state, false)
                                && !final(self).editing && r == OnEventResult::ReDraw
                        } else if c == 'l' {
                            state_style_stepped(old(self).state, final(self).state, true)
                                && !final(self).editing && r == OnEventResult::ReDraw
                        } else if c == 'j' {
                            state_moved_down(old(self).state, final(self).state) && !final(self).editing && r == OnEventResult::ReDraw
                        } else if c == 'k' {
                            state_moved_up(old(self).state, final(self).state) && !final(self).editing && r == OnEventResult::ReDraw
                        } else if c == 's' || c == '/' {
                            state_same(old(self).state, final(self).state) && final(self).editing && r == OnEventResult::ReDraw
                        } else {
                            state_same(old(self).state, final(self).state) && !final(self).editing && r == OnEventResult::Continue
                        }
                    },
                    KeyCode::Left => state_style_stepped(old(self).state, final(self).state, false)
                        && !final(self).editing && r == OnEventResult::ReDraw,
                    KeyCode::Right => state_style_stepped(old(self).state, final(self).state, true)
                        && !final(self).editing && r == OnEventResult::ReDraw,
                    _ => state_same(old(self).state, final(self).state) && !final(self).editing
                        && r == OnEventResult::Continue,
                }
            },
    {
        if key.ctrl || key.alt {
            return OnEventResult::Continue;
        }
        match key.code {
            KeyCode::Char(c) => {
                if c == 'q' {
                    OnEventResult::Exit
                } else if c == 'h' {
                    self.state.prev_render_type();
                    OnEventResult::ReDraw
                } else if c == 'l' {
                    self.state.next_render_type();
                    OnEventResult::ReDraw
                } else if c == 'j' {
                    self.state.move_down();
                    OnEventResult::ReDraw
                } else if c == 'k' {
                    self.state.move_up();
                    OnEventResult::ReDraw
                } else if c == 's' || c == '/' {
                    self.editing = true;
                    OnEventResult::ReDraw
                } else {
                    OnEventResult::Continue
                }
            },
            KeyCode::Left => {
                self.state.prev_render_type();
                OnEventResult::ReDraw
            },
            KeyCode::Right => {
                self.state.next_render_type();
                OnEventResult::ReDraw
            },
            _ => OnEventResult::Continue,
        }
    }
}

} // verus!
