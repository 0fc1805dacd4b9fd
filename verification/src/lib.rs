//! Interactive preview engine for browsing font faces in a terminal:
//! an incremental family filter, glyph render strategies with a
//! memoizing cache, and the event-driven state machine that ties
//! filtering, rendering and redraw together.

pub mod builder;
pub mod cache;
pub mod family;
pub mod grid;
pub mod one_char;
pub mod rasterizer;
pub mod server;
pub mod render;
pub mod state;
pub mod text;
pub mod ui;
