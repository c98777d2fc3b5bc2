//! Verified core of a terminal text editor: cursors, viewport scrolling,
//! view-line layout and navigation, and a few editing helpers.

pub mod text_util;
pub mod cursor;
pub mod event;
pub mod view_pipeline;
pub mod text_buffer;
pub mod viewport;
pub mod edit_map;
pub mod word_navigation;
pub mod layout_nav;
pub mod action;
pub mod action_convert;
pub mod assoc;
pub mod fs_backend;
pub mod filesystem;
pub mod text_content;
pub mod composite_renderer;
pub mod theme;
pub mod transpile;
pub mod plugin_paths;
pub mod ansi;
pub mod split_rendering;
pub mod split_content;
pub mod api_macros;
pub mod api_trait;
pub mod state;
pub mod multi_cursor;
pub mod event_adapter;
pub mod wasm_editor;
pub mod syntect_highlighter;
pub mod validate;
pub mod draw;
pub mod overlay;
pub mod lsp_diagnostics;
pub mod composite_buffer;
pub mod editor;
