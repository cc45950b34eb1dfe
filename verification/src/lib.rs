//! Rendering core and sidebar state machine of a vertical tab bar for zellij.
//!
//! `trunc` and `scroll_window` carry the renderer's safety rules (char- and
//! width-safe truncation, a clamped viewport that always shows the focused
//! tab); `parse_rescue_mark` reads the `rescue-mark` pipe payloads; `State`
//! is the sidebar itself: how it reacts to zellij's events and pipes, and the
//! text it renders.

pub mod mark;
pub mod marks;
pub mod numbers;
pub mod render;
pub mod sidebar;
pub mod strings;
pub mod tab;
pub mod text;
pub mod timezone;
pub mod viewport;
pub mod width;

pub use mark::{parse_rescue_mark, MarkKind};
pub use render::tab_line;
pub use sidebar::{Reaction, SidebarEvent, State, HEAD, FOOT, MAX_MARKS};
pub use tab::Tab;
pub use text::trunc;
pub use timezone::resolve_timezone;
pub use viewport::scroll_window;
