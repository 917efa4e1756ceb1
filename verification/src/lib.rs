//! A hierarchical menu: its definition format and the navigation over it.
//!
//! `menu` holds the item tree and its mathematical model, `text` the
//! character-level helpers, `parser` the reader of menu definitions, `nav`
//! the navigation state machine, `layout` the size and place of the frame
//! that shows a level, and `laws` what holds of all of them.

pub mod laws;
pub mod layout;
pub mod menu;
pub mod nav;
pub mod parser;
pub mod text;
