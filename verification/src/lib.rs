//! In-memory focus core of a tiling window manager: tag, workspace and window
//! focus histories (bounded, most-recent-first), cross-entity focus
//! propagation, and the command dispatcher that drives them.

pub mod command;
pub mod command_handler;
pub mod digits;
pub mod focus_handler;
pub mod focus_laws;
pub mod goto_tag_handler;
pub mod screen_create_handler;
pub mod window_handler;
pub mod display_action;
pub mod history;
pub mod models;
