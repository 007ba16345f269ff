//! Resolution-independent UI layout, coordinate projection and input handling
//! for a small table-tennis game client.
//!
//! All lengths are whole numbers of length units; one pixel is
//! [`math::PIXEL`] units. The rendering layer converts to and from its own
//! coordinates at the edge.

pub mod app;
pub mod app_state;
pub mod game;
pub mod input;
pub mod math;
pub mod pong;
pub mod server;
pub mod title_menu;
pub mod ui;
