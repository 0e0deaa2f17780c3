//! Terminal geometry, key handling and text helpers of the meli mail
//! client, with their behaviour stated in Verus contracts.
use vstd::prelude::*;

mod sealed;
pub mod area;
pub mod area_laws;
pub mod watchdog;
pub mod text;
pub mod utils;
pub mod desktop;
pub mod mailcap;
pub mod shell;
pub mod keys;
pub mod bridge;
pub mod mail_view;
pub mod input;
pub mod cells;
pub mod screen;
pub mod palette;
pub mod hyperlink;
pub mod segment;
pub mod cmd_buf;
pub mod thread_nav;
pub mod html_render;
pub mod shortcut;
pub mod redraw;
pub mod events;
pub mod layout;
pub mod tui;
pub mod panes;
pub mod thread_keys;
pub mod main_loop;

verus! {

} // verus!
