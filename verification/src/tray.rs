//! The tray and its popup window: the state they share, what each page shows
//! and what a click does.

pub mod icon;
pub mod menu;
pub mod pages;
pub mod source;
pub mod state;
