//! Platform backends and their capability boundaries, as far as they decide
//! something: consent, the mapping of native notifications, and what is in the
//! foreground.

pub mod access;
pub mod linux;
pub mod session;
pub mod windows;
