//! GUI components.

pub mod xbm;
pub mod view_dispatcher;
