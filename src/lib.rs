//! Verified GUI building blocks: a monochrome XBM bitmap, and a view
//! dispatcher that bridges a single-threaded event loop to an application
//! handler. The dispatcher is an in-memory model of such a loop, not a
//! binding to a device's native one.

pub mod gui;
