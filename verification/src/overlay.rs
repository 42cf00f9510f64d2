//! What the overlay shows of the printers.
pub mod format;
pub mod service;
pub mod spools;
pub mod summary;
