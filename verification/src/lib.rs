//! Planning and bookkeeping for a segmented, resumable transfer of one
//! resource by several workers.

pub mod content;
pub mod decimal;
pub mod error;
pub mod header;
pub mod progress;
pub mod range;
pub mod segment;
pub mod target;
pub mod transfer;
