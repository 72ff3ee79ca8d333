//! Block-wise synchronisation of a destination image with a source image.
//!
//! The library holds the decisions of a sync run: how the source is cut into
//! blocks, what is done with each block after both sides were read, how the
//! progress counters move, and how a progress line reads. The I/O itself is
//! left to the caller, who performs the actions that the session hands out.
pub mod blocks;
pub mod image;
pub mod progress;
pub mod session;

pub use blocks::Stats;
pub use image::sync_buffers;
pub use progress::{output_progress, ProgressTimer};
pub use session::{BlockAction, BlockRange, Side, SyncError, SyncSession};
