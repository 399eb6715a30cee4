//! Fetching song pages, extracting their metadata and downloading their audio
//! files, with verified retry, scheduling and failure-isolation logic.

pub mod error;
pub mod asset;
pub mod retry;
pub mod scheduler;
pub mod text;
pub mod song;
pub mod page;
pub mod discovery;
pub mod download;
pub mod transfer;
pub mod pipeline;

pub use asset::SongType;
pub use error::Error;
pub use song::SongInfo;
