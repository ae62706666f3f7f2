//! A bounded-concurrency queue of media-download jobs.
//!
//! Each job asks an external extraction tool to fetch one URL and convert it
//! to a requested audio format. The library holds the verified core: the job
//! record and its lifecycle state machine, the queue scheduler with its
//! concurrency cap and FIFO dispatch, cancellation, the line-oriented
//! protocol that turns the tool's textual output into structured progress,
//! and URL validation. Process spawning, I/O and the polling loop itself live
//! outside the library and drive it through the queue's step functions.

pub mod deps;
pub mod download_item;
pub mod downloader;
pub mod queue;
pub mod text;
pub mod tool_output;
pub mod validator;

pub use download_item::{AudioFormat, DownloadItem, DownloadStatus, Quality};
