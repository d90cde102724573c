//! Planning logic of a video transcoding worker: where an uploaded video lives
//! and where its renditions go, which HLS renditions to produce, the ffmpeg
//! argument lists, the status records written to the database, and the order
//! of steps for one queued job.

pub mod builder;
pub mod messages;
pub mod models;
pub mod parser;
pub mod paths;
pub mod runner;
pub mod streams;
pub mod text;
