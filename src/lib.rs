//! Batch dispatch of video frames to a rate-limited remote service: the
//! adaptive concurrency controller, the per-batch retry policy, the cost
//! watchdog, frame addressing and the JSON payload template engine.

pub mod error;
pub mod text;
pub mod abort;
pub mod json;
pub mod template;
pub mod template_laws;
pub mod threading;
pub mod watchdog;
pub mod misc;
pub mod file_mgmt;
pub mod algo;
pub mod preprocess;
