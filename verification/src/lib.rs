//! Job bookkeeping and ffmpeg command planning for a chunked video
//! transcoding service: the verified core shared by the HTTP backend and
//! the transcoding worker.

pub mod text;
pub mod encoding;
pub mod ffmpeg;
pub mod commands;
pub mod model;
pub mod keys;
pub mod store;
pub mod system;
pub mod chunks;
pub mod polling;
pub mod tasks;
pub mod orchestration;
pub mod submission;
