//! Verified core of the home camera batch recorder: configuration parsing,
//! object-key construction, retry backoff, H.264 RTP depacketization and the
//! decision logic that drives recording and upload.

pub mod config;
pub mod error;
pub mod h264_depacketizer;
pub mod key;
pub mod mp4_recorder;
pub mod recorder;
pub mod retry;
pub mod slack_client;
pub mod storage;
pub mod text;
