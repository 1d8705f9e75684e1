//! The two media pipelines, video and audio.

pub mod audio_parse;
pub mod video_parse;
