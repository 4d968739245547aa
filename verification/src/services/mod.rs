//! The parser of transcripts and what surrounds the outside services.

pub mod encoder;
pub mod ffmpeg;
pub mod matcher;
pub mod openai;
pub mod vtt_parser;
pub mod whisper;

pub use ffmpeg::FFmpegService;
pub use openai::OpenAIService;
pub use vtt_parser::VttParser;
pub use whisper::WhisperService;
