//! What the transcription asks of the encoder, and of the audio it sends.

use vstd::prelude::*;
use crate::services::encoder::{next_step, step_after, EncoderEvent, EncoderStep};
use crate::text::strings::{push_str, string_from};

verus! {

/// The most bytes of audio that the transcription service takes: 25 MiB.
pub const MAX_AUDIO_BYTES: usize = 26214400;

/// What stands before the error of a process that could not be talked to.
pub const ERROR_HEAD: &'static str = "FFmpeg error: ";

/// What stands before the exit code of a failed extraction.
pub const EXIT_HEAD: &'static str = "FFmpeg failed with code: ";

/// The file of the audio of a video: the name of the video and
/// `_temp_audio.mp3`.
pub open spec fn audio_name_of(video_name: Seq<char>) -> Seq<char> {
    video_name + "_temp_audio.mp3"@
}

/// The file of the transcript of a video: the name of the video and `.vtt`.
pub open spec fn transcript_name_of(video_name: Seq<char>) -> Seq<char> {
    video_name + ".vtt"@
}

/// The arguments with which the encoder takes the audio out of `video`: no
/// picture, MP3 at 16 kHz, one channel and 64 kbit/s, into `audio`, which
/// is overwritten.
pub open spec fn audio_arguments_of(video: Seq<char>, audio: Seq<char>) -> Seq<Seq<char>> {
    seq![
        "-i"@,
        video,
        "-vn"@,
        "-acodec"@,
        "libmp3lame"@,
        "-ar"@,
        "16000"@,
        "-ac"@,
        "1"@,
        "-b:a"@,
        "64k"@,
        "-y"@,
        audio,
    ]
}

/// The functions around the transcription of a video.
pub struct WhisperService;

impl WhisperService {
    /// Whether audio of `len` bytes is small enough to be sent.
    pub fn audio_fits(len: usize) -> (r: bool)
        ensures
            r == (len <= MAX_AUDIO_BYTES),
    {
        len <= MAX_AUDIO_BYTES
    }

    /// The name of the file for the audio of the video `video_name`.
    pub fn audio_file_name(video_name: &str) -> (r: String)
        ensures
            r@ == audio_name_of(video_name@),
    {
        let mut out: Vec<char> = Vec::new();
        push_str(&mut out, video_name);
        push_str(&mut out, "_temp_audio.mp3");
        string_from(&out)
    }

    /// The name of the file for the transcript of the video `video_name`.
    pub fn transcript_file_name(video_name: &str) -> (r: String)
        ensures
            r@ == transcript_name_of(video_name@),
    {
        let mut out: Vec<char> = Vec::new();
        push_str(&mut out, video_name);
        push_str(&mut out, ".vtt");
        string_from(&out)
    }

    /// The arguments for the encoder to take the audio out of a video.
    pub fn audio_arguments(video_path: &str, audio_path: &str) -> (r: Vec<String>)
        ensures
            r.deep_view() == audio_arguments_of(video_path@, audio_path@),
    {
        let mut args: Vec<String> = Vec::new();
        args.push("-i".to_owned());
        args.push(video_path.to_owned());
        args.push("-vn".to_owned());
        args.push("-acodec".to_owned());
        args.push("libmp3lame".to_owned());
        args.push("-ar".to_owned());
        args.push("16000".to_owned());
        args.push("-ac".to_owned());
        args.push("1".to_owned());
        args.push("-b:a".to_owned());
        args.push("64k".to_owned());
        args.push("-y".to_owned());
        args.push(audio_path.to_owned());
        assert(args.deep_view() =~= audio_arguments_of(video_path@, audio_path@));
        args
    }

    /// What follows from a report of the encoder while it takes the audio
    /// out.
    pub fn on_event(event: &EncoderEvent) -> (r: EncoderStep)
        ensures
            r@ == step_after(event@, ERROR_HEAD@, EXIT_HEAD@, Seq::empty()),
    {
        let r = next_step(event, ERROR_HEAD, EXIT_HEAD, "");
        proof {
            reveal_strlit("");
            assert(""@ =~= Seq::<char>::empty());
        }
        r
    }
}

} // verus!
