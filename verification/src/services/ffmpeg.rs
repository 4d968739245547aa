//! What the cutting of clips asks of the encoder.

use vstd::prelude::*;
use crate::services::encoder::{next_step, step_after, EncoderEvent, EncoderStep};
use crate::text::numbers::{decimal, push_decimal};
use crate::text::strings::{push_str, string_from};

verus! {

/// What stands before the error of a process that could not be talked to.
pub const ERROR_HEAD: &'static str = "FFmpeg error: ";

/// What stands before the exit code of a failed encoder.
pub const EXIT_HEAD: &'static str = "FFmpeg exited with code: ";

/// What stands behind the exit code of a failed encoder.
pub const EXIT_TAIL: &'static str = ". Check console logs for details.";

/// The directory of the clips of a video: the name of the video and
/// `_Clips`.
pub open spec fn directory_name_of(video_name: Seq<char>) -> Seq<char> {
    video_name + "_Clips"@
}

/// The file of a clip: its number, an underscore, its sanitized title and
/// `.mp4`.
pub open spec fn file_name_of(number: nat, sanitized: Seq<char>) -> Seq<char> {
    decimal(number) + seq!['_'] + sanitized + ".mp4"@
}

/// The arguments with which the encoder cuts one clip out of `input`: from
/// `start` to `end`, encoded anew as H.264 video and AAC audio, into
/// `output`, which is overwritten.
pub open spec fn clip_arguments_of(
    input: Seq<char>,
    start: Seq<char>,
    end: Seq<char>,
    output: Seq<char>,
) -> Seq<Seq<char>> {
    seq![
        "-i"@,
        input,
        "-ss"@,
        start,
        "-to"@,
        end,
        "-c:v"@,
        "libx264"@,
        "-preset"@,
        "fast"@,
        "-crf"@,
        "23"@,
        "-c:a"@,
        "aac"@,
        "-b:a"@,
        "192k"@,
        "-movflags"@,
        "+faststart"@,
        "-y"@,
        output,
    ]
}

/// The functions around the cutting of clips.
pub struct FFmpegService;

impl FFmpegService {
    /// The name of the directory for the clips of the video `video_name`.
    pub fn clips_directory_name(video_name: &str) -> (r: String)
        ensures
            r@ == directory_name_of(video_name@),
    {
        let mut out: Vec<char> = Vec::new();
        push_str(&mut out, video_name);
        push_str(&mut out, "_Clips");
        string_from(&out)
    }

    /// The name of the file for clip `number`, counted from one.
    pub fn clip_file_name(number: usize, sanitized_filename: &str) -> (r: String)
        ensures
            r@ == file_name_of(number as nat, sanitized_filename@),
    {
        let mut out: Vec<char> = Vec::new();
        push_decimal(&mut out, number as u64);
        out.push('_');
        push_str(&mut out, sanitized_filename);
        push_str(&mut out, ".mp4");
        string_from(&out)
    }

    /// The arguments for the encoder to cut one clip.
    pub fn clip_arguments(
        input_path: &str,
        start_time: &str,
        end_time: &str,
        output_path: &str,
    ) -> (r: Vec<String>)
        ensures
            r.deep_view() == clip_arguments_of(input_path@, start_time@, end_time@, output_path@),
    {
        let mut args: Vec<String> = Vec::new();
        args.push("-i".to_owned());
        args.push(input_path.to_owned());
        args.push("-ss".to_owned());
        args.push(start_time.to_owned());
        args.push("-to".to_owned());
        args.push(end_time.to_owned());
        args.push("-c:v".to_owned());
        args.push("libx264".to_owned());
        args.push("-preset".to_owned());
        args.push("fast".to_owned());
        args.push("-crf".to_owned());
        args.push("23".to_owned());
        args.push("-c:a".to_owned());
        args.push("aac".to_owned());
        args.push("-b:a".to_owned());
        args.push("192k".to_owned());
        args.push("-movflags".to_owned());
        args.push("+faststart".to_owned());
        args.push("-y".to_owned());
        args.push(output_path.to_owned());
        assert(args.deep_view() =~= clip_arguments_of(
            input_path@,
            start_time@,
            end_time@,
            output_path@,
        ));
        args
    }

    /// What follows from a report of the encoder while it cuts a clip.
    pub fn on_event(event: &EncoderEvent) -> (r: EncoderStep)
        ensures
            r@ == step_after(event@, ERROR_HEAD@, EXIT_HEAD@, EXIT_TAIL@),
    {
        next_step(event, ERROR_HEAD, EXIT_HEAD, EXIT_TAIL)
    }
}

} // verus!
