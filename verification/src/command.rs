//! The command lines handed to ffmpeg: one decodes the recording into raw
//! RGB24 frames, the other encodes the composed frames as H.264 into an MP4
//! file among the recorded videos.

use vstd::prelude::*;
use vstd::string::*;
use crate::text::{decimal, push_decimal_text};

verus! {

/// The constant rate factor used when the request names none.
pub const DEFAULT_CRF: u32 = 4;

/// The views of a list of arguments.
pub open spec fn argument_views(args: Seq<String>) -> Seq<Seq<char>> {
    args.map_values(|a: String| a@)
}

/// The decoder's arguments: read `video_path`, write raw RGB24 frames to
/// standard output, drop the audio.
pub open spec fn decoder_arguments(video_path: Seq<char>) -> Seq<Seq<char>> {
    seq!["-i"@, video_path, "-f"@, "rawvideo"@, "-pix_fmt"@, "rgb24"@, "-an"@, "-"@]
}

/// The frame size as ffmpeg writes it: `WIDTHxHEIGHT`.
pub open spec fn size_text(width: u32, height: u32) -> Seq<char> {
    decimal(width as nat) + "x"@ + decimal(height as nat)
}

/// The rate factor in effect: the one asked for, else the default.
pub open spec fn effective_crf(crf: Option<u32>) -> u32 {
    match crf {
        Some(c) => c,
        None => DEFAULT_CRF,
    }
}

/// The encoder's arguments: raw RGB24 frames of `width` x `height` at
/// `fps_text` frames a second on standard input, encoded as H.264 at constant
/// quality into the MP4 file `./results/videos/output_processed.mp4`.
pub open spec fn encoder_arguments(width: u32, height: u32, crf: Option<u32>, fps_text: Seq<char>) -> Seq<Seq<char>> {
    seq![
        "-y"@,
        "-f"@,
        "rawvideo"@,
        "-pix_fmt"@,
        "rgb24"@,
        "-s"@,
        size_text(width, height),
        "-r"@,
        fps_text,
        "-i"@,
        "-"@,
        "-c:v"@,
        "libx264"@,
        "-crf"@,
        decimal(effective_crf(crf) as nat),
        "-b:v"@,
        "0"@,
        "-pix_fmt"@,
        "yuv420p"@,
        "./results/videos/output_processed.mp4"@,
    ]
}

fn push_arg(args: &mut Vec<String>, arg: &str)
    ensures
        argument_views(final(args)@) == argument_views(old(args)@).push(arg@),
{
    let s = String::from_str(arg);
    args.push(s);
    assert(argument_views(args@) =~= argument_views(old(args)@).push(arg@));
}

fn push_owned(args: &mut Vec<String>, arg: String)
    ensures
        argument_views(final(args)@) == argument_views(old(args)@).push(arg@),
{
    let ghost v = arg@;
    args.push(arg);
    assert(argument_views(args@) =~= argument_views(old(args)@).push(v));
}

/// The arguments that make ffmpeg decode `video_path` into raw RGB24 frames.
pub fn decoder_args(video_path: &str) -> (args: Vec<String>)
    ensures
        argument_views(args@) == decoder_arguments(video_path@),
        args@.len() == 8,
        args@[0]@ == "-i"@,
        args@[1]@ == video_path@,
        args@[2]@ == "-f"@,
        args@[3]@ == "rawvideo"@,
        args@[4]@ == "-pix_fmt"@,
        args@[5]@ == "rgb24"@,
        args@[6]@ == "-an"@,
        args@[7]@ == "-"@,
{
    let mut args: Vec<String> = Vec::new();
    push_arg(&mut args, "-i");
    push_arg(&mut args, video_path);
    push_arg(&mut args, "-f");
    push_arg(&mut args, "rawvideo");
    push_arg(&mut args, "-pix_fmt");
    push_arg(&mut args, "rgb24");
    push_arg(&mut args, "-an");
    push_arg(&mut args, "-");
    assert(argument_views(args@) =~= decoder_arguments(video_path@));
    proof {
        assert forall|i: int| 0 <= i < args@.len() implies #[trigger] args@[i]@ == decoder_arguments(video_path@)[i] by {
            assert(argument_views(args@)[i] == args@[i]@);
        }
    }
    args
}

/// The arguments that make ffmpeg encode raw RGB24 frames of `width` x
/// `height` at `fps_text` frames a second, with rate factor `crf` (or the
/// default), into the output file.
pub fn encoder_args(width: u32, height: u32, crf: Option<u32>, fps_text: &str) -> (args: Vec<String>)
    ensures
        argument_views(args@) == encoder_arguments(width, height, crf, fps_text@),
        args@.len() == 20,
        args@[0]@ == "-y"@,
        args@[1]@ == "-f"@,
        args@[2]@ == "rawvideo"@,
        args@[3]@ == "-pix_fmt"@,
        args@[4]@ == "rgb24"@,
        args@[5]@ == "-s"@,
        args@[6]@ == decimal(width as nat) + "x"@ + decimal(height as nat),
        args@[7]@ == "-r"@,
        args@[8]@ == fps_text@,
        args@[9]@ == "-i"@,
        args@[10]@ == "-"@,
        args@[11]@ == "-c:v"@,
        args@[12]@ == "libx264"@,
        args@[13]@ == "-crf"@,
        args@[14]@ == decimal((match crf { Some(c) => c, None => 4u32 }) as nat),
        args@[15]@ == "-b:v"@,
        args@[16]@ == "0"@,
        args@[17]@ == "-pix_fmt"@,
        args@[18]@ == "yuv420p"@,
        args@[19]@ == "./results/videos/output_processed.mp4"@,
{
    let mut args: Vec<String> = Vec::new();
    push_arg(&mut args, "-y");
    push_arg(&mut args, "-f");
    push_arg(&mut args, "rawvideo");
    push_arg(&mut args, "-pix_fmt");
    push_arg(&mut args, "rgb24");
    push_arg(&mut args, "-s");
    let mut size = String::new();
    push_decimal_text(&mut size, width as u64);
    size.append("x");
    push_decimal_text(&mut size, height as u64);
    assert(size@ =~= size_text(width, height));
    push_owned(&mut args, size);
    push_arg(&mut args, "-r");
    push_arg(&mut args, fps_text);
    push_arg(&mut args, "-i");
    push_arg(&mut args, "-");
    push_arg(&mut args, "-c:v");
    push_arg(&mut args, "libx264");
    push_arg(&mut args, "-crf");
    let rate = match crf {
        Some(c) => c,
        None => DEFAULT_CRF,
    };
    let mut rate_text = String::new();
    push_decimal_text(&mut rate_text, rate as u64);
    assert(rate_text@ =~= decimal(effective_crf(crf) as nat));
    push_owned(&mut args, rate_text);
    push_arg(&mut args, "-b:v");
    push_arg(&mut args, "0");
    push_arg(&mut args, "-pix_fmt");
    push_arg(&mut args, "yuv420p");
    push_arg(&mut args, "./results/videos/output_processed.mp4");
    assert(argument_views(args@) =~= encoder_arguments(width, height, crf, fps_text@));
    proof {
        assert forall|i: int| 0 <= i < args@.len() implies #[trigger] args@[i]@ == encoder_arguments(
            width,
            height,
            crf,
            fps_text@,
        )[i] by {
            assert(argument_views(args@)[i] == args@[i]@);
        }
    }
    args
}

} // verus!
