use demo_as_code_postprocess::command::{decoder_args, encoder_args, DEFAULT_CRF};
use demo_as_code_postprocess::text::{completion_message, decimal_text};

#[test]
fn decimal_matches_to_string() {
    for n in [0u64, 7, 10, 99, 100, 1234567890, u64::MAX] {
        assert_eq!(decimal_text(n), n.to_string());
    }
}

#[test]
fn completion_message_counts_frames() {
    assert_eq!(completion_message(0), "Successfully processed 0 frames.");
    assert_eq!(completion_message(250), "Successfully processed 250 frames.");
}

#[test]
fn decoder_reads_raw_rgb_frames() {
    assert_eq!(
        decoder_args("in.webm"),
        vec!["-i", "in.webm", "-f", "rawvideo", "-pix_fmt", "rgb24", "-an", "-"]
    );
}

#[test]
fn encoder_arguments_with_default_rate_factor() {
    assert_eq!(DEFAULT_CRF, 4);
    assert_eq!(
        encoder_args(1920, 1080, None, "25"),
        vec![
            "-y", "-f", "rawvideo", "-pix_fmt", "rgb24", "-s", "1920x1080", "-r", "25", "-i", "-", "-c:v",
            "libx264", "-crf", "4", "-b:v", "0", "-pix_fmt", "yuv420p", "./results/videos/output_processed.mp4",
        ]
    );
}

#[test]
fn encoder_arguments_with_given_rate_factor() {
    let args = encoder_args(640, 360, Some(31), "29.97");
    assert_eq!(args[6], "640x360");
    assert_eq!(args[8], "29.97");
    assert_eq!(args[14], "31");
}
