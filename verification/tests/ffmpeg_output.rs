use transcode_jobs::ffmpeg::{
    extract_ffmpeg_errors, ffmpeg_failure_message, keyframe_fields_of_output, keyframe_time_fields,
    merge_error_summary, merge_failure_message,
};
use transcode_jobs::text::{chars_of, join_with, split_lines};

fn lines_via_library(s: &str) -> Vec<String> {
    split_lines(&chars_of(s)).into_iter().map(|l| l.into_iter().collect()).collect()
}

#[test]
fn line_splitting_agrees_with_std() {
    let samples = [
        "", "a", "a\n", "a\nb", "\n", "\n\n", "a\r\nb\r\n", "a\rb", "tail\r", "x\r\r\n", "\r\n", "one\n\ntwo\n",
    ];
    for s in samples {
        let expected: Vec<String> = s.lines().map(|l| l.to_string()).collect();
        assert_eq!(lines_via_library(s), expected, "input {:?}", s);
    }
}

#[test]
fn join_puts_separator_between() {
    let parts: Vec<Vec<char>> = vec![chars_of("a"), chars_of(""), chars_of("bc")];
    let joined: String = join_with(&parts, ", ").into_iter().collect();
    assert_eq!(joined, "a, , bc");
    let none: Vec<Vec<char>> = vec![];
    assert!(join_with(&none, "; ").is_empty());
}

#[test]
fn banner_and_progress_are_dropped() {
    let stderr = "ffmpeg version 6.1 Copyright\n  built with gcc 12\n  configuration: --enable-gpl\n  libavutil      58. 29.100\nInput #0, mov,mp4, from 'in.mp4':\n  Metadata:\n    major_brand     : isom\n  Duration: 00:01:00.00\n  Stream #0:0: Video: h264\nStream mapping:\nPress [q] to stop\nframe=  100 fps=50\nx265 [info]: HEVC encoder\nencoded 100 frames\nOutput #0, mp4, to 'out.mp4':\n\n[libx264 @ 0x55d5c0a1b2c0] Invalid preset\nConversion failed!\n";
    assert_eq!(extract_ffmpeg_errors(stderr), "[libx264] Invalid preset\nConversion failed!");
}

#[test]
fn addresses_are_removed_from_every_place() {
    assert_eq!(
        extract_ffmpeg_errors("[a @ 0xABCdef12] x @ 0x1 y @ 0xz"),
        "[a] x yz"
    );
    assert_eq!(extract_ffmpeg_errors("no address here @ 0"), "no address here @ 0");
}

#[test]
fn only_noise_falls_back_to_last_non_blank_line() {
    let stderr = "ffmpeg version 7\nframe=  1 fps=0\n   \nframe=  2 fps=0\n\n";
    assert_eq!(extract_ffmpeg_errors(stderr), "frame=  2 fps=0");
}

#[test]
fn empty_output_is_unknown_error() {
    assert_eq!(extract_ffmpeg_errors(""), "unknown error");
    assert_eq!(extract_ffmpeg_errors(" \n\t\n"), "unknown error");
}

#[test]
fn crlf_output_is_read_line_by_line() {
    assert_eq!(extract_ffmpeg_errors("bad thing\r\nworse thing\r\n"), "bad thing\nworse thing");
}

#[test]
fn failure_message_from_bytes() {
    assert_eq!(ffmpeg_failure_message(b"oops\n"), "oops");
    // invalid UTF-8 is replaced, not dropped
    assert_eq!(ffmpeg_failure_message(b"bad \xff byte"), "bad \u{fffd} byte");
}

#[test]
fn merge_summary_keeps_error_lines() {
    let stderr = "ffmpeg version 6\n[concat @ 0x1] Impossible to open 'x'\nlist.txt: No such file or directory\nError opening input\nall good\nInvalid data found\n";
    assert_eq!(
        merge_error_summary(stderr),
        "list.txt: No such file or directory; Error opening input; Invalid data found"
    );
    assert_eq!(merge_error_summary("fine\n"), "");
}

#[test]
fn merge_summary_is_cut_to_500_chars() {
    let line = "error ".repeat(60);
    let stderr = format!("{line}\n{line}\n");
    let summary = merge_error_summary(&stderr);
    assert_eq!(summary.chars().count(), 500);
    assert!(format!("{line}; {line}").starts_with(&summary));
}

#[test]
fn merge_failure_message_has_prefix() {
    assert_eq!(merge_failure_message(b"x error y\nz\n"), "ffmpeg: x error y");
}

#[test]
fn keyframe_fields_are_first_columns_of_key_lines() {
    let listing = "0.000000,K__\n0.033367,___\n2.002000,K_\nbroken\n4.004000,K__\r\n";
    assert_eq!(keyframe_time_fields(listing), vec!["0.000000", "2.002000", "4.004000"]);
    assert_eq!(keyframe_fields_of_output(listing.as_bytes()), vec!["0.000000", "2.002000", "4.004000"]);
    assert!(keyframe_time_fields("").is_empty());
}

#[test]
fn noise_lines_leave_the_summary() {
    let s = "ffmpeg version 6\n[mp4 @ 0xdead] moov atom not found\nframe=  1 fps=0";
    let base = extract_ffmpeg_errors(s);
    assert_eq!(base, "[mp4] moov atom not found");
    for n in ["frame=  12 fps=0.0 q=28.0", "", "   ", "Press [q] to stop"] {
        assert_eq!(extract_ffmpeg_errors(&format!("{s}\n{n}")), base);
        assert_eq!(extract_ffmpeg_errors(&format!("{n}\n{s}")), base);
    }
}
