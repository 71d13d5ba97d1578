use transcode_jobs::encoding::{
    av1_preset, build_encoding_flags, preset_str, vp9_speed, AudioCodec, EncodingOptions, Preset,
    VideoCodec,
};

fn opts(video: VideoCodec, audio: AudioCodec, preset: Preset, crf: u8, res: Option<&str>) -> EncodingOptions {
    EncodingOptions {
        video_codec: video,
        audio_codec: audio,
        preset,
        crf,
        resolution: res.map(|r| r.to_string()),
    }
}

#[test]
fn h264_with_aac_and_scaling() {
    let flags = build_encoding_flags(&opts(VideoCodec::H264, AudioCodec::Aac, Preset::Medium, 23, Some("1280:720")));
    assert_eq!(
        flags,
        vec!["-c:v", "libx264", "-preset", "medium", "-crf", "23", "-c:a", "aac", "-b:a", "192k", "-vf", "scale=1280:720"]
    );
}

#[test]
fn vp9_uses_speed_and_row_threads() {
    let flags = build_encoding_flags(&opts(VideoCodec::Vp9, AudioCodec::Opus, Preset::Slow, 31, None));
    assert_eq!(
        flags,
        vec!["-c:v", "libvpx-vp9", "-crf", "31", "-b:v", "0", "-speed", "1", "-row-mt", "1", "-c:a", "libopus", "-b:a", "128k"]
    );
}

#[test]
fn av1_and_h265_presets() {
    let flags = build_encoding_flags(&opts(VideoCodec::Av1, AudioCodec::Flac, Preset::Ultrafast, 0, None));
    assert_eq!(flags, vec!["-c:v", "libsvtav1", "-preset", "12", "-crf", "0", "-c:a", "flac"]);
    let flags = build_encoding_flags(&opts(VideoCodec::H265, AudioCodec::Mp3, Preset::Veryslow, 255, None));
    assert_eq!(
        flags,
        vec!["-c:v", "libx265", "-preset", "veryslow", "-crf", "255", "-c:a", "libmp3lame", "-b:a", "192k"]
    );
}

#[test]
fn stream_copy_both_ways() {
    let flags = build_encoding_flags(&opts(VideoCodec::Copy, AudioCodec::Copy, Preset::Fast, 18, None));
    assert_eq!(flags, vec!["-c:v", "copy", "-c:a", "copy"]);
}

#[test]
fn preset_tables() {
    let all = [Preset::Ultrafast, Preset::Fast, Preset::Medium, Preset::Slow, Preset::Veryslow];
    let names: Vec<&str> = all.iter().map(preset_str).collect();
    assert_eq!(names, vec!["ultrafast", "fast", "medium", "slow", "veryslow"]);
    let av1: Vec<&str> = all.iter().map(av1_preset).collect();
    assert_eq!(av1, vec!["12", "8", "6", "4", "2"]);
    let vp9: Vec<&str> = all.iter().map(vp9_speed).collect();
    assert_eq!(vp9, vec!["5", "4", "2", "1", "0"]);
}
