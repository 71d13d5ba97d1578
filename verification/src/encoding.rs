//! Encoding settings of a transcode job and the ffmpeg flags they select.

use crate::text::{decimal, push_decimal, push_str, push_string, push_chars_as_string, push_owned, string_of, strings};
use vstd::prelude::*;

verus! {

#[derive(Clone, Copy, Debug, PartialEq, Eq, Structural)]
pub enum VideoCodec {
    H264,
    H265,
    Av1,
    Vp9,
    Copy,
}

#[derive(Clone, Copy, Debug, PartialEq, Eq, Structural)]
pub enum AudioCodec {
    Aac,
    Opus,
    Flac,
    Mp3,
    Copy,
}

#[derive(Clone, Copy, Debug, PartialEq, Eq, Structural)]
pub enum Preset {
    Ultrafast,
    Fast,
    Medium,
    Slow,
    Veryslow,
}

#[derive(Debug)]
pub struct EncodingOptions {
    pub video_codec: VideoCodec,
    pub audio_codec: AudioCodec,
    pub preset: Preset,
    pub crf: u8,
    pub resolution: Option<String>,
}

impl Clone for EncodingOptions {
    fn clone(&self) -> (r: Self)
        ensures
            r == *self,
    {
        EncodingOptions {
            video_codec: self.video_codec,
            audio_codec: self.audio_codec,
            preset: self.preset,
            crf: self.crf,
            resolution: match &self.resolution {
                Some(s) => Some(s.clone()),
                None => None,
            },
        }
    }
}

/// The x264/x265 preset name.
pub open spec fn preset_name(p: Preset) -> Seq<char> {
    match p {
        Preset::Ultrafast => "ultrafast"@,
        Preset::Fast => "fast"@,
        Preset::Medium => "medium"@,
        Preset::Slow => "slow"@,
        Preset::Veryslow => "veryslow"@,
    }
}

/// The SVT-AV1 preset number (higher is faster).
pub open spec fn av1_preset_level(p: Preset) -> Seq<char> {
    match p {
        Preset::Ultrafast => "12"@,
        Preset::Fast => "8"@,
        Preset::Medium => "6"@,
        Preset::Slow => "4"@,
        Preset::Veryslow => "2"@,
    }
}

/// The libvpx-vp9 `-speed` value (higher is faster).
pub open spec fn vp9_speed_level(p: Preset) -> Seq<char> {
    match p {
        Preset::Ultrafast => "5"@,
        Preset::Fast => "4"@,
        Preset::Medium => "2"@,
        Preset::Slow => "1"@,
        Preset::Veryslow => "0"@,
    }
}

/// The video-codec part of the flags.
pub open spec fn video_flags(enc: EncodingOptions) -> Seq<Seq<char>> {
    let crf = decimal(enc.crf as nat);
    match enc.video_codec {
        VideoCodec::H264 => seq![
            "-c:v"@,
            "libx264"@,
            "-preset"@,
            preset_name(enc.preset),
            "-crf"@,
            crf,
        ],
        VideoCodec::H265 => seq![
            "-c:v"@,
            "libx265"@,
            "-preset"@,
            preset_name(enc.preset),
            "-crf"@,
            crf,
        ],
        VideoCodec::Av1 => seq![
            "-c:v"@,
            "libsvtav1"@,
            "-preset"@,
            av1_preset_level(enc.preset),
            "-crf"@,
            crf,
        ],
        VideoCodec::Vp9 => seq![
            "-c:v"@,
            "libvpx-vp9"@,
            "-crf"@,
            crf,
            "-b:v"@,
            "0"@,
            "-speed"@,
            vp9_speed_level(enc.preset),
            "-row-mt"@,
            "1"@,
        ],
        VideoCodec::Copy => seq!["-c:v"@, "copy"@],
    }
}

/// The audio-codec part of the flags.
pub open spec fn audio_flags(codec: AudioCodec) -> Seq<Seq<char>> {
    match codec {
        AudioCodec::Aac => seq!["-c:a"@, "aac"@, "-b:a"@, "192k"@],
        AudioCodec::Opus => seq!["-c:a"@, "libopus"@, "-b:a"@, "128k"@],
        AudioCodec::Flac => seq!["-c:a"@, "flac"@],
        AudioCodec::Mp3 => seq!["-c:a"@, "libmp3lame"@, "-b:a"@, "192k"@],
        AudioCodec::Copy => seq!["-c:a"@, "copy"@],
    }
}

/// The scaling filter, present only when a resolution is requested.
pub open spec fn resolution_flags(resolution: Option<String>) -> Seq<Seq<char>> {
    match resolution {
        Some(res) => seq!["-vf"@, "scale="@ + res@],
        None => Seq::empty(),
    }
}

/// The ffmpeg flags that select codecs, quality and scaling.
pub open spec fn encoding_flags(enc: EncodingOptions) -> Seq<Seq<char>> {
    video_flags(enc) + audio_flags(enc.audio_codec) + resolution_flags(enc.resolution)
}

/// The preset name that x264 and x265 take.
pub fn preset_str(p: &Preset) -> (s: &'static str)
    ensures
        s@ == preset_name(*p),
{
    match p {
        Preset::Ultrafast => "ultrafast",
        Preset::Fast => "fast",
        Preset::Medium => "medium",
        Preset::Slow => "slow",
        Preset::Veryslow => "veryslow",
    }
}

/// The SVT-AV1 preset number for a speed preset.
pub fn av1_preset(p: &Preset) -> (s: &'static str)
    ensures
        s@ == av1_preset_level(*p),
{
    match p {
        Preset::Ultrafast => "12",
        Preset::Fast => "8",
        Preset::Medium => "6",
        Preset::Slow => "4",
        Preset::Veryslow => "2",
    }
}

/// The libvpx-vp9 `-speed` value for a speed preset.
pub fn vp9_speed(p: &Preset) -> (s: &'static str)
    ensures
        s@ == vp9_speed_level(*p),
{
    match p {
        Preset::Ultrafast => "5",
        Preset::Fast => "4",
        Preset::Medium => "2",
        Preset::Slow => "1",
        Preset::Veryslow => "0",
    }
}

fn decimal_string(n: u8) -> (s: String)
    ensures
        s@ == decimal(n as nat),
{
    let mut v: Vec<char> = Vec::new();
    push_decimal(n as u64, &mut v);
    assert(v@ =~= decimal(n as nat));
    string_of(&v)
}

/// The ffmpeg flags that select codecs, quality and scaling for `enc`.
pub fn build_encoding_flags(enc: &EncodingOptions) -> (args: Vec<String>)
    ensures
        strings(args@) == encoding_flags(*enc),
{
    let mut args: Vec<String> = Vec::new();
    match enc.video_codec {
        VideoCodec::H264 => {
            push_string(&mut args, "-c:v");
            push_string(&mut args, "libx264");
            push_string(&mut args, "-preset");
            push_string(&mut args, preset_str(&enc.preset));
            push_string(&mut args, "-crf");
            push_owned(&mut args, decimal_string(enc.crf));
        },
        VideoCodec::H265 => {
            push_string(&mut args, "-c:v");
            push_string(&mut args, "libx265");
            push_string(&mut args, "-preset");
            push_string(&mut args, preset_str(&enc.preset));
            push_string(&mut args, "-crf");
            push_owned(&mut args, decimal_string(enc.crf));
        },
        VideoCodec::Av1 => {
            push_string(&mut args, "-c:v");
            push_string(&mut args, "libsvtav1");
            push_string(&mut args, "-preset");
            push_string(&mut args, av1_preset(&enc.preset));
            push_string(&mut args, "-crf");
            push_owned(&mut args, decimal_string(enc.crf));
        },
        VideoCodec::Vp9 => {
            push_string(&mut args, "-c:v");
            push_string(&mut args, "libvpx-vp9");
            push_string(&mut args, "-crf");
            push_owned(&mut args, decimal_string(enc.crf));
            push_string(&mut args, "-b:v");
            push_string(&mut args, "0");
            push_string(&mut args, "-speed");
            push_string(&mut args, vp9_speed(&enc.preset));
            push_string(&mut args, "-row-mt");
            push_string(&mut args, "1");
        },
        VideoCodec::Copy => {
            push_string(&mut args, "-c:v");
            push_string(&mut args, "copy");
        },
    }
    assert(strings(args@) =~= video_flags(*enc));
    let ghost after_video = strings(args@);
    match enc.audio_codec {
        AudioCodec::Aac => {
            push_string(&mut args, "-c:a");
            push_string(&mut args, "aac");
            push_string(&mut args, "-b:a");
            push_string(&mut args, "192k");
        },
        AudioCodec::Opus => {
            push_string(&mut args, "-c:a");
            push_string(&mut args, "libopus");
            push_string(&mut args, "-b:a");
            push_string(&mut args, "128k");
        },
        AudioCodec::Flac => {
            push_string(&mut args, "-c:a");
            push_string(&mut args, "flac");
        },
        AudioCodec::Mp3 => {
            push_string(&mut args, "-c:a");
            push_string(&mut args, "libmp3lame");
            push_string(&mut args, "-b:a");
            push_string(&mut args, "192k");
        },
        AudioCodec::Copy => {
            push_string(&mut args, "-c:a");
            push_string(&mut args, "copy");
        },
    }
    assert(strings(args@) =~= after_video + audio_flags(enc.audio_codec));
    let ghost after_audio = strings(args@);
    match &enc.resolution {
        Some(res) => {
            push_string(&mut args, "-vf");
            let mut v: Vec<char> = Vec::new();
            push_str(&mut v, "scale=");
            push_str(&mut v, res.as_str());
            push_chars_as_string(&mut args, &v);
        },
        None => {},
    }
    assert(strings(args@) =~= after_audio + resolution_flags(enc.resolution));
    args
}

} // verus!
verus! {

proof fn lemma_decimal_ends_in_a_digit(n: nat)
    ensures
        decimal(n).len() > 0,
        '0' <= decimal(n).last() <= '9',
    decreases n,
{
    if n >= 10 {
        lemma_decimal_ends_in_a_digit(n / 10);
    }
}

/// The scaling filter depends on the requested resolution alone, whatever
/// the codecs: a resolution `r` appends exactly `-vf scale=r` to the flags
/// that the same options without a resolution give, and without a
/// resolution the flags hold no `-vf`.
pub proof fn law_scaling_follows_resolution(enc: EncodingOptions)
    ensures
        enc.resolution matches Some(r) ==> encoding_flags(enc) == encoding_flags(
            EncodingOptions { resolution: None, ..enc },
        ) + seq!["-vf"@, "scale="@ + r@],
        enc.resolution is None ==> !encoding_flags(enc).contains("-vf"@),
{
    if enc.resolution is None {
        lemma_no_scaling_in_codec_flags(enc);
        let v = video_flags(enc);
        let au = audio_flags(enc.audio_codec);
        assert(encoding_flags(enc) =~= v + au);
        assert forall|k: int| 0 <= k < (v + au).len() implies (v + au)[k] != "-vf"@ by {
            if k < v.len() {
                assert((v + au)[k] == v[k]);
            } else {
                assert((v + au)[k] == au[k - v.len()]);
            }
        }
    }
}

/// Whether `flag` differs from `-vf` in its length or in its last character.
spec fn unlike_scale_flag(flag: Seq<char>) -> bool {
    flag.len() != 3 || flag.last() != 'f'
}

proof fn lemma_no_scaling_in_codec_flags(enc: EncodingOptions)
    ensures
        forall|k: int| 0 <= k < video_flags(enc).len() ==> #[trigger] video_flags(enc)[k] != "-vf"@,
        forall|k: int|
            0 <= k < audio_flags(enc.audio_codec).len() ==> #[trigger] audio_flags(enc.audio_codec)[k]
                != "-vf"@,
{
    reveal_strlit("-vf");
    assert(!unlike_scale_flag("-vf"@));
    lemma_decimal_ends_in_a_digit(enc.crf as nat);
    assert(unlike_scale_flag(decimal(enc.crf as nat)));
    reveal_strlit("-c:v");
    reveal_strlit("-c:a");
    reveal_strlit("-b:a");
    reveal_strlit("-b:v");
    reveal_strlit("-crf");
    reveal_strlit("-preset");
    reveal_strlit("-speed");
    reveal_strlit("-row-mt");
    reveal_strlit("libx264");
    reveal_strlit("libx265");
    reveal_strlit("libsvtav1");
    reveal_strlit("libvpx-vp9");
    reveal_strlit("copy");
    reveal_strlit("0");
    reveal_strlit("1");
    reveal_strlit("2");
    reveal_strlit("4");
    reveal_strlit("5");
    reveal_strlit("6");
    reveal_strlit("8");
    reveal_strlit("12");
    reveal_strlit("aac");
    reveal_strlit("192k");
    reveal_strlit("libopus");
    reveal_strlit("128k");
    reveal_strlit("flac");
    reveal_strlit("libmp3lame");
    reveal_strlit("ultrafast");
    reveal_strlit("fast");
    reveal_strlit("medium");
    reveal_strlit("slow");
    reveal_strlit("veryslow");
    let v = video_flags(enc);
    let au = audio_flags(enc.audio_codec);
    assert(unlike_scale_flag(preset_name(enc.preset)));
    assert(unlike_scale_flag(av1_preset_level(enc.preset)));
    assert(unlike_scale_flag(vp9_speed_level(enc.preset)));
    assert forall|k: int| 0 <= k < v.len() implies unlike_scale_flag(#[trigger] v[k]) by {}
    assert forall|k: int| 0 <= k < au.len() implies unlike_scale_flag(#[trigger] au[k]) by {}
}

} // verus!
