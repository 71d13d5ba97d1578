//! The command lines, file names and concat manifests that the backend and
//! the worker hand to ffmpeg and ffprobe.

use crate::encoding::{build_encoding_flags, encoding_flags, EncodingOptions};
use crate::text::{
    after_last, chars_of, decimal, extend_strings, push_padded_decimal, push_str, push_string,
    string_of, strings, text_after_last, zero_padded,
};
use vstd::prelude::*;

verus! {

/// The arguments that cut and re-encode one chunk: seek to `start`
/// (before the input, so ffmpeg seeks to the keyframe), read `duration`
/// seconds, encode with `enc`, and restart timestamps at zero.
pub open spec fn transcode_arg_list(
    start: Seq<char>,
    input_path: Seq<char>,
    duration: Seq<char>,
    output_path: Seq<char>,
    enc: EncodingOptions,
) -> Seq<Seq<char>> {
    seq!["-ss"@, start, "-i"@, input_path, "-t"@, duration, "-y"@] + encoding_flags(enc) + seq![
        "-avoid_negative_ts"@,
        "make_zero"@,
        output_path,
    ]
}

/// ffmpeg arguments that transcode one chunk; `start` and `duration` are
/// the seconds as the command line spells them.
pub fn transcode_args(
    start: &str,
    input_path: &str,
    duration: &str,
    output_path: &str,
    enc: &EncodingOptions,
) -> (args: Vec<String>)
    ensures
        strings(args@) == transcode_arg_list(start@, input_path@, duration@, output_path@, *enc),
{
    let mut args: Vec<String> = Vec::new();
    push_string(&mut args, "-ss");
    push_string(&mut args, start);
    push_string(&mut args, "-i");
    push_string(&mut args, input_path);
    push_string(&mut args, "-t");
    push_string(&mut args, duration);
    push_string(&mut args, "-y");
    extend_strings(&mut args, build_encoding_flags(enc));
    push_string(&mut args, "-avoid_negative_ts");
    push_string(&mut args, "make_zero");
    push_string(&mut args, output_path);
    assert(strings(args@) =~= transcode_arg_list(start@, input_path@, duration@, output_path@, *enc));
    args
}

/// The arguments that join the files of a concat manifest by stream copy.
pub open spec fn concat_arg_list(manifest_path: Seq<char>, output_path: Seq<char>) -> Seq<Seq<char>> {
    seq![
        "-f"@,
        "concat"@,
        "-safe"@,
        "0"@,
        "-i"@,
        manifest_path,
        "-c"@,
        "copy"@,
        "-y"@,
        output_path,
    ]
}

/// ffmpeg arguments that join the chunk files listed in a local manifest.
pub fn concat_args(manifest_path: &str, output_path: &str) -> (args: Vec<String>)
    ensures
        strings(args@) == concat_arg_list(manifest_path@, output_path@),
{
    let mut args: Vec<String> = Vec::new();
    push_string(&mut args, "-f");
    push_string(&mut args, "concat");
    push_string(&mut args, "-safe");
    push_string(&mut args, "0");
    push_string(&mut args, "-i");
    push_string(&mut args, manifest_path);
    push_string(&mut args, "-c");
    push_string(&mut args, "copy");
    push_string(&mut args, "-y");
    push_string(&mut args, output_path);
    assert(strings(args@) =~= concat_arg_list(manifest_path@, output_path@));
    args
}

/// The arguments that join chunks which the manifest names by URL.
pub open spec fn remote_concat_arg_list(manifest_path: Seq<char>, output_path: Seq<char>) -> Seq<
    Seq<char>,
> {
    seq![
        "-f"@,
        "concat"@,
        "-safe"@,
        "0"@,
        "-protocol_whitelist"@,
        "file,http,https,tcp,tls,crypto"@,
        "-i"@,
        manifest_path,
        "-c"@,
        "copy"@,
        "-y"@,
        output_path,
    ]
}

/// ffmpeg arguments that join chunks which the manifest lists by URL.
pub fn remote_concat_args(manifest_path: &str, output_path: &str) -> (args: Vec<String>)
    ensures
        strings(args@) == remote_concat_arg_list(manifest_path@, output_path@),
{
    let mut args: Vec<String> = Vec::new();
    push_string(&mut args, "-f");
    push_string(&mut args, "concat");
    push_string(&mut args, "-safe");
    push_string(&mut args, "0");
    push_string(&mut args, "-protocol_whitelist");
    push_string(&mut args, "file,http,https,tcp,tls,crypto");
    push_string(&mut args, "-i");
    push_string(&mut args, manifest_path);
    push_string(&mut args, "-c");
    push_string(&mut args, "copy");
    push_string(&mut args, "-y");
    push_string(&mut args, output_path);
    assert(strings(args@) =~= remote_concat_arg_list(manifest_path@, output_path@));
    args
}

/// The ffprobe arguments that print a media file's duration in seconds.
pub open spec fn duration_probe_arg_list(url: Seq<char>) -> Seq<Seq<char>> {
    seq!["-v"@, "quiet"@, "-show_entries"@, "format=duration"@, "-of"@, "csv=p=0"@, url]
}

/// ffprobe arguments that print the duration of the media at `url`.
pub fn duration_probe_args(url: &str) -> (args: Vec<String>)
    ensures
        strings(args@) == duration_probe_arg_list(url@),
{
    let mut args: Vec<String> = Vec::new();
    push_string(&mut args, "-v");
    push_string(&mut args, "quiet");
    push_string(&mut args, "-show_entries");
    push_string(&mut args, "format=duration");
    push_string(&mut args, "-of");
    push_string(&mut args, "csv=p=0");
    push_string(&mut args, url);
    assert(strings(args@) =~= duration_probe_arg_list(url@));
    args
}

/// The ffprobe arguments that list the first video stream's packets as
/// `pts_time,flags` lines.
pub open spec fn keyframe_probe_arg_list(url: Seq<char>) -> Seq<Seq<char>> {
    seq![
        "-v"@,
        "quiet"@,
        "-select_streams"@,
        "v:0"@,
        "-show_packets"@,
        "-show_entries"@,
        "packet=pts_time,flags"@,
        "-of"@,
        "csv=print_section=0"@,
        url,
    ]
}

/// ffprobe arguments that list the video packets of the media at `url`.
pub fn keyframe_probe_args(url: &str) -> (args: Vec<String>)
    ensures
        strings(args@) == keyframe_probe_arg_list(url@),
{
    let mut args: Vec<String> = Vec::new();
    push_string(&mut args, "-v");
    push_string(&mut args, "quiet");
    push_string(&mut args, "-select_streams");
    push_string(&mut args, "v:0");
    push_string(&mut args, "-show_packets");
    push_string(&mut args, "-show_entries");
    push_string(&mut args, "packet=pts_time,flags");
    push_string(&mut args, "-of");
    push_string(&mut args, "csv=print_section=0");
    push_string(&mut args, url);
    assert(strings(args@) =~= keyframe_probe_arg_list(url@));
    args
}

/// One `file '…'` line of a concat manifest.
pub open spec fn manifest_entry(path: Seq<char>) -> Seq<char> {
    "file '"@ + path + "'\n"@
}

/// A concat manifest that lists `paths` in order.
pub open spec fn manifest_text(paths: Seq<Seq<char>>) -> Seq<char>
    decreases paths.len(),
{
    if paths.len() == 0 {
        Seq::empty()
    } else {
        manifest_text(paths.drop_last()) + manifest_entry(paths.last())
    }
}

/// The concat manifest that lists `paths` (files or URLs) in order.
pub fn concat_manifest(paths: &Vec<String>) -> (m: String)
    ensures
        m@ == manifest_text(strings(paths@)),
{
    let mut out: Vec<char> = Vec::new();
    assert(strings(paths@).take(0) =~= Seq::<Seq<char>>::empty());
    for i in 0..paths.len()
        invariant
            out@ == manifest_text(strings(paths@).take(i as int)),
    {
        let ghost next = strings(paths@).take(i + 1);
        assert(next.drop_last() == strings(paths@).take(i as int));
        assert(next.last() == paths@[i as int]@);
        let ghost before = out@;
        push_str(&mut out, "file '");
        push_str(&mut out, paths[i].as_str());
        push_str(&mut out, "'\n");
        assert(out@ =~= before + manifest_entry(paths@[i as int]@));
    }
    assert(strings(paths@).take(paths.len() as int) == strings(paths@));
    string_of(&out)
}

/// The extension of an object key: the text after its last dot, or the
/// whole key when it has none.
pub fn file_extension(key: &str) -> (ext: String)
    ensures
        ext@ == after_last(key@, '.'),
{
    let chars = chars_of(key);
    let ext = text_after_last(&chars, '.');
    string_of(&ext)
}

/// `stem.ext`.
pub fn dotted_name(stem: &str, ext: &str) -> (name: String)
    ensures
        name@ == stem@ + "."@ + ext@,
{
    let mut v: Vec<char> = Vec::new();
    push_str(&mut v, stem);
    push_str(&mut v, ".");
    push_str(&mut v, ext);
    assert(v@ =~= stem@ + "."@ + ext@);
    string_of(&v)
}

/// The name of chunk `index` in format `fmt`: `chunk_` and the index
/// zero-padded to four digits.
pub open spec fn chunk_file_text(index: nat, fmt: Seq<char>) -> Seq<char> {
    "chunk_"@ + zero_padded(decimal(index), 4) + "."@ + fmt
}

/// Appends `chunk_NNNN.fmt` for chunk `index`.
pub fn push_chunk_file_name(out: &mut Vec<char>, index: usize, fmt: &str)
    ensures
        final(out)@ == old(out)@ + chunk_file_text(index as nat, fmt@),
{
    let ghost start = out@;
    push_str(out, "chunk_");
    push_padded_decimal(index as u64, 4, out);
    push_str(out, ".");
    push_str(out, fmt);
    assert(out@ =~= start + chunk_file_text(index as nat, fmt@));
}

/// The file name of chunk `index` in format `fmt`, such as `chunk_0007.mp4`.
pub fn chunk_file_name(index: usize, fmt: &str) -> (name: String)
    ensures
        name@ == chunk_file_text(index as nat, fmt@),
{
    let mut v: Vec<char> = Vec::new();
    push_chunk_file_name(&mut v, index, fmt);
    assert(v@ =~= chunk_file_text(index as nat, fmt@));
    string_of(&v)
}

} // verus!
