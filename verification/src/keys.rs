//! Object-store keys of a job's input, chunks and output.

use crate::commands::{chunk_file_text, push_chunk_file_name};
use crate::model::opt_text;
use crate::text::{hex_fixed, push_hex_fixed, push_range, push_str, string_of};
use vstd::prelude::*;

verus! {

/// The hyphenated lower-case rendering of a UUID, such as
/// `67e55044-10b1-426f-9247-bb680e5fe0c8`.
pub open spec fn uuid_text(id: u128) -> Seq<char> {
    let h = hex_fixed(id as nat, 32);
    h.subrange(0, 8) + "-"@ + h.subrange(8, 12) + "-"@ + h.subrange(12, 16) + "-"@ + h.subrange(16, 20)
        + "-"@ + h.subrange(20, 32)
}

pub proof fn lemma_hex_fixed_len(n: nat, width: nat)
    ensures
        hex_fixed(n, width).len() == width,
    decreases width,
{
    if width > 0 {
        lemma_hex_fixed_len(n / 16, (width - 1) as nat);
    }
}

/// Appends the hyphenated rendering of the UUID `id`.
pub fn push_uuid(id: u128, out: &mut Vec<char>)
    ensures
        final(out)@ == old(out)@ + uuid_text(id),
{
    let mut h: Vec<char> = Vec::new();
    push_hex_fixed(id, 32, &mut h);
    proof {
        lemma_hex_fixed_len(id as nat, 32);
        assert(h@ =~= hex_fixed(id as nat, 32));
    }
    let ghost start = out@;
    push_range(out, &h, 0, 8);
    push_str(out, "-");
    push_range(out, &h, 8, 12);
    push_str(out, "-");
    push_range(out, &h, 12, 16);
    push_str(out, "-");
    push_range(out, &h, 16, 20);
    push_str(out, "-");
    push_range(out, &h, 20, 32);
    assert(out@ =~= start + uuid_text(id));
}

/// The hyphenated lower-case rendering of the UUID `id`.
pub fn uuid_string(id: u128) -> (s: String)
    ensures
        s@ == uuid_text(id),
{
    let mut v: Vec<char> = Vec::new();
    push_uuid(id, &mut v);
    assert(v@ =~= uuid_text(id));
    string_of(&v)
}

/// The position of the last `c` in `s`, if `c` occurs in it.
pub open spec fn last_index_of(s: Seq<char>, c: char) -> Option<int>
    decreases s.len(),
{
    if s.len() == 0 {
        None
    } else if s.last() == c {
        Some(s.len() - 1)
    } else {
        last_index_of(s.drop_last(), c)
    }
}

/// The text after the last `/` of `path`, or all of it when it has none.
pub open spec fn last_segment(path: Seq<char>) -> Seq<char> {
    match last_index_of(path, '/') {
        Some(k) => path.subrange(k + 1, path.len() as int),
        None => path,
    }
}

/// Whether `name` is a file name of its own: not empty, and neither `.`
/// nor `..`.
pub open spec fn plain_name(name: Seq<char>) -> bool {
    name.len() > 0 && name != seq!['.'] && name != seq!['.', '.']
}

/// The stem of a file name: the text before its last `.`; the whole name
/// when it has no `.`, or when its only `.` leads it.
pub open spec fn stem_of_name(name: Seq<char>) -> Seq<char> {
    match last_index_of(name, '.') {
        Some(k) => if k == 0 {
            name
        } else {
            name.subrange(0, k)
        },
        None => name,
    }
}

/// The stem that `std::path::Path::file_stem` finds in `path`, if any.
pub uninterp spec fn path_file_stem(path: Seq<char>) -> Option<Seq<char>>;

/// `std::path::Path::file_stem` of `path`, as text. Its result is named by
/// `path_file_stem`. Where the text after the last `/` is a plain file
/// name, the contract gives the stem as the standard library documents it:
/// the name before its last `.`, or the whole name when it has no `.` or
/// only a leading one. What the standard library makes of a path whose
/// last segment is empty, `.` or `..` is left to the name.
#[verifier::external_body]
fn file_stem(path: &str) -> (stem: Option<String>)
    ensures
        opt_text(stem) == path_file_stem(path@),
        plain_name(last_segment(path@)) ==> opt_text(stem) == Some(
            stem_of_name(last_segment(path@)),
        ),
{
    match std::path::Path::new(path).file_stem() {
        Some(s) => Some(s.to_string_lossy().into_owned()),
        None => None,
    }
}

/// The stem of the output's name: the upload's file stem, or `output`
/// when it has none.
pub open spec fn output_stem(filename: Seq<char>) -> Seq<char> {
    match path_file_stem(filename) {
        Some(s) => s,
        None => "output"@,
    }
}

/// The key of a job's upload: `<id>/<filename>`.
pub open spec fn input_key_text(id: u128, filename: Seq<char>) -> Seq<char> {
    uuid_text(id) + "/"@ + filename
}

/// The key of a job's merged output: `<id>/<stem>.<format>`.
pub open spec fn output_key_text(id: u128, filename: Seq<char>, output_format: Seq<char>) -> Seq<char> {
    uuid_text(id) + "/"@ + output_stem(filename) + "."@ + output_format
}

/// The key of one transcoded chunk: `<id>/chunks/chunk_NNNN.<format>`.
pub open spec fn chunk_key_text(id: u128, index: nat, output_format: Seq<char>) -> Seq<char> {
    uuid_text(id) + "/chunks/"@ + chunk_file_text(index, output_format)
}

/// The key that job `id`'s upload is stored under.
pub fn input_key(id: u128, filename: &str) -> (key: String)
    ensures
        key@ == input_key_text(id, filename@),
{
    let mut v: Vec<char> = Vec::new();
    push_uuid(id, &mut v);
    push_str(&mut v, "/");
    push_str(&mut v, filename);
    assert(v@ =~= input_key_text(id, filename@));
    string_of(&v)
}

/// The stem of the output's name for an upload called `filename`.
pub fn output_stem_of(filename: &str) -> (stem: String)
    ensures
        stem@ == output_stem(filename@),
        plain_name(last_segment(filename@)) ==> stem@ == stem_of_name(last_segment(filename@)),
{
    match file_stem(filename) {
        Some(s) => s,
        None => "output".to_owned(),
    }
}

/// The key that the merged output of job `id` is stored under.
pub fn final_output_key(id: u128, filename: &str, output_format: &str) -> (key: String)
    ensures
        key@ == output_key_text(id, filename@, output_format@),
        plain_name(last_segment(filename@)) ==> key@ == uuid_text(id) + "/"@ + stem_of_name(
            last_segment(filename@),
        ) + "."@ + output_format@,
{
    let stem = output_stem_of(filename);
    let mut v: Vec<char> = Vec::new();
    push_uuid(id, &mut v);
    push_str(&mut v, "/");
    push_str(&mut v, stem.as_str());
    push_str(&mut v, ".");
    push_str(&mut v, output_format);
    assert(v@ =~= output_key_text(id, filename@, output_format@));
    string_of(&v)
}

/// The key that chunk `index` of job `id` is stored under.
pub fn chunk_key(id: u128, index: usize, output_format: &str) -> (key: String)
    ensures
        key@ == chunk_key_text(id, index as nat, output_format@),
{
    let mut v: Vec<char> = Vec::new();
    push_uuid(id, &mut v);
    push_str(&mut v, "/chunks/");
    push_chunk_file_name(&mut v, index, output_format);
    assert(v@ =~= chunk_key_text(id, index as nat, output_format@));
    string_of(&v)
}

} // verus!
