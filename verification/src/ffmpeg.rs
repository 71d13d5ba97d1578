//! Reading ffmpeg's and ffprobe's output: the error summary that a failed
//! run is reported with, and the keyframe times that a probe lists.

use crate::text::{
    lemma_join_holds_each, lemma_one_line, blank, chars_of, contains_text, find, find_from, is_blank, join, join_with, lemma_find_from_bounds,
    lemma_scan_concat, lemma_scan_keeps_done, lemma_scan_no_newline, lemma_scan_tail, line_scan,
    lines_of, push_range, scan_from, split_lines, starts_with, string_of, strip_cr, views,
};
use vstd::prelude::*;

verus! {

/// Lines of ffmpeg's banner and progress output that say nothing about a failure.
pub open spec fn noise_prefix(line: Seq<char>) -> bool {
    ||| "ffmpeg version"@.is_prefix_of(line)
    ||| "  built with"@.is_prefix_of(line)
    ||| "  configuration:"@.is_prefix_of(line)
    ||| "  lib"@.is_prefix_of(line)
    ||| "Input #"@.is_prefix_of(line)
    ||| "Output #"@.is_prefix_of(line)
    ||| "  Duration:"@.is_prefix_of(line)
    ||| "  Metadata:"@.is_prefix_of(line)
    ||| "    "@.is_prefix_of(line)
    ||| "  Stream #"@.is_prefix_of(line)
    ||| "Stream mapping:"@.is_prefix_of(line)
    ||| "x265 [info]"@.is_prefix_of(line)
    ||| "Press [q]"@.is_prefix_of(line)
    ||| "frame="@.is_prefix_of(line)
    ||| "encoded "@.is_prefix_of(line)
}

/// A line that the error summary leaves out.
pub open spec fn is_noise(line: Seq<char>) -> bool {
    noise_prefix(line) || is_blank(line)
}

/// The text that precedes a component's address in ffmpeg's log lines.
pub open spec fn address_marker() -> Seq<char> {
    seq![' ', '@', ' ', '0', 'x']
}

pub open spec fn is_hex_digit(c: char) -> bool {
    ('0' <= c && c <= '9') || ('a' <= c && c <= 'f') || ('A' <= c && c <= 'F')
}

/// The end of the run of hexadecimal digits that starts at `j`.
pub open spec fn hex_run_end(s: Seq<char>, j: int) -> int
    decreases s.len() - j,
{
    if j < 0 || j >= s.len() || !is_hex_digit(s[j]) {
        j
    } else {
        hex_run_end(s, j + 1)
    }
}

pub proof fn lemma_hex_run_end_bounds(s: Seq<char>, j: int)
    requires
        0 <= j <= s.len(),
    ensures
        j <= hex_run_end(s, j) <= s.len(),
    decreases s.len() - j,
{
    if j < s.len() && is_hex_digit(s[j]) {
        lemma_hex_run_end_bounds(s, j + 1);
    }
}

/// `s` from index `i` on, with every address marker and the hexadecimal
/// digits after it removed.
pub open spec fn clean_from(s: Seq<char>, i: int) -> Seq<char>
    decreases s.len() - i,
    when 0 <= i <= s.len()
    via clean_from_decreases
{
    match find_from(s, address_marker(), i) {
        None => s.subrange(i, s.len() as int),
        Some(at) => s.subrange(i, at) + clean_from(s, hex_run_end(s, at + 5)),
    }
}

#[via_fn]
proof fn clean_from_decreases(s: Seq<char>, i: int) {
    lemma_find_from_bounds(s, address_marker(), i);
    if let Some(at) = find_from(s, address_marker(), i) {
        lemma_hex_run_end_bounds(s, at + 5);
    }
}

/// A line with its component addresses (` @ 0x…`) removed.
pub open spec fn cleaned(line: Seq<char>) -> Seq<char> {
    clean_from(line, 0)
}

/// The informative lines, cleaned, in their order.
pub open spec fn kept_lines(ls: Seq<Seq<char>>) -> Seq<Seq<char>> {
    ls.filter(|l: Seq<char>| !is_noise(l)).map_values(|l: Seq<char>| cleaned(l))
}

/// The lines that hold something besides whitespace.
pub open spec fn non_blank_lines(ls: Seq<Seq<char>>) -> Seq<Seq<char>> {
    ls.filter(|l: Seq<char>| !is_blank(l))
}

/// The summary of an ffmpeg failure: its informative lines, cleaned and
/// joined by newlines; failing that, its last non-blank line; failing
/// that, `unknown error`.
pub open spec fn ffmpeg_error_text(stderr: Seq<char>) -> Seq<char> {
    let ls = lines_of(stderr);
    let kept = kept_lines(ls);
    if kept.len() > 0 {
        join(kept, "\n"@)
    } else if non_blank_lines(ls).len() > 0 {
        non_blank_lines(ls).last()
    } else {
        "unknown error"@
    }
}

proof fn lemma_kept_lines_push_noise(ls: Seq<Seq<char>>, x: Seq<char>)
    requires
        is_noise(x),
    ensures
        kept_lines(ls.push(x)) == kept_lines(ls),
{
    reveal(Seq::filter);
    assert(ls.push(x).drop_last() =~= ls);
    assert(ls.push(x).filter(|l: Seq<char>| !is_noise(l)) == ls.filter(|l: Seq<char>| !is_noise(l)));
}

proof fn lemma_kept_lines_prepend_noise(x: Seq<char>, ls: Seq<Seq<char>>)
    requires
        is_noise(x),
    ensures
        kept_lines(seq![x] + ls) == kept_lines(ls),
{
    let p = |l: Seq<char>| !is_noise(l);
    Seq::filter_distributes_over_add(seq![x], ls, p);
    reveal(Seq::filter);
    assert(seq![x].drop_last() =~= Seq::<Seq<char>>::empty());
    assert(Seq::<Seq<char>>::empty().filter(p) =~= Seq::<Seq<char>>::empty());
    assert(seq![x].last() == x);
    assert(!p(x));
    assert(seq![x].filter(p) =~= Seq::<Seq<char>>::empty());
    assert(seq![x].filter(p) + ls.filter(p) =~= ls.filter(p));
}

proof fn lemma_real_line_is_kept(ls: Seq<Seq<char>>, i: int)
    requires
        0 <= i < ls.len(),
        !is_noise(ls[i]),
    ensures
        kept_lines(ls).len() > 0,
{
    let p = |l: Seq<char>| !is_noise(l);
    ls.lemma_filter_contains(p, i);
}

/// Once an error output holds a line that is not noise, a noise line
/// (banner, progress or blank) added after it or before it leaves its
/// summary as it was.
pub proof fn law_noise_lines_leave_the_summary(s: Seq<char>, n: Seq<char>, i: int)
    requires
        0 <= i < lines_of(s).len(),
        !is_noise(lines_of(s)[i]),
        !n.contains('\n'),
        !n.contains('\r'),
        is_noise(n),
    ensures
        !(s.len() > 0 && s.last() == '\r') ==> ffmpeg_error_text(s + seq!['\n'] + n)
            == ffmpeg_error_text(s),
        ffmpeg_error_text(n + seq!['\n'] + s) == ffmpeg_error_text(s),
{
    let e = (Seq::<Seq<char>>::empty(), Seq::<char>::empty());
    let nl = seq!['\n'];
    let (d, c) = line_scan(s);
    lemma_real_line_is_kept(lines_of(s), i);
    assert(n.len() > 0 ==> n.last() != '\r') by {
        if n.len() > 0 {
            assert(n[n.len() - 1] == n.last());
        }
    }
    assert(strip_cr(n) == n);
    // after
    if !(s.len() > 0 && s.last() == '\r') {
        lemma_scan_concat(e, s, nl);
        lemma_scan_concat(e, s + nl, n);
        lemma_scan_no_newline(scan_from(e, s + nl), n);
        assert(scan_from((d, c), nl) == (d.push(strip_cr(c)), Seq::<char>::empty())) by {
            assert(nl.drop_last() =~= Seq::<char>::empty());
            assert(scan_from((d, c), nl.drop_last()) == (d, c));
            assert(nl.last() == '\n');
        }
        lemma_scan_tail(s);
        let after = lines_of(s + nl + n);
        let blank_line = Seq::<char>::empty();
        assert(is_noise(blank_line));
        if c.len() > 0 {
            assert(strip_cr(c) == c);
            if n.len() > 0 {
                assert(after == lines_of(s).push(n));
                lemma_kept_lines_push_noise(lines_of(s), n);
            } else {
                assert(Seq::<char>::empty() + n =~= n);
                assert(after == lines_of(s));
            }
        } else {
            assert(Seq::<char>::empty() + n =~= n);
            lemma_kept_lines_push_noise(d, blank_line);
            if n.len() > 0 {
                assert(after == d.push(blank_line).push(n));
                lemma_kept_lines_push_noise(d.push(blank_line), n);
            } else {
                assert(after == d.push(blank_line));
            }
        }
    }
    // before
    lemma_scan_concat(e, n, nl);
    lemma_scan_concat(e, n + nl, s);
    lemma_scan_no_newline(e, n);
    assert(Seq::<char>::empty() + n =~= n);
    assert(scan_from((Seq::<Seq<char>>::empty(), n), nl) == (seq![n], Seq::<char>::empty())) by {
        assert(nl.drop_last() =~= Seq::<char>::empty());
        assert(scan_from((Seq::<Seq<char>>::empty(), n), nl.drop_last()) == (
            Seq::<Seq<char>>::empty(),
            n,
        ));
        assert(nl.last() == '\n');
        assert(Seq::<Seq<char>>::empty().push(n) =~= seq![n]);
    }
    lemma_scan_keeps_done(seq![n], Seq::empty(), s);
    let before = lines_of(n + nl + s);
    if c.len() > 0 {
        assert((seq![n] + d).push(c) =~= seq![n] + d.push(c));
    }
    assert(before =~= seq![n] + lines_of(s));
    lemma_kept_lines_prepend_noise(n, lines_of(s));
}

/// Every line of a failed run's error output that is not blank and starts
/// with none of the banner and progress prefixes (`ffmpeg version`,
/// `  built with`, `  configuration:`, `  lib`, `Input #`, `Output #`,
/// `  Duration:`, `  Metadata:`, four spaces, `  Stream #`,
/// `Stream mapping:`, `x265 [info]`, `Press [q]`, `frame=`, `encoded `)
/// reaches the summary, with its component addresses removed: an x265
/// error or warning, a line tagged `[component @ 0x…]`, any other
/// message.
pub proof fn law_informative_lines_reach_the_summary(stderr: Seq<char>, i: int)
    requires
        0 <= i < lines_of(stderr).len(),
        ({
            let l = lines_of(stderr)[i];
            !is_blank(l) && !"ffmpeg version"@.is_prefix_of(l)
            && !"  built with"@.is_prefix_of(l)
            && !"  configuration:"@.is_prefix_of(l)
            && !"  lib"@.is_prefix_of(l)
            && !"Input #"@.is_prefix_of(l)
            && !"Output #"@.is_prefix_of(l)
            && !"  Duration:"@.is_prefix_of(l)
            && !"  Metadata:"@.is_prefix_of(l)
            && !"    "@.is_prefix_of(l)
            && !"  Stream #"@.is_prefix_of(l)
            && !"Stream mapping:"@.is_prefix_of(l)
            && !"x265 [info]"@.is_prefix_of(l)
            && !"Press [q]"@.is_prefix_of(l)
            && !"frame="@.is_prefix_of(l)
            && !"encoded "@.is_prefix_of(l)
        }),
    ensures
        contains_text(ffmpeg_error_text(stderr), cleaned(lines_of(stderr)[i])),
{
    let ls = lines_of(stderr);
    let l = ls[i];
    assert(!is_noise(l));
    let p = |x: Seq<char>| !is_noise(x);
    ls.lemma_filter_contains(p, i);
    let f = ls.filter(p);
    let m = choose|m: int| 0 <= m < f.len() && f[m] == l;
    let kept = kept_lines(ls);
    assert(kept[m] == cleaned(l));
    lemma_join_holds_each(kept, "\n"@, m);
}

/// An error output of one informative line (not blank, and starting with
/// none of the banner and progress prefixes) is summarised by that line,
/// with its component addresses removed.
pub proof fn law_one_informative_line_is_the_summary(l: Seq<char>)
    requires
        !l.contains('\n'),
        !is_blank(l) && !"ffmpeg version"@.is_prefix_of(l)
            && !"  built with"@.is_prefix_of(l)
            && !"  configuration:"@.is_prefix_of(l)
            && !"  lib"@.is_prefix_of(l)
            && !"Input #"@.is_prefix_of(l)
            && !"Output #"@.is_prefix_of(l)
            && !"  Duration:"@.is_prefix_of(l)
            && !"  Metadata:"@.is_prefix_of(l)
            && !"    "@.is_prefix_of(l)
            && !"  Stream #"@.is_prefix_of(l)
            && !"Stream mapping:"@.is_prefix_of(l)
            && !"x265 [info]"@.is_prefix_of(l)
            && !"Press [q]"@.is_prefix_of(l)
            && !"frame="@.is_prefix_of(l)
            && !"encoded "@.is_prefix_of(l),
    ensures
        ffmpeg_error_text(l) == cleaned(l),
{
    lemma_one_line(l);
    assert(!is_noise(l));
    reveal(Seq::filter);
    assert(seq![l].drop_last() =~= Seq::<Seq<char>>::empty());
    assert(seq![l].filter(|x: Seq<char>| !is_noise(x)) =~= seq![l]);
    assert(kept_lines(seq![l]) =~= seq![cleaned(l)]);
}

/// An error output whose only line is banner or progress output (it starts
/// with `ffmpeg version`, `  built with`, `  configuration:`, `  lib`,
/// `Input #`, `Output #`, `  Duration:`, `  Metadata:`, four spaces,
/// `  Stream #`, `Stream mapping:`, `x265 [info]`, `Press [q]`, `frame=` or
/// `encoded `) and not blank is summarised by that line as it stands.
pub proof fn law_lone_banner_line_is_the_summary(l: Seq<char>)
    requires
        !l.contains('\n'),
        !is_blank(l),
        ({
            ||| "ffmpeg version"@.is_prefix_of(l)
            ||| "  built with"@.is_prefix_of(l)
            ||| "  configuration:"@.is_prefix_of(l)
            ||| "  lib"@.is_prefix_of(l)
            ||| "Input #"@.is_prefix_of(l)
            ||| "Output #"@.is_prefix_of(l)
            ||| "  Duration:"@.is_prefix_of(l)
            ||| "  Metadata:"@.is_prefix_of(l)
            ||| "    "@.is_prefix_of(l)
            ||| "  Stream #"@.is_prefix_of(l)
            ||| "Stream mapping:"@.is_prefix_of(l)
            ||| "x265 [info]"@.is_prefix_of(l)
            ||| "Press [q]"@.is_prefix_of(l)
            ||| "frame="@.is_prefix_of(l)
            ||| "encoded "@.is_prefix_of(l)
        }),
    ensures
        ffmpeg_error_text(l) == l,
{
    lemma_one_line(l);
    assert(is_noise(l));
    reveal(Seq::filter);
    assert(seq![l].drop_last() =~= Seq::<Seq<char>>::empty());
    assert(Seq::<Seq<char>>::empty().filter(|x: Seq<char>| !is_noise(x)) =~= Seq::<Seq<char>>::empty());
    assert(Seq::<Seq<char>>::empty().filter(|x: Seq<char>| !is_blank(x)) =~= Seq::<Seq<char>>::empty());
    assert(seq![l].filter(|x: Seq<char>| !is_noise(x)) =~= Seq::<Seq<char>>::empty());
    assert(seq![l].filter(|x: Seq<char>| !is_blank(x)) =~= seq![l]);
}

fn is_noise_line(line: &Vec<char>) -> (b: bool)
    ensures
        b == is_noise(line@),
{
    starts_with(line, "ffmpeg version") || starts_with(line, "  built with") || starts_with(
        line,
        "  configuration:",
    ) || starts_with(line, "  lib") || starts_with(line, "Input #") || starts_with(line, "Output #")
        || starts_with(line, "  Duration:") || starts_with(line, "  Metadata:") || starts_with(
        line,
        "    ",
    ) || starts_with(line, "  Stream #") || starts_with(line, "Stream mapping:") || starts_with(
        line,
        "x265 [info]",
    ) || starts_with(line, "Press [q]") || starts_with(line, "frame=") || starts_with(
        line,
        "encoded ",
    ) || blank(line)
}

fn is_hex_digit_exec(c: char) -> (b: bool)
    ensures
        b == is_hex_digit(c),
{
    ('0' <= c && c <= '9') || ('a' <= c && c <= 'f') || ('A' <= c && c <= 'F')
}

fn address_marker_chars() -> (m: Vec<char>)
    ensures
        m@ == address_marker(),
{
    let mut m: Vec<char> = Vec::new();
    m.push(' ');
    m.push('@');
    m.push(' ');
    m.push('0');
    m.push('x');
    assert(m@ =~= address_marker());
    m
}

/// `line` with every ` @ 0x` and the hexadecimal digits after it removed.
pub fn clean_line(line: &Vec<char>) -> (r: Vec<char>)
    ensures
        r@ == cleaned(line@),
{
    let marker = address_marker_chars();
    let mut out: Vec<char> = Vec::new();
    let mut pos: usize = 0;
    assert(out@ + cleaned(line@) =~= cleaned(line@));
    loop
        invariant
            marker@ == address_marker(),
            pos <= line.len(),
            out@ + clean_from(line@, pos as int) == cleaned(line@),
        decreases line.len() - pos,
    {
        let ghost before = out@;
        proof {
            lemma_find_from_bounds(line@, address_marker(), pos as int);
        }
        match find(line, &marker, pos) {
            None => {
                push_range(&mut out, line, pos, line.len());
                assert(out@ == before + clean_from(line@, pos as int));
                return out;
            },
            Some(at) => {
                push_range(&mut out, line, pos, at);
                let mut j = at + 5;
                while j < line.len() && is_hex_digit_exec(line[j])
                    invariant
                        at + 5 <= j <= line.len(),
                        hex_run_end(line@, at + 5) == hex_run_end(line@, j as int),
                    decreases line.len() - j,
                {
                    j = j + 1;
                }
                proof {
                    assert(before + clean_from(line@, pos as int) == before + (line@.subrange(
                        pos as int,
                        at as int,
                    ) + clean_from(line@, j as int)));
                    assert(before + (line@.subrange(pos as int, at as int) + clean_from(
                        line@,
                        j as int,
                    )) =~= out@ + clean_from(line@, j as int));
                }
                pos = j;
            },
        }
    }
}

/// The summary that a failed ffmpeg run is reported with: the lines of
/// `stderr` that are not banner, progress or blank, with component
/// addresses removed, joined by newlines; when none is left, the last
/// non-blank line; when there is none, `unknown error`.
pub fn extract_ffmpeg_errors(stderr: &str) -> (r: String)
    ensures
        r@ == ffmpeg_error_text(stderr@),
{
    let chars = chars_of(stderr);
    let ls = split_lines(&chars);
    let ghost all = views(ls@);
    let mut kept: Vec<Vec<char>> = Vec::new();
    let mut last_non_blank: Option<usize> = None;
    proof {
        reveal(Seq::filter);
        assert(all.take(0) =~= Seq::<Seq<char>>::empty());
        assert(views(kept@) =~= kept_lines(all.take(0)));
    }
    for i in 0..ls.len()
        invariant
            all == views(ls@),
            all.len() == ls.len(),
            views(kept@) == kept_lines(all.take(i as int)),
            match last_non_blank {
                Some(k) => k < i && non_blank_lines(all.take(i as int)).len() > 0
                    && non_blank_lines(all.take(i as int)).last() == all[k as int],
                None => non_blank_lines(all.take(i as int)).len() == 0,
            },
    {
        let line = &ls[i];
        let ghost prefix = all.take(i as int);
        let ghost next = all.take(i + 1);
        proof {
            reveal(Seq::filter);
            assert(next.drop_last() == prefix);
            assert(next.last() == line@);
        }
        if !is_noise_line(line) {
            let c = clean_line(line);
            proof {
                crate::text::lemma_views_push(kept@, c);
                assert(next.filter(|l: Seq<char>| !is_noise(l)) == prefix.filter(
                    |l: Seq<char>| !is_noise(l),
                ).push(line@));
                assert(kept_lines(next) =~= kept_lines(prefix).push(cleaned(line@)));
            }
            kept.push(c);
        } else {
            proof {
                assert(next.filter(|l: Seq<char>| !is_noise(l)) == prefix.filter(
                    |l: Seq<char>| !is_noise(l),
                ));
            }
        }
        if !blank(line) {
            last_non_blank = Some(i);
            proof {
                assert(non_blank_lines(next) == non_blank_lines(prefix).push(line@));
            }
        } else {
            proof {
                assert(non_blank_lines(next) == non_blank_lines(prefix));
            }
        }
    }
    assert(all.take(ls.len() as int) == all);
    assert(lines_of(stderr@) == all);
    if kept.len() > 0 {
        let joined = join_with(&kept, "\n");
        string_of(&joined)
    } else {
        match last_non_blank {
            Some(k) => string_of(&ls[k]),
            None => "unknown error".to_owned(),
        }
    }
}


/// A line of a failed concatenation's output that names the failure.
pub open spec fn mentions_error(line: Seq<char>) -> bool {
    ||| contains_text(line, "Error"@)
    ||| contains_text(line, "error"@)
    ||| contains_text(line, "Invalid"@)
    ||| contains_text(line, "No such"@)
}

/// The longest message that a failed concatenation is reported with.
pub open spec fn merge_message_limit() -> nat {
    500
}

/// The summary of a failed concatenation: the lines that name an error,
/// joined by `; `, cut to its first 500 characters.
pub open spec fn merge_error_text(stderr: Seq<char>) -> Seq<char> {
    let joined = join(lines_of(stderr).filter(|l: Seq<char>| mentions_error(l)), "; "@);
    if joined.len() <= merge_message_limit() {
        joined
    } else {
        joined.take(merge_message_limit() as int)
    }
}

/// A concatenation's failure summary never runs past 500 characters.
pub proof fn law_merge_message_is_bounded(stderr: Seq<char>)
    ensures
        merge_error_text(stderr).len() <= merge_message_limit(),
{
}

/// Every line of a failed concatenation's output that contains `Error`,
/// `error`, `Invalid` or `No such`, whatever it starts with, reaches the
/// summary whenever the summary was not cut short.
pub proof fn law_error_lines_reach_the_merge_summary(stderr: Seq<char>, i: int)
    requires
        0 <= i < lines_of(stderr).len(),
        ({
            let l = lines_of(stderr)[i];
            contains_text(l, "Error"@) || contains_text(l, "error"@) || contains_text(l, "Invalid"@)
                || contains_text(l, "No such"@)
        }),
        merge_error_text(stderr).len() < 500,
    ensures
        contains_text(merge_error_text(stderr), lines_of(stderr)[i]),
{
    let ls = lines_of(stderr);
    let p = |x: Seq<char>| mentions_error(x);
    ls.lemma_filter_contains(p, i);
    let f = ls.filter(p);
    let m = choose|m: int| 0 <= m < f.len() && f[m] == ls[i];
    lemma_join_holds_each(f, "; "@, m);
}

/// A one-line concatenation output of at most 500 characters is
/// summarised by that line when it contains `Error`, `error`, `Invalid` or
/// `No such`, and by nothing otherwise.
pub proof fn law_merge_summary_of_one_line(l: Seq<char>)
    requires
        !l.contains('\n'),
        l.len() <= 500,
    ensures
        merge_error_text(l) == if contains_text(l, "Error"@) || contains_text(l, "error"@)
            || contains_text(l, "Invalid"@) || contains_text(l, "No such"@) {
            l
        } else {
            Seq::<char>::empty()
        },
{
    lemma_one_line(l);
    reveal(Seq::filter);
    let p = |x: Seq<char>| mentions_error(x);
    assert(Seq::<Seq<char>>::empty().filter(p) =~= Seq::<Seq<char>>::empty());
    if l.len() > 0 {
        assert(seq![l].drop_last() =~= Seq::<Seq<char>>::empty());
        assert(seq![l].last() == l);
        if mentions_error(l) {
            assert(seq![l].filter(p) =~= seq![l]);
        } else {
            assert(seq![l].filter(p) =~= Seq::<Seq<char>>::empty());
        }
    }
}

fn contains_exec(line: &Vec<char>, pat: &Vec<char>) -> (b: bool)
    ensures
        b == contains_text(line@, pat@),
{
    find(line, pat, 0).is_some()
}

struct ErrorWords {
    upper: Vec<char>,
    lower: Vec<char>,
    invalid: Vec<char>,
    missing: Vec<char>,
}

fn mentions_error_exec(line: &Vec<char>, w: &ErrorWords) -> (b: bool)
    requires
        w.upper@ == "Error"@,
        w.lower@ == "error"@,
        w.invalid@ == "Invalid"@,
        w.missing@ == "No such"@,
    ensures
        b == mentions_error(line@),
{
    contains_exec(line, &w.upper) || contains_exec(line, &w.lower) || contains_exec(line, &w.invalid)
        || contains_exec(line, &w.missing)
}

/// The summary that a failed concatenation is reported with: the lines of
/// `stderr` that mention `Error`, `error`, `Invalid` or `No such`, joined
/// by `; ` and cut to 500 characters.
pub fn merge_error_summary(stderr: &str) -> (r: String)
    ensures
        r@ == merge_error_text(stderr@),
{
    let chars = chars_of(stderr);
    let ls = split_lines(&chars);
    let ghost all = views(ls@);
    let words = ErrorWords {
        upper: chars_of("Error"),
        lower: chars_of("error"),
        invalid: chars_of("Invalid"),
        missing: chars_of("No such"),
    };
    let mut picked: Vec<Vec<char>> = Vec::new();
    proof {
        reveal(Seq::filter);
        assert(all.take(0) =~= Seq::<Seq<char>>::empty());
        assert(views(picked@) =~= all.take(0).filter(|l: Seq<char>| mentions_error(l)));
    }
    for i in 0..ls.len()
        invariant
            all == views(ls@),
            all.len() == ls.len(),
            words.upper@ == "Error"@,
            words.lower@ == "error"@,
            words.invalid@ == "Invalid"@,
            words.missing@ == "No such"@,
            views(picked@) == all.take(i as int).filter(|l: Seq<char>| mentions_error(l)),
    {
        let ghost prefix = all.take(i as int);
        let ghost next = all.take(i + 1);
        proof {
            reveal(Seq::filter);
            assert(next.drop_last() == prefix);
            assert(next.last() == ls@[i as int]@);
        }
        if mentions_error_exec(&ls[i], &words) {
            let line = ls[i].clone();
            proof {
                crate::text::lemma_views_push(picked@, line);
            }
            picked.push(line);
        }
    }
    assert(all.take(ls.len() as int) == all);
    let joined = join_with(&picked, "; ");
    if joined.len() <= 500 {
        string_of(&joined)
    } else {
        let mut cut: Vec<char> = Vec::new();
        push_range(&mut cut, &joined, 0, 500);
        assert(cut@ =~= joined@.take(500));
        string_of(&cut)
    }
}

/// A probe line that describes a keyframe packet.
pub open spec fn is_keyframe_line(line: Seq<char>) -> bool {
    contains_text(line, ",K"@)
}

/// The text of a line before its first comma (all of it if it has none).
pub open spec fn first_field(line: Seq<char>) -> Seq<char> {
    match find_from(line, ","@, 0) {
        Some(k) => line.take(k),
        None => line,
    }
}

/// The timestamp fields of the keyframe lines of a packet listing.
pub open spec fn keyframe_fields(text: Seq<char>) -> Seq<Seq<char>> {
    lines_of(text).filter(|l: Seq<char>| is_keyframe_line(l)).map_values(
        |l: Seq<char>| first_field(l),
    )
}

/// From an ffprobe packet listing (`pts_time,flags` per line), the
/// timestamp text of each keyframe packet, in listing order.
pub fn keyframe_time_fields(text: &str) -> (r: Vec<String>)
    ensures
        crate::text::strings(r@) == keyframe_fields(text@),
{
    let chars = chars_of(text);
    let ls = split_lines(&chars);
    let ghost all = views(ls@);
    let marker = chars_of(",K");
    let comma = chars_of(",");
    let mut out: Vec<String> = Vec::new();
    proof {
        reveal(Seq::filter);
        assert(all.take(0) =~= Seq::<Seq<char>>::empty());
        assert(crate::text::strings(out@) =~= all.take(0).filter(
            |l: Seq<char>| is_keyframe_line(l),
        ).map_values(|l: Seq<char>| first_field(l)));
    }
    for i in 0..ls.len()
        invariant
            all == views(ls@),
            all.len() == ls.len(),
            marker@ == ",K"@,
            comma@ == ","@,
            crate::text::strings(out@) == all.take(i as int).filter(
                |l: Seq<char>| is_keyframe_line(l),
            ).map_values(|l: Seq<char>| first_field(l)),
    {
        let ghost prefix = all.take(i as int);
        let ghost next = all.take(i + 1);
        let line = &ls[i];
        proof {
            reveal(Seq::filter);
            assert(next.drop_last() == prefix);
            assert(next.last() == line@);
        }
        if contains_exec(line, &marker) {
            let field = match find(line, &comma, 0) {
                Some(k) => {
                    proof {
                        lemma_find_from_bounds(line@, ","@, 0);
                    }
                    let mut f: Vec<char> = Vec::new();
                    push_range(&mut f, line, 0, k);
                    assert(f@ =~= line@.take(k as int));
                    f
                },
                None => line.clone(),
            };
            assert(field@ == first_field(line@));
            crate::text::push_chars_as_string(&mut out, &field);
            proof {
                let p = |l: Seq<char>| is_keyframe_line(l);
                let m = |l: Seq<char>| first_field(l);
                assert(next.filter(p) == prefix.filter(p).push(line@));
                assert(next.filter(p).map_values(m) =~= prefix.filter(p).map_values(m).push(
                    field@,
                ));
            }
        } else {
            proof {
                let p = |l: Seq<char>| is_keyframe_line(l);
                assert(next.filter(p) == prefix.filter(p));
            }
        }
    }
    assert(all.take(ls.len() as int) == all);
    out
}


/// The text that `String::from_utf8_lossy` reads from `bytes`.
pub uninterp spec fn utf8_lossy_text(bytes: Seq<u8>) -> Seq<char>;

/// `String::from_utf8_lossy`: the text of `bytes`, each invalid sequence
/// replaced by U+FFFD. Valid UTF-8 reads back exactly; what replaces an
/// invalid sequence is left to the name `utf8_lossy_text`.
#[verifier::external_body]
fn decode_lossy(bytes: &[u8]) -> (s: String)
    ensures
        s@ == utf8_lossy_text(bytes@),
        vstd::utf8::valid_utf8(bytes@) ==> s@ == vstd::utf8::decode_utf8(bytes@),
{
    String::from_utf8_lossy(bytes).into_owned()
}

/// The message that a failed ffmpeg run is reported with, from the bytes
/// it wrote to its error stream.
pub fn ffmpeg_failure_message(stderr: &[u8]) -> (m: String)
    ensures
        m@ == ffmpeg_error_text(utf8_lossy_text(stderr@)),
{
    let text = decode_lossy(stderr);
    extract_ffmpeg_errors(text.as_str())
}

/// The message that a failed concatenation is reported with, from the
/// bytes ffmpeg wrote to its error stream: `ffmpeg: ` and the summary.
pub fn merge_failure_message(stderr: &[u8]) -> (m: String)
    ensures
        m@ == "ffmpeg: "@ + merge_error_text(utf8_lossy_text(stderr@)),
{
    let text = decode_lossy(stderr);
    let summary = merge_error_summary(text.as_str());
    crate::text::concat_text("ffmpeg: ", summary.as_str())
}

/// The keyframe timestamp texts in the bytes that an ffprobe packet
/// listing wrote.
pub fn keyframe_fields_of_output(stdout: &[u8]) -> (r: Vec<String>)
    ensures
        crate::text::strings(r@) == keyframe_fields(utf8_lossy_text(stdout@)),
{
    let text = decode_lossy(stdout);
    keyframe_time_fields(text.as_str())
}

} // verus!
