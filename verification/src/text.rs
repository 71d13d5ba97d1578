//! Character-level text helpers with exact specifications: decimal and
//! hexadecimal rendering, prefix and substring tests, line splitting and
//! joining.

use vstd::prelude::*;

verus! {

/// The character for a digit value below 16, lower-case for values from ten.
pub open spec fn hex_char(d: nat) -> char {
    if d < 10 {
        (('0' as nat) + d) as char
    } else {
        (('a' as nat) + (d - 10)) as char
    }
}

/// The decimal rendering of `n`, without sign or leading zeros.
pub open spec fn decimal(n: nat) -> Seq<char>
    decreases n,
{
    if n < 10 {
        seq![hex_char(n)]
    } else {
        decimal(n / 10).push(hex_char(n % 10))
    }
}

/// The `width` lowest hexadecimal digits of `n`, most significant first.
pub open spec fn hex_fixed(n: nat, width: nat) -> Seq<char>
    decreases width,
{
    if width == 0 {
        Seq::empty()
    } else {
        hex_fixed(n / 16, (width - 1) as nat).push(hex_char(n % 16))
    }
}

fn digit_char(d: u8) -> (c: char)
    requires
        d < 16,
    ensures
        c == hex_char(d as nat),
{
    if d < 10 {
        ((48u8 + d) as char)
    } else {
        ((97u8 + (d - 10)) as char)
    }
}

/// Appends the decimal rendering of `n` to `out`.
pub fn push_decimal(n: u64, out: &mut Vec<char>)
    ensures
        final(out)@ == old(out)@ + decimal(n as nat),
    decreases n,
{
    if n < 10 {
        out.push(digit_char(n as u8));
        assert(decimal(n as nat) == seq![hex_char(n as nat)]);
    } else {
        push_decimal(n / 10, out);
        out.push(digit_char((n % 10) as u8));
    }
}


/// `String::push`: the string afterwards holds its former characters
/// followed by `c`.
#[verifier::external_body]
fn push_char(s: &mut String, c: char)
    ensures
        final(s)@ == old(s)@.push(c),
{
    s.push(c);
}

/// The characters of `s`, in order.
pub fn chars_of(s: &str) -> (v: Vec<char>)
    ensures
        v@ == s@,
{
    broadcast use vstd::string::group_string_axioms;

    let mut v: Vec<char> = Vec::new();
    for c in it: s.chars()
        invariant
            it.seq() == s@,
            v@ == s@.take(it.index() as int),
    {
        v.push(c);
        assert(s@.take(it.index() + 1) == s@.take(it.index() as int).push(c));
    }
    v
}

/// A string holding exactly the characters of `v`.
pub fn string_of(v: &Vec<char>) -> (s: String)
    ensures
        s@ == v@,
{
    let mut s = String::new();
    for i in 0..v.len()
        invariant
            s@ == v@.take(i as int),
    {
        push_char(&mut s, v[i]);
        assert(v@.take(i + 1) == v@.take(i as int).push(v@[i as int]));
    }
    assert(v@.take(v.len() as int) == v@);
    s
}


/// Appends the `width` lowest hexadecimal digits of `n` to `out`.
pub fn push_hex_fixed(n: u128, width: u32, out: &mut Vec<char>)
    ensures
        final(out)@ == old(out)@ + hex_fixed(n as nat, width as nat),
    decreases width,
{
    if width > 0 {
        push_hex_fixed(n / 16, width - 1, out);
        out.push(digit_char((n % 16) as u8));
    } else {
        assert(hex_fixed(n as nat, 0) == Seq::<char>::empty());
        assert(old(out)@ + Seq::<char>::empty() == old(out)@);
    }
}

/// Appends the characters of `s` to `out`.
pub fn push_str(out: &mut Vec<char>, s: &str)
    ensures
        final(out)@ == old(out)@ + s@,
{
    let mut chars = chars_of(s);
    out.append(&mut chars);
}

/// Appends the characters of `v` to `out`.
pub fn push_chars(out: &mut Vec<char>, v: &Vec<char>)
    ensures
        final(out)@ == old(out)@ + v@,
{
    let ghost start = out@;
    for i in 0..v.len()
        invariant
            out@ == start + v@.take(i as int),
    {
        out.push(v[i]);
        assert(v@.take(i + 1) == v@.take(i as int).push(v@[i as int]));
    }
    assert(v@.take(v.len() as int) == v@);
}

/// Whether `line` begins with the characters of `prefix`.
pub fn starts_with(line: &Vec<char>, prefix: &str) -> (b: bool)
    ensures
        b == prefix@.is_prefix_of(line@),
{
    let p = chars_of(prefix);
    if p.len() > line.len() {
        return false;
    }
    for i in 0..p.len()
        invariant
            p@ == prefix@,
            p.len() <= line.len(),
            forall|j: int| 0 <= j < i ==> p@[j] == line@[j],
    {
        if p[i] != line[i] {
            return false;
        }
    }
    true
}

/// Whether `pat` occurs in `s` starting exactly at index `i`.
pub open spec fn occurs_at(s: Seq<char>, pat: Seq<char>, i: int) -> bool {
    0 <= i && i + pat.len() <= s.len() && s.subrange(i, i + pat.len()) == pat
}

/// The first index at or after `i` where `pat` occurs in `s`.
pub open spec fn find_from(s: Seq<char>, pat: Seq<char>, i: int) -> Option<int>
    decreases s.len() + 1 - i,
{
    if i < 0 || i + pat.len() > s.len() {
        None
    } else if occurs_at(s, pat, i) {
        Some(i)
    } else {
        find_from(s, pat, i + 1)
    }
}

/// Whether `pat` occurs anywhere in `s`.
pub open spec fn contains_text(s: Seq<char>, pat: Seq<char>) -> bool {
    find_from(s, pat, 0) is Some
}

pub proof fn lemma_find_from_bounds(s: Seq<char>, pat: Seq<char>, i: int)
    ensures
        find_from(s, pat, i) matches Some(k) ==> i <= k && occurs_at(s, pat, k),
    decreases s.len() + 1 - i,
{
    if !(i < 0 || i + pat.len() > s.len()) && !occurs_at(s, pat, i) {
        lemma_find_from_bounds(s, pat, i + 1);
    }
}

fn occurs_at_exec(s: &Vec<char>, pat: &Vec<char>, i: usize) -> (b: bool)
    requires
        i + pat.len() <= s.len(),
    ensures
        b == occurs_at(s@, pat@, i as int),
{
    for j in 0..pat.len()
        invariant
            i + pat.len() <= s.len(),
            forall|k: int| 0 <= k < j ==> s@[i + k] == pat@[k],
    {
        if s[i + j] != pat[j] {
            assert(s@.subrange(i as int, i + pat.len())[j as int] != pat@[j as int]);
            return false;
        }
    }
    assert(s@.subrange(i as int, i + pat.len()) =~= pat@);
    true
}

/// The first index at or after `start` where `pat` occurs in `s`.
pub fn find(s: &Vec<char>, pat: &Vec<char>, start: usize) -> (r: Option<usize>)
    ensures
        r matches Some(k) ==> find_from(s@, pat@, start as int) == Some(k as int),
        r is None ==> find_from(s@, pat@, start as int) is None,
{
    if pat.len() > s.len() || start > s.len() - pat.len() {
        return None;
    }
    let last = s.len() - pat.len();
    let mut i = start;
    loop
        invariant
            pat.len() <= s.len(),
            last == s.len() - pat.len(),
            start <= i <= last,
            find_from(s@, pat@, start as int) == find_from(s@, pat@, i as int),
        decreases last - i,
    {
        if occurs_at_exec(s, pat, i) {
            return Some(i);
        }
        if i == last {
            return None;
        }
        i = i + 1;
    }
}

/// Unicode `White_Space`, the property behind `char::is_whitespace`.
pub open spec fn is_white(c: char) -> bool {
    ||| ('\u{9}' <= c && c <= '\u{d}')
    ||| c == ' '
    ||| c == '\u{85}'
    ||| c == '\u{a0}'
    ||| c == '\u{1680}'
    ||| ('\u{2000}' <= c && c <= '\u{200a}')
    ||| c == '\u{2028}'
    ||| c == '\u{2029}'
    ||| c == '\u{202f}'
    ||| c == '\u{205f}'
    ||| c == '\u{3000}'
}

/// A line is blank when trimming its whitespace leaves nothing.
pub open spec fn is_blank(s: Seq<char>) -> bool {
    forall|i: int| 0 <= i < s.len() ==> is_white(#[trigger] s[i])
}

fn is_white_exec(c: char) -> (b: bool)
    ensures
        b == is_white(c),
{
    ('\u{9}' <= c && c <= '\u{d}') || c == ' ' || c == '\u{85}' || c == '\u{a0}' || c == '\u{1680}'
        || ('\u{2000}' <= c && c <= '\u{200a}') || c == '\u{2028}' || c == '\u{2029}' || c
        == '\u{202f}' || c == '\u{205f}' || c == '\u{3000}'
}

/// Whether every character of `s` is whitespace.
pub fn blank(s: &Vec<char>) -> (b: bool)
    ensures
        b == is_blank(s@),
{
    for i in 0..s.len()
        invariant
            forall|j: int| 0 <= j < i ==> is_white(#[trigger] s@[j]),
    {
        if !is_white_exec(s[i]) {
            return false;
        }
    }
    true
}

/// A line with the carriage return of a `\r\n` ending removed.
pub open spec fn strip_cr(l: Seq<char>) -> Seq<char> {
    if l.len() > 0 && l.last() == '\r' {
        l.drop_last()
    } else {
        l
    }
}

/// The lines ended so far and the line in progress, after one more character.
pub open spec fn scan_char(st: (Seq<Seq<char>>, Seq<char>), c: char) -> (Seq<Seq<char>>, Seq<char>) {
    if c == '\n' {
        (st.0.push(strip_cr(st.1)), Seq::empty())
    } else {
        (st.0, st.1.push(c))
    }
}

/// The lines ended and the line in progress after reading `s`, starting from `st`.
pub open spec fn scan_from(st: (Seq<Seq<char>>, Seq<char>), s: Seq<char>) -> (Seq<Seq<char>>, Seq<char>)
    decreases s.len(),
{
    if s.len() == 0 {
        st
    } else {
        scan_char(scan_from(st, s.drop_last()), s.last())
    }
}

/// After reading `s`: the lines that a `\n` has ended, and the line in progress.
pub open spec fn line_scan(s: Seq<char>) -> (Seq<Seq<char>>, Seq<char>) {
    scan_from((Seq::empty(), Seq::empty()), s)
}

/// Reading `s + t` is reading `s`, then `t`.
pub proof fn lemma_scan_concat(st: (Seq<Seq<char>>, Seq<char>), s: Seq<char>, t: Seq<char>)
    ensures
        scan_from(st, s + t) == scan_from(scan_from(st, s), t),
    decreases t.len(),
{
    if t.len() == 0 {
        assert(s + t =~= s);
    } else {
        assert((s + t).drop_last() =~= s + t.drop_last());
        assert((s + t).last() == t.last());
        lemma_scan_concat(st, s, t.drop_last());
    }
}

/// Lines ended before reading `t` stay in front of those that `t` ends.
pub proof fn lemma_scan_keeps_done(d: Seq<Seq<char>>, c: Seq<char>, t: Seq<char>)
    ensures
        scan_from((d, c), t) == (d + scan_from((Seq::empty(), c), t).0, scan_from(
            (Seq::empty(), c),
            t,
        ).1),
    decreases t.len(),
{
    if t.len() == 0 {
        assert(d + Seq::<Seq<char>>::empty() =~= d);
    } else {
        lemma_scan_keeps_done(d, c, t.drop_last());
        let inner = scan_from((Seq::<Seq<char>>::empty(), c), t.drop_last());
        assert((d + inner.0).push(strip_cr(inner.1)) =~= d + inner.0.push(strip_cr(inner.1)));
    }
}

/// Text without a line break only extends the line in progress.
pub proof fn lemma_scan_no_newline(st: (Seq<Seq<char>>, Seq<char>), t: Seq<char>)
    requires
        !t.contains('\n'),
    ensures
        scan_from(st, t) == (st.0, st.1 + t),
    decreases t.len(),
{
    if t.len() == 0 {
        assert(st.1 + t =~= st.1);
    } else {
        assert(!t.drop_last().contains('\n')) by {
            if t.drop_last().contains('\n') {
                let i = choose|i: int| 0 <= i < t.drop_last().len() && t.drop_last()[i] == '\n';
                assert(t[i] == '\n');
            }
        }
        assert(t.last() != '\n') by {
            assert(t[t.len() - 1] == t.last());
        }
        lemma_scan_no_newline(st, t.drop_last());
        assert((st.1 + t.drop_last()).push(t.last()) =~= st.1 + t);
    }
}

/// The line in progress ends with the last character read, unless that
/// character ended a line.
pub proof fn lemma_scan_tail(s: Seq<char>)
    ensures
        line_scan(s).1.len() > 0 ==> s.len() > 0 && line_scan(s).1.last() == s.last(),
{
}

/// A pattern that occurs at or after `i` is found from `i`.
pub proof fn lemma_occurrence_is_found(s: Seq<char>, pat: Seq<char>, i: int, p: int)
    requires
        0 <= i <= p,
        occurs_at(s, pat, p),
    ensures
        find_from(s, pat, i) is Some,
    decreases p - i,
{
    if !occurs_at(s, pat, i) {
        lemma_occurrence_is_found(s, pat, i + 1, p);
    }
}

/// Text without a line break is one line, or none when it is empty.
pub proof fn lemma_one_line(l: Seq<char>)
    requires
        !l.contains('\n'),
    ensures
        lines_of(l) == (if l.len() == 0 {
            Seq::<Seq<char>>::empty()
        } else {
            seq![l]
        }),
{
    lemma_scan_no_newline((Seq::empty(), Seq::empty()), l);
    assert(Seq::<char>::empty() + l =~= l);
    assert(Seq::<Seq<char>>::empty().push(l) =~= seq![l]);
}

/// The lines of `s` as `str::lines` yields them: split at `\n`, a `\r`
/// directly before it dropped, and no empty line after a final `\n`.
pub open spec fn lines_of(s: Seq<char>) -> Seq<Seq<char>> {
    let (done, cur) = line_scan(s);
    if cur.len() == 0 {
        done
    } else {
        done.push(cur)
    }
}

/// The character sequences held by a vector of character vectors.
pub open spec fn views(v: Seq<Vec<char>>) -> Seq<Seq<char>> {
    v.map_values(|x: Vec<char>| x@)
}

pub proof fn lemma_views_push(v: Seq<Vec<char>>, x: Vec<char>)
    ensures
        views(v.push(x)) == views(v).push(x@),
{
    assert(views(v.push(x)) =~= views(v).push(x@));
}

/// The lines of `s`, as `str::lines` splits them.
pub fn split_lines(s: &Vec<char>) -> (ls: Vec<Vec<char>>)
    ensures
        views(ls@) == lines_of(s@),
{
    let mut done: Vec<Vec<char>> = Vec::new();
    let mut cur: Vec<char> = Vec::new();
    assert(views(done@) =~= Seq::<Seq<char>>::empty());
    assert(s@.take(0) =~= Seq::<char>::empty());
    for i in 0..s.len()
        invariant
            (views(done@), cur@) == line_scan(s@.take(i as int)),
    {
        let c = s[i];
        assert(s@.take(i + 1).drop_last() == s@.take(i as int));
        assert(s@.take(i + 1).last() == c);
        if c == '\n' {
            if cur.len() > 0 && cur[cur.len() - 1] == '\r' {
                cur.pop();
            }
            proof {
                lemma_views_push(done@, cur);
            }
            done.push(cur);
            cur = Vec::new();
            assert(cur@ =~= Seq::<char>::empty());
        } else {
            cur.push(c);
        }
    }
    assert(s@.take(s.len() as int) == s@);
    if cur.len() > 0 {
        proof {
            lemma_views_push(done@, cur);
        }
        done.push(cur);
    }
    done
}

/// Each element of a list occurs in the list joined.
pub proof fn lemma_join_holds_each(list: Seq<Seq<char>>, sep: Seq<char>, k: int)
    requires
        0 <= k < list.len(),
    ensures
        contains_text(join(list, sep), list[k]),
    decreases list.len(),
{
    let j = join(list, sep);
    if list.len() == 1 {
        assert(j.subrange(0, list[k].len() as int) =~= list[k]);
        lemma_occurrence_is_found(j, list[k], 0, 0);
    } else {
        let front = join(list.drop_last(), sep);
        if k == list.len() - 1 {
            let p: int = (front.len() + sep.len()) as int;
            assert(j.subrange(p, p + list[k].len()) =~= list[k]);
            lemma_occurrence_is_found(j, list[k], 0, p);
        } else {
            lemma_join_holds_each(list.drop_last(), sep, k);
            assert(list.drop_last()[k] == list[k]);
            lemma_find_from_bounds(front, list[k], 0);
            let p = find_from(front, list[k], 0)->Some_0;
            assert(j.subrange(p, p + list[k].len()) =~= front.subrange(p, p + list[k].len()));
            lemma_occurrence_is_found(j, list[k], 0, p);
        }
    }
}

/// The elements of `list` with `sep` between each neighbouring pair.
pub open spec fn join(list: Seq<Seq<char>>, sep: Seq<char>) -> Seq<char>
    decreases list.len(),
{
    if list.len() == 0 {
        Seq::empty()
    } else if list.len() == 1 {
        list[0]
    } else {
        join(list.drop_last(), sep) + sep + list.last()
    }
}

/// The elements of `list` with `sep` between each neighbouring pair.
pub fn join_with(list: &Vec<Vec<char>>, sep: &str) -> (r: Vec<char>)
    ensures
        r@ == join(views(list@), sep@),
{
    let mut r: Vec<char> = Vec::new();
    let sepv = chars_of(sep);
    for i in 0..list.len()
        invariant
            sepv@ == sep@,
            r@ == join(views(list@).take(i as int), sep@),
    {
        let ghost taken = views(list@).take(i + 1);
        assert(taken.drop_last() == views(list@).take(i as int));
        assert(taken.last() == list@[i as int]@);
        if i > 0 {
            push_chars(&mut r, &sepv);
        } else {
            assert(r@ =~= Seq::<char>::empty());
        }
        push_chars(&mut r, &list[i]);
        assert(r@ == join(taken, sep@));
    }
    assert(views(list@).take(list.len() as int) == views(list@));
    r
}


/// The character sequences held by a vector of strings.
pub open spec fn strings(v: Seq<String>) -> Seq<Seq<char>> {
    v.map_values(|x: String| x@)
}

/// Appends an owned copy of `s` to `list`.
pub fn push_string(list: &mut Vec<String>, s: &str)
    ensures
        strings(final(list)@) == strings(old(list)@).push(s@),
{
    let owned = s.to_owned();
    list.push(owned);
    assert(strings(list@) =~= strings(old(list)@).push(s@));
}

/// Appends `s` to `list`.
pub fn push_owned(list: &mut Vec<String>, s: String)
    ensures
        strings(final(list)@) == strings(old(list)@).push(s@),
{
    let ghost v = s@;
    list.push(s);
    assert(strings(list@) =~= strings(old(list)@).push(v));
}

/// Appends a string holding the characters of `v` to `list`.
pub fn push_chars_as_string(list: &mut Vec<String>, v: &Vec<char>)
    ensures
        strings(final(list)@) == strings(old(list)@).push(v@),
{
    let owned = string_of(v);
    list.push(owned);
    assert(strings(list@) =~= strings(old(list)@).push(v@));
}

/// Appends the strings of `more` to `list`.
pub fn extend_strings(list: &mut Vec<String>, more: Vec<String>)
    ensures
        strings(final(list)@) == strings(old(list)@) + strings(more@),
{
    let ghost added = more@;
    let mut more = more;
    list.append(&mut more);
    assert(strings(list@) =~= strings(old(list)@) + strings(added));
}


/// `d` with zeros in front up to `width` characters, as `{:0width$}` pads.
pub open spec fn zero_padded(d: Seq<char>, width: nat) -> Seq<char> {
    if d.len() < width {
        Seq::new((width - d.len()) as nat, |i: int| '0') + d
    } else {
        d
    }
}

/// Appends the decimal rendering of `n`, zero-padded to `width` characters.
pub fn push_padded_decimal(n: u64, width: usize, out: &mut Vec<char>)
    ensures
        final(out)@ == old(out)@ + zero_padded(decimal(n as nat), width as nat),
{
    let mut digits: Vec<char> = Vec::new();
    push_decimal(n, &mut digits);
    assert(digits@ =~= decimal(n as nat));
    let ghost start = out@;
    if digits.len() < width {
        let pad = width - digits.len();
        for i in 0..pad
            invariant
                out@ == start + Seq::new(i as nat, |k: int| '0'),
        {
            out.push('0');
            assert(Seq::new((i + 1) as nat, |k: int| '0') =~= Seq::new(i as nat, |k: int| '0').push('0'));
        }
    } else {
        assert(out@ =~= start);
    }
    push_chars(out, &digits);
    assert(out@ =~= start + zero_padded(decimal(n as nat), width as nat));
}

/// The text of `s` after its last `c` (all of `s` if it has none).
pub open spec fn after_last(s: Seq<char>, c: char) -> Seq<char>
    decreases s.len(),
{
    if s.len() == 0 {
        s
    } else if s.last() == c {
        Seq::empty()
    } else {
        after_last(s.drop_last(), c).push(s.last())
    }
}

/// The text of `s` after its last `c` (all of `s` if it has none).
pub fn text_after_last(s: &Vec<char>, c: char) -> (r: Vec<char>)
    ensures
        r@ == after_last(s@, c),
{
    let mut r: Vec<char> = Vec::new();
    assert(s@.take(0) =~= Seq::<char>::empty());
    for i in 0..s.len()
        invariant
            r@ == after_last(s@.take(i as int), c),
    {
        assert(s@.take(i + 1).drop_last() == s@.take(i as int));
        assert(s@.take(i + 1).last() == s@[i as int]);
        if s[i] == c {
            r = Vec::new();
            assert(r@ =~= Seq::<char>::empty());
        } else {
            r.push(s[i]);
        }
    }
    assert(s@.take(s.len() as int) == s@);
    r
}

/// Appends `v[from..to]` to `out`.
pub fn push_range(out: &mut Vec<char>, v: &Vec<char>, from: usize, to: usize)
    requires
        from <= to <= v.len(),
    ensures
        final(out)@ == old(out)@ + v@.subrange(from as int, to as int),
{
    let ghost start = out@;
    for i in from..to
        invariant
            to <= v.len(),
            out@ == start + v@.subrange(from as int, i as int),
    {
        out.push(v[i]);
        assert(v@.subrange(from as int, i + 1) == v@.subrange(from as int, i as int).push(v@[i as int]));
    }
}


/// Whether `a` and `b` hold the same characters.
pub fn same_text(a: &str, b: &str) -> (r: bool)
    ensures
        r == (a@ == b@),
{
    let x = chars_of(a);
    let y = chars_of(b);
    if x.len() != y.len() {
        return false;
    }
    for i in 0..x.len()
        invariant
            x@ == a@,
            y@ == b@,
            x.len() == y.len(),
            forall|j: int| 0 <= j < i ==> x@[j] == y@[j],
    {
        if x[i] != y[i] {
            assert(x@[i as int] != y@[i as int]);
            return false;
        }
    }
    assert(x@ =~= y@);
    true
}

/// `a` followed by `b`.
pub fn concat_text(a: &str, b: &str) -> (r: String)
    ensures
        r@ == a@ + b@,
{
    let mut v: Vec<char> = Vec::new();
    push_str(&mut v, a);
    push_str(&mut v, b);
    string_of(&v)
}

} // verus!
