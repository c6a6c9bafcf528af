//! Text as sequences of characters: white space, trimming, and the two
//! ways in which a store is read line by line.
//!
//! A store is plain text. Its lines are the pieces between line breaks as
//! they stand, without the carriage returns of the line ends and without
//! the empty ones. Its records are those pieces with the white space at
//! both ends removed, without the blank ones.

use vstd::prelude::*;
use vstd::string::StringExecFns;

verus! {

/// `String::push` appends one character to the end of the string.
pub assume_specification[ String::push ](s: &mut String, c: char)
    ensures
        final(s)@ == old(s)@.push(c),
;

/// The line break that separates records.
pub open spec fn newline() -> char {
    '\n'
}

/// Unicode white space: the characters that trimming removes.
pub open spec fn is_space(c: char) -> bool {
    ||| '\u{9}' <= c <= '\u{d}'
    ||| c == ' '
    ||| c == '\u{85}'
    ||| c == '\u{a0}'
    ||| c == '\u{1680}'
    ||| '\u{2000}' <= c <= '\u{200a}'
    ||| c == '\u{2028}'
    ||| c == '\u{2029}'
    ||| c == '\u{202f}'
    ||| c == '\u{205f}'
    ||| c == '\u{3000}'
}

/// `s` without the white space at its start.
pub open spec fn trim_start(s: Seq<char>) -> Seq<char>
    decreases s.len(),
{
    if s.len() > 0 && is_space(s[0]) {
        trim_start(s.drop_first())
    } else {
        s
    }
}

/// `s` without the white space at its end.
pub open spec fn trim_end(s: Seq<char>) -> Seq<char>
    decreases s.len(),
{
    if s.len() > 0 && is_space(s.last()) {
        trim_end(s.drop_last())
    } else {
        s
    }
}

/// `s` without the white space at either end.
pub open spec fn trim(s: Seq<char>) -> Seq<char> {
    trim_end(trim_start(s))
}

/// Whether trimming leaves `s` as it is.
pub open spec fn is_trimmed(s: Seq<char>) -> bool {
    s.len() > 0 ==> !is_space(s[0]) && !is_space(s.last())
}

/// The position of the first `c` in `s`, or `s.len()` where there is none.
pub open spec fn index_of(s: Seq<char>, c: char) -> int
    decreases s.len(),
{
    if s.len() == 0 {
        0
    } else if s[0] == c {
        0
    } else {
        1 + index_of(s.drop_first(), c)
    }
}

/// Whether `c` occurs in `s`.
pub open spec fn has_char(s: Seq<char>, c: char) -> bool {
    exists|i: int| 0 <= i < s.len() && s[i] == c
}

/// The records of a store: its lines, trimmed, without the blank ones.
pub open spec fn records(s: Seq<char>) -> Seq<Seq<char>>
    decreases s.len(),
{
    if s.len() == 0 {
        Seq::empty()
    } else {
        let i = index_of(s, newline());
        let head = trim(s.take(i));
        let tail = if 0 <= i < s.len() {
            records(s.skip(i + 1))
        } else {
            Seq::empty()
        };
        if head.len() == 0 {
            tail
        } else {
            seq![head] + tail
        }
    }
}

/// The carriage return that a line end may hold before its line break.
pub open spec fn carriage_return() -> char {
    '\r'
}

/// `s` without the carriage returns at its end.
pub open spec fn without_line_end(s: Seq<char>) -> Seq<char>
    decreases s.len(),
{
    if s.len() > 0 && s.last() == carriage_return() {
        without_line_end(s.drop_last())
    } else {
        s
    }
}

/// The lines of a store as they stand: the pieces between line breaks,
/// each without the carriage returns of its line end, without the empty
/// ones. White space inside a line, at its start or at its end stays.
pub open spec fn lines(s: Seq<char>) -> Seq<Seq<char>>
    decreases s.len(),
{
    if s.len() == 0 {
        Seq::empty()
    } else {
        let i = index_of(s, newline());
        let head = without_line_end(s.take(i));
        let tail = if 0 <= i < s.len() {
            lines(s.skip(i + 1))
        } else {
            Seq::empty()
        };
        if head.len() == 0 {
            tail
        } else {
            seq![head] + tail
        }
    }
}

/// What a store may hold as one line: a text that is not empty, holds no
/// line break and does not end in a carriage return.
pub open spec fn is_line(r: Seq<char>) -> bool {
    &&& r.len() > 0
    &&& !has_char(r, newline())
    &&& r.last() != carriage_return()
}

/// Whether every one of `rs` may stand as a line in a store.
pub open spec fn all_lines(rs: Seq<Seq<char>>) -> bool {
    forall|i: int| 0 <= i < rs.len() ==> is_line(#[trigger] rs[i])
}

/// The lines `parts`, one after the other, with a line break between each two.
pub open spec fn join_lines(parts: Seq<Seq<char>>) -> Seq<char>
    decreases parts.len(),
{
    if parts.len() == 0 {
        Seq::empty()
    } else if parts.len() == 1 {
        parts[0]
    } else {
        parts[0] + seq![newline()] + join_lines(parts.drop_first())
    }
}

/// What a store may hold as one record: a trimmed, non-empty line.
pub open spec fn is_record(r: Seq<char>) -> bool {
    &&& r.len() > 0
    &&& is_trimmed(r)
    &&& !has_char(r, newline())
}

/// The views of the strings in `v`.
pub open spec fn views(v: Seq<String>) -> Seq<Seq<char>> {
    v.map_values(|s: String| s@)
}

/// The first `c` lies within `s`, nothing before it is `c`, and it is at
/// the end exactly where `s` holds no `c`.
pub(crate) proof fn lemma_index_of_bounds(s: Seq<char>, c: char)
    ensures
        0 <= index_of(s, c) <= s.len(),
        index_of(s, c) < s.len() ==> s[index_of(s, c)] == c,
        forall|j: int| 0 <= j < index_of(s, c) ==> s[j] != c,
        index_of(s, c) == s.len() <==> !has_char(s, c),
    decreases s.len(),
{
    if s.len() > 0 && s[0] != c {
        let t = s.drop_first();
        lemma_index_of_bounds(t, c);
        assert forall|j: int| 0 <= j < index_of(s, c) implies s[j] != c by {
            if j > 0 {
                assert(s[j] == t[j - 1]);
            }
        }
        if has_char(s, c) {
            let k = choose|k: int| 0 <= k < s.len() && s[k] == c;
            assert(t[k - 1] == c);
        }
        if has_char(t, c) {
            let k = choose|k: int| 0 <= k < t.len() && t[k] == c;
            assert(s[k + 1] == c);
        }
    } else if s.len() > 0 {
        assert(s[0] == c);
    }
}

/// The first `c` of `a + [c] + b` is at `a.len()` where `a` holds none.
pub(crate) proof fn lemma_index_of_concat(a: Seq<char>, c: char, b: Seq<char>)
    requires
        !has_char(a, c),
    ensures
        index_of(a + seq![c] + b, c) == a.len(),
    decreases a.len(),
{
    let s = a + seq![c] + b;
    if a.len() == 0 {
        assert(s[0] == c);
    } else {
        assert(s[0] == a[0]);
        assert(a[0] != c);
        assert(s.drop_first() =~= a.drop_first() + seq![c] + b);
        assert forall|i: int| 0 <= i < a.drop_first().len() implies a.drop_first()[i] != c by {
            assert(a.drop_first()[i] == a[i + 1]);
        }
        lemma_index_of_concat(a.drop_first(), c, b);
    }
}

/// Trimming the start leaves the end of `s`, takes only white space away,
/// and leaves no white space at the start.
pub(crate) proof fn lemma_trim_start_is_suffix(s: Seq<char>)
    ensures
        trim_start(s).len() <= s.len(),
        trim_start(s) == s.skip(s.len() - trim_start(s).len()),
        trim_start(s).len() > 0 ==> !is_space(trim_start(s)[0]),
        forall|j: int| 0 <= j < s.len() - trim_start(s).len() ==> is_space(#[trigger] s[j]),
    decreases s.len(),
{
    if s.len() > 0 && is_space(s[0]) {
        let t = s.drop_first();
        lemma_trim_start_is_suffix(t);
        let k = t.len() - trim_start(t).len();
        assert(t.skip(k) =~= s.skip(k + 1));
        assert forall|j: int| 0 <= j < s.len() - trim_start(s).len() implies is_space(
            #[trigger] s[j],
        ) by {
            if j > 0 {
                assert(s[j] == t[j - 1]);
            }
        }
    } else {
        assert(s.skip(0) =~= s);
    }
}

/// Trimming the end leaves the start of `s`, takes only white space away,
/// and leaves no white space at the end.
pub(crate) proof fn lemma_trim_end_is_prefix(s: Seq<char>)
    ensures
        trim_end(s).len() <= s.len(),
        trim_end(s) == s.take(trim_end(s).len() as int),
        trim_end(s).len() > 0 ==> !is_space(trim_end(s).last()),
        forall|j: int| trim_end(s).len() <= j < s.len() ==> is_space(#[trigger] s[j]),
    decreases s.len(),
{
    if s.len() > 0 && is_space(s.last()) {
        let t = s.drop_last();
        lemma_trim_end_is_prefix(t);
        assert(t.take(trim_end(t).len() as int) =~= s.take(trim_end(t).len() as int));
        assert forall|j: int| trim_end(s).len() <= j < s.len() implies is_space(
            #[trigger] s[j],
        ) by {
            if j < s.len() - 1 {
                assert(s[j] == t[j]);
            }
        }
    } else {
        assert(s.take(s.len() as int) =~= s);
    }
}

/// Trimming gives a trimmed text, and leaves a trimmed text alone.
pub proof fn lemma_trim_is_trimmed(s: Seq<char>)
    ensures
        is_trimmed(trim(s)),
        is_trimmed(s) ==> trim(s) == s,
        !has_char(s, newline()) ==> !has_char(trim(s), newline()),
{
    let a = trim_start(s);
    lemma_trim_start_is_suffix(s);
    lemma_trim_end_is_prefix(a);
    let t = trim(s);
    if t.len() > 0 {
        assert(t[0] == a[0]);
    }
    if has_char(t, newline()) {
        let k = choose|k: int| 0 <= k < t.len() && t[k] == newline();
        assert(a[k] == newline());
        assert(s[k + (s.len() - a.len())] == newline());
    }
}

/// Whether every one of `rs` may stand as a record in a store.
pub open spec fn all_records(rs: Seq<Seq<char>>) -> bool {
    forall|i: int| 0 <= i < rs.len() ==> is_record(#[trigger] rs[i])
}

/// Every record of a store is a trimmed, non-empty line.
pub proof fn lemma_records_are_records(s: Seq<char>)
    ensures
        all_records(records(s)),
    decreases s.len(),
{
    if s.len() > 0 {
        let i = index_of(s, newline());
        lemma_index_of_bounds(s, newline());
        let line = s.take(i);
        let head = trim(line);
        assert(!has_char(line, newline())) by {
            if has_char(line, newline()) {
                let k = choose|k: int| 0 <= k < line.len() && line[k] == newline();
                assert(s[k] == newline());
            }
        }
        lemma_trim_is_trimmed(line);
        let tail = if i < s.len() {
            records(s.skip(i + 1))
        } else {
            Seq::empty()
        };
        if i < s.len() {
            lemma_records_are_records(s.skip(i + 1));
        }
        if head.len() > 0 {
            let rs = seq![head] + tail;
            assert forall|k: int| 0 <= k < rs.len() implies is_record(#[trigger] rs[k]) by {
                if k > 0 {
                    assert(rs[k] == tail[k - 1]);
                }
            }
        }
    }
}

/// Writing records out and reading them back gives the same records.
pub proof fn lemma_records_of_join(rs: Seq<Seq<char>>)
    requires
        all_records(rs),
    ensures
        records(join_lines(rs)) == rs,
    decreases rs.len(),
{
    if rs.len() == 0 {
    } else {
        let r = rs[0];
        assert(is_record(r));
        lemma_trim_is_trimmed(r);
        if rs.len() == 1 {
            lemma_index_of_bounds(r, newline());
            assert(r.take(r.len() as int) =~= r);
            assert(seq![r] + Seq::<Seq<char>>::empty() =~= rs);
        } else {
            let rest = rs.drop_first();
            let s = join_lines(rs);
            assert forall|k: int| 0 <= k < rest.len() implies is_record(#[trigger] rest[k]) by {
                assert(rest[k] == rs[k + 1]);
            }
            lemma_records_of_join(rest);
            lemma_index_of_concat(r, newline(), join_lines(rest));
            assert(s.take(r.len() as int) =~= r);
            assert(s.skip(r.len() as int + 1) =~= join_lines(rest));
            assert(seq![r] + rest =~= rs);
        }
    }
}

/// What is left without its line end is the start of `s`, and does not end
/// in a carriage return.
pub(crate) proof fn lemma_without_line_end(s: Seq<char>)
    ensures
        without_line_end(s).len() <= s.len(),
        without_line_end(s) == s.take(without_line_end(s).len() as int),
        without_line_end(s).len() > 0 ==> without_line_end(s).last() != carriage_return(),
        s.len() > 0 && s.last() != carriage_return() ==> without_line_end(s) == s,
    decreases s.len(),
{
    if s.len() > 0 && s.last() == carriage_return() {
        let t = s.drop_last();
        lemma_without_line_end(t);
        assert(t.take(without_line_end(t).len() as int) =~= s.take(
            without_line_end(t).len() as int,
        ));
    } else {
        assert(s.take(s.len() as int) =~= s);
    }
}

/// Every line of a store is not empty, holds no line break and does not
/// end in a carriage return.
pub proof fn lemma_lines_are_lines(s: Seq<char>)
    ensures
        all_lines(lines(s)),
    decreases s.len(),
{
    if s.len() > 0 {
        let i = index_of(s, newline());
        lemma_index_of_bounds(s, newline());
        let piece = s.take(i);
        let head = without_line_end(piece);
        lemma_without_line_end(piece);
        assert(!has_char(head, newline())) by {
            if has_char(head, newline()) {
                let k = choose|k: int| 0 <= k < head.len() && head[k] == newline();
                assert(piece[k] == newline());
                assert(s[k] == newline());
            }
        }
        let tail = if i < s.len() {
            lines(s.skip(i + 1))
        } else {
            Seq::empty()
        };
        if i < s.len() {
            lemma_lines_are_lines(s.skip(i + 1));
        }
        if head.len() > 0 {
            let rs = seq![head] + tail;
            assert forall|k: int| 0 <= k < rs.len() implies is_line(#[trigger] rs[k]) by {
                if k > 0 {
                    assert(rs[k] == tail[k - 1]);
                }
            }
        }
    }
}

/// Writing lines out and reading them back gives the same lines.
pub proof fn lemma_lines_of_join(rs: Seq<Seq<char>>)
    requires
        all_lines(rs),
    ensures
        lines(join_lines(rs)) == rs,
    decreases rs.len(),
{
    if rs.len() == 0 {
    } else {
        let r = rs[0];
        assert(is_line(r));
        lemma_without_line_end(r);
        if rs.len() == 1 {
            lemma_index_of_bounds(r, newline());
            assert(r.take(r.len() as int) =~= r);
            assert(seq![r] + Seq::<Seq<char>>::empty() =~= rs);
        } else {
            let rest = rs.drop_first();
            let s = join_lines(rs);
            assert forall|k: int| 0 <= k < rest.len() implies is_line(#[trigger] rest[k]) by {
                assert(rest[k] == rs[k + 1]);
            }
            lemma_lines_of_join(rest);
            lemma_index_of_concat(r, newline(), join_lines(rest));
            assert(s.take(r.len() as int) =~= r);
            assert(s.skip(r.len() as int + 1) =~= join_lines(rest));
            assert(seq![r] + rest =~= rs);
        }
    }
}

/// Whether `c` is white space.
pub fn is_whitespace(c: char) -> (b: bool)
    ensures
        b == is_space(c),
{
    ('\u{9}' <= c && c <= '\u{d}') || c == ' ' || c == '\u{85}' || c == '\u{a0}' || c
        == '\u{1680}' || ('\u{2000}' <= c && c <= '\u{200a}') || c == '\u{2028}' || c
        == '\u{2029}' || c == '\u{202f}' || c == '\u{205f}' || c == '\u{3000}'
}

/// The characters of `s`, in order.
pub(crate) fn chars_of(s: &str) -> (v: Vec<char>)
    ensures
        v@ == s@,
{
    let mut v: Vec<char> = Vec::new();
    for c in it: s.chars()
        invariant
            v@ == s@.take(it.index() as int),
            it.seq() == s@,
    {
        v.push(c);
    }
    v
}

/// The string made of the characters `v[from..to]`.
pub(crate) fn string_of(v: &Vec<char>, from: usize, to: usize) -> (s: String)
    requires
        from <= to <= v.len(),
    ensures
        s@ == v@.subrange(from as int, to as int),
{
    let mut s = String::new();
    let mut i: usize = from;
    while i < to
        invariant
            from <= i <= to <= v.len(),
            s@ == v@.subrange(from as int, i as int),
        decreases to - i,
    {
        s.push(v[i]);
        i += 1;
    }
    s
}

/// The position of the first `c` in `v[from..to]`, or `to` where there is none.
pub(crate) fn find_char(v: &Vec<char>, from: usize, to: usize, c: char) -> (i: usize)
    requires
        from <= to <= v.len(),
    ensures
        from <= i <= to,
        i - from == index_of(v@.subrange(from as int, to as int), c),
{
    let mut i: usize = from;
    while i < to && v[i] != c
        invariant
            from <= i <= to <= v.len(),
            index_of(v@.subrange(from as int, to as int), c) == (i - from) + index_of(
                v@.subrange(i as int, to as int),
                c,
            ),
        decreases to - i,
    {
        proof {
            let s = v@.subrange(i as int, to as int);
            assert(s[0] == v@[i as int]);
            assert(s.drop_first() =~= v@.subrange(i + 1, to as int));
        }
        i += 1;
    }
    proof {
        let s = v@.subrange(i as int, to as int);
        if i < to {
            assert(s[0] == v@[i as int]);
        }
    }
    i
}

/// The bounds of `v[from..to]` without the white space at either end.
pub(crate) fn trim_bounds(v: &Vec<char>, from: usize, to: usize) -> (r: (usize, usize))
    requires
        from <= to <= v.len(),
    ensures
        from <= r.0 <= r.1 <= to,
        v@.subrange(r.0 as int, r.1 as int) == trim(v@.subrange(from as int, to as int)),
{
    let mut a: usize = from;
    while a < to && is_whitespace(v[a])
        invariant
            from <= a <= to <= v.len(),
            trim_start(v@.subrange(from as int, to as int)) == trim_start(
                v@.subrange(a as int, to as int),
            ),
        decreases to - a,
    {
        proof {
            let s = v@.subrange(a as int, to as int);
            assert(s[0] == v@[a as int]);
            assert(s.drop_first() =~= v@.subrange(a + 1, to as int));
        }
        a += 1;
    }
    proof {
        let s = v@.subrange(a as int, to as int);
        if a < to {
            assert(s[0] == v@[a as int]);
        }
        assert(trim_start(s) == s);
    }
    let mut b: usize = to;
    while b > a && is_whitespace(v[b - 1])
        invariant
            a <= b <= to <= v.len(),
            trim_end(v@.subrange(a as int, to as int)) == trim_end(
                v@.subrange(a as int, b as int),
            ),
        decreases b,
    {
        proof {
            let s = v@.subrange(a as int, b as int);
            assert(s.last() == v@[b - 1]);
            assert(s.drop_last() =~= v@.subrange(a as int, b - 1));
        }
        b -= 1;
    }
    proof {
        let s = v@.subrange(a as int, b as int);
        if b > a {
            assert(s.last() == v@[b - 1]);
        }
        assert(trim_end(s) == s);
    }
    (a, b)
}

/// `s` without the white space at either end.
pub fn trimmed(s: &str) -> (t: String)
    ensures
        t@ == trim(s@),
{
    let v = chars_of(s);
    let (a, b) = trim_bounds(&v, 0, v.len());
    proof {
        assert(v@.subrange(0, v.len() as int) =~= v@);
    }
    string_of(&v, a, b)
}

/// Whether `c` occurs in `s`.
pub fn contains_char(s: &str, c: char) -> (b: bool)
    ensures
        b == has_char(s@, c),
{
    let v = chars_of(s);
    let i = find_char(&v, 0, v.len(), c);
    proof {
        assert(v@.subrange(0, v.len() as int) =~= v@);
        lemma_index_of_bounds(v@, c);
    }
    i < v.len()
}

/// The end of `v[from..to]` without the carriage returns at its end.
pub(crate) fn line_end_bound(v: &Vec<char>, from: usize, to: usize) -> (b: usize)
    requires
        from <= to <= v.len(),
    ensures
        from <= b <= to,
        v@.subrange(from as int, b as int) == without_line_end(
            v@.subrange(from as int, to as int),
        ),
{
    let mut b: usize = to;
    while b > from && v[b - 1] == '\r'
        invariant
            from <= b <= to <= v.len(),
            without_line_end(v@.subrange(from as int, to as int)) == without_line_end(
                v@.subrange(from as int, b as int),
            ),
        decreases b,
    {
        proof {
            let s = v@.subrange(from as int, b as int);
            assert(s.last() == v@[b - 1]);
            assert(s.drop_last() =~= v@.subrange(from as int, b - 1));
        }
        b -= 1;
    }
    proof {
        let s = v@.subrange(from as int, b as int);
        if b > from {
            assert(s.last() == v@[b - 1]);
        }
        assert(without_line_end(s) == s);
    }
    b
}

/// The lines of the store text `content` as they stand, in their order.
pub fn split_lines(content: &str) -> (out: Vec<String>)
    ensures
        views(out@) == lines(content@),
{
    let v = chars_of(content);
    let n = v.len();
    let mut out: Vec<String> = Vec::new();
    let mut pos: usize = 0;
    proof {
        assert(v@.skip(0) =~= v@);
        assert(views(out@) + lines(v@) =~= lines(v@));
    }
    while pos < n
        invariant
            n == v.len(),
            pos <= n,
            views(out@) + lines(v@.skip(pos as int)) == lines(v@),
        decreases n - pos,
    {
        let end = find_char(&v, pos, n, '\n');
        let b = line_end_bound(&v, pos, end);
        let ghost rest = v@.skip(pos as int);
        let ghost before = views(out@);
        proof {
            assert(v@.subrange(pos as int, n as int) =~= rest);
            assert(rest.take(end - pos) =~= v@.subrange(pos as int, end as int));
            lemma_index_of_bounds(rest, newline());
        }
        if pos < b {
            let line = string_of(&v, pos, b);
            out.push(line);
            proof {
                assert(views(out@) =~= before + seq![line@]);
            }
        }
        if end >= n {
            proof {
                assert(v@.skip(n as int).len() == 0);
                assert(views(out@) + lines(v@.skip(n as int)) =~= before + lines(rest));
            }
            pos = n;
        } else {
            proof {
                assert(rest.skip(end - pos + 1) =~= v@.skip(end + 1));
                assert(views(out@) + lines(v@.skip(end + 1)) =~= before + lines(rest));
            }
            pos = end + 1;
        }
    }
    proof {
        assert(v@.skip(n as int).len() == 0);
        assert(views(out@) + lines(v@.skip(n as int)) =~= views(out@));
    }
    out
}

/// The records of the store text `content`, in the order of its lines.
pub fn split_records(content: &str) -> (out: Vec<String>)
    ensures
        views(out@) == records(content@),
{
    let v = chars_of(content);
    let n = v.len();
    let mut out: Vec<String> = Vec::new();
    let mut pos: usize = 0;
    proof {
        assert(v@.skip(0) =~= v@);
        assert(views(out@) + records(v@) =~= records(v@));
    }
    while pos < n
        invariant
            n == v.len(),
            pos <= n,
            views(out@) + records(v@.skip(pos as int)) == records(v@),
        decreases n - pos,
    {
        let end = find_char(&v, pos, n, '\n');
        let (a, b) = trim_bounds(&v, pos, end);
        let ghost rest = v@.skip(pos as int);
        let ghost before = views(out@);
        proof {
            assert(v@.subrange(pos as int, n as int) =~= rest);
            assert(rest.take(end - pos) =~= v@.subrange(pos as int, end as int));
            lemma_index_of_bounds(rest, newline());
        }
        if a < b {
            let line = string_of(&v, a, b);
            out.push(line);
            proof {
                assert(views(out@) =~= before + seq![line@]);
            }
        }
        if end >= n {
            proof {
                assert(v@.skip(n as int).len() == 0);
                assert(views(out@) + records(v@.skip(n as int)) =~= before + records(rest));
            }
            pos = n;
        } else {
            proof {
                assert(rest.skip(end - pos + 1) =~= v@.skip(end + 1));
                assert(views(out@) + records(v@.skip(end + 1)) =~= before + records(rest));
            }
            pos = end + 1;
        }
    }
    proof {
        assert(v@.skip(n as int).len() == 0);
        assert(views(out@) + records(v@.skip(n as int)) =~= views(out@));
    }
    out
}

/// Joining one more line: the line itself where there was none, and else
/// what was joined, a line break, and the line.
pub(crate) proof fn lemma_join_one_more(parts: Seq<Seq<char>>, line: Seq<char>)
    ensures
        join_lines(parts.push(line)) == (if parts.len() == 0 {
            line
        } else {
            join_lines(parts) + seq![newline()] + line
        }),
    decreases parts.len(),
{
    let all = parts.push(line);
    if parts.len() == 0 {
        assert(all[0] == line);
    } else {
        let rest = parts.drop_first();
        assert(all.drop_first() =~= rest.push(line));
        assert(all[0] == parts[0]);
        lemma_join_one_more(rest, line);
        if rest.len() == 0 {
            assert(join_lines(parts) == parts[0]);
        } else {
            assert(join_lines(all) =~= join_lines(parts) + seq![newline()] + line);
        }
    }
}

/// The lines `parts`, one after the other, with a line break between each two.
pub fn join_records(parts: &Vec<String>) -> (out: String)
    ensures
        out@ == join_lines(views(parts@)),
{
    let mut out = String::new();
    let mut i: usize = 0;
    proof {
        assert(views(parts@).take(0) =~= Seq::<Seq<char>>::empty());
    }
    while i < parts.len()
        invariant
            i <= parts.len(),
            out@ == join_lines(views(parts@).take(i as int)),
        decreases parts.len() - i,
    {
        proof {
            let done = views(parts@).take(i as int);
            assert(views(parts@).take(i + 1) =~= done.push(parts@[i as int]@));
            lemma_join_one_more(done, parts@[i as int]@);
        }
        if i > 0 {
            out.push('\n');
        }
        out.append(parts[i].as_str());
        i += 1;
    }
    proof {
        assert(views(parts@).take(parts.len() as int) =~= views(parts@));
    }
    out
}

} // verus!
