//! Relationship references written in issue bodies: lines that start with
//! "Blocked by" or "Blocks", and lines under "Blocked by", "Blocks" and
//! "Parent" headings, name issues as `#<number>`; and how they are merged
//! into the issues' blockers and parents.

use vstd::prelude::*;

use crate::model::RawIssue;

use crate::text::{
    chars_of, digits_value, insert_sorted_unique, is_ascii_digit, is_ascii_digit_char, is_ascii_white,
    is_ascii_white_char, is_white, is_white_char, skip_white, skip_white_back, slice_range, strictly_increasing,
    trim, trim_end, trim_start,
};

verus! {

/// The issue numbers a body names as blockers and as blocked.
#[derive(Debug, PartialEq)]
pub struct TextRefs {
    pub blocked_by: Vec<u64>,
    pub blocks: Vec<u64>,
}

/// Where the first `\n` of `s` stands, or `s.len()` when there is none.
pub open spec fn first_newline(s: Seq<char>) -> int
    decreases s.len(),
{
    if s.len() == 0 {
        0
    } else if s[0] == '\n' {
        0
    } else {
        1 + first_newline(s.drop_first())
    }
}

/// A line without the `\r` of a `\r\n` ending.
pub open spec fn drop_cr(line: Seq<char>) -> Seq<char> {
    if line.len() > 0 && line.last() == '\r' {
        line.drop_last()
    } else {
        line
    }
}

/// The lines of `s` as `str::lines` yields them: split at each `\n`, a `\r`
/// before that `\n` removed, and no empty line after a final `\n`.
pub open spec fn split_lines(s: Seq<char>) -> Seq<Seq<char>>
    decreases s.len(),
{
    if s.len() == 0 {
        seq![]
    } else {
        let k = first_newline(s);
        if k >= s.len() || k < 0 {
            seq![s]
        } else {
            seq![drop_cr(s.take(k))] + split_lines(s.skip(k + 1))
        }
    }
}

/// How many times `m` repeats at the start of `s`.
pub open spec fn run_of(s: Seq<char>, m: char) -> nat
    decreases s.len(),
{
    if s.len() > 0 && s[0] == m {
        1 + run_of(s.drop_first(), m)
    } else {
        0
    }
}

/// A code fence that opens `line`: three or more backticks or tildes,
/// given as the marker and the length of its run.
pub open spec fn fence_at(line: Seq<char>) -> Option<(char, nat)> {
    if line.len() > 0 && (line[0] == '`' || line[0] == '~') && run_of(line, line[0]) >= 3 {
        Some((line[0], run_of(line, line[0])))
    } else {
        None
    }
}

pub open spec fn is_list_marker(c: char) -> bool {
    c == '-' || c == '*' || c == '>'
}

/// `s` without its leading list and quote markers (`-`, `*`, `>`), each of
/// which must stand alone, followed by whitespace or the end of the line.
pub open spec fn strip_markers_from(s: Seq<char>) -> Seq<char>
    decreases s.len(),
{
    if s.len() > 0 && is_list_marker(s[0]) && (s.len() == 1 || is_ascii_white(s[1])) {
        proof {
            crate::text::lemma_trim_start_head(s.drop_first());
        }
        strip_markers_from(trim_start(s.drop_first()))
    } else {
        s
    }
}

/// The text of a line once indentation and list or quote markers are gone.
pub open spec fn line_text(line: Seq<char>) -> Seq<char> {
    strip_markers_from(trim_start(line))
}

/// `c` is `p` or, for a lowercase ASCII letter `p`, its uppercase form.
pub open spec fn folds_to(c: char, p: char) -> bool {
    c == p || ('a' <= p && p <= 'z' && c as u32 + 32 == p as u32)
}

/// `s` starts with the lowercase word `w` when ASCII case is ignored.
pub open spec fn starts_with_folded(s: Seq<char>, w: Seq<char>) -> bool {
    s.len() >= w.len() && forall|i: int| 0 <= i < w.len() ==> folds_to(#[trigger] s[i], w[i])
}

pub open spec fn blocked_by_word() -> Seq<char> {
    seq!['b', 'l', 'o', 'c', 'k', 'e', 'd', ' ', 'b', 'y']
}

pub open spec fn blocks_word() -> Seq<char> {
    seq!['b', 'l', 'o', 'c', 'k', 's']
}

/// Which relationship a line text declares: 1 for "blocked by", 2 for
/// "blocks", 0 for none.
pub open spec fn line_kind(text: Seq<char>) -> int {
    if starts_with_folded(text, blocked_by_word()) {
        1
    } else if starts_with_folded(text, blocks_word()) {
        2
    } else {
        0
    }
}

/// How many ASCII digits start `s`.
pub open spec fn digit_run(s: Seq<char>) -> nat
    decreases s.len(),
{
    if s.len() > 0 && is_ascii_digit(s[0]) {
        1 + digit_run(s.drop_first())
    } else {
        0
    }
}

/// The number referenced by a `#` at position `k` of `text`: the digits that
/// follow it, when there are some and they fit in a `u64`.
pub open spec fn ref_at(text: Seq<char>, k: int) -> Option<u64> {
    if 0 <= k < text.len() && text[k] == '#' {
        let rest = text.skip(k + 1);
        let d = rest.take(digit_run(rest) as int);
        if d.len() > 0 && digits_value(d) <= u64::MAX {
            Some(digits_value(d) as u64)
        } else {
            None
        }
    } else {
        None
    }
}

pub open spec fn refs_contain(text: Seq<char>, n: u64) -> bool {
    exists|k: int| ref_at(text, k) == Some(n)
}

/// The code fence left open after the first `m` lines.
pub open spec fn fence_after(lines: Seq<Seq<char>>, m: int) -> Option<(char, nat)>
    decreases m,
{
    if m <= 0 {
        None
    } else {
        let f = fence_at(trim_start(lines[m - 1]));
        match fence_after(lines, m - 1) {
            None => f,
            Some(open) => match f {
                Some(close) => if close.0 == open.0 && close.1 >= open.1 {
                    None
                } else {
                    Some(open)
                },
                None => Some(open),
            },
        }
    }
}

/// Line `i` is prose: outside any fence and not itself a fence.
pub open spec fn is_content(lines: Seq<Seq<char>>, i: int) -> bool {
    fence_after(lines, i) is None && fence_at(trim_start(lines[i])) is None
}

/// Among the first `m` lines, a prose line of relationship `kind` references `n`.
pub open spec fn referenced_upto(lines: Seq<Seq<char>>, m: int, kind: int, n: u64) -> bool
    decreases m,
{
    if m <= 0 {
        false
    } else {
        referenced_upto(lines, m - 1, kind, n) || (is_content(lines, m - 1) && line_kind(
            line_text(lines[m - 1]),
        ) == kind && refs_contain(line_text(lines[m - 1]), n))
    }
}

/// Some prose line of `body` with relationship `kind` references `n`.
pub open spec fn referenced(body: Seq<char>, kind: int, n: u64) -> bool {
    referenced_upto(split_lines(body), split_lines(body).len() as int, kind, n)
}

pub open spec fn fence_view(f: Option<(char, usize)>) -> Option<(char, nat)> {
    match f {
        Some(x) => Some((x.0, x.1 as nat)),
        None => None,
    }
}

proof fn lemma_first_newline_bounds(s: Seq<char>)
    ensures
        0 <= first_newline(s) <= s.len(),
        first_newline(s) < s.len() ==> s[first_newline(s)] == '\n',
        forall|i: int| 0 <= i < first_newline(s) ==> s[i] != '\n',
    decreases s.len(),
{
    if s.len() > 0 && s[0] != '\n' {
        lemma_first_newline_bounds(s.drop_first());
        assert forall|i: int| 0 <= i < first_newline(s) implies s[i] != '\n' by {
            if i > 0 {
                assert(s[i] == s.drop_first()[i - 1]);
            }
        }
    }
}

proof fn lemma_first_newline_is(s: Seq<char>, j: int)
    requires
        0 <= j <= s.len(),
        forall|i: int| 0 <= i < j ==> s[i] != '\n',
        j == s.len() || s[j] == '\n',
    ensures
        first_newline(s) == j,
    decreases j,
{
    if j > 0 {
        assert forall|i: int| 0 <= i < j - 1 implies s.drop_first()[i] != '\n' by {
            assert(s.drop_first()[i] == s[i + 1]);
        }
        if j < s.len() {
            assert(s.drop_first()[j - 1] == s[j]);
        }
        lemma_first_newline_is(s.drop_first(), j - 1);
    }
}

/// The first `\n` at or after `start`, or the end.
fn find_newline(cs: &[char], start: usize) -> (e: usize)
    requires
        start <= cs@.len(),
    ensures
        start <= e <= cs@.len(),
        first_newline(cs@.skip(start as int)) == e - start,
{
    let mut e = start;
    while e < cs.len() && cs[e] != '\n'
        invariant
            start <= e <= cs@.len(),
            forall|i: int| start <= i < e ==> cs@[i] != '\n',
        decreases cs@.len() - e,
    {
        e = e + 1;
    }
    proof {
        let s = cs@.skip(start as int);
        assert forall|i: int| 0 <= i < e - start implies s[i] != '\n' by {
            assert(s[i] == cs@[start + i]);
        }
        lemma_first_newline_is(s, e - start);
    }
    e
}

/// The fence that opens `line[k..]`.
fn fence_at_start(line: &[char], k: usize) -> (r: Option<(char, usize)>)
    requires
        k <= line@.len(),
    ensures
        fence_view(r) == fence_at(line@.skip(k as int)),
{
    if k >= line.len() {
        return None;
    }
    let marker = line[k];
    if marker != '`' && marker != '~' {
        return None;
    }
    let mut j = k;
    while j < line.len() && line[j] == marker
        invariant
            k <= j <= line@.len(),
            run_of(line@.skip(k as int), marker) == (j - k) + run_of(line@.skip(j as int), marker),
        decreases line@.len() - j,
    {
        assert(line@.skip(j as int).drop_first() == line@.skip(j + 1));
        j = j + 1;
    }
    assert(line@.skip(k as int)[0] == marker);
    if j - k >= 3 {
        Some((marker, j - k))
    } else {
        None
    }
}

/// The position at which `line[k..]`'s list and quote markers end.
fn strip_markers(line: &[char], k: usize) -> (r: usize)
    requires
        k <= line@.len(),
    ensures
        k <= r <= line@.len(),
        line@.skip(r as int) == strip_markers_from(line@.skip(k as int)),
{
    let mut p = k;
    loop
        invariant
            k <= p <= line@.len(),
            strip_markers_from(line@.skip(p as int)) == strip_markers_from(line@.skip(k as int)),
        decreases line@.len() - p,
    {
        if p >= line.len() {
            return p;
        }
        let c = line[p];
        if c != '-' && c != '*' && c != '>' {
            assert(line@.skip(p as int)[0] == c);
            return p;
        }
        if p + 1 < line.len() && !is_ascii_white_char(line[p + 1]) {
            assert(line@.skip(p as int)[1] == line@[p + 1]);
            return p;
        }
        assert(line@.skip(p as int)[0] == c);
        assert(line@.skip(p as int).len() == 1 || line@.skip(p as int)[1] == line@[p + 1]);
        assert(line@.skip(p as int).drop_first() == line@.skip(p + 1));
        let q = skip_white(line, p + 1);
        p = q;
    }
}

spec fn folds_at(line: Seq<char>, k: int, w: Seq<char>) -> bool {
    starts_with_folded(line.skip(k), w)
}

fn folds_char(c: char, p: char) -> (r: bool)
    ensures
        r == folds_to(c, p),
{
    c == p || ('a' <= p && p <= 'z' && c as u32 + 32 == p as u32)
}

/// Whether `line[k..]` starts with `w`, ignoring ASCII case.
fn starts_with_word(line: &[char], k: usize, w: &[char]) -> (r: bool)
    requires
        k <= line@.len(),
    ensures
        r == starts_with_folded(line@.skip(k as int), w@),
{
    let n = line.len();
    if n - k < w.len() {
        return false;
    }
    let mut i: usize = 0;
    while i < w.len()
        invariant
            n == line@.len(),
            i <= w@.len(),
            k + w@.len() <= line@.len(),
            forall|a: int| 0 <= a < i ==> folds_to(#[trigger] line@.skip(k as int)[a], w@[a]),
        decreases w@.len() - i,
    {
        assert(k + i < line@.len());
        if !folds_char(line[k + i], w[i]) {
            assert(line@.skip(k as int)[i as int] == line@[k + i]);
            return false;
        }
        assert(line@.skip(k as int)[i as int] == line@[k + i]);
        i = i + 1;
    }
    true
}

/// The relationship that `line[k..]` declares, as [`line_kind`] numbers it.
fn kind_at(line: &[char], k: usize) -> (r: u8)
    requires
        k <= line@.len(),
    ensures
        r as int == line_kind(line@.skip(k as int)),
{
    let blocked_by = ['b', 'l', 'o', 'c', 'k', 'e', 'd', ' ', 'b', 'y'];
    let blocks = ['b', 'l', 'o', 'c', 'k', 's'];
    assert(blocked_by@ == blocked_by_word());
    assert(blocks@ == blocks_word());
    if starts_with_word(line, k, blocked_by.as_slice()) {
        1
    } else if starts_with_word(line, k, blocks.as_slice()) {
        2
    } else {
        0
    }
}

/// The number written by the digits at `line[start..]`, when there are some
/// and they fit in a `u64`.
fn parse_digits(line: &[char], start: usize) -> (r: Option<u64>)
    requires
        start <= line@.len(),
    ensures
        ({
            let rest = line@.skip(start as int);
            let d = rest.take(digit_run(rest) as int);
            r == if d.len() > 0 && digits_value(d) <= u64::MAX {
                Some(digits_value(d) as u64)
            } else {
                None
            }
        }),
{
    let mut j = start;
    let mut acc: u64 = 0;
    let mut overflow = false;
    while j < line.len() && is_ascii_digit_char(line[j])
        invariant
            start <= j <= line@.len(),
            digit_run(line@.skip(start as int)) == (j - start) + digit_run(line@.skip(j as int)),
            forall|a: int| start <= a < j ==> is_ascii_digit(#[trigger] line@[a]),
            overflow ==> digits_value(line@.subrange(start as int, j as int)) > u64::MAX,
            !overflow ==> acc as nat == digits_value(line@.subrange(start as int, j as int)),
        decreases line@.len() - j,
    {
        let c = line[j];
        assert(line@.skip(j as int).drop_first() == line@.skip(j + 1));
        assert(line@.subrange(start as int, j + 1).drop_last() == line@.subrange(start as int, j as int));
        assert(line@.subrange(start as int, j + 1).last() == c);
        let digit = (c as u32 - '0' as u32) as u64;
        if !overflow {
            if acc > (u64::MAX - digit) / 10 {
                overflow = true;
            } else {
                acc = acc * 10 + digit;
            }
        }
        j = j + 1;
    }
    proof {
        let rest = line@.skip(start as int);
        assert(rest.take(digit_run(rest) as int) == line@.subrange(start as int, j as int));
    }
    if j == start || overflow {
        None
    } else {
        Some(acc)
    }
}

/// `bucket` with every number that `line[k..]` references added.
fn collect_refs(line: &[char], k: usize, bucket: Vec<u64>) -> (r: Vec<u64>)
    requires
        k <= line@.len(),
        strictly_increasing(bucket@),
    ensures
        strictly_increasing(r@),
        forall|n: u64| r@.contains(n) <==> (bucket@.contains(n) || refs_contain(line@.skip(k as int), n)),
{
    let ghost text = line@.skip(k as int);
    let mut r = bucket;
    let mut q = k;
    while q < line.len()
        invariant
            k <= q <= line@.len(),
            text == line@.skip(k as int),
            strictly_increasing(r@),
            forall|n: u64|
                r@.contains(n) <==> (bucket@.contains(n) || exists|a: int| 0 <= a < q - k && ref_at(text, a) == Some(n)),
        decreases line@.len() - q,
    {
        if line[q] == '#' {
            let found = parse_digits(line, q + 1);
            assert(text.skip(q - k + 1) == line@.skip(q + 1));
            assert(text[q - k] == '#');
            match found {
                Some(n) => {
                    assert(ref_at(text, q - k) == Some(n));
                    r = insert_sorted_unique(r, n);
                },
                None => {
                    assert(ref_at(text, q - k) is None);
                },
            }
        } else {
            assert(text[q - k] == line@[q as int]);
            assert(ref_at(text, q - k) is None);
        }
        q = q + 1;
    }
    proof {
        assert forall|n: u64| r@.contains(n) <==> (bucket@.contains(n) || refs_contain(text, n)) by {
            if refs_contain(text, n) {
                let a = choose|a: int| ref_at(text, a) == Some(n);
                assert(0 <= a < q - k);
            }
        }
    }
    r
}

/// The fence state after one more line, given the fence that line opens.
fn next_fence(open: Option<(char, usize)>, f: Option<(char, usize)>) -> (r: Option<(char, usize)>)
    ensures
        fence_view(r) == match fence_view(open) {
            None => fence_view(f),
            Some(o) => match fence_view(f) {
                Some(c) => if c.0 == o.0 && c.1 >= o.1 {
                    None
                } else {
                    Some(o)
                },
                None => Some(o),
            },
        },
{
    match open {
        None => f,
        Some(o) => match f {
            Some(c) => if c.0 == o.0 && c.1 >= o.1 {
                None
            } else {
                Some(o)
            },
            None => Some(o),
        },
    }
}

/// Collects the issue numbers referenced on "Blocked by" and "Blocks" lines.
///
/// A line counts when, after indentation and any standalone `-`, `*` or `>`
/// markers, it starts with "blocked by" or "blocks" in any ASCII case, and
/// it lies outside fenced code blocks (a fence closes only with the same
/// marker and a run at least as long). Every `#` followed by digits that fit
/// in a `u64` names an issue. Both lists come out sorted without duplicates.
pub fn scan(body: &str) -> (refs: TextRefs)
    ensures
        strictly_increasing(refs.blocked_by@),
        strictly_increasing(refs.blocks@),
        forall|n: u64| refs.blocked_by@.contains(n) <==> referenced(body@, 1, n),
        forall|n: u64| refs.blocks@.contains(n) <==> referenced(body@, 2, n),
{
    let cs = chars_of(body);
    let ghost lines = split_lines(cs@);
    let mut blocked_by: Vec<u64> = Vec::new();
    let mut blocks: Vec<u64> = Vec::new();
    let mut open: Option<(char, usize)> = None;
    let mut pos: usize = 0;
    let ghost mut m: int = 0;
    assert(cs@.skip(0) == cs@);
    while pos < cs.len()
        invariant
            pos <= cs@.len(),
            0 <= m <= lines.len(),
            lines == split_lines(cs@),
            split_lines(cs@.skip(pos as int)) == lines.skip(m),
            fence_view(open) == fence_after(lines, m),
            strictly_increasing(blocked_by@),
            strictly_increasing(blocks@),
            forall|n: u64| blocked_by@.contains(n) <==> referenced_upto(lines, m, 1, n),
            forall|n: u64| blocks@.contains(n) <==> referenced_upto(lines, m, 2, n),
        decreases cs@.len() - pos,
    {
        let e = find_newline(cs.as_slice(), pos);
        let ghost rest = cs@.skip(pos as int);
        let mut line_end = e;
        if e < cs.len() && e > pos && cs[e - 1] == '\r' {
            line_end = e - 1;
        }
        let line = slice_range(cs.as_slice(), pos, line_end);
        proof {
            lemma_first_newline_bounds(rest);
            if e < cs@.len() {
                assert(rest.take(e - pos) == cs@.subrange(pos as int, e as int));
                assert(rest.skip(e - pos + 1) == cs@.skip(e + 1));
                assert(line@ == drop_cr(rest.take(e - pos)));
                assert(split_lines(rest) == seq![line@] + split_lines(cs@.skip(e + 1)));
            } else {
                assert(line@ == rest);
                assert(split_lines(rest) == seq![line@]);
            }
            assert(lines.skip(m)[0] == line@);
            assert(lines.skip(m).len() > 0);
            assert(m < lines.len());
            assert(lines.skip(m)[0] == lines[m]);
            assert(lines[m] == line@);
            assert(lines.skip(m + 1) == lines.skip(m).drop_first());
        }
        let k = skip_white(line.as_slice(), 0);
        assert(line@.skip(0) == line@);
        let f = fence_at_start(line.as_slice(), k);
        let was_open = open.is_some();
        let ghost before_blocked = blocked_by@;
        let ghost before_blocks = blocks@;
        if !was_open && f.is_none() {
            let t = strip_markers(line.as_slice(), k);
            let kind = kind_at(line.as_slice(), t);
            if kind == 1 {
                blocked_by = collect_refs(line.as_slice(), t, blocked_by);
            } else if kind == 2 {
                blocks = collect_refs(line.as_slice(), t, blocks);
            }
        }
        open = next_fence(open, f);
        if e < cs.len() {
            pos = e + 1;
        } else {
            pos = e;
            assert(cs@.skip(pos as int).len() == 0);
        }
        proof {
            m = m + 1;
        }
    }
    proof {
        assert(split_lines(cs@.skip(pos as int)).len() == 0);
        assert(lines.skip(m).len() == 0);
        assert(cs@ == body@);
    }
    TextRefs { blocked_by, blocks }
}

pub open spec fn parent_word() -> Seq<char> {
    seq!['p', 'a', 'r', 'e', 'n', 't']
}

/// `title` is `w`, ignoring ASCII case.
pub open spec fn titled(title: Seq<char>, w: Seq<char>) -> bool {
    title.len() == w.len() && starts_with_folded(title, w)
}

/// The section that a Markdown heading `t` (one or more `#`, whitespace,
/// then a title) opens: 1 for "Blocked by", 2 for "Blocks", 3 for "Parent"
/// (in any ASCII case, surrounding whitespace ignored), 0 for any other
/// title; `None` when `t` is no heading.
pub open spec fn heading_kind(t: Seq<char>) -> Option<int> {
    let r = run_of(t, '#') as int;
    if r >= 1 && t.len() > r && is_white(t[r]) {
        let title = trim(t.skip(r));
        Some(
            if titled(title, blocked_by_word()) {
                1
            } else if titled(title, blocks_word()) {
                2
            } else if titled(title, parent_word()) {
                3
            } else {
                0
            },
        )
    } else {
        None
    }
}

/// The heading of line `i`, when it is a prose line that is a heading.
pub open spec fn heading_of(lines: Seq<Seq<char>>, i: int) -> Option<int> {
    if is_content(lines, i) {
        heading_kind(trim_start(lines[i]))
    } else {
        None
    }
}

/// The section that the first `m` lines leave open: that of the last
/// heading among them, 0 before any.
pub open spec fn section_after(lines: Seq<Seq<char>>, m: int) -> int
    decreases m,
{
    if m <= 0 {
        0
    } else {
        match heading_of(lines, m - 1) {
            Some(h) => h,
            None => section_after(lines, m - 1),
        }
    }
}

/// Among the first `m` lines, a prose line that is no heading, under a
/// heading of section `kind`, references `n`.
pub open spec fn sectioned_upto(lines: Seq<Seq<char>>, m: int, kind: int, n: u64) -> bool
    decreases m,
{
    if m <= 0 {
        false
    } else {
        sectioned_upto(lines, m - 1, kind, n) || (is_content(lines, m - 1) && heading_of(lines, m - 1) is None
            && section_after(lines, m - 1) == kind && refs_contain(line_text(lines[m - 1]), n))
    }
}

/// A line of `body` under a heading of section `kind` references `n`.
pub open spec fn sectioned(body: Seq<char>, kind: int, n: u64) -> bool {
    sectioned_upto(split_lines(body), split_lines(body).len() as int, kind, n)
}

/// The issue numbers that a body's "Blocked by", "Blocks" and "Parent"
/// sections list.
#[derive(Debug, PartialEq)]
pub struct SectionRefs {
    pub blocked_by: Vec<u64>,
    pub blocks: Vec<u64>,
    pub parent: Vec<u64>,
}

/// Whether `line[k..]` is a heading, and the section it opens.
fn heading_at(line: &[char], k: usize) -> (r: Option<u8>)
    requires
        k <= line@.len(),
    ensures
        match heading_kind(line@.skip(k as int)) {
            None => r is None,
            Some(h) => r == Some(h as u8),
        },
{
    let n = line.len();
    if k >= n || line[k] != '#' {
        proof {
            if k < n {
                assert(line@.skip(k as int)[0] == line@[k as int]);
            }
        }
        return None;
    }
    let mut j = k;
    while j < n && line[j] == '#'
        invariant
            n == line@.len(),
            k <= j <= n,
            run_of(line@.skip(k as int), '#') == (j - k) + run_of(line@.skip(j as int), '#'),
        decreases n - j,
    {
        assert(line@.skip(j as int).drop_first() == line@.skip(j + 1));
        j = j + 1;
    }
    let ghost t = line@.skip(k as int);
    proof {
        if j < n {
            assert(line@.skip(j as int)[0] == line@[j as int]);
        }
        assert(run_of(t, '#') == j - k);
        assert(t[0] == '#');
    }
    if j >= n || !is_white_char(line[j]) {
        proof {
            if j < n {
                assert(t[j - k] == line@[j as int]);
            }
        }
        return None;
    }
    assert(t[j - k] == line@[j as int]);
    assert(t.skip(j - k) == line@.skip(j as int));
    let a = skip_white(line, j);
    let b = skip_white_back(line, a, n);
    proof {
        assert(line@.subrange(a as int, n as int) == line@.skip(a as int));
        assert(trim(t.skip(j - k)) == line@.subrange(a as int, b as int));
    }
    let title = slice_range(line, a, b);
    let blocked_by = ['b', 'l', 'o', 'c', 'k', 'e', 'd', ' ', 'b', 'y'];
    let blocks = ['b', 'l', 'o', 'c', 'k', 's'];
    let parent = ['p', 'a', 'r', 'e', 'n', 't'];
    assert(blocked_by@ == blocked_by_word());
    assert(blocks@ == blocks_word());
    assert(parent@ == parent_word());
    assert(title@.skip(0) == title@);
    if title.len() == 10 && starts_with_word(title.as_slice(), 0, blocked_by.as_slice()) {
        Some(1)
    } else if title.len() == 6 && starts_with_word(title.as_slice(), 0, blocks.as_slice()) {
        Some(2)
    } else if title.len() == 6 && starts_with_word(title.as_slice(), 0, parent.as_slice()) {
        Some(3)
    } else {
        Some(0)
    }
}

/// Collects the issue numbers listed under "Blocked by", "Blocks" and
/// "Parent" headings.
///
/// A heading is a prose line that starts, after indentation, with one or
/// more `#` and whitespace; its title, trimmed and in any ASCII case, names
/// the section that runs to the next heading. Every other prose line of a
/// section, after indentation and list or quote markers, names issues as
/// `#` followed by digits that fit in a `u64`. Lines in fenced code blocks
/// are not prose. All three lists come out sorted without duplicates.
pub fn sections(body: &str) -> (refs: SectionRefs)
    ensures
        strictly_increasing(refs.blocked_by@),
        strictly_increasing(refs.blocks@),
        strictly_increasing(refs.parent@),
        forall|n: u64| refs.blocked_by@.contains(n) <==> sectioned(body@, 1, n),
        forall|n: u64| refs.blocks@.contains(n) <==> sectioned(body@, 2, n),
        forall|n: u64| refs.parent@.contains(n) <==> sectioned(body@, 3, n),
{
    let cs = chars_of(body);
    let ghost lines = split_lines(cs@);
    let mut blocked_by: Vec<u64> = Vec::new();
    let mut blocks: Vec<u64> = Vec::new();
    let mut parent: Vec<u64> = Vec::new();
    let mut section: u8 = 0;
    let mut open: Option<(char, usize)> = None;
    let mut pos: usize = 0;
    let ghost mut m: int = 0;
    assert(cs@.skip(0) == cs@);
    while pos < cs.len()
        invariant
            pos <= cs@.len(),
            0 <= m <= lines.len(),
            lines == split_lines(cs@),
            split_lines(cs@.skip(pos as int)) == lines.skip(m),
            fence_view(open) == fence_after(lines, m),
            section as int == section_after(lines, m),
            strictly_increasing(blocked_by@),
            strictly_increasing(blocks@),
            strictly_increasing(parent@),
            forall|n: u64| blocked_by@.contains(n) <==> sectioned_upto(lines, m, 1, n),
            forall|n: u64| blocks@.contains(n) <==> sectioned_upto(lines, m, 2, n),
            forall|n: u64| parent@.contains(n) <==> sectioned_upto(lines, m, 3, n),
        decreases cs@.len() - pos,
    {
        let e = find_newline(cs.as_slice(), pos);
        let ghost rest = cs@.skip(pos as int);
        let mut line_end = e;
        if e < cs.len() && e > pos && cs[e - 1] == '\r' {
            line_end = e - 1;
        }
        let line = slice_range(cs.as_slice(), pos, line_end);
        proof {
            lemma_first_newline_bounds(rest);
            if e < cs@.len() {
                assert(rest.take(e - pos) == cs@.subrange(pos as int, e as int));
                assert(rest.skip(e - pos + 1) == cs@.skip(e + 1));
                assert(line@ == drop_cr(rest.take(e - pos)));
                assert(split_lines(rest) == seq![line@] + split_lines(cs@.skip(e + 1)));
            } else {
                assert(line@ == rest);
                assert(split_lines(rest) == seq![line@]);
            }
            assert(lines.skip(m)[0] == line@);
            assert(lines.skip(m).len() > 0);
            assert(m < lines.len());
            assert(lines.skip(m)[0] == lines[m]);
            assert(lines[m] == line@);
            assert(lines.skip(m + 1) == lines.skip(m).drop_first());
        }
        let k = skip_white(line.as_slice(), 0);
        assert(line@.skip(0) == line@);
        let f = fence_at_start(line.as_slice(), k);
        let was_open = open.is_some();
        if !was_open && f.is_none() {
            match heading_at(line.as_slice(), k) {
                Some(h) => {
                    section = h;
                },
                None => {
                    let t = strip_markers(line.as_slice(), k);
                    if section == 1 {
                        blocked_by = collect_refs(line.as_slice(), t, blocked_by);
                    } else if section == 2 {
                        blocks = collect_refs(line.as_slice(), t, blocks);
                    } else if section == 3 {
                        parent = collect_refs(line.as_slice(), t, parent);
                    }
                },
            }
        }
        open = next_fence(open, f);
        if e < cs.len() {
            pos = e + 1;
        } else {
            pos = e;
            assert(cs@.skip(pos as int).len() == 0);
        }
        proof {
            m = m + 1;
        }
    }
    proof {
        assert(split_lines(cs@.skip(pos as int)).len() == 0);
        assert(lines.skip(m).len() == 0);
        assert(cs@ == body@);
    }
    SectionRefs { blocked_by, blocks, parent }
}

/// A body names `n` as a blocker: on a "Blocked by" line or under a
/// "Blocked by" heading.
pub open spec fn declares_blocked_by(body: Seq<char>, n: u64) -> bool {
    referenced(body, 1, n) || sectioned(body, 1, n)
}

/// A body names `n` as an issue it blocks: on a "Blocks" line or under a
/// "Blocks" heading.
pub open spec fn declares_blocks(body: Seq<char>, n: u64) -> bool {
    referenced(body, 2, n) || sectioned(body, 2, n)
}

/// The parent a body names: the one issue listed under its "Parent"
/// headings, when exactly one is.
pub open spec fn declared_parent(body: Seq<char>) -> Option<u64> {
    if exists|n: u64| sectioned(body, 3, n) && forall|m: u64| sectioned(body, 3, m) ==> m == n {
        Some(choose|n: u64| sectioned(body, 3, n) && forall|m: u64| sectioned(body, 3, m) ==> m == n)
    } else {
        None
    }
}

/// Issue `b` blocks `issues[k]`: the issue already lists it, its body names
/// `b` as a blocker, or the body of an issue numbered `b` names it as
/// blocked.
pub open spec fn enriched_blocker(issues: Seq<RawIssue>, k: int, b: u64) -> bool {
    ||| issues[k].blocked_by@.contains(b)
    ||| declares_blocked_by(issues[k].body@, b)
    ||| exists|j: int| 0 <= j < issues.len() && #[trigger] issues[j].number == b
            && declares_blocks(issues[j].body@, issues[k].number)
}

/// The parent of an issue once its body is read: the parent it has, else
/// the one its body names.
pub open spec fn enriched_parent(issue: RawIssue) -> Option<u64> {
    match issue.parent_issue {
        Some(p) => Some(p),
        None => declared_parent(issue.body@),
    }
}

/// `r` is `issues` with the relationships written in their bodies added:
/// each issue keeps everything but its parent, which is
/// [`enriched_parent`], and its blockers, which are the
/// [`enriched_blocker`]s, sorted without duplicates.
pub open spec fn enriched(r: Seq<RawIssue>, issues: Seq<RawIssue>) -> bool {
    &&& r.len() == issues.len()
    &&& forall|k: int| 0 <= k < issues.len() ==> #[trigger] r[k] == (RawIssue {
            parent_issue: enriched_parent(issues[k]),
            blocked_by: r[k].blocked_by,
            ..issues[k]
        })
    &&& forall|k: int| 0 <= k < issues.len() ==> strictly_increasing(#[trigger] r[k].blocked_by@)
    &&& forall|k: int, b: u64| 0 <= k < issues.len() ==>
            (#[trigger] r[k].blocked_by@.contains(b) <==> enriched_blocker(issues, k, b))
}

/// What one body declares.
struct BodyRelations {
    blocked_by: Vec<u64>,
    blocks: Vec<u64>,
    parent: Option<u64>,
}

proof fn lemma_push_contains(s: Seq<u64>, x: u64, b: u64)
    ensures
        s.push(x).contains(b) <==> (s.contains(b) || b == x),
{
    if s.contains(b) {
        let w = choose|w: int| 0 <= w < s.len() && s[w] == b;
        assert(s.push(x)[w] == b);
    }
    if b == x {
        assert(s.push(x)[s.len() as int] == x);
    }
    if s.push(x).contains(b) && b != x {
        let w = choose|w: int| 0 <= w < s.push(x).len() && s.push(x)[w] == b;
        assert(s[w] == b);
    }
}

/// Among the first `m` nodes, one numbered `b` has a "Blocks" line naming
/// issue `number`.
pub open spec fn blocks_from(nodes: Seq<RawIssue>, m: int, number: u64, b: u64) -> bool
    decreases m,
{
    m > 0 && (blocks_from(nodes, m - 1, number, b)
        || (nodes[m - 1].number == b && declares_blocks(nodes[m - 1].body@, number)))
}

proof fn lemma_blocks_from(nodes: Seq<RawIssue>, m: int, number: u64, b: u64)
    requires
        0 <= m <= nodes.len(),
    ensures
        blocks_from(nodes, m, number, b) <==> exists|j: int| 0 <= j < m && #[trigger] nodes[j].number == b
            && declares_blocks(nodes[j].body@, number),
    decreases m,
{
    if m > 0 {
        lemma_blocks_from(nodes, m - 1, number, b);
        if exists|j: int| 0 <= j < m && #[trigger] nodes[j].number == b && declares_blocks(nodes[j].body@, number) {
            let j = choose|j: int| 0 <= j < m && #[trigger] nodes[j].number == b && declares_blocks(nodes[j].body@, number);
            if j < m - 1 {
                assert(exists|j2: int| 0 <= j2 < m - 1 && #[trigger] nodes[j2].number == b && declares_blocks(nodes[j2].body@, number));
            }
        }
        if blocks_from(nodes, m - 1, number, b) {
            let j = choose|j: int| 0 <= j < m - 1 && #[trigger] nodes[j].number == b && declares_blocks(nodes[j].body@, number);
            assert(0 <= j < m);
        }
    }
}

/// Whether `v` holds `x`.
fn holds(v: &Vec<u64>, x: u64) -> (r: bool)
    ensures
        r == v@.contains(x),
{
    let mut i: usize = 0;
    while i < v.len()
        invariant
            i <= v@.len(),
            forall|j: int| 0 <= j < i ==> v@[j] != x,
        decreases v@.len() - i,
    {
        if v[i] == x {
            return true;
        }
        i = i + 1;
    }
    false
}

/// `sorted` with every number of `more` added, sorted without duplicates.
fn add_all(sorted: Vec<u64>, more: &Vec<u64>) -> (r: Vec<u64>)
    requires
        strictly_increasing(sorted@),
    ensures
        strictly_increasing(r@),
        forall|b: u64| r@.contains(b) <==> (sorted@.contains(b) || more@.contains(b)),
{
    let mut r = sorted;
    let ghost start = r@;
    let mut i: usize = 0;
    while i < more.len()
        invariant
            i <= more@.len(),
            strictly_increasing(r@),
            forall|b: u64| #[trigger] r@.contains(b) <==> (start.contains(b) || more@.take(i as int).contains(b)),
        decreases more@.len() - i,
    {
        let x = more[i];
        let ghost old_r = r@;
        r = insert_sorted_unique(r, x);
        proof {
            assert(more@.take(i + 1) =~= more@.take(i as int).push(x));
            assert forall|b: u64| r@.contains(b) <==> (start.contains(b) || more@.take(i + 1).contains(b)) by {
                lemma_push_contains(more@.take(i as int), x, b);
                assert(r@.contains(b) <==> (old_r.contains(b) || b == x));
                assert(old_r.contains(b) <==> (start.contains(b) || more@.take(i as int).contains(b)));
            }
        }
        i = i + 1;
    }
    assert(more@.take(more@.len() as int) =~= more@);
    r
}

/// What `body` declares: the blockers and the blocked issues it names,
/// sorted without duplicates, and its parent.
fn body_relations(body: &str) -> (r: BodyRelations)
    ensures
        strictly_increasing(r.blocked_by@),
        forall|n: u64| r.blocked_by@.contains(n) <==> declares_blocked_by(body@, n),
        forall|n: u64| r.blocks@.contains(n) <==> declares_blocks(body@, n),
        r.parent == declared_parent(body@),
{
    let lines = scan(body);
    let heads = sections(body);
    let blocked_by = add_all(lines.blocked_by, &heads.blocked_by);
    let blocks = add_all(lines.blocks, &heads.blocks);
    let parent = if heads.parent.len() == 1 {
        let p = heads.parent[0];
        proof {
            assert(heads.parent@.contains(p));
            assert forall|m: u64| sectioned(body@, 3, m) implies m == p by {
                assert(heads.parent@.contains(m));
                let w = choose|w: int| 0 <= w < heads.parent@.len() && heads.parent@[w] == m;
                assert(w == 0);
            }
            let c = choose|n: u64| sectioned(body@, 3, n) && forall|m: u64| sectioned(body@, 3, m) ==> m == n;
            assert(sectioned(body@, 3, p));
            assert(c == p);
        }
        Some(p)
    } else {
        proof {
            if exists|n: u64| sectioned(body@, 3, n) && forall|m: u64| sectioned(body@, 3, m) ==> m == n {
                let n = choose|n: u64| sectioned(body@, 3, n) && forall|m: u64| sectioned(body@, 3, m) ==> m == n;
                assert(heads.parent@.contains(n));
                if heads.parent@.len() >= 2 {
                    assert(heads.parent@.contains(heads.parent@[0]));
                    assert(heads.parent@.contains(heads.parent@[1]));
                    assert(heads.parent@[0] < heads.parent@[1]);
                }
            }
        }
        None
    };
    BodyRelations { blocked_by, blocks, parent }
}

/// What every body declares, in order.
fn relations_of(nodes: &Vec<RawIssue>) -> (refs: Vec<BodyRelations>)
    ensures
        refs@.len() == nodes@.len(),
        forall|k: int| 0 <= k < nodes@.len() ==> #[trigger] refs@[k].parent == declared_parent(nodes@[k].body@),
        forall|k: int, n: u64| 0 <= k < nodes@.len() ==>
            (#[trigger] refs@[k].blocked_by@.contains(n) <==> declares_blocked_by(nodes@[k].body@, n)),
        forall|k: int, n: u64| 0 <= k < nodes@.len() ==>
            (#[trigger] refs@[k].blocks@.contains(n) <==> declares_blocks(nodes@[k].body@, n)),
{
    let mut refs: Vec<BodyRelations> = Vec::new();
    let mut i: usize = 0;
    while i < nodes.len()
        invariant
            i <= nodes@.len(),
            refs@.len() == i,
            forall|k: int| 0 <= k < i ==> #[trigger] refs@[k].parent == declared_parent(nodes@[k].body@),
            forall|k: int, n: u64| 0 <= k < i ==>
                (#[trigger] refs@[k].blocked_by@.contains(n) <==> declares_blocked_by(nodes@[k].body@, n)),
            forall|k: int, n: u64| 0 <= k < i ==>
                (#[trigger] refs@[k].blocks@.contains(n) <==> declares_blocks(nodes@[k].body@, n)),
        decreases nodes@.len() - i,
    {
        refs.push(body_relations(nodes[i].body.as_str()));
        i = i + 1;
    }
    refs
}

/// The merged blockers of `nodes[k]`, sorted without duplicates.
fn blockers_of(nodes: &Vec<RawIssue>, refs: &Vec<BodyRelations>, k: usize) -> (r: Vec<u64>)
    requires
        k < nodes@.len(),
        refs@.len() == nodes@.len(),
        forall|i: int, n: u64| 0 <= i < nodes@.len() ==>
            (#[trigger] refs@[i].blocked_by@.contains(n) <==> declares_blocked_by(nodes@[i].body@, n)),
        forall|i: int, n: u64| 0 <= i < nodes@.len() ==>
            (#[trigger] refs@[i].blocks@.contains(n) <==> declares_blocks(nodes@[i].body@, n)),
    ensures
        strictly_increasing(r@),
        forall|b: u64| r@.contains(b) <==> enriched_blocker(nodes@, k as int, b),
{
    let mut r = add_all(Vec::new(), &nodes[k].blocked_by);
    r = add_all(r, &refs[k].blocked_by);
    let number = nodes[k].number;
    let ghost before = r@;
    let mut j: usize = 0;
    while j < nodes.len()
        invariant
            j <= nodes@.len(),
            k < nodes@.len(),
            number == nodes@[k as int].number,
            refs@.len() == nodes@.len(),
            forall|i: int, n: u64| 0 <= i < nodes@.len() ==>
                (#[trigger] refs@[i].blocks@.contains(n) <==> declares_blocks(nodes@[i].body@, n)),
            strictly_increasing(r@),
            forall|b: u64| #[trigger] r@.contains(b) <==> (before.contains(b) || blocks_from(nodes@, j as int, number, b)),
        decreases nodes@.len() - j,
    {
        let ghost old_r = r@;
        if holds(&refs[j].blocks, number) {
            r = insert_sorted_unique(r, nodes[j].number);
        }
        proof {
            assert(refs@[j as int].blocks@.contains(number) <==> declares_blocks(nodes@[j as int].body@, number));
            assert forall|b: u64| r@.contains(b) <==> (before.contains(b) || blocks_from(nodes@, j + 1, number, b)) by {
                assert(old_r.contains(b) <==> (before.contains(b) || blocks_from(nodes@, j as int, number, b)));
                if refs@[j as int].blocks@.contains(number) {
                    assert(r@.contains(b) <==> (old_r.contains(b) || b == nodes@[j as int].number));
                }
            }
        }
        j = j + 1;
    }
    proof {
        assert forall|b: u64| r@.contains(b) <==> enriched_blocker(nodes@, k as int, b) by {
            lemma_blocks_from(nodes@, nodes@.len() as int, number, b);
        }
    }
    r
}

/// Adds to `issues` the relationships written in their bodies: each issue
/// is blocked, besides by the issues it lists, by those its body names on a
/// "Blocked by" line or under a "Blocked by" heading, and by every issue
/// whose body names it on a "Blocks" line or under a "Blocks" heading,
/// sorted without duplicates; an issue without a parent takes the one issue
/// listed under its "Parent" heading, when exactly one is.
pub fn enrich_relationships(issues: Vec<RawIssue>) -> (r: Vec<RawIssue>)
    ensures
        enriched(r@, issues@),
{
    let ghost all = issues@;
    let refs = relations_of(&issues);
    let mut blockers: Vec<Vec<u64>> = Vec::new();
    let mut k: usize = 0;
    while k < issues.len()
        invariant
            k <= issues@.len(),
            all == issues@,
            refs@.len() == issues@.len(),
            forall|i: int, n: u64| 0 <= i < issues@.len() ==>
                (#[trigger] refs@[i].blocked_by@.contains(n) <==> declares_blocked_by(issues@[i].body@, n)),
            forall|i: int, n: u64| 0 <= i < issues@.len() ==>
                (#[trigger] refs@[i].blocks@.contains(n) <==> declares_blocks(issues@[i].body@, n)),
            blockers@.len() == k,
            forall|i: int| 0 <= i < k ==> strictly_increasing(#[trigger] blockers@[i]@),
            forall|i: int, b: u64| 0 <= i < k ==> (#[trigger] blockers@[i]@.contains(b) <==> enriched_blocker(all, i, b)),
        decreases issues@.len() - k,
    {
        let v = blockers_of(&issues, &refs, k);
        blockers.push(v);
        k = k + 1;
    }
    let mut parents: Vec<Option<u64>> = Vec::new();
    let mut k2: usize = 0;
    while k2 < issues.len()
        invariant
            k2 <= issues@.len(),
            all == issues@,
            refs@.len() == issues@.len(),
            forall|i: int| 0 <= i < issues@.len() ==> #[trigger] refs@[i].parent == declared_parent(issues@[i].body@),
            parents@.len() == k2,
            forall|i: int| 0 <= i < k2 ==> #[trigger] parents@[i] == enriched_parent(all[i]),
        decreases issues@.len() - k2,
    {
        let p = match issues[k2].parent_issue {
            Some(p) => Some(p),
            None => refs[k2].parent,
        };
        parents.push(p);
        k2 = k2 + 1;
    }
    let mut rest = issues;
    let mut r: Vec<RawIssue> = Vec::new();
    let mut i: usize = 0;
    let n = rest.len();
    while i < n
        invariant
            n == all.len(),
            i <= n,
            rest@ =~= all.skip(i as int),
            blockers@.len() == n - i,
            forall|m: int| 0 <= m < n - i ==> strictly_increasing(#[trigger] blockers@[m]@),
            forall|m: int, b: u64| 0 <= m < n - i ==> (#[trigger] blockers@[m]@.contains(b) <==> enriched_blocker(all, m + i, b)),
            parents@.len() == n - i,
            forall|m: int| 0 <= m < n - i ==> #[trigger] parents@[m] == enriched_parent(all[m + i]),
            r@.len() == i,
            forall|m: int| 0 <= m < i ==> #[trigger] r@[m] == (RawIssue {
                parent_issue: enriched_parent(all[m]),
                blocked_by: r@[m].blocked_by,
                ..all[m]
            }),
            forall|m: int| 0 <= m < i ==> strictly_increasing(#[trigger] r@[m].blocked_by@),
            forall|m: int, b: u64| 0 <= m < i ==> (#[trigger] r@[m].blocked_by@.contains(b) <==> enriched_blocker(all, m, b)),
        decreases n - i,
    {
        let mut issue = rest.remove(0);
        let ghost prev = blockers@;
        let ghost prev_parents = parents@;
        let merged = blockers.remove(0);
        let parent = parents.remove(0);
        assert(issue == all[i as int]);
        issue.parent_issue = parent;
        issue.blocked_by = merged;
        r.push(issue);
        proof {
            assert forall|m: int, b: u64| 0 <= m < n - (i + 1) implies (#[trigger] blockers@[m]@.contains(b) <==> enriched_blocker(all, m + (i + 1), b)) by {
                assert(blockers@[m] == prev[m + 1]);
            }
            assert forall|m: int| 0 <= m < n - (i + 1) implies #[trigger] parents@[m] == enriched_parent(all[m + (i + 1)]) by {
                assert(parents@[m] == prev_parents[m + 1]);
            }
        }
        i = i + 1;
    }
    r
}

proof fn lemma_same_sorted(a: Seq<u64>, b: Seq<u64>)
    requires
        strictly_increasing(a),
        strictly_increasing(b),
        forall|x: u64| a.contains(x) <==> b.contains(x),
    ensures
        a == b,
    decreases a.len(),
{
    if a.len() == 0 {
        if b.len() > 0 {
            assert(b.contains(b[0]));
        }
        assert(a =~= b);
    } else {
        assert(a.contains(a[0]));
        let j = choose|j: int| 0 <= j < b.len() && b[j] == a[0];
        assert(b.contains(b[0]));
        let i = choose|i: int| 0 <= i < a.len() && a[i] == b[0];
        assert(a[0] <= a[i]);
        assert(b[0] <= b[j]);
        assert(a[0] == b[0]);
        let ra = a.drop_first();
        let rb = b.drop_first();
        assert forall|x: u64| ra.contains(x) <==> rb.contains(x) by {
            if ra.contains(x) {
                let w = choose|w: int| 0 <= w < ra.len() && ra[w] == x;
                assert(a[w + 1] == x && a[0] < a[w + 1]);
                assert(a.contains(x));
                let v = choose|v: int| 0 <= v < b.len() && b[v] == x;
                assert(v != 0);
                assert(rb[v - 1] == x);
            }
            if rb.contains(x) {
                let w = choose|w: int| 0 <= w < rb.len() && rb[w] == x;
                assert(b[w + 1] == x && b[0] < b[w + 1]);
                assert(b.contains(x));
                let v = choose|v: int| 0 <= v < a.len() && a[v] == x;
                assert(v != 0);
                assert(ra[v - 1] == x);
            }
        }
        lemma_same_sorted(ra, rb);
        assert(a =~= b) by {
            assert forall|k: int| 0 <= k < a.len() implies a[k] == b[k] by {
                if k > 0 {
                    assert(a[k] == ra[k - 1]);
                    assert(b[k] == rb[k - 1]);
                }
            }
        }
    }
}

/// `a` and `b` hold the same issues: equal in every field, blockers
/// compared as sequences.
pub open spec fn same_issues(a: Seq<RawIssue>, b: Seq<RawIssue>) -> bool {
    &&& a.len() == b.len()
    &&& forall|k: int| 0 <= k < a.len() ==> #[trigger] a[k] == (RawIssue { blocked_by: a[k].blocked_by, ..b[k] })
    &&& forall|k: int| 0 <= k < a.len() ==> #[trigger] a[k].blocked_by@ == b[k].blocked_by@
}

/// Reading the bodies again adds nothing: enriching issues that were
/// already enriched gives the same issues back.
pub proof fn enriching_twice_is_enriching_once(issues: Seq<RawIssue>, once: Seq<RawIssue>, twice: Seq<RawIssue>)
    requires
        enriched(once, issues),
        enriched(twice, once),
    ensures
        same_issues(twice, once),
{
    assert forall|k: int| 0 <= k < once.len() implies #[trigger] twice[k] == (RawIssue { blocked_by: twice[k].blocked_by, ..once[k] })
        && twice[k].blocked_by@ == once[k].blocked_by@ by {
        assert(once[k] == (RawIssue { parent_issue: enriched_parent(issues[k]), blocked_by: once[k].blocked_by, ..issues[k] }));
        assert(twice[k] == (RawIssue { parent_issue: enriched_parent(once[k]), blocked_by: twice[k].blocked_by, ..once[k] }));
        assert(enriched_parent(once[k]) == once[k].parent_issue);
        assert forall|b: u64| twice[k].blocked_by@.contains(b) <==> once[k].blocked_by@.contains(b) by {
            assert(twice[k].blocked_by@.contains(b) <==> enriched_blocker(once, k, b));
            assert(once[k].blocked_by@.contains(b) <==> enriched_blocker(issues, k, b));
            if exists|j: int| 0 <= j < once.len() && #[trigger] once[j].number == b
                && declares_blocks(once[j].body@, once[k].number) {
                let j = choose|j: int| 0 <= j < once.len() && #[trigger] once[j].number == b
                    && declares_blocks(once[j].body@, once[k].number);
                assert(once[j] == (RawIssue { parent_issue: enriched_parent(issues[j]), blocked_by: once[j].blocked_by, ..issues[j] }));
                assert(issues[j].number == b);
                assert(enriched_blocker(issues, k, b));
            }
        }
        lemma_same_sorted(twice[k].blocked_by@, once[k].blocked_by@);
    }
}

/// A standalone list or quote marker (`-`, `*` or `>`) followed by
/// whitespace is stripped before a line's relationship is read: the line
/// reads as the rest of the line would.
pub proof fn list_markers_are_stripped(marker: char, white: char, rest: Seq<char>)
    requires
        marker == '-' || marker == '*' || marker == '>',
        white == ' ' || white == '\t',
    ensures
        line_text(seq![marker, white] + rest) == line_text(rest),
{
    let s = seq![marker, white] + rest;
    assert(trim_start(s) == s);
    assert(s.drop_first() =~= seq![white] + rest);
    assert((seq![white] + rest).drop_first() =~= rest);
    assert(trim_start(seq![white] + rest) == trim_start(rest));
    assert(strip_markers_from(s) == strip_markers_from(trim_start(s.drop_first())));
}

proof fn lemma_one_line(s: Seq<char>)
    requires
        s.len() > 0,
        !s.contains('\n'),
    ensures
        split_lines(s) == seq![s],
{
    lemma_first_newline_is(s, s.len() as int);
}

/// A one-line body that starts with a `-`, `*` or `>` bullet and a space
/// declares the same blockers and blocked issues as the same line without
/// the bullet (unless the rest opens a code fence).
pub proof fn a_bulleted_line_declares_what_its_text_declares(marker: char, rest: Seq<char>, kind: int, n: u64)
    requires
        marker == '-' || marker == '*' || marker == '>',
        !rest.contains('\n'),
        fence_at(trim_start(rest)) is None,
    ensures
        referenced(seq![marker, ' '] + rest, kind, n) <==> referenced(rest, kind, n),
{
    let s = seq![marker, ' '] + rest;
    list_markers_are_stripped(marker, ' ', rest);
    assert(!s.contains('\n')) by {
        if s.contains('\n') {
            let i = choose|i: int| 0 <= i < s.len() && s[i] == '\n';
            assert(rest[i - 2] == '\n');
        }
    }
    lemma_one_line(s);
    assert(trim_start(s) == s);
    assert(fence_at(s) is None);
    let ls = seq![s];
    assert(is_content(ls, 0));
    assert(!referenced_upto(ls, 0, kind, n));
    assert(referenced(s, kind, n) == (line_kind(line_text(s)) == kind && refs_contain(line_text(s), n)));
    if rest.len() > 0 {
        lemma_one_line(rest);
        let lr = seq![rest];
        assert(is_content(lr, 0));
        assert(!referenced_upto(lr, 0, kind, n));
        assert(referenced(rest, kind, n) == (line_kind(line_text(rest)) == kind && refs_contain(line_text(rest), n)));
    } else {
        assert(split_lines(rest) =~= Seq::<Seq<char>>::empty());
        assert(!referenced(rest, kind, n));
        assert(line_text(rest) =~= Seq::<char>::empty());
        assert(!refs_contain(line_text(rest), n));
    }
}

} // verus!
