//! Character-level helpers shared by the parsers of this crate.

use vstd::prelude::*;

verus! {

broadcast use vstd::string::group_string_axioms;

/// `String::push` appends one character to the end of the string.
pub assume_specification[ String::push ](s: &mut String, ch: char)
    ensures
        final(s)@ == old(s)@.push(ch),
;

/// The characters of a string slice, in order.
pub fn chars_of(s: &str) -> (r: Vec<char>)
    ensures
        r@ == s@,
{
    let mut r: Vec<char> = Vec::new();
    for c in it: s.chars()
        invariant
            r@ == it.seq().take(it.index() as int),
    {
        r.push(c);
    }
    r
}

/// A string holding exactly the given characters.
pub fn string_of(cs: &[char]) -> (r: String)
    ensures
        r@ == cs@,
{
    let mut r = String::new();
    let mut i: usize = 0;
    while i < cs.len()
        invariant
            i <= cs@.len(),
            r@ == cs@.take(i as int),
        decreases cs@.len() - i,
    {
        r.push(cs[i]);
        i = i + 1;
        assert(r@ == cs@.take(i as int));
    }
    assert(cs@.take(cs@.len() as int) == cs@);
    r
}

/// A copy of a vector of `Copy` values.
pub fn copy_vec<T: Copy>(v: &Vec<T>) -> (r: Vec<T>)
    ensures
        r@ == v@,
{
    let mut r: Vec<T> = Vec::new();
    let mut i: usize = 0;
    while i < v.len()
        invariant
            i <= v@.len(),
            r@ == v@.take(i as int),
        decreases v@.len() - i,
    {
        r.push(v[i]);
        i = i + 1;
        assert(r@ == v@.take(i as int));
    }
    assert(v@.take(v@.len() as int) == v@);
    r
}

/// A copy of a vector of strings.
pub fn copy_strings(v: &Vec<String>) -> (r: Vec<String>)
    ensures
        r@ == v@,
{
    let mut r: Vec<String> = Vec::new();
    let mut i: usize = 0;
    while i < v.len()
        invariant
            i <= v@.len(),
            r@ == v@.take(i as int),
        decreases v@.len() - i,
    {
        r.push(v[i].clone());
        i = i + 1;
        assert(r@ == v@.take(i as int));
    }
    assert(v@.take(v@.len() as int) == v@);
    r
}

/// A copy of an optional string.
pub fn copy_opt_string(o: &Option<String>) -> (r: Option<String>)
    ensures
        r == *o,
{
    match o {
        Some(s) => Some(s.clone()),
        None => None,
    }
}

/// Each element is smaller than the next.
pub open spec fn strictly_increasing(s: Seq<u64>) -> bool {
    forall|a: int, b: int| 0 <= a < b < s.len() ==> s[a] < s[b]
}

/// Inserts `x` into a strictly increasing vector unless it is already there.
pub fn insert_sorted_unique(sorted: Vec<u64>, x: u64) -> (r: Vec<u64>)
    requires
        strictly_increasing(sorted@),
    ensures
        strictly_increasing(r@),
        forall|b: u64| r@.contains(b) <==> (sorted@.contains(b) || b == x),
{
    let mut v = sorted;
    let ghost given = v@;
    let mut j: usize = 0;
    while j < v.len() && v[j] < x
        invariant
            j <= v@.len(),
            v@ == given,
            forall|a: int| 0 <= a < j ==> v@[a] < x,
        decreases v@.len() - j,
    {
        j = j + 1;
    }
    if j < v.len() && v[j] == x {
        assert(v@[j as int] == x);
        return v;
    }
    let ghost before = v@;
    v.insert(j, x);
    assert(v@ == before.insert(j as int, x));
    assert(before == sorted@);
    assert forall|b: u64| #[trigger] v@.contains(b) <==> (sorted@.contains(b) || b == x) by {
        if v@.contains(b) {
            let k = choose|k: int| 0 <= k < v@.len() && v@[k] == b;
            if k < j {
                assert(before[k] == b);
            } else if k > j {
                assert(before[k - 1] == b);
            }
        }
        if before.contains(b) {
            let k = choose|k: int| 0 <= k < before.len() && before[k] == b;
            if k < j {
                assert(v@[k] == b);
            } else {
                assert(v@[k + 1] == b);
            }
        }
        if b == x {
            assert(v@[j as int] == b);
        }
    }
    v
}


/// Unicode `White_Space`, as `char::is_whitespace` classifies it.
pub open spec fn is_white(c: char) -> bool {
    let u = c as u32;
    ||| 0x09 <= u <= 0x0D
    ||| u == 0x20
    ||| u == 0x85
    ||| u == 0xA0
    ||| u == 0x1680
    ||| 0x2000 <= u <= 0x200A
    ||| u == 0x2028
    ||| u == 0x2029
    ||| u == 0x202F
    ||| u == 0x205F
    ||| u == 0x3000
}

/// ASCII whitespace as `u8::is_ascii_whitespace` classifies it.
pub open spec fn is_ascii_white(c: char) -> bool {
    c == ' ' || c == '\t' || c == '\n' || c == '\x0C' || c == '\r'
}

pub open spec fn is_ascii_digit(c: char) -> bool {
    '0' <= c && c <= '9'
}

/// `s` without its leading whitespace.
pub open spec fn trim_start(s: Seq<char>) -> Seq<char>
    decreases s.len(),
{
    if s.len() > 0 && is_white(s[0]) {
        trim_start(s.drop_first())
    } else {
        s
    }
}

/// `s` without its trailing whitespace.
pub open spec fn trim_end(s: Seq<char>) -> Seq<char>
    decreases s.len(),
{
    if s.len() > 0 && is_white(s.last()) {
        trim_end(s.drop_last())
    } else {
        s
    }
}

/// `s` without leading or trailing whitespace, as `str::trim` gives it.
pub open spec fn trim(s: Seq<char>) -> Seq<char> {
    trim_end(trim_start(s))
}

/// Every character of `s` is whitespace.
pub open spec fn all_white(s: Seq<char>) -> bool {
    forall|i: int| 0 <= i < s.len() ==> is_white(#[trigger] s[i])
}

pub fn is_white_char(c: char) -> (r: bool)
    ensures
        r == is_white(c),
{
    let u = c as u32;
    (0x09 <= u && u <= 0x0D) || u == 0x20 || u == 0x85 || u == 0xA0 || u == 0x1680 || (0x2000 <= u
        && u <= 0x200A) || u == 0x2028 || u == 0x2029 || u == 0x202F || u == 0x205F || u == 0x3000
}

pub fn is_ascii_white_char(c: char) -> (r: bool)
    ensures
        r == is_ascii_white(c),
{
    c == ' ' || c == '\t' || c == '\n' || c == '\x0C' || c == '\r'
}

pub fn is_ascii_digit_char(c: char) -> (r: bool)
    ensures
        r == is_ascii_digit(c),
{
    '0' <= c && c <= '9'
}

/// The first position at or after `start` that holds no whitespace.
pub fn skip_white(cs: &[char], start: usize) -> (k: usize)
    requires
        start <= cs@.len(),
    ensures
        start <= k <= cs@.len(),
        cs@.skip(k as int) == trim_start(cs@.skip(start as int)),
{
    let mut k = start;
    while k < cs.len() && is_white_char(cs[k])
        invariant
            start <= k <= cs@.len(),
            trim_start(cs@.skip(k as int)) == trim_start(cs@.skip(start as int)),
        decreases cs@.len() - k,
    {
        assert(cs@.skip(k as int).drop_first() == cs@.skip(k + 1));
        k = k + 1;
    }
    k
}

/// The end of `cs[..end]` once its trailing whitespace is removed.
pub fn skip_white_back(cs: &[char], start: usize, end: usize) -> (k: usize)
    requires
        start <= end <= cs@.len(),
    ensures
        start <= k <= end,
        cs@.subrange(start as int, k as int) == trim_end(cs@.subrange(start as int, end as int)),
{
    let mut k = end;
    while k > start && is_white_char(cs[k - 1])
        invariant
            start <= k <= end,
            end <= cs@.len(),
            trim_end(cs@.subrange(start as int, k as int)) == trim_end(cs@.subrange(start as int, end as int)),
        decreases k,
    {
        assert(cs@.subrange(start as int, k as int).drop_last() == cs@.subrange(start as int, k - 1));
        k = k - 1;
    }
    k
}

/// `str::trim`.
pub fn trim_str(s: &str) -> (r: String)
    ensures
        r@ == trim(s@),
{
    let cs = chars_of(s);
    let a = skip_white(cs.as_slice(), 0);
    let b = skip_white_back(cs.as_slice(), a, cs.len());
    assert(cs@.skip(0) == cs@);
    assert(cs@.subrange(a as int, cs@.len() as int) == cs@.skip(a as int));
    string_of(slice_range(cs.as_slice(), a, b).as_slice())
}

/// The characters `cs[a..b]`.
pub fn slice_range(cs: &[char], a: usize, b: usize) -> (r: Vec<char>)
    requires
        a <= b <= cs@.len(),
    ensures
        r@ == cs@.subrange(a as int, b as int),
{
    let mut r: Vec<char> = Vec::new();
    let mut i = a;
    while i < b
        invariant
            a <= i <= b,
            b <= cs@.len(),
            r@ == cs@.subrange(a as int, i as int),
        decreases b - i,
    {
        r.push(cs[i]);
        i = i + 1;
        assert(r@ == cs@.subrange(a as int, i as int));
    }
    r
}

pub proof fn lemma_trim_start_all_white(s: Seq<char>)
    ensures
        trim_start(s).len() == 0 <==> all_white(s),
    decreases s.len(),
{
    if s.len() > 0 {
        lemma_trim_start_all_white(s.drop_first());
        if is_white(s[0]) {
            assert forall|i: int| 0 <= i < s.len() && all_white(s.drop_first()) implies is_white(#[trigger] s[i]) by {
                if i > 0 {
                    assert(s[i] == s.drop_first()[i - 1]);
                }
            }
            if all_white(s) {
                assert forall|i: int| 0 <= i < s.drop_first().len() implies is_white(#[trigger] s.drop_first()[i]) by {
                    assert(s.drop_first()[i] == s[i + 1]);
                }
            }
        }
    }
}

pub proof fn lemma_trim_end_empty(s: Seq<char>)
    ensures
        trim_end(s).len() == 0 <==> all_white(s),
    decreases s.len(),
{
    if s.len() > 0 {
        lemma_trim_end_empty(s.drop_last());
        if is_white(s.last()) {
            assert forall|i: int| 0 <= i < s.len() && all_white(s.drop_last()) implies is_white(#[trigger] s[i]) by {
                if i < s.len() - 1 {
                    assert(s[i] == s.drop_last()[i]);
                }
            }
            if all_white(s) {
                assert forall|i: int| 0 <= i < s.drop_last().len() implies is_white(#[trigger] s.drop_last()[i]) by {
                    assert(s.drop_last()[i] == s[i]);
                }
            }
        } else {
            assert(!is_white(s[s.len() - 1]));
        }
    }
}

/// What trimming leaves does not start with whitespace.
pub proof fn lemma_trim_start_head(s: Seq<char>)
    ensures
        trim_start(s).len() > 0 ==> !is_white(trim_start(s)[0]),
        trim_start(s).len() <= s.len(),
    decreases s.len(),
{
    if s.len() > 0 && is_white(s[0]) {
        lemma_trim_start_head(s.drop_first());
    }
}

/// A string is blank when trimming leaves nothing, that is when every
/// character is whitespace.
pub open spec fn blank(s: Seq<char>) -> bool {
    trim(s).len() == 0
}

/// Whether `s` holds only whitespace.
pub fn is_blank(s: &str) -> (r: bool)
    ensures
        r == blank(s@),
{
    let cs = chars_of(s);
    let a = skip_white(cs.as_slice(), 0);
    assert(cs@.skip(0) == cs@);
    proof {
        lemma_trim_end_empty(trim_start(s@));
        lemma_trim_start_head(s@);
        if trim_start(s@).len() > 0 {
            assert(!is_white(trim_start(s@)[0]));
        }
    }
    a == cs.len()
}

/// Appends the characters of `t` to `s`.
pub fn push_str(s: &mut String, t: &str)
    ensures
        final(s)@ == old(s)@ + t@,
{
    let cs = chars_of(t);
    let ghost start = s@;
    let mut i: usize = 0;
    while i < cs.len()
        invariant
            i <= cs@.len(),
            cs@ == t@,
            s@ == start + cs@.take(i as int),
        decreases cs@.len() - i,
    {
        s.push(cs[i]);
        i = i + 1;
        assert(s@ == start + cs@.take(i as int));
    }
    assert(cs@.take(cs@.len() as int) == cs@);
}

/// `a` followed by `b`.
pub fn concat(a: &str, b: &str) -> (r: String)
    ensures
        r@ == a@ + b@,
{
    let mut r = a.to_owned();
    push_str(&mut r, b);
    r
}

/// The decimal digits of `n`, most significant first, without leading zeros.
pub open spec fn decimal(n: nat) -> Seq<char>
    decreases n,
{
    if n < 10 {
        seq![digit_char(n)]
    } else {
        decimal(n / 10).push(digit_char(n % 10))
    }
}

pub open spec fn digit_char(d: nat) -> char {
    if d == 0 { '0' } else if d == 1 { '1' } else if d == 2 { '2' } else if d == 3 { '3' }
    else if d == 4 { '4' } else if d == 5 { '5' } else if d == 6 { '6' } else if d == 7 { '7' }
    else if d == 8 { '8' } else { '9' }
}

fn digit_of(d: u64) -> (c: char)
    requires
        d < 10,
    ensures
        c == digit_char(d as nat),
{
    if d == 0 { '0' } else if d == 1 { '1' } else if d == 2 { '2' } else if d == 3 { '3' }
    else if d == 4 { '4' } else if d == 5 { '5' } else if d == 6 { '6' } else if d == 7 { '7' }
    else if d == 8 { '8' } else { '9' }
}

/// Appends the decimal form of `n` to `s`, as `format!("{n}")` writes it.
pub fn push_decimal(s: &mut String, n: u64)
    ensures
        final(s)@ == old(s)@ + decimal(n as nat),
    decreases n,
{
    if n >= 10 {
        push_decimal(s, n / 10);
    }
    s.push(digit_of(n % 10));
}

/// The decimal form of `n`.
pub fn decimal_string(n: u64) -> (r: String)
    ensures
        r@ == decimal(n as nat),
{
    let mut r = String::new();
    push_decimal(&mut r, n);
    assert(r@ == Seq::<char>::empty() + decimal(n as nat));
    r
}

/// Trimming the end keeps a prefix.
pub proof fn lemma_trim_end_prefix(x: Seq<char>)
    ensures
        trim_end(x).len() <= x.len(),
        forall|i: int| 0 <= i < trim_end(x).len() ==> trim_end(x)[i] == x[i],
    decreases x.len(),
{
    if x.len() > 0 && is_white(x.last()) {
        lemma_trim_end_prefix(x.drop_last());
        assert forall|i: int| 0 <= i < trim_end(x).len() implies trim_end(x)[i] == x[i] by {
            assert(x.drop_last()[i] == x[i]);
        }
    }
}

/// A string is blank exactly when all its characters are whitespace.
pub proof fn lemma_blank_all_white(s: Seq<char>)
    ensures
        blank(s) <==> all_white(s),
{
    lemma_trim_end_empty(trim_start(s));
    lemma_trim_start_head(s);
    lemma_trim_start_all_white(s);
    if trim_start(s).len() > 0 {
        assert(!is_white(trim_start(s)[0]));
    }
}

/// Trimming does not change whether a string is blank.
pub proof fn lemma_trim_idempotent(s: Seq<char>)
    ensures
        blank(trim(s)) == blank(s),
{
    lemma_blank_all_white(s);
    lemma_blank_all_white(trim(s));
    lemma_trim_start_head(s);
    lemma_trim_end_prefix(trim_start(s));
    if !blank(s) {
        assert(trim(s).len() > 0);
        assert(trim(s)[0] == trim_start(s)[0]);
        assert(!is_white(trim(s)[0]));
    }
}

/// Whether two strings hold the same characters.
pub fn str_eq(a: &str, b: &str) -> (r: bool)
    ensures
        r == (a@ == b@),
{
    let x = chars_of(a);
    let y = chars_of(b);
    if x.len() != y.len() {
        return false;
    }
    let mut i: usize = 0;
    while i < x.len()
        invariant
            x@ == a@,
            y@ == b@,
            x@.len() == y@.len(),
            i <= x@.len(),
            forall|k: int| 0 <= k < i ==> x@[k] == y@[k],
        decreases x@.len() - i,
    {
        if x[i] != y[i] {
            assert(x@[i as int] != y@[i as int]);
            return false;
        }
        i = i + 1;
    }
    assert(x@ == y@);
    true
}

/// Whether `s` begins with `p`.
pub fn starts_with(s: &str, p: &str) -> (r: bool)
    ensures
        r == (s@.len() >= p@.len() && s@.take(p@.len() as int) == p@),
{
    let x = chars_of(s);
    let y = chars_of(p);
    if x.len() < y.len() {
        return false;
    }
    let mut i: usize = 0;
    while i < y.len()
        invariant
            x@ == s@,
            y@ == p@,
            x@.len() >= y@.len(),
            i <= y@.len(),
            forall|k: int| 0 <= k < i ==> x@[k] == y@[k],
        decreases y@.len() - i,
    {
        if x[i] != y[i] {
            assert(x@.take(y@.len() as int)[i as int] == x@[i as int]);
            assert(x@.take(y@.len() as int)[i as int] != y@[i as int]);
            return false;
        }
        i = i + 1;
    }
    assert(x@.take(y@.len() as int) == y@);
    true
}

/// Whether `t` reads as an option name: a dash followed by at least one more
/// character.
pub open spec fn is_flag(t: Seq<char>) -> bool {
    t.len() >= 2 && t[0] == '-'
}

/// Whether `s` begins with `p`.
pub open spec fn has_prefix(s: Seq<char>, p: Seq<char>) -> bool {
    s.len() >= p.len() && s.take(p.len() as int) == p
}

/// Whether `t` reads as an option name.
pub fn is_flag_str(t: &str) -> (r: bool)
    ensures
        r == is_flag(t@),
{
    let cs = chars_of(t);
    cs.len() >= 2 && cs[0] == '-'
}

/// The rest of `s` after the prefix `p`, or `None` when `s` does not begin
/// with `p`.
pub fn strip_prefix_str(s: &str, p: &str) -> (r: Option<String>)
    ensures
        has_prefix(s@, p@) ==> (r matches Some(rest) && rest@ == s@.skip(p@.len() as int)),
        !has_prefix(s@, p@) ==> r is None,
{
    if !starts_with(s, p) {
        return None;
    }
    let cs = chars_of(s);
    let n = chars_of(p).len();
    let rest = slice_range(cs.as_slice(), n, cs.len());
    assert(rest@ == s@.skip(p@.len() as int));
    Some(string_of(rest.as_slice()))
}

/// `p` occurs in `s`.
pub open spec fn contains_text(s: Seq<char>, p: Seq<char>) -> bool {
    exists|i: int| 0 <= i && i + p.len() <= s.len() && #[trigger] s.subrange(i, i + p.len()) == p
}

fn window_eq(x: &Vec<char>, y: &Vec<char>, i: usize) -> (r: bool)
    requires
        i + y.len() <= x.len(),
    ensures
        r == (x@.subrange(i as int, i + y@.len()) == y@),
{
    let mut k: usize = 0;
    while k < y.len()
        invariant
            i + y.len() <= x.len(),
            k <= y@.len(),
            forall|m: int| 0 <= m < k ==> x@[i + m] == y@[m],
        decreases y@.len() - k,
    {
        if x[i + k] != y[k] {
            assert(x@.subrange(i as int, i + y@.len())[k as int] != y@[k as int]);
            return false;
        }
        k = k + 1;
    }
    assert(x@.subrange(i as int, i + y@.len()) =~= y@);
    true
}

/// Whether `p` occurs in `s`.
pub fn str_contains(s: &str, p: &str) -> (r: bool)
    ensures
        r == contains_text(s@, p@),
{
    let x = chars_of(s);
    let y = chars_of(p);
    if y.len() > x.len() {
        return false;
    }
    let last = x.len() - y.len();
    let mut i: usize = 0;
    loop
        invariant
            x@ == s@,
            y@ == p@,
            last == x.len() - y.len(),
            i <= last,
            forall|j: int| 0 <= j < i ==> #[trigger] x@.subrange(j, j + y@.len()) != y@,
        decreases last - i,
    {
        if window_eq(&x, &y, i) {
            return true;
        }
        if i == last {
            assert forall|j: int| 0 <= j && j + p@.len() <= s@.len() implies #[trigger] s@.subrange(j, j + p@.len()) != p@ by {
                assert(j <= i);
            }
            return false;
        }
        i = i + 1;
    }
}

/// Where `c` first occurs in `s`, or `s.len()` when it does not.
pub open spec fn first_index_of(s: Seq<char>, c: char) -> int
    decreases s.len(),
{
    if s.len() == 0 {
        0
    } else if s[0] == c {
        0
    } else {
        1 + first_index_of(s.drop_first(), c)
    }
}

/// The pieces of `s` between occurrences of `c`, as `str::split` yields them.
pub open spec fn split_on(s: Seq<char>, c: char) -> Seq<Seq<char>>
    decreases s.len(),
{
    let k = first_index_of(s, c);
    if k >= s.len() || k < 0 {
        seq![s]
    } else {
        seq![s.take(k)] + split_on(s.skip(k + 1), c)
    }
}

pub proof fn lemma_first_index_of(s: Seq<char>, c: char, j: int)
    requires
        0 <= j <= s.len(),
        forall|i: int| 0 <= i < j ==> s[i] != c,
        j == s.len() || s[j] == c,
    ensures
        first_index_of(s, c) == j,
    decreases j,
{
    if j > 0 {
        assert forall|i: int| 0 <= i < j - 1 implies s.drop_first()[i] != c by {
            assert(s.drop_first()[i] == s[i + 1]);
        }
        if j < s.len() {
            assert(s.drop_first()[j - 1] == s[j]);
        }
        lemma_first_index_of(s.drop_first(), c, j - 1);
    }
}

/// The first position at or after `start` that holds `c`, or the end.
pub fn find_char(cs: &[char], start: usize, c: char) -> (e: usize)
    requires
        start <= cs@.len(),
    ensures
        start <= e <= cs@.len(),
        first_index_of(cs@.skip(start as int), c) == e - start,
        forall|i: int| start <= i < e ==> cs@[i] != c,
        e < cs@.len() ==> cs@[e as int] == c,
{
    let mut e = start;
    while e < cs.len() && cs[e] != c
        invariant
            start <= e <= cs@.len(),
            forall|i: int| start <= i < e ==> cs@[i] != c,
        decreases cs@.len() - e,
    {
        e = e + 1;
    }
    proof {
        let s = cs@.skip(start as int);
        assert forall|i: int| 0 <= i < e - start implies s[i] != c by {
            assert(s[i] == cs@[start + i]);
        }
        lemma_first_index_of(s, c, e - start);
    }
    e
}

/// The two pieces of `cs` around its only `c`, when `c` occurs exactly once.
pub fn split_two(cs: &[char], c: char) -> (r: Option<(Vec<char>, Vec<char>)>)
    ensures
        r is Some <==> split_on(cs@, c).len() == 2,
        r matches Some(p) ==> p.0@ == split_on(cs@, c)[0] && p.1@ == split_on(cs@, c)[1],
{
    let i = find_char(cs, 0, c);
    assert(cs@.skip(0) == cs@);
    if i == cs.len() {
        assert(split_on(cs@, c) == seq![cs@]);
        return None;
    }
    let j = find_char(cs, i + 1, c);
    let ghost rest = cs@.skip(i + 1);
    assert(split_on(cs@, c) == seq![cs@.take(i as int)] + split_on(rest, c));
    if j < cs.len() {
        assert(split_on(rest, c) == seq![rest.take(j - i - 1)] + split_on(rest.skip(j - i), c));
        assert(split_on(rest.skip(j - i), c).len() >= 1);
        return None;
    }
    assert(split_on(rest, c) == seq![rest]);
    let a = slice_range(cs, 0, i);
    let b = slice_range(cs, i + 1, cs.len());
    assert(a@ == cs@.take(i as int));
    assert(b@ == rest);
    Some((a, b))
}

pub proof fn lemma_split_on_nonempty(s: Seq<char>, c: char)
    ensures
        split_on(s, c).len() >= 1,
    decreases s.len(),
{
    let k = first_index_of(s, c);
    if !(k >= s.len() || k < 0) {
        lemma_first_index_bounds(s, c);
        lemma_split_on_nonempty(s.skip(k + 1), c);
    }
}

pub proof fn lemma_first_index_bounds(s: Seq<char>, c: char)
    ensures
        0 <= first_index_of(s, c) <= s.len(),
    decreases s.len(),
{
    if s.len() > 0 && s[0] != c {
        lemma_first_index_bounds(s.drop_first(), c);
    }
}

/// `s` without any number of trailing copies of `suffix`, as
/// `str::trim_end_matches` removes them.
pub open spec fn trim_suffixes(s: Seq<char>, suffix: Seq<char>) -> Seq<char>
    decreases s.len(),
{
    if suffix.len() > 0 && s.len() >= suffix.len() && s.skip(s.len() - suffix.len()) == suffix {
        trim_suffixes(s.take(s.len() - suffix.len()), suffix)
    } else {
        s
    }
}

/// Whether `cs[..end]` ends with `suffix`.
pub fn ends_with_at(cs: &[char], end: usize, suffix: &[char]) -> (r: bool)
    requires
        end <= cs@.len(),
    ensures
        r == (end >= suffix@.len() && cs@.take(end as int).skip(end - suffix@.len()) == suffix@),
{
    if end < suffix.len() {
        return false;
    }
    let base = end - suffix.len();
    let mut i: usize = 0;
    while i < suffix.len()
        invariant
            base + suffix@.len() == end,
            end <= cs@.len(),
            i <= suffix@.len(),
            forall|k: int| 0 <= k < i ==> cs@[base + k] == suffix@[k],
        decreases suffix@.len() - i,
    {
        if cs[base + i] != suffix[i] {
            assert(cs@.take(end as int).skip(base as int)[i as int] == cs@[base + i]);
            return false;
        }
        i = i + 1;
    }
    assert(cs@.take(end as int).skip(base as int) == suffix@);
    true
}

/// The end of `cs[..end]` once every trailing copy of `suffix` is removed.
pub fn trim_suffixes_end(cs: &[char], end: usize, suffix: &[char]) -> (r: usize)
    requires
        end <= cs@.len(),
    ensures
        r <= end,
        cs@.take(r as int) == trim_suffixes(cs@.take(end as int), suffix@),
{
    let mut e = end;
    if suffix.len() == 0 {
        return e;
    }
    while ends_with_at(cs, e, suffix)
        invariant
            e <= end,
            end <= cs@.len(),
            suffix@.len() > 0,
            trim_suffixes(cs@.take(e as int), suffix@) == trim_suffixes(cs@.take(end as int), suffix@),
        decreases e,
    {
        assert(cs@.take(e as int).take(e - suffix@.len()) == cs@.take(e - suffix@.len()));
        e = e - suffix.len();
    }
    e
}
/// The decimal value of a run of digits.
pub open spec fn digits_value(d: Seq<char>) -> nat
    decreases d.len(),
{
    if d.len() == 0 {
        0
    } else {
        digits_value(d.drop_last()) * 10 + ((d.last() as int - '0' as int) as nat)
    }
}

/// The number a string denotes as `u64::from_str` reads it: an optional
/// `+`, then one or more ASCII digits whose value fits in a `u64`.
pub open spec fn u64_text(s: Seq<char>) -> Option<u64> {
    if unsigned_digits(s).len() > 0 && all_digits(unsigned_digits(s)) && digits_value(unsigned_digits(s)) <= u64::MAX {
        Some(digits_value(unsigned_digits(s)) as u64)
    } else {
        None
    }
}

/// `s` without one leading `+`.
pub open spec fn unsigned_digits(s: Seq<char>) -> Seq<char> {
    if s.len() > 0 && s[0] == '+' {
        s.drop_first()
    } else {
        s
    }
}

pub open spec fn all_digits(d: Seq<char>) -> bool {
    forall|i: int| 0 <= i < d.len() ==> is_ascii_digit(#[trigger] d[i])
}

/// The number a string denotes as `i64::from_str` reads it: an optional sign,
/// then one or more ASCII digits whose value fits in an `i64`.
pub open spec fn i64_text(s: Seq<char>) -> Option<i64> {
    if s.len() > 0 && s[0] == '-' {
        let d = s.drop_first();
        if d.len() > 0 && all_digits(d) && digits_value(d) <= 9223372036854775808 {
            Some((0 - digits_value(d)) as i64)
        } else {
            None
        }
    } else {
        match u64_text(s) {
            Some(n) => if n <= i64::MAX { Some(n as i64) } else { None },
            None => None,
        }
    }
}

/// `i64::from_str` on the characters `cs`.
pub fn parse_i64(cs: &[char]) -> (r: Option<i64>)
    ensures
        r == i64_text(cs@),
{
    if cs.len() > 0 && cs[0] == '-' {
        let rest = slice_range(cs, 1, cs.len());
        assert(rest@ == cs@.drop_first());
        if rest.len() > 0 && rest[0] == '+' {
            assert(!is_ascii_digit(rest@[0]));
            return None;
        }
        assert(unsigned_digits(rest@) == rest@);
        match parse_u64(rest.as_slice()) {
            Some(n) => {
                if n <= 9223372036854775808u64 {
                    if n == 9223372036854775808u64 {
                        Some(i64::MIN)
                    } else {
                        Some(0 - (n as i64))
                    }
                } else {
                    None
                }
            },
            None => None,
        }
    } else {
        match parse_u64(cs) {
            Some(n) => if n <= 9223372036854775807u64 { Some(n as i64) } else { None },
            None => None,
        }
    }
}

/// `u64::from_str` on the characters `cs`.
pub fn parse_u64(cs: &[char]) -> (r: Option<u64>)
    ensures
        r == u64_text(cs@),
{
    let start: usize = if cs.len() > 0 && cs[0] == '+' { 1 } else { 0 };
    let ghost d = unsigned_digits(cs@);
    assert(d == cs@.skip(start as int));
    if start == cs.len() {
        return None;
    }
    let mut j = start;
    let mut acc: u64 = 0;
    let mut overflow = false;
    while j < cs.len()
        invariant
            start <= j <= cs@.len(),
            d == cs@.skip(start as int),
            d == unsigned_digits(cs@),
            forall|a: int| start <= a < j ==> is_ascii_digit(#[trigger] cs@[a]),
            overflow ==> digits_value(cs@.subrange(start as int, j as int)) > u64::MAX,
            !overflow ==> acc as nat == digits_value(cs@.subrange(start as int, j as int)),
        decreases cs@.len() - j,
    {
        let c = cs[j];
        if !is_ascii_digit_char(c) {
            assert(d[j - start] == c);
            assert(!is_ascii_digit(d[j - start]));
            return None;
        }
        assert(cs@.subrange(start as int, j + 1).drop_last() == cs@.subrange(start as int, j as int));
        assert(cs@.subrange(start as int, j + 1).last() == c);
        let digit = (c as u32 - '0' as u32) as u64;
        if !overflow {
            if acc > (u64::MAX - digit) / 10 {
                overflow = true;
            } else {
                acc = acc * 10 + digit;
            }
        }
        j = j + 1;
    }
    assert(cs@.subrange(start as int, cs@.len() as int) == d);
    assert forall|i: int| 0 <= i < d.len() implies is_ascii_digit(#[trigger] d[i]) by {
        assert(d[i] == cs@[start + i]);
    }
    if overflow {
        None
    } else {
        Some(acc)
    }
}

} // verus!
