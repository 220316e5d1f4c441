//! Who may use the cockpit's protected routes: the session token may come
//! once in the query, in a cookie or as a bearer credential, and must match
//! exactly. Also which request paths the embedded interface leaves to the
//! server.

use vstd::prelude::*;
use subtle::ConstantTimeEq;
use vstd::string::StringSliceAdditionalSpecFns;

use crate::text::{
    chars_of, find_char, first_index_of, has_prefix, is_ascii_white, is_ascii_white_char, slice_range,
    split_on, starts_with, str_eq, string_of, trim, trim_str,
};

verus! {

/// `subtle::ConstantTimeEq::ct_eq` on two byte slices, read as a `bool`:
/// true exactly when the slices have the same length and the same bytes. It
/// compares lengths first, then every byte without stopping early.
#[verifier::external_body]
fn constant_time_eq(a: &[u8], b: &[u8]) -> (r: bool)
    ensures
        r == (a@ == b@),
{
    bool::from(a.ct_eq(b))
}

/// Whether `candidate` is the token `expected`, compared in constant time
/// over their bytes.
pub fn token_matches(candidate: &str, expected: &str) -> (r: bool)
    ensures
        r == (candidate@ == expected@),
{
    let r = candidate.len() == expected.len() && constant_time_eq(candidate.as_bytes(), expected.as_bytes());
    proof {
        broadcast use vstd::utf8::encode_utf8_decode_utf8;
        if candidate.spec_bytes() == expected.spec_bytes() {
            assert(vstd::utf8::decode_utf8(candidate.spec_bytes()) == candidate@);
            assert(vstd::utf8::decode_utf8(expected.spec_bytes()) == expected@);
        }
    }
    r
}

/// The name of the cookie that carries the session token.
pub open spec fn token_cookie() -> Seq<char> {
    "stellr_token"@
}

/// Exactly one of `values` was given, and it is `expected`.
pub open spec fn single_match(values: Seq<Seq<char>>, expected: &str) -> bool {
    values.len() == 1 && values[0] == expected@
}

/// The values of the `token` pairs among `pairs`, in order.
pub open spec fn token_values(pairs: Seq<(Seq<char>, Seq<char>)>) -> Seq<Seq<char>>
    decreases pairs.len(),
{
    if pairs.len() == 0 {
        Seq::empty()
    } else {
        let rest = token_values(pairs.drop_last());
        if pairs.last().0 == "token"@ { rest.push(pairs.last().1) } else { rest }
    }
}

/// What `url::form_urlencoded::parse` decodes from a query: its name/value
/// pairs, in order.
pub uninterp spec fn form_pairs(query: Seq<char>) -> Seq<(Seq<char>, Seq<char>)>;

/// The decoded name/value pairs of `query`, from
/// `url::form_urlencoded::parse` over its bytes. The pairs are a function of
/// the query alone: the name [`form_pairs`] applied to it.
#[verifier::external_body]
fn decode_form_pairs(query: &str) -> (r: Vec<(String, String)>)
    ensures
        r@.map_values(|p: (String, String)| (p.0@, p.1@)) == form_pairs(query@),
{
    url::form_urlencoded::parse(query.as_bytes()).map(|(name, value)| (name.into_owned(), value.into_owned())).collect()
}

/// Whether the query carries the token: exactly one `token` pair, whose
/// decoded value is `expected`.
pub fn query_token_is_valid(query: Option<&str>, expected: &str) -> (r: bool)
    ensures
        r == (query matches Some(q) && single_match(token_values(form_pairs(q@)), expected)),
{
    let q = match query {
        Some(q) => q,
        None => {
            return false;
        },
    };
    let pairs = decode_form_pairs(q);
    let ghost views = pairs@.map_values(|p: (String, String)| (p.0@, p.1@));
    let mut values: Vec<String> = Vec::new();
    let mut i: usize = 0;
    while i < pairs.len()
        invariant
            i <= pairs@.len(),
            views == pairs@.map_values(|p: (String, String)| (p.0@, p.1@)),
            values@.map_values(|s: String| s@) == token_values(views.take(i as int)),
        decreases pairs@.len() - i,
    {
        assert(views.take(i + 1).drop_last() =~= views.take(i as int));
        assert(views.take(i + 1).last() == views[i as int]);
        if str_eq(pairs[i].0.as_str(), "token") {
            values.push(pairs[i].1.clone());
            assert(values@.map_values(|s: String| s@) =~= token_values(views.take(i as int)).push(views[i as int].1));
        }
        i = i + 1;
    }
    assert(views.take(pairs@.len() as int) =~= views);
    single_value_matches(&values, expected)
}

fn single_value_matches(values: &Vec<String>, expected: &str) -> (r: bool)
    ensures
        r == single_match(values@.map_values(|s: String| s@), expected),
{
    let ghost vs = values@.map_values(|s: String| s@);
    if values.len() != 1 {
        return false;
    }
    let only = values[0].as_str();
    assert(vs[0] == only@);
    token_matches(only, expected)
}

/// The session token in one `name=value` cookie, when it names it.
pub open spec fn cookie_value(part: Seq<char>) -> Option<Seq<char>> {
    let t = trim(part);
    let k = first_index_of(t, '=');
    if k < t.len() && t.take(k) == token_cookie() {
        Some(t.skip(k + 1))
    } else {
        None
    }
}

/// The session tokens among cookies, in order.
pub open spec fn cookie_values(parts: Seq<Seq<char>>) -> Seq<Seq<char>>
    decreases parts.len(),
{
    if parts.len() == 0 {
        Seq::empty()
    } else {
        let rest = cookie_values(parts.drop_first());
        match cookie_value(parts[0]) {
            Some(v) => seq![v] + rest,
            None => rest,
        }
    }
}

/// The session tokens of `Cookie` headers, each a `;`-separated list.
pub open spec fn header_cookie_values(headers: Seq<Seq<char>>) -> Seq<Seq<char>>
    decreases headers.len(),
{
    if headers.len() == 0 {
        Seq::empty()
    } else {
        header_cookie_values(headers.drop_last()) + cookie_values(split_on(headers.last(), ';'))
    }
}

fn cookie_value_of(part: &str) -> (r: Option<String>)
    ensures
        match cookie_value(part@) {
            Some(v) => r matches Some(s) && s@ == v,
            None => r is None,
        },
{
    let t = trim_str(part);
    let cs = chars_of(t.as_str());
    let k = find_char(cs.as_slice(), 0, '=');
    assert(cs@.skip(0) =~= cs@);
    if k == cs.len() {
        return None;
    }
    let name = slice_range(cs.as_slice(), 0, k);
    let cookie = chars_of("stellr_token");
    let name_text = string_of(name.as_slice());
    if !str_eq(name_text.as_str(), "stellr_token") {
        return None;
    }
    let value = slice_range(cs.as_slice(), k + 1, cs.len());
    assert(value@ =~= cs@.skip(k + 1));
    Some(string_of(value.as_slice()))
}

/// The session tokens in one `Cookie` header.
fn cookies_in(header: &str, found: &mut Vec<String>)
    ensures
        final(found)@.map_values(|s: String| s@) == old(found)@.map_values(|s: String| s@)
            + cookie_values(split_on(header@, ';')),
{
    let cs = chars_of(header);
    let ghost before = found@.map_values(|s: String| s@);
    let mut start: usize = 0;
    assert(cs@.skip(0) =~= cs@);
    loop
        invariant
            start <= cs@.len(),
            cs@ == header@,
            before == old(found)@.map_values(|s: String| s@),
            before + cookie_values(split_on(header@, ';'))
                == found@.map_values(|s: String| s@) + cookie_values(split_on(cs@.skip(start as int), ';')),
        decreases cs@.len() - start,
    {
        let e = find_char(cs.as_slice(), start, ';');
        let ghost rest = cs@.skip(start as int);
        let part = string_of(slice_range(cs.as_slice(), start, e).as_slice());
        assert(part@ =~= rest.take(e - start));
        let v = cookie_value_of(part.as_str());
        let ghost old_found = found@.map_values(|s: String| s@);
        match v {
            Some(value) => {
                found.push(value);
                assert(found@.map_values(|s: String| s@) =~= old_found.push(cookie_value(part@)->0));
            },
            None => {},
        }
        if e == cs.len() {
            assert(split_on(rest, ';') == seq![rest]);
            assert(rest.take(e - start) =~= rest);
            assert(seq![rest].drop_first() =~= Seq::<Seq<char>>::empty());
            assert(seq![rest][0] == rest);
            assert(cookie_values(seq![rest]) == (match cookie_value(rest) {
                Some(x) => seq![x] + cookie_values(Seq::<Seq<char>>::empty()),
                None => cookie_values(Seq::<Seq<char>>::empty()),
            }));
            proof {
                match cookie_value(rest) {
                    Some(x) => {
                        assert(old_found.push(x) =~= old_found + seq![x]);
                        assert(seq![x] + Seq::<Seq<char>>::empty() =~= seq![x]);
                    },
                    None => {
                        assert(old_found + Seq::<Seq<char>>::empty() =~= old_found);
                    },
                }
                assert(found@.map_values(|s: String| s@) == old_found + cookie_values(split_on(rest, ';')));
                assert(cs@.skip(start as int) == rest);
            }
            return;
        }
        assert(split_on(rest, ';') == seq![rest.take(e - start)] + split_on(rest.skip(e - start + 1), ';'));
        assert(rest.skip(e - start + 1) =~= cs@.skip(e + 1));
        assert((seq![rest.take(e - start)] + split_on(cs@.skip(e + 1), ';')).drop_first() =~= split_on(cs@.skip(e + 1), ';'));
        proof {
            match cookie_value(part@) {
                Some(x) => {
                    assert(old_found.push(x) + cookie_values(split_on(cs@.skip(e + 1), ';'))
                        =~= old_found + (seq![x] + cookie_values(split_on(cs@.skip(e + 1), ';'))));
                },
                None => {},
            }
        }
        start = e + 1;
    }
}

/// Whether the `Cookie` headers carry the token: exactly one session cookie,
/// whose value is `expected`.
pub fn cookie_token_is_valid(headers: &Vec<String>, expected: &str) -> (r: bool)
    ensures
        r == single_match(header_cookie_values(headers@.map_values(|h: String| h@)), expected),
{
    let ghost hv = headers@.map_values(|h: String| h@);
    let mut found: Vec<String> = Vec::new();
    let mut i: usize = 0;
    while i < headers.len()
        invariant
            i <= headers@.len(),
            hv == headers@.map_values(|h: String| h@),
            found@.map_values(|s: String| s@) == header_cookie_values(hv.take(i as int)),
        decreases headers@.len() - i,
    {
        assert(hv.take(i + 1).drop_last() =~= hv.take(i as int));
        assert(hv.take(i + 1).last() == headers@[i as int]@);
        cookies_in(headers[i].as_str(), &mut found);
        i = i + 1;
    }
    assert(hv.take(headers@.len() as int) =~= hv);
    single_value_matches(&found, expected)
}

/// The length of the word at the start of `s`: up to the first ASCII
/// whitespace.
pub open spec fn word_len(s: Seq<char>) -> int
    decreases s.len(),
{
    if s.len() == 0 || is_ascii_white(s[0]) { 0 } else { 1 + word_len(s.drop_first()) }
}

/// The words of `s` as `str::split_ascii_whitespace` yields them.
pub open spec fn ascii_words(s: Seq<char>) -> Seq<Seq<char>>
    decreases s.len(),
{
    if s.len() == 0 {
        Seq::empty()
    } else if is_ascii_white(s[0]) {
        ascii_words(s.drop_first())
    } else {
        let k = word_len(s);
        if 0 < k <= s.len() {
            seq![s.take(k)] + ascii_words(s.skip(k))
        } else {
            Seq::empty()
        }
    }
}

proof fn lemma_word_len(s: Seq<char>)
    ensures
        0 <= word_len(s) <= s.len(),
        forall|i: int| 0 <= i < word_len(s) ==> !is_ascii_white(#[trigger] s[i]),
        word_len(s) < s.len() ==> is_ascii_white(s[word_len(s)]),
    decreases s.len(),
{
    if s.len() > 0 && !is_ascii_white(s[0]) {
        lemma_word_len(s.drop_first());
        assert forall|i: int| 0 <= i < word_len(s) implies !is_ascii_white(#[trigger] s[i]) by {
            if i > 0 {
                assert(s[i] == s.drop_first()[i - 1]);
            }
        }
    }
}

pub open spec fn ascii_lower(c: char) -> char {
    if 'A' <= c && c <= 'Z' { ((c as int) + 32) as char } else { c }
}

/// `scheme` names the bearer scheme, in any ASCII case.
pub open spec fn is_bearer(scheme: Seq<char>) -> bool {
    scheme.len() == 6 && forall|i: int| 0 <= i < 6 ==> ascii_lower(#[trigger] scheme[i]) == "bearer"@[i]
}

/// The `Authorization` header holds the token: there is exactly one, made
/// of two words, the bearer scheme and `expected`.
pub open spec fn bearer_valid(headers: Seq<Seq<char>>, expected: &str) -> bool {
    &&& headers.len() == 1
    &&& ascii_words(headers[0]).len() == 2
    &&& is_bearer(ascii_words(headers[0])[0])
    &&& ascii_words(headers[0])[1] == expected@
}

/// The words of `s`.
fn words_of(s: &str) -> (r: Vec<String>)
    ensures
        r@.map_values(|w: String| w@) == ascii_words(s@),
{
    let cs = chars_of(s);
    let mut r: Vec<String> = Vec::new();
    let mut i: usize = 0;
    assert(cs@.skip(0) =~= cs@);
    while i < cs.len()
        invariant
            i <= cs@.len(),
            cs@ == s@,
            ascii_words(s@) == r@.map_values(|w: String| w@) + ascii_words(cs@.skip(i as int)),
        decreases cs@.len() - i,
    {
        let ghost rest = cs@.skip(i as int);
        let ghost before = r@.map_values(|w: String| w@);
        assert(rest[0] == cs@[i as int]);
        if is_ascii_white_char(cs[i]) {
            assert(rest.drop_first() =~= cs@.skip(i + 1));
            i = i + 1;
        } else {
            let mut j = i;
            while j < cs.len() && !is_ascii_white_char(cs[j])
                invariant
                    i <= j <= cs@.len(),
                    forall|k: int| i <= k < j ==> !is_ascii_white(#[trigger] cs@[k]),
                decreases cs@.len() - j,
            {
                j = j + 1;
            }
            proof {
                lemma_word_len(rest);
                let w = word_len(rest);
                if w < j - i {
                    assert(rest[w] == cs@[i + w]);
                }
                if w > j - i {
                    assert(rest[j - i] == cs@[j as int]);
                }
                assert(w == j - i);
            }
            let word = string_of(slice_range(cs.as_slice(), i, j).as_slice());
            assert(word@ =~= rest.take(j - i));
            assert(rest.skip(j - i) =~= cs@.skip(j as int));
            r.push(word);
            assert(r@.map_values(|w: String| w@) =~= before.push(rest.take(j - i)));
            assert(before.push(rest.take(j - i)) + ascii_words(cs@.skip(j as int))
                =~= before + (seq![rest.take(j - i)] + ascii_words(cs@.skip(j as int))));
            i = j;
        }
    }
    assert(cs@.skip(i as int).len() == 0);
    assert(r@.map_values(|w: String| w@) + Seq::<Seq<char>>::empty() =~= r@.map_values(|w: String| w@));
    r
}

fn bearer_scheme(word: &str) -> (r: bool)
    ensures
        r == is_bearer(word@),
{
    let cs = chars_of(word);
    let b = chars_of("bearer");
    proof {
        reveal_strlit("bearer");
    }
    if cs.len() != 6 {
        return false;
    }
    let mut i: usize = 0;
    while i < 6
        invariant
            cs@ == word@,
            b@ == "bearer"@,
            "bearer"@.len() == 6,
            cs@.len() == 6,
            i <= 6,
            forall|k: int| 0 <= k < i ==> ascii_lower(#[trigger] cs@[k]) == "bearer"@[k],
        decreases 6 - i,
    {
        let c = cs[i];
        let l = if 'A' <= c && c <= 'Z' { ((c as u32) + 32) as u8 as char } else { c };
        if l != b[i] {
            return false;
        }
        i = i + 1;
    }
    true
}

/// Whether the `Authorization` headers carry the token as a bearer
/// credential.
pub fn bearer_token_is_valid(headers: &Vec<String>, expected: &str) -> (r: bool)
    ensures
        r == bearer_valid(headers@.map_values(|h: String| h@), expected),
{
    let ghost hv = headers@.map_values(|h: String| h@);
    if headers.len() != 1 {
        return false;
    }
    let words = words_of(headers[0].as_str());
    let ghost wv = words@.map_values(|w: String| w@);
    assert(hv[0] == headers@[0]@);
    if words.len() != 2 {
        return false;
    }
    if !bearer_scheme(words[0].as_str()) {
        return false;
    }
    let token = words[1].as_str();
    assert(wv[1] == token@);
    token_matches(token, expected)
}

/// How a request to a protected route is answered.
#[derive(Debug, Clone, Copy, PartialEq, Eq, Structural)]
pub enum Admission {
    /// Served; no token is required.
    Open,
    /// Served, and the query's token is set as a session cookie.
    SetCookie,
    /// Served on a cookie or bearer credential.
    Accepted,
    /// Refused as unauthorized.
    Unauthorized,
}

/// The answer to a request when the session token is `expected` (none when
/// sessions are not guarded): the query's token is checked first and set as
/// a cookie; then the cookie and bearer credentials.
pub fn admission(expected: Option<&str>, query: Option<&str>, cookies: &Vec<String>, authorization: &Vec<String>) -> (r: Admission)
    ensures
        match expected {
            None => r == Admission::Open,
            Some(t) => if query matches Some(q) && single_match(token_values(form_pairs(q@)), t) {
                r == Admission::SetCookie
            } else if single_match(header_cookie_values(cookies@.map_values(|h: String| h@)), t)
                || bearer_valid(authorization@.map_values(|h: String| h@), t) {
                r == Admission::Accepted
            } else {
                r == Admission::Unauthorized
            },
        },
{
    let t = match expected {
        Some(t) => t,
        None => {
            return Admission::Open;
        },
    };
    if query_token_is_valid(query, t) {
        Admission::SetCookie
    } else if cookie_token_is_valid(cookies, t) || bearer_token_is_valid(authorization, t) {
        Admission::Accepted
    } else {
        Admission::Unauthorized
    }
}

/// The `Set-Cookie` value that keeps the session token for the browser.
pub open spec fn session_cookie_text(token: Seq<char>) -> Seq<char> {
    "stellr_token="@ + token + "; HttpOnly; SameSite=Strict; Path=/"@
}

pub fn session_cookie(token: &str) -> (r: String)
    ensures
        r@ == session_cookie_text(token@),
{
    let mut r = crate::text::concat("stellr_token=", token);
    crate::text::push_str(&mut r, "; HttpOnly; SameSite=Strict; Path=/");
    r
}

/// Paths that belong to the server rather than the embedded interface.
pub open spec fn server_path(path: Seq<char>) -> bool {
    path == "api"@ || has_prefix(path, "api/"@) || path == "ws"@ || has_prefix(path, "ws/"@)
}

/// Whether `path` (without its leading `/`) belongs to the server.
pub fn is_server_path(path: &str) -> (r: bool)
    ensures
        r == server_path(path@),
{
    str_eq(path, "api") || starts_with(path, "api/") || str_eq(path, "ws") || starts_with(path, "ws/")
}

/// `path` without its leading `/` characters.
pub open spec fn without_leading_slashes(path: Seq<char>) -> Seq<char>
    decreases path.len(),
{
    if path.len() > 0 && path[0] == '/' { without_leading_slashes(path.drop_first()) } else { path }
}

/// The embedded asset a request path asks for: none for the server's own
/// paths, the index for the root, otherwise the path without its leading
/// slashes.
pub fn requested_asset(path: &str) -> (r: Option<String>)
    ensures
        server_path(without_leading_slashes(path@)) ==> r is None,
        !server_path(without_leading_slashes(path@)) ==> (r matches Some(a)
            && a@ == (if without_leading_slashes(path@).len() == 0 { "index.html"@ } else { without_leading_slashes(path@) })),
{
    let cs = chars_of(path);
    let mut i: usize = 0;
    assert(cs@.skip(0) =~= cs@);
    while i < cs.len() && cs[i] == '/'
        invariant
            i <= cs@.len(),
            cs@ == path@,
            without_leading_slashes(path@) == without_leading_slashes(cs@.skip(i as int)),
        decreases cs@.len() - i,
    {
        assert(cs@.skip(i as int).drop_first() =~= cs@.skip(i + 1));
        i = i + 1;
    }
    let rest = string_of(slice_range(cs.as_slice(), i, cs.len()).as_slice());
    assert(rest@ =~= cs@.skip(i as int));
    if is_server_path(rest.as_str()) {
        return None;
    }
    if rest.as_str().is_empty() {
        return Some("index.html".to_owned());
    }
    Some(rest)
}

} // verus!
