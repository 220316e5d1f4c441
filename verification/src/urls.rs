//! The parts of a URL that routing reads, as the `url` crate parses them,
//! and the platform's path operations.

use vstd::prelude::*;
use vstd::utf8::encode_utf8;

verus! {

/// A URL broken into the parts that routing reads.
#[derive(Debug, Clone, PartialEq, Eq)]
pub struct ParsedUrl {
    /// The URL as the parser serializes it.
    pub serialization: String,
    pub scheme: String,
    pub host: Option<String>,
    /// The raw path segments; `None` for a cannot-be-a-base URL.
    pub path_segments: Option<Vec<String>>,
    /// The query's name/value pairs, percent-decoded.
    pub query_pairs: Vec<(String, String)>,
}

/// What `url::Url::parse` makes of a string, when it accepts it.
pub uninterp spec fn url_parse(raw: Seq<char>) -> Option<ParsedUrl>;

/// Parses `raw` with `url::Url::parse` and reads its serialization, scheme,
/// host, path segments and decoded query pairs. The result is a function of
/// `raw` alone: it is the name [`url_parse`] applied to it.
#[verifier::external_body]
pub(crate) fn parse_url(raw: &str) -> (r: Option<ParsedUrl>)
    ensures
        r == url_parse(raw@),
{
    let url = url::Url::parse(raw).ok()?;
    Some(ParsedUrl {
        serialization: url.as_str().to_owned(),
        scheme: url.scheme().to_owned(),
        host: url.host_str().map(str::to_owned),
        path_segments: url.path_segments().map(|segments| segments.map(str::to_owned).collect()),
        query_pairs: url.query_pairs().map(|(name, value)| (name.into_owned(), value.into_owned())).collect(),
    })
}

/// A path that neither Unix nor Windows reads as absolute or rooted: it
/// does not start with a separator (`/` or `\`) and has no drive (`X:`)
/// at its start. Every Windows path prefix starts with `\` or is a drive.
pub open spec fn surely_relative(p: Seq<char>) -> bool {
    p.len() == 0 || (p[0] != '/' && p[0] != '\\' && !(p.len() >= 2 && p[1] == ':'))
}

/// A Windows verbatim path (`\\?\...`), which Windows normalizes when a
/// path is joined onto it.
pub open spec fn verbatim(p: Seq<char>) -> bool {
    p.len() >= 4 && p[0] == '\\' && p[1] == '\\' && p[2] == '?' && p[3] == '\\'
}

/// A single plain file name: not empty, not `.` or `..`, and without a
/// separator or a drive colon.
pub open spec fn plain_file_name(name: Seq<char>) -> bool {
    &&& name.len() > 0
    &&& name != seq!['.'] && name != seq!['.', '.']
    &&& no_separator(name)
}

/// Whether `name` holds no separator (`/` or `\\`) and no drive colon.
pub open spec fn no_separator(name: Seq<char>) -> bool
    decreases name.len(),
{
    name.len() == 0 || (name[0] != '/' && name[0] != '\\' && name[0] != ':' && no_separator(name.drop_first()))
}

/// `r` is `rel` put after `base`: `base`, then at most one separator (`/`
/// or `\`), then `rel`.
pub open spec fn adjoined(base: Seq<char>, rel: Seq<char>, r: Seq<char>) -> bool {
    ||| r == base + rel
    ||| r == base + seq!['/'] + rel
    ||| r == base + seq!['\\'] + rel
}

/// Whether `s` ends with `suffix`.
pub open spec fn ends_with(s: Seq<char>, suffix: Seq<char>) -> bool {
    suffix.len() <= s.len() && s.skip(s.len() - suffix.len()) == suffix
}

/// `std::path::Path::is_absolute` on `p`. Which paths are absolute differs
/// between platforms: on Unix a path that starts with the root, on Windows
/// one with a prefix (`\\...` or a drive `X:`) and a root. So a path that
/// starts with neither a separator nor a drive is not absolute anywhere;
/// which other paths are absolute is left unsaid.
#[verifier::external_body]
pub(crate) fn path_is_absolute(p: &str) -> (r: bool)
    ensures
        surely_relative(p@) ==> !r,
{
    std::path::Path::new(p).is_absolute()
}

/// `std::path::Path::join` of `base` and `rel`, read back as text (both are
/// UTF-8, so nothing is lost). `rel` is extended onto `base`, or replaces it
/// (all of it when `rel` is absolute, all but a Windows prefix when it is
/// rooted), so unless `base` is a Windows verbatim path, whose joins are
/// normalized, the result ends with `rel`; a plain file name ends it in any
/// case. When `rel` is neither absolute, rooted nor prefixed on any platform
/// and `base` is not verbatim, the result is `base`, at most one separator,
/// then `rel`. Which separator is put in, and what comes before `rel`
/// otherwise, differ between platforms and are left unsaid.
#[verifier::external_body]
pub(crate) fn path_join(base: &str, rel: &str) -> (r: String)
    ensures
        surely_relative(rel@) && !verbatim(base@) ==> adjoined(base@, rel@, r@),
        !verbatim(base@) ==> ends_with(r@, rel@),
        plain_file_name(rel@) ==> ends_with(r@, rel@),
{
    std::path::Path::new(base).join(rel).to_string_lossy().into_owned()
}

/// The configuration directory of the `stellr` application, from
/// `directories::ProjectDirs::from("", "", "stellr")`, read back as text.
/// It depends on the platform and the environment, so nothing is stated of
/// it; `None` when no home directory is known.
#[verifier::external_body]
pub(crate) fn project_config_dir() -> Option<String> {
    match directories::ProjectDirs::from("", "", "stellr") {
        Some(dirs) => Some(dirs.config_dir().to_string_lossy().into_owned()),
        None => None,
    }
}

/// The data directory of the `stellr` application, from
/// `directories::ProjectDirs::from("", "", "stellr")`, read back as text.
/// It depends on the platform and the environment, so nothing is stated of
/// it; `None` when no home directory is known.
#[verifier::external_body]
pub(crate) fn project_data_dir() -> Option<String> {
    match directories::ProjectDirs::from("", "", "stellr") {
        Some(dirs) => Some(dirs.data_dir().to_string_lossy().into_owned()),
        None => None,
    }
}

/// `std::path::Path::with_file_name`: `path` with its last component
/// replaced by `name` (or `name` pushed when there is none), read back as
/// text. A plain file name ends the result; the rest of the path syntax
/// differs between platforms and is left unsaid.
#[verifier::external_body]
pub(crate) fn path_with_file_name(path: &str, name: &str) -> (r: String)
    ensures
        plain_file_name(name@) ==> ends_with(r@, name@),
{
    std::path::Path::new(path).with_file_name(name).to_string_lossy().into_owned()
}

/// A byte that form encoding writes as it is: `*`, `-`, `.`, `_`, an ASCII
/// digit or an ASCII letter.
pub open spec fn unchanged_byte(b: u8) -> bool {
    b == 0x2a || b == 0x2d || b == 0x2e || b == 0x5f || (0x30 <= b && b <= 0x39) || (0x41 <= b && b <= 0x5a)
        || (0x61 <= b && b <= 0x7a)
}

/// The uppercase hexadecimal digit of `d`.
pub open spec fn upper_hex(d: u8) -> char {
    if d < 10 {
        (0x30 + d) as char
    } else {
        (0x37 + d) as char
    }
}

/// How form encoding writes one byte: unchanged, a space as `+`, any other
/// byte as `%` and two uppercase hexadecimal digits.
pub open spec fn serialized_byte(b: u8) -> Seq<char> {
    if unchanged_byte(b) {
        seq![b as char]
    } else if b == 0x20 {
        seq!['+']
    } else {
        seq!['%', upper_hex(b / 16), upper_hex(b % 16)]
    }
}

/// How form encoding writes a run of bytes.
pub open spec fn serialized_bytes(bs: Seq<u8>) -> Seq<char>
    decreases bs.len(),
{
    if bs.len() == 0 {
        Seq::empty()
    } else {
        serialized_bytes(bs.drop_last()) + serialized_byte(bs.last())
    }
}

/// The `application/x-www-form-urlencoded` text of name/value pairs, as
/// `url::form_urlencoded::Serializer` writes them: each pair as its name's
/// and its value's UTF-8 bytes serialized, joined by `=`; the pairs joined
/// by `&`.
pub open spec fn form_encoded(pairs: Seq<(Seq<char>, Seq<char>)>) -> Seq<char>
    decreases pairs.len(),
{
    if pairs.len() == 0 {
        Seq::empty()
    } else {
        let p = pairs.last();
        let pair = serialized_bytes(encode_utf8(p.0)) + seq!['='] + serialized_bytes(encode_utf8(p.1));
        if pairs.len() == 1 {
            pair
        } else {
            form_encoded(pairs.drop_last()) + seq!['&'] + pair
        }
    }
}

/// Writes `pairs`, in order, with `url::form_urlencoded::Serializer` (its
/// `extend_pairs`, then `finish`) into an empty string: the text
/// [`form_encoded`] states, byte for byte as the crate's `byte_serialize`
/// and `percent_encode_byte` write it.
#[verifier::external_body]
pub(crate) fn encode_form_pairs(pairs: &Vec<(String, String)>) -> (r: String)
    ensures
        r@ == form_encoded(pairs@.map_values(|p: (String, String)| (p.0@, p.1@))),
{
    url::form_urlencoded::Serializer::new(String::new()).extend_pairs(pairs.iter()).finish()
}

/// What `url::Url::set_fragment` makes of `url`, once parsed with
/// `url::Url::parse`, given `fragment`, read back as text; `None` when `url`
/// does not parse.
pub uninterp spec fn url_with_fragment(url: Seq<char>, fragment: Seq<char>) -> Option<Seq<char>>;

/// Parses `url` with `url::Url::parse`, sets its fragment to `fragment` with
/// `url::Url::set_fragment` and reads the URL back as text. The outcome is a
/// function of the two texts alone: the name [`url_with_fragment`] applied to
/// them. It is `None` exactly when `url` does not parse, as with
/// [`parse_url`].
#[verifier::external_body]
pub(crate) fn set_url_fragment(url: &str, fragment: &str) -> (r: Option<String>)
    ensures
        match r {
            Some(s) => url_with_fragment(url@, fragment@) == Some(s@),
            None => url_with_fragment(url@, fragment@) is None,
        },
        r is None <==> url_parse(url@) is None,
{
    let mut parsed = url::Url::parse(url).ok()?;
    parsed.set_fragment(Some(fragment));
    Some(parsed.into())
}

} // verus!
