//! Calls whose results the library takes as they come: URLs, regular expressions, digests, Unicode
//! tables, debug formatting and the clock.

use crate::text::{digit, has_part, joined, texts};
use vstd::prelude::*;
use vstd::utf8::is_ascii_chars;

verus! {

/// The host of the URL that a text stands for: nothing where the text is no URL, and no host where
/// the URL has none.
pub uninterp spec fn url_host(text: Seq<char>) -> Option<Option<Seq<char>>>;

/// What an optional host of an optional URL stands for.
pub open spec fn host_view(r: Option<Option<String>>) -> Option<Option<Seq<char>>> {
    match r {
        Some(Some(h)) => Some(Some(h@)),
        Some(None) => Some(None),
        None => None,
    }
}

/// `url::Url::from_str` and then `url::Url::host_str`: whether a text is a URL and which host it
/// has, both of which depend on the text alone.
#[verifier::external_body]
pub(crate) fn parse_url_host(text: &str) -> (r: Option<Option<String>>)
    ensures
        host_view(r) == url_host(text@),
{
    match text.parse::<url::Url>() {
        Ok(u) => Some(u.host_str().map(String::from)),
        Err(_) => None,
    }
}

/// Whether a regular expression matches somewhere in a text; nothing where the expression does not
/// compile.
pub uninterp spec fn regex_match(pattern: Seq<char>, text: Seq<char>) -> Option<bool>;

/// A word of up to 64 ASCII letters and digits. As a regular expression it stands for itself.
pub open spec fn word(w: Seq<char>) -> bool {
    w.len() <= 64 && forall|i: int| 0 <= i < w.len() ==> ascii_alphanumeric(#[trigger] w[i])
}

/// The expression for two words with a dot between them.
pub open spec fn dotted(w: Seq<char>, v: Seq<char>) -> Seq<char> {
    w + "\\."@ + v
}

/// The expression for a word and an opening bracket, with white space or none between them.
pub open spec fn called(w: Seq<char>) -> Seq<char> {
    w + "\\s*\\("@
}

/// What words, dots and brackets mean in a pattern, where `hit` tells whether it matches in a text.
pub open spec fn matches_plainly(pattern: Seq<char>, text: Seq<char>, hit: bool) -> bool {
    &&& word(pattern) ==> hit == has_part(text, pattern)
    &&& forall|w: Seq<char>, v: Seq<char>|
        word(w) && word(v) && pattern == #[trigger] dotted(w, v) ==> hit == has_part(
            text,
            w + "."@ + v,
        )
    &&& forall|w: Seq<char>|
        word(w) && pattern == #[trigger] called(w) && has_part(text, w + "("@) ==> hit
}

/// A text with others before and after it.
pub open spec fn within(before: Seq<char>, text: Seq<char>, after: Seq<char>) -> Seq<char> {
    before + text + after
}

/// Tells whether a pattern asks nothing of what stands around its match: it has no `^` and no `$`, and
/// behind each backslash only `s`, `.`, `(` or `)`.
pub open spec fn unanchored(pattern: Seq<char>) -> bool {
    forall|i: int|
        0 <= i < pattern.len() ==> {
            let c = #[trigger] pattern[i];
            &&& c != '^' && c != '$'
            &&& c == '\\' ==> i + 1 < pattern.len() && escapes_plainly(pattern[i + 1])
        }
}

/// The characters that may stand behind a backslash of an unanchored pattern.
pub open spec fn escapes_plainly(c: char) -> bool {
    c == 's' || c == '.' || c == '(' || c == ')'
}

/// Where an unanchored pattern matches in a text, it matches in every text that holds this one.
pub open spec fn matches_anywhere(pattern: Seq<char>, text: Seq<char>, hit: bool) -> bool {
    unanchored(pattern) && hit ==> forall|before: Seq<char>, after: Seq<char>|
        regex_match(pattern, #[trigger] within(before, text, after)) == Some(true)
}

/// `regex_lite::Regex::new` and then `regex_lite::Regex::is_match`: whether the pattern compiles and
/// matches somewhere in the text, which depends on the two alone. A pattern that is a word matches
/// where the text holds the word; an escaped dot between two words stands for a dot; and `\s*\(` after
/// a word lets the bracket follow at once. A match of a pattern without anchors and word boundaries does
/// not depend on the text around it. Of other patterns nothing more is claimed.
#[verifier::external_body]
pub(crate) fn regex_is_match(pattern: &str, text: &str) -> (r: Option<bool>)
    ensures
        r == regex_match(pattern@, text@),
        matches_plainly(pattern@, text@, r == Some(true)),
        matches_anywhere(pattern@, text@, r == Some(true)),
{
    match regex_lite::Regex::new(pattern) {
        Ok(re) => Some(re.is_match(text)),
        Err(_) => None,
    }
}

/// The SHA-256 digest of some bytes.
pub uninterp spec fn sha256(data: Seq<u8>) -> Seq<u8>;

/// `sha2::Sha256::digest`: the digest of the bytes, which is 32 bytes long and depends on them alone.
#[verifier::external_body]
pub(crate) fn sha256_digest(data: &[u8]) -> (r: Vec<u8>)
    ensures
        r@ == sha256(data@),
        r@.len() == 32,
{
    <sha2::Sha256 as sha2::Digest>::digest(data).to_vec()
}

/// Bytes in hexadecimal: two lower-case digits for each byte, the high one first.
pub open spec fn hex_text(data: Seq<u8>) -> Seq<char> {
    Seq::new(
        2 * data.len(),
        |i: int| digit(if i % 2 == 0 {
            data[i / 2] as int / 16
        } else {
            data[i / 2] as int % 16
        }),
    )
}

/// `hex::encode`: two lower-case hexadecimal digits for each byte.
#[verifier::external_body]
pub(crate) fn hex_encode(data: &[u8]) -> (r: String)
    ensures
        r@ == hex_text(data@),
{
    hex::encode(data)
}

/// Letters and digits of ASCII.
pub open spec fn ascii_alphanumeric(c: char) -> bool {
    '0' <= c <= '9' || 'A' <= c <= 'Z' || 'a' <= c <= 'z'
}

/// Letters and numbers beyond ASCII, as Unicode has them.
pub uninterp spec fn unicode_alphanumeric(c: char) -> bool;

/// Letters and numbers.
pub open spec fn alphanumeric(c: char) -> bool {
    if c as u32 <= 127 {
        ascii_alphanumeric(c)
    } else {
        unicode_alphanumeric(c)
    }
}

/// `char::is_alphanumeric`: among the ASCII characters the letters and digits, and beyond them what
/// Unicode says of the character alone.
#[verifier::external_body]
pub(crate) fn is_alphanumeric(c: char) -> (r: bool)
    ensures
        c as u32 <= 127 ==> r == ascii_alphanumeric(c),
        c as u32 > 127 ==> r == unicode_alphanumeric(c),
{
    c.is_alphanumeric()
}

/// A text with the ASCII letters in upper case.
pub open spec fn ascii_upper(s: Seq<char>) -> Seq<char> {
    s.map_values(
        |c: char|
            if 'a' <= c <= 'z' {
                (c as u32 - 32) as char
            } else {
                c
            },
    )
}

/// A text with the ASCII letters in lower case.
pub open spec fn ascii_lower(s: Seq<char>) -> Seq<char> {
    s.map_values(
        |c: char|
            if 'A' <= c <= 'Z' {
                (c as u32 + 32) as char
            } else {
                c
            },
    )
}

/// The upper case of a text that is not all ASCII, as Unicode has it.
pub uninterp spec fn unicode_upper(s: Seq<char>) -> Seq<char>;

/// The lower case of a text that is not all ASCII, as Unicode has it.
pub uninterp spec fn unicode_lower(s: Seq<char>) -> Seq<char>;

/// The upper case of a text.
pub open spec fn upper(s: Seq<char>) -> Seq<char> {
    if is_ascii_chars(s) {
        ascii_upper(s)
    } else {
        unicode_upper(s)
    }
}

/// The lower case of a text.
pub open spec fn lower(s: Seq<char>) -> Seq<char> {
    if is_ascii_chars(s) {
        ascii_lower(s)
    } else {
        unicode_lower(s)
    }
}

/// `str::to_uppercase`: the letters of an ASCII text in upper case; of another text what Unicode
/// says of it alone.
#[verifier::external_body]
pub(crate) fn to_upper(s: &str) -> (r: String)
    ensures
        is_ascii_chars(s@) ==> r@ == ascii_upper(s@),
        !is_ascii_chars(s@) ==> r@ == unicode_upper(s@),
{
    s.to_uppercase()
}

/// `str::to_lowercase`: the letters of an ASCII text in lower case; of another text what Unicode
/// says of it alone.
#[verifier::external_body]
pub(crate) fn to_lower(s: &str) -> (r: String)
    ensures
        is_ascii_chars(s@) ==> r@ == ascii_lower(s@),
        !is_ascii_chars(s@) ==> r@ == unicode_lower(s@),
{
    s.to_lowercase()
}

/// Tells whether a list holds nothing but texts of ASCII letters and digits.
pub open spec fn plain_list(list: Seq<Seq<char>>) -> bool {
    forall|i: int, j: int|
        0 <= i < list.len() && 0 <= j < list[i].len() ==> ascii_alphanumeric(#[trigger] list[i][j])
}

/// The texts of a list in quotes and brackets, with commas between them.
pub open spec fn quoted_list(list: Seq<Seq<char>>) -> Seq<char> {
    "["@ + joined(list.map_values(|s: Seq<char>| "\""@ + s + "\""@), ", "@) + "]"@
}

/// A list of texts that are not all plain as debug formatting shows it, with what it escapes.
pub uninterp spec fn debug_list(list: Seq<Seq<char>>) -> Seq<char>;

/// A list of texts as debug formatting shows it.
pub open spec fn shown_list(list: Seq<Seq<char>>) -> Seq<char> {
    if plain_list(list) {
        quoted_list(list)
    } else {
        debug_list(list)
    }
}

/// `format!` with `{:?}` of a list of texts: the quoted texts in brackets where they are letters and
/// digits of ASCII, and for other lists what debug formatting makes of the texts alone.
#[verifier::external_body]
pub(crate) fn debug_texts(list: &Vec<String>) -> (r: String)
    ensures
        plain_list(texts(list@)) ==> r@ == quoted_list(texts(list@)),
        !plain_list(texts(list@)) ==> r@ == debug_list(texts(list@)),
{
    format!("{:?}", list)
}

/// `std::time::SystemTime::elapsed` of the Unix epoch, in milliseconds; nothing for a clock that is set
/// before it. Nothing is claimed of the time.
#[verifier::external_body]
pub(crate) fn millis_since_epoch() -> (r: Option<u128>) {
    match std::time::UNIX_EPOCH.elapsed() {
        Ok(time) => Some(time.as_millis()),
        Err(_) => None,
    }
}

} // verus!
