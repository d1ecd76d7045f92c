//! URLs of the `url` crate and request targets of the `http` crate.

use crate::text::{byte_len, fields, optional_view};
use http::Uri;
use url::Url;
use vstd::prelude::*;
use vstd::utf8::*;

verus! {

/// `url::Url`, a parsed URL. What is stated of it holds as long as no guard that
/// `path_segments_mut` or `query_pairs_mut` gave out was leaked: after that the
/// crate leaves a URL in no defined state.
#[verifier::external_type_specification]
#[verifier::external_body]
pub struct ExUrl(url::Url);

/// `http::Uri`, the target of a request.
#[verifier::external_type_specification]
#[verifier::external_body]
pub struct ExUri(http::Uri);

/// Everything in the text of a URL that stands before its path: the scheme, and
/// where there is an authority the credentials, the host and the port.
pub uninterp spec fn url_front(url: Url) -> Seq<char>;

/// The path of a URL.
pub uninterp spec fn url_path(url: Url) -> Seq<char>;

/// The query of a URL, without the question mark.
pub uninterp spec fn url_query(url: Url) -> Option<Seq<char>>;

/// The fragment of a URL, without the number sign.
pub uninterp spec fn url_fragment(url: Url) -> Option<Seq<char>>;

/// A URL after its path is replaced.
pub uninterp spec fn url_with_path(url: Url, path: Seq<char>) -> Url;

/// A URL after its query is replaced or removed.
pub uninterp spec fn url_with_query(url: Url, query: Option<Seq<char>>) -> Url;

/// The path of a request target.
pub uninterp spec fn uri_path(uri: Uri) -> Seq<char>;

/// The query of a request target.
pub uninterp spec fn uri_query(uri: Uri) -> Option<Seq<char>>;

/// A part of a URL that may be absent, after the sign that marks it.
pub open spec fn marked_part(mark: char, part: Option<Seq<char>>) -> Seq<char> {
    match part {
        Some(p) => seq![mark] + p,
        None => Seq::empty(),
    }
}

/// The text of a URL, made of its parts.
pub open spec fn url_text(url: Url) -> Seq<char> {
    url_front(url) + url_path(url) + marked_part('?', url_query(url)) + marked_part(
        '#',
        url_fragment(url),
    )
}

/// Whether a text starts as that of a URL for HTTP or for WebSockets.
pub open spec fn is_web(text: Seq<char>) -> bool {
    "http://"@.is_prefix_of(text) || "https://"@.is_prefix_of(text) || "ws://"@.is_prefix_of(text)
        || "wss://"@.is_prefix_of(text)
}

/// A printable ASCII character that `url` writes into a path as it stands.
pub open spec fn is_path_char(c: char) -> bool {
    &&& '!' <= c <= '~'
    &&& c != '"' && c != '#' && c != '<' && c != '>' && c != '?'
    &&& c != '`' && c != '{' && c != '}' && c != '\\'
}

/// A printable ASCII character that `url` writes into the query of a web URL as
/// it stands.
pub open spec fn is_query_char(c: char) -> bool {
    &&& '!' <= c <= '~'
    &&& c != '"' && c != '#' && c != '<' && c != '>' && c != '\''
}

/// A dot, plain or percent-encoded.
pub open spec fn is_dot(s: Seq<char>) -> bool {
    s == seq!['.'] || s == seq!['%', '2', 'e'] || s == seq!['%', '2', 'E']
}

/// A path segment that stands for this directory or for the one above.
pub open spec fn is_dot_segment(s: Seq<char>) -> bool {
    is_dot(s) || exists|k: int| 0 <= k <= s.len() && is_dot(#[trigger] s.take(k)) && is_dot(
        s.skip(k),
    )
}

/// A path that `url` keeps as it is: it starts at the root, and nothing in it
/// is encoded or resolved.
pub open spec fn is_plain_path(path: Seq<char>) -> bool {
    &&& path.len() > 0 && path[0] == '/'
    &&& forall|i: int| 0 <= i < path.len() ==> is_path_char(#[trigger] path[i])
    &&& forall|i: int|
        0 <= i < fields(path, '/').len() ==> !is_dot_segment(#[trigger] fields(path, '/')[i])
}

/// A query that `url` keeps as it is.
pub open spec fn is_plain_query(query: Seq<char>) -> bool {
    forall|i: int| 0 <= i < query.len() ==> is_query_char(#[trigger] query[i])
}

/// A hexadecimal digit, in capitals.
pub open spec fn hex_digit(n: int) -> char {
    if n < 10 {
        (48 + n) as char
    } else {
        (55 + n) as char
    }
}

/// Bytes, each written as a percent sign and two hexadecimal digits.
pub open spec fn percent_encoded(bytes: Seq<u8>) -> Seq<char>
    decreases bytes.len(),
{
    if bytes.len() == 0 {
        Seq::empty()
    } else {
        seq!['%', hex_digit(bytes[0] as int / 16), hex_digit(bytes[0] as int % 16)]
            + percent_encoded(bytes.drop_first())
    }
}

/// A query as `url` writes it into a web URL: tabs and line breaks are dropped,
/// and whatever does not stand there as it is becomes percent-encoded UTF-8.
pub open spec fn query_written(query: Seq<char>) -> Seq<char>
    decreases query.len(),
{
    if query.len() == 0 {
        Seq::empty()
    } else {
        let c = query[0];
        let written = if c == '\t' || c == '\n' || c == '\r' {
            Seq::empty()
        } else if is_query_char(c) {
            seq![c]
        } else {
            percent_encoded(encode_utf8(seq![c]))
        };
        written + query_written(query.drop_first())
    }
}

/// A query that may be absent, as `url` writes it into a web URL.
pub open spec fn optional_query_written(query: Option<Seq<char>>) -> Option<Seq<char>> {
    match query {
        Some(q) => Some(query_written(q)),
        None => None,
    }
}

/// `http::Uri::path`: the path of the target, which is at most 65534 bytes long
/// as every target is.
pub assume_specification[ Uri::path ](uri: &Uri) -> (r: &str)
    ensures
        r@ == uri_path(*uri),
        byte_len(r@) <= 65534,
;

/// `http::Uri::query`: the query of the target, if it has one, without the
/// question mark, at most 65534 bytes long.
pub assume_specification[ Uri::query ](uri: &Uri) -> (r: Option<&str>)
    ensures
        match r {
            Some(q) => uri_query(*uri) == Some(q@) && byte_len(q@) <= 65534,
            None => uri_query(*uri) is None,
        },
;

/// `<url::Url as Clone>::clone`: the same URL.
pub assume_specification[ <Url as Clone>::clone ](url: &Url) -> (r: Url)
    ensures
        r == *url,
;

/// `url::Url::as_str`: the parts of the URL, one after the other. A text that
/// starts as that of a web URL does so before its path.
pub assume_specification[ Url::as_str ](url: &Url) -> (r: &str)
    ensures
        r@ == url_text(*url),
        is_web(r@) ==> is_web(url_front(*url)),
;

/// `url::Url::path`: the path. Nothing is said of its form: a web URL that was
/// once made from a file path can still hold dot segments.
pub assume_specification[ Url::path ](url: &Url) -> (r: &str)
    ensures
        r@ == url_path(*url),
;

/// `url::Url::set_path`: replaces the path. The new URL depends on the old one
/// and on `path` alone, and each byte of `path` adds at most three. In a web URL
/// the other parts stay as they are, the new path is plain (encoded, and with its
/// dot segments resolved), and a plain `path` becomes the new one as it stands.
/// Offsets into the text are kept in 32 bits, so the text must stay below that.
pub assume_specification[ Url::set_path ](url: &mut Url, path: &str)
    requires
        byte_len(url_text(*old(url))) + 3 * byte_len(path@) + 16 <= u32::MAX,
    ensures
        *final(url) == url_with_path(*old(url), path@),
        byte_len(url_text(*final(url))) <= byte_len(url_text(*old(url))) + 3 * byte_len(path@) + 16,
        is_web(url_front(*old(url))) ==> {
            &&& url_front(*final(url)) == url_front(*old(url))
            &&& url_query(*final(url)) == url_query(*old(url))
            &&& url_fragment(*final(url)) == url_fragment(*old(url))
            &&& is_plain_path(url_path(*final(url)))
            &&& is_plain_path(path@) ==> url_path(*final(url)) == path@
        },
;

/// `url::Url::set_query`: replaces the query, or removes it. The new URL depends
/// on the old one and on `query` alone. In a web URL the other parts stay as
/// they are, and the query is written as [`query_written`] says. The text must
/// stay below 32 bits.
pub assume_specification[ Url::set_query ](url: &mut Url, query: Option<&str>)
    requires
        byte_len(url_text(*old(url))) + 3 * byte_len(marked_part('?', optional_view(query))) + 16
            <= u32::MAX,
    ensures
        *final(url) == url_with_query(*old(url), optional_view(query)),
        is_web(url_front(*old(url))) ==> {
            &&& url_front(*final(url)) == url_front(*old(url))
            &&& url_path(*final(url)) == url_path(*old(url))
            &&& url_query(*final(url)) == optional_query_written(optional_view(query))
            &&& url_fragment(*final(url)) == url_fragment(*old(url))
        },
;

} // verus!
