//! Where a request goes: the upstream's URL with the path and the query that
//! the client asked for.

use crate::error::ProxyError;
use crate::outside::url_api::{
    is_dot_segment, is_path_char, is_plain_path, is_plain_query, is_query_char, is_web, marked_part,
    optional_query_written, query_written, uri_path, uri_query, url_fragment, url_front, url_path,
    url_query, url_text, url_with_path, url_with_query,
};
use crate::text::{
    byte_len, chars_of, fields, lemma_encode_concat, lemma_fields_join, optional_view,
    starts_with_text, text_eq,
};
use http::Uri;
use url::Url;
use vstd::prelude::*;
use vstd::utf8::*;

verus! {

/// `s` without the slashes at its end.
pub open spec fn without_end_slashes(s: Seq<char>) -> Seq<char>
    decreases s.len(),
{
    if s.len() > 0 && s.last() == '/' {
        without_end_slashes(s.drop_last())
    } else {
        s
    }
}

/// `path` under the prefix `base_path`. The root stands for the prefix itself.
pub open spec fn combined_path(base_path: Seq<char>, path: Seq<char>) -> Seq<char> {
    let base = without_end_slashes(base_path);
    if path.len() == 0 || path == "/"@ {
        if base.len() == 0 {
            "/"@
        } else {
            base
        }
    } else {
        base + path
    }
}

fn strip_end_slashes(s: &str) -> (r: &str)
    ensures
        r@ == without_end_slashes(s@),
{
    let chars = chars_of(s);
    let mut end: usize = chars.len();
    assert(chars@.take(end as int) =~= s@);
    while end > 0 && chars[end - 1] == '/'
        invariant
            end <= chars@.len(),
            chars@ == s@,
            without_end_slashes(chars@.take(end as int)) == without_end_slashes(s@),
        decreases end,
    {
        assert(chars@.take(end as int).drop_last() =~= chars@.take(end - 1));
        end -= 1;
    }
    let r = s.substring_char(0, end);
    assert(r@ =~= without_end_slashes(s@));
    r
}

/// `path` under the prefix `base_path`.
pub fn combine_paths(base_path: &str, path: &str) -> (r: String)
    ensures
        r@ == combined_path(base_path@, path@),
{
    let base = strip_end_slashes(base_path);
    if path.is_empty() || text_eq(path, "/") {
        if base.is_empty() {
            String::from_str("/")
        } else {
            base.to_owned()
        }
    } else {
        let mut combined = base.to_owned();
        combined.append(path);
        combined
    }
}

/// Whether `path` starts at the root and goes on from there.
pub open spec fn is_below_root(path: Seq<char>) -> bool {
    path.len() > 1 && path[0] == '/'
}

/// `path` as a web URL at the root would have it: encoded, and with its dot
/// segments resolved within `path` itself. Elsewhere it is taken as it stands.
pub open spec fn resolved_path(base: Url, path: Seq<char>) -> Seq<char> {
    if is_web(url_front(base)) && is_below_root(path) {
        url_path(url_with_path(base, path))
    } else {
        path
    }
}

/// The path that the upstream `base` itself stands for, end slashes aside: that
/// of a web URL is encoded and has its dot segments resolved.
pub open spec fn base_root(base: Url) -> Seq<char> {
    let own = combined_path(url_path(base), "/"@);
    if is_web(url_front(base)) {
        url_path(url_with_path(base, own))
    } else {
        own
    }
}

/// `s` without one slash at its end, where it has one.
pub open spec fn without_end_slash(s: Seq<char>) -> Seq<char> {
    if s.len() > 0 && s.last() == '/' {
        s.drop_last()
    } else {
        s
    }
}

/// What stands before the path of every request that goes to `base`.
pub open spec fn base_prefix(base: Url) -> Seq<char> {
    without_end_slash(base_root(base))
}

/// The path that is set for `path` under the upstream `base`.
pub open spec fn joined_path(base: Url, path: Seq<char>) -> Seq<char> {
    if is_web(url_front(base)) && is_below_root(path) {
        base_prefix(base) + resolved_path(base, path)
    } else {
        combined_path(url_path(base), path)
    }
}

/// The URL for `path` and `query` under the upstream `base`.
pub open spec fn joined_url(base: Url, path: Seq<char>, query: Option<Seq<char>>) -> Url {
    url_with_query(url_with_path(base, joined_path(base, path)), query)
}

/// Whether `r` is `base` with `path` appended to its path and `query` in place of
/// its query, where `base` is a web URL. Everything else of `base` is kept.
pub open spec fn is_joined(r: Url, base: Url, path: Seq<char>, query: Option<Seq<char>>) -> bool {
    &&& is_web(url_front(base))
    &&& url_front(r) == url_front(base)
    &&& url_fragment(r) == url_fragment(base)
    &&& url_query(r) == optional_query_written(query)
    &&& is_plain_path(url_path(r))
    &&& path.len() == 0 || path[0] == '/' ==> {
        &&& is_plain_path(base_root(base))
        &&& is_plain_path(url_path(base)) ==> base_root(base) == combined_path(
            url_path(base),
            "/"@,
        )
    }
    &&& path.len() == 0 || path == "/"@ ==> url_path(r) == base_root(base)
    &&& is_below_root(path) ==> {
        &&& is_plain_path(resolved_path(base, path))
        &&& is_plain_path(path) ==> resolved_path(base, path) == path
        &&& url_path(r) == base_prefix(base) + resolved_path(base, path)
    }
    &&& is_plain_path(joined_path(base, path)) ==> url_path(r) == joined_path(base, path)
}

/// Whether a URL stays within the 32-bit offsets that `url` keeps, however the
/// path and the query are encoded.
pub open spec fn offsets_fit(base: Seq<char>, path: Seq<char>, query: Option<Seq<char>>) -> bool {
    16 * byte_len(base) + 9 * byte_len(path) + 3 * byte_len(marked_part('?', query)) + 256
        <= u32::MAX
}

proof fn lemma_end_slashes(s: Seq<char>)
    ensures
        without_end_slashes(s).is_prefix_of(s),
        byte_len(without_end_slashes(s)) <= byte_len(s),
    decreases s.len(),
{
    if s.len() > 0 && s.last() == '/' {
        lemma_end_slashes(s.drop_last());
        assert(s =~= s.drop_last() + seq!['/']);
        lemma_encode_concat(s.drop_last(), seq!['/']);
    }
}

proof fn lemma_combined_bytes(base_path: Seq<char>, path: Seq<char>)
    ensures
        byte_len(combined_path(base_path, path)) <= byte_len(base_path) + byte_len(path) + 1,
{
    reveal_strlit("/");
    is_ascii_chars_encode_utf8("/"@);
    lemma_end_slashes(base_path);
    lemma_encode_concat(without_end_slashes(base_path), path);
}

proof fn lemma_path_bytes(url: Url)
    ensures
        byte_len(url_path(url)) <= byte_len(url_text(url)),
{
    let query = marked_part('?', url_query(url));
    let fragment = marked_part('#', url_fragment(url));
    lemma_encode_concat(url_front(url), url_path(url));
    lemma_encode_concat(url_front(url) + url_path(url), query);
    lemma_encode_concat(url_front(url) + url_path(url) + query, fragment);
}

/// Whether `base` is a URL for HTTP or for WebSockets.
pub fn is_web_url(base: &Url) -> (r: bool)
    ensures
        r == is_web(url_front(*base)),
{
    let text = base.as_str();
    proof {
        let rest = url_path(*base) + marked_part('?', url_query(*base)) + marked_part(
            '#',
            url_fragment(*base),
        );
        assert(url_text(*base) =~= url_front(*base) + rest);
    }
    starts_with_text(text, "http://") || starts_with_text(text, "https://") || starts_with_text(
        text,
        "ws://",
    ) || starts_with_text(text, "wss://")
}

/// The prefix of the requests that go to the web URL `base`.
fn web_prefix(base: &Url) -> (r: String)
    requires
        is_web(url_front(*base)),
        4 * byte_len(url_text(*base)) + 32 <= u32::MAX,
    ensures
        r@ == base_prefix(*base),
        is_plain_path(base_root(*base)),
        is_plain_path(url_path(*base)) ==> base_root(*base) == combined_path(
            url_path(*base),
            "/"@,
        ),
        byte_len(r@) <= 4 * byte_len(url_text(*base)) + 22,
{
    proof {
        reveal_strlit("/");
        is_ascii_chars_encode_utf8("/"@);
        lemma_path_bytes(*base);
        lemma_combined_bytes(url_path(*base), "/"@);
    }
    let own = combine_paths(base.path(), "/");
    let mut alone = base.clone();
    alone.set_path(own.as_str());
    let root = alone.path();
    proof {
        lemma_path_bytes(alone);
        if is_plain_path(url_path(*base)) {
            law_root_joins_plainly(url_path(*base));
        }
    }
    let chars = chars_of(root);
    if chars.len() > 0 && chars[chars.len() - 1] == '/' {
        let r = root.substring_char(0, chars.len() - 1);
        proof {
            assert(r@ =~= root@.drop_last());
            assert(root@ =~= r@ + seq!['/']);
            lemma_encode_concat(r@, seq!['/']);
        }
        r.to_owned()
    } else {
        root.to_owned()
    }
}

/// The upstream URL for `path` and `query`: `path` is appended to whatever path
/// `base` has, then the query is set.
///
/// Under a web URL a path that starts with a slash has its dot segments resolved
/// within itself, so that the path of `base` always stays as a prefix. The query
/// is kept as it stands, as far as a URL can hold it: `url` percent-encodes what
/// it does not let stand in a query, such as an apostrophe.
pub fn join_upstream_path(base: &Url, path: &str, query: Option<&str>) -> (r: Url)
    requires
        offsets_fit(url_text(*base), path@, optional_view(query)),
    ensures
        r == joined_url(*base, path@, optional_view(query)),
        is_web(url_front(*base)) ==> is_joined(r, *base, path@, optional_view(query)),
{
    let mut joined = base.clone();
    proof {
        reveal_strlit("/");
        lemma_path_bytes(*base);
        lemma_combined_bytes(url_path(*base), path@);
    }
    let web = is_web_url(base);
    let below_root = starts_with_text(path, "/") && !text_eq(path, "/");
    proof {
        if path@.len() > 0 && path@[0] == '/' {
            assert("/"@ =~= path@.subrange(0, 1));
            if path@.len() == 1 {
                assert(path@ =~= "/"@);
            }
        } else if "/"@.is_prefix_of(path@) {
            assert(path@.subrange(0, 1)[0] == path@[0]);
        }
        assert(below_root == is_below_root(path@));
    }
    let combined = if web && below_root {
        let mut combined = web_prefix(base);
        let mut alone = base.clone();
        alone.set_path(path);
        let resolved = alone.path();
        proof {
            lemma_path_bytes(alone);
            lemma_encode_concat(combined@, resolved@);
            lemma_plain_prefix(base_root(*base));
            lemma_plain_join(base_prefix(*base), resolved@);
        }
        combined.append(resolved);
        combined
    } else {
        proof {
            if is_plain_path(url_path(*base)) {
                law_root_joins_plainly(url_path(*base));
            }
        }
        combine_paths(base.path(), path)
    };
    assert(combined@ == joined_path(*base, path@));
    joined.set_path(combined.as_str());
    joined.set_query(query);
    joined
}

/// Whether the URL for `path` and `query` under `base` stays within the offsets
/// that `url` keeps.
pub fn join_fits(base: &Url, path: &str, query: Option<&str>) -> (r: bool)
    ensures
        r == offsets_fit(url_text(*base), path@, optional_view(query)),
{
    let limit: u64 = u32::MAX as u64;
    let base_len: u64 = base.as_str().as_bytes().len() as u64;
    let path_len: u64 = path.as_bytes().len() as u64;
    let query_len: u64 = match query {
        Some(q) => {
            proof {
                lemma_encode_concat(seq!['?'], q@);
                is_ascii_chars_encode_utf8(seq!['?']);
            }
            let n: u64 = q.as_bytes().len() as u64;
            if n >= limit {
                return false;
            }
            n + 1
        },
        None => 0,
    };
    if base_len > limit || path_len > limit {
        return false;
    }
    16 * base_len + 9 * path_len + 3 * query_len + 256 <= limit
}

/// Whether the upstream `base` leaves room for the longest path and query that
/// a request target can have.
pub open spec fn base_fits(base: Seq<char>) -> bool {
    16 * byte_len(base) + 786_667 <= u32::MAX
}

/// Whether the upstream `base` leaves room for every request target.
pub fn upstream_base_fits(base: &Url) -> (r: bool)
    ensures
        r == base_fits(url_text(*base)),
{
    base.as_str().as_bytes().len() as u64 <= 268_386_289
}

/// The upstream URL for a request target.
///
/// The query is kept as it stands, as far as a URL can hold it: see
/// [`join_upstream_path`].
pub fn build_upstream_url(base: &Url, uri: &Uri) -> (r: Result<Url, ProxyError>)
    requires
        base_fits(url_text(*base)),
    ensures
        r is Ok,
        r->Ok_0 == joined_url(*base, uri_path(*uri), uri_query(*uri)),
        is_web(url_front(*base)) ==> is_joined(r->Ok_0, *base, uri_path(*uri), uri_query(*uri)),
{
    let query = uri.query();
    proof {
        if let Some(q) = query {
            lemma_encode_concat(seq!['?'], q@);
            is_ascii_chars_encode_utf8(seq!['?']);
        }
    }
    Ok(join_upstream_path(base, uri.path(), query))
}

/// Slashes at the end of the upstream's path make no difference.
pub proof fn law_end_slash_makes_no_difference(base_path: Seq<char>, path: Seq<char>)
    ensures
        combined_path(base_path.push('/'), path) == combined_path(base_path, path),
{
    assert(base_path.push('/').drop_last() =~= base_path);
}

/// An upstream at the root leaves every path as it is, and the empty path
/// becomes the root.
pub proof fn law_root_upstream_keeps_path(path: Seq<char>)
    ensures
        combined_path("/"@, path) == if path.len() == 0 {
            "/"@
        } else {
            path
        },
{
    reveal_strlit("/");
    assert("/"@.drop_last() =~= Seq::<char>::empty());
    assert(without_end_slashes(Seq::<char>::empty()) =~= Seq::<char>::empty());
    assert(Seq::<char>::empty() + path =~= path);
}

/// A plain query stands in the URL as the client sent it.
pub proof fn law_plain_query_is_kept(query: Seq<char>)
    requires
        is_plain_query(query),
    ensures
        query_written(query) == query,
    decreases query.len(),
{
    if query.len() > 0 {
        assert(is_query_char(query[0]));
        assert forall|i: int| 0 <= i < query.drop_first().len() implies is_query_char(
            #[trigger] query.drop_first()[i],
        ) by {
            assert(is_query_char(query[i + 1]));
        }
        law_plain_query_is_kept(query.drop_first());
        assert(seq![query[0]] + query.drop_first() =~= query);
    } else {
        assert(query =~= Seq::<char>::empty());
    }
}

spec fn has_no_dot_segment(path: Seq<char>) -> bool {
    forall|i: int|
        0 <= i < fields(path, '/').len() ==> !is_dot_segment(#[trigger] fields(path, '/')[i])
}

proof fn lemma_strip_keeps_segments(path: Seq<char>)
    requires
        has_no_dot_segment(path),
    ensures
        has_no_dot_segment(without_end_slashes(path)),
    decreases path.len(),
{
    if path.len() > 0 && path.last() == '/' {
        let shorter = path.drop_last();
        assert(shorter.push('/') + Seq::<char>::empty() =~= path);
        lemma_fields_join(shorter, Seq::empty(), '/');
        assert forall|i: int| 0 <= i < fields(shorter, '/').len() implies !is_dot_segment(
            #[trigger] fields(shorter, '/')[i],
        ) by {
            assert(fields(path, '/')[i] == fields(shorter, '/')[i]);
        }
        lemma_strip_keeps_segments(shorter);
    }
}

/// Under a plain prefix the root stands for a plain path, and so does the empty
/// path.
pub proof fn law_root_joins_plainly(base_path: Seq<char>)
    requires
        is_plain_path(base_path),
    ensures
        is_plain_path(combined_path(base_path, "/"@)),
        combined_path(base_path, Seq::empty()) == combined_path(base_path, "/"@),
{
    reveal_strlit("/");
    let base = without_end_slashes(base_path);
    lemma_end_slashes(base_path);
    lemma_strip_keeps_segments(base_path);
    if base.len() == 0 {
        let root = "/"@;
        assert(root =~= Seq::<char>::empty().push('/') + Seq::<char>::empty());
        lemma_fields_join(Seq::empty(), Seq::empty(), '/');
        assert(fields(Seq::<char>::empty(), '/') =~= seq![Seq::<char>::empty()]);
        assert forall|i: int| 0 <= i < fields(root, '/').len() implies !is_dot_segment(
            #[trigger] fields(root, '/')[i],
        ) by {
            let segment = fields(root, '/')[i];
            assert(segment.len() == 0);
            assert(forall|k: int| 0 <= k <= segment.len() ==> (#[trigger] segment.take(k)).len() == 0);
        }
    }
}

/// Whether a path can go on after `prefix` and stay plain.
spec fn is_plain_prefix(prefix: Seq<char>) -> bool {
    &&& prefix.len() == 0 || prefix[0] == '/'
    &&& forall|i: int| 0 <= i < prefix.len() ==> is_path_char(#[trigger] prefix[i])
    &&& has_no_dot_segment(prefix)
}

proof fn lemma_plain_prefix(path: Seq<char>)
    requires
        is_plain_path(path),
    ensures
        is_plain_prefix(without_end_slash(path)),
{
    if path.last() == '/' {
        let shorter = path.drop_last();
        assert(shorter.push('/') + Seq::<char>::empty() =~= path);
        lemma_fields_join(shorter, Seq::empty(), '/');
        assert forall|i: int| 0 <= i < fields(shorter, '/').len() implies !is_dot_segment(
            #[trigger] fields(shorter, '/')[i],
        ) by {
            assert(fields(path, '/')[i] == fields(shorter, '/')[i]);
        }
        assert forall|i: int| 0 <= i < shorter.len() implies is_path_char(#[trigger] shorter[i]) by {
            assert(is_path_char(path[i]));
        }
        if shorter.len() > 0 {
            assert(shorter[0] == path[0]);
        }
    }
}

proof fn lemma_plain_join(prefix: Seq<char>, path: Seq<char>)
    requires
        is_plain_prefix(prefix),
        is_plain_path(path),
    ensures
        is_plain_path(prefix + path),
{
    let joined = prefix + path;
    let rest = path.skip(1);
    assert(path =~= Seq::<char>::empty().push('/') + rest);
    lemma_fields_join(Seq::empty(), rest, '/');
    assert(joined =~= prefix.push('/') + rest);
    lemma_fields_join(prefix, rest, '/');
    let n = fields(prefix, '/').len();
    let m = fields(Seq::<char>::empty(), '/').len();
    assert forall|i: int| 0 <= i < fields(joined, '/').len() implies !is_dot_segment(
        #[trigger] fields(joined, '/')[i],
    ) by {
        if i < n {
            assert(fields(prefix, '/')[i] == fields(joined, '/')[i]);
        } else {
            assert(fields(path, '/')[i - n + m] == fields(joined, '/')[i]);
        }
    }
    assert forall|i: int| 0 <= i < joined.len() implies is_path_char(#[trigger] joined[i]) by {
        if i < prefix.len() {
            assert(prefix[i] == joined[i]);
        } else {
            assert(path[i - prefix.len()] == joined[i]);
        }
    }
    if prefix.len() > 0 {
        assert(joined[0] == prefix[0]);
    } else {
        assert(joined[0] == path[0]);
    }
}

proof fn lemma_end_slashes_are_gone(s: Seq<char>)
    ensures
        without_end_slashes(s).len() > 0 ==> without_end_slashes(s).last() != '/',
    decreases s.len(),
{
    if s.len() > 0 && s.last() == '/' {
        lemma_end_slashes_are_gone(s.drop_last());
    }
}

/// The path that the upstream stands for is a prefix of the path of every URL
/// below it: what follows starts with a slash, and dot segments never lead out
/// of it. Where the upstream's own path is plain, as one is that was parsed, the
/// prefix is that path without its end slashes.
pub proof fn law_base_path_is_kept(
    r: Url,
    base: Url,
    path: Seq<char>,
    query: Option<Seq<char>>,
)
    requires
        is_joined(r, base, path, query),
        path.len() == 0 || path[0] == '/',
    ensures
        ({
            let prefix = base_prefix(base);
            &&& prefix.is_prefix_of(url_path(r))
            &&& url_path(r).len() > prefix.len() ==> url_path(r)[prefix.len() as int] == '/'
            &&& is_below_root(path) ==> prefix.push('/').is_prefix_of(url_path(r))
            &&& is_plain_path(url_path(base)) ==> prefix == without_end_slashes(url_path(base))
        }),
{
    reveal_strlit("/");
    let prefix = base_prefix(base);
    if is_below_root(path) {
        let resolved = resolved_path(base, path);
        assert(resolved[0] == '/');
        assert(prefix.push('/') =~= url_path(r).take(prefix.len() as int + 1));
    } else if path.len() == 1 {
        assert(path =~= "/"@);
    }
    if is_plain_path(url_path(base)) {
        lemma_end_slashes_are_gone(url_path(base));
        assert("/"@.drop_last() =~= Seq::<char>::empty());
        assert(prefix =~= without_end_slashes(url_path(base)));
    }
}

/// A plain path is appended as it stands, and a plain query is set as it stands,
/// to an upstream whose own path is plain.
pub proof fn law_plain_requests_are_kept(
    r: Url,
    base: Url,
    path: Seq<char>,
    query: Option<Seq<char>>,
)
    requires
        is_joined(r, base, path, query),
        is_plain_path(url_path(base)),
        path.len() == 0 || is_plain_path(path),
        query matches Some(q) ==> is_plain_query(q),
    ensures
        url_path(r) == combined_path(url_path(base), path),
        url_query(r) == query,
        url_text(r) == url_front(base) + combined_path(url_path(base), path) + marked_part(
            '?',
            query,
        ) + marked_part('#', url_fragment(base)),
{
    reveal_strlit("/");
    if let Some(q) = query {
        law_plain_query_is_kept(q);
    }
    law_base_path_is_kept(r, base, path, query);
    if path.len() == 1 {
        assert(path =~= "/"@);
    }
}

/// Joining in two steps is joining once: `p` and then `q` leads where `p`
/// followed by `q` does.
pub proof fn law_joins_can_be_chained(
    base: Url,
    m: Url,
    r: Url,
    s: Url,
    p: Seq<char>,
    q: Seq<char>,
    first_query: Option<Seq<char>>,
    query: Option<Seq<char>>,
)
    requires
        is_joined(m, base, p, first_query),
        is_joined(r, m, q, query),
        is_joined(s, base, p + q, query),
        is_plain_path(p),
        p.last() != '/',
        is_plain_path(q),
        q != "/"@,
    ensures
        url_text(r) == url_text(s),
        url_front(r) == url_front(s),
        url_path(r) == url_path(s),
        url_query(r) == url_query(s),
        url_fragment(r) == url_fragment(s),
{
    reveal_strlit("/");
    let prefix = base_prefix(base);
    if p.len() == 1 || q.len() == 1 {
        assert(p =~= "/"@ || q =~= "/"@);
    }
    assert(without_end_slash(p) == p);
    lemma_plain_prefix(p);
    lemma_plain_join(p, q);
    assert(url_path(m) == prefix + p);
    assert((prefix + p).last() == p.last());
    assert(without_end_slashes(url_path(m)) == prefix + p);
    assert(base_prefix(m) == prefix + p);
    assert(prefix + p + q =~= prefix + (p + q));
}

/// Stripping takes every slash at the end, and nothing else.
pub proof fn law_only_end_slashes_are_taken(s: Seq<char>)
    ensures
        ({
            let kept = without_end_slashes(s);
            &&& kept.is_prefix_of(s)
            &&& kept.len() > 0 ==> kept.last() != '/'
            &&& forall|i: int| kept.len() <= i < s.len() ==> #[trigger] s[i] == '/'
        }),
    decreases s.len(),
{
    lemma_end_slashes(s);
    lemma_end_slashes_are_gone(s);
    if s.len() > 0 && s.last() == '/' {
        law_only_end_slashes_are_taken(s.drop_last());
        assert forall|i: int| without_end_slashes(s).len() <= i < s.len() implies #[trigger] s[i]
            == '/' by {
            if i < s.len() - 1 {
                assert(s[i] == s.drop_last()[i]);
            }
        }
    }
}

/// Behind a prefix that does not end in a slash every path but the root and the
/// empty one is appended; these two stand for the prefix.
pub proof fn law_paths_follow_their_prefix(prefix: Seq<char>, path: Seq<char>)
    requires
        prefix.len() > 0,
        prefix.last() != '/',
    ensures
        path.len() > 0 && path != "/"@ ==> combined_path(prefix, path) == prefix + path,
        combined_path(prefix, "/"@) == prefix,
        combined_path(prefix, Seq::empty()) == prefix,
{
}

/// URLs for HTTP and for WebSockets are web URLs, with TLS and without it, and
/// no other URLs are.
pub proof fn law_web_urls_have_web_schemes(front: Seq<char>, rest: Seq<char>)
    ensures
        is_web("http://"@ + rest),
        is_web("https://"@ + rest),
        is_web("ws://"@ + rest),
        is_web("wss://"@ + rest),
        is_web(front) ==> "http://"@.is_prefix_of(front) || "https://"@.is_prefix_of(front)
            || "ws://"@.is_prefix_of(front) || "wss://"@.is_prefix_of(front),
{
    assert(("http://"@ + rest).subrange(0, "http://"@.len() as int) =~= "http://"@);
    assert(("https://"@ + rest).subrange(0, "https://"@.len() as int) =~= "https://"@);
    assert(("ws://"@ + rest).subrange(0, "ws://"@.len() as int) =~= "ws://"@);
    assert(("wss://"@ + rest).subrange(0, "wss://"@.len() as int) =~= "wss://"@);
}

/// A base, a path and a query of up to 268,435,439 bytes together fit; and an
/// upstream that leaves room does so for every path and query of a request
/// target.
pub proof fn law_requests_fit(base: Seq<char>, path: Seq<char>, query: Option<Seq<char>>)
    ensures
        byte_len(base) + byte_len(path) + byte_len(marked_part('?', query)) <= 268_435_439
            ==> offsets_fit(base, path, query),
        base_fits(base) && byte_len(path) + byte_len(marked_part('?', query)) <= 65_535
            ==> offsets_fit(base, path, query),
        byte_len(base) <= 268_386_289 ==> base_fits(base),
{
}

/// Under a URL that is no web URL the path is set as it is combined, and then
/// the query that was asked for, whatever either is.
pub proof fn law_other_urls_are_joined_as_they_are(
    base: Url,
    path: Seq<char>,
    query: Option<Seq<char>>,
)
    requires
        !is_web(url_front(base)),
    ensures
        joined_url(base, path, query) == url_with_query(
            url_with_path(base, combined_path(url_path(base), path)),
            query,
        ),
{
}

/// URLs for the same path differ only in the query that is set on them, and two
/// paths that are set alike lead to the same URL.
pub proof fn law_path_and_query_are_set_apart(
    base: Url,
    a: Seq<char>,
    b: Seq<char>,
    query: Option<Seq<char>>,
)
    ensures
        joined_path(base, a) == joined_path(base, b) ==> joined_url(base, a, query) == joined_url(
            base,
            b,
            query,
        ),
        exists|m: Url|
            joined_url(base, a, query) == #[trigger] url_with_query(m, query) && joined_url(
                base,
                a,
                None,
            ) == url_with_query(m, None),
{
    let m = url_with_path(base, joined_path(base, a));
    assert(joined_url(base, a, query) == url_with_query(m, query));
}

} // verus!
