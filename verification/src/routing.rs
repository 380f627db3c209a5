//! Request routing: which resource a method and a path ask for.
//!
//! Only `GET` is served. The path counts up to its query string or fragment,
//! and what it ends with picks the resource; every other path shows the
//! dashboard page.

use crate::text::lemma_ascii_byte_is_char;
use crate::text::lemma_ascii_char_is_byte;
use crate::text::lemma_encode_concat;
use crate::text::lemma_encode_injective;
use crate::text::lemma_first_byte;
use vstd::prelude::*;
use vstd::utf8::encode_utf8;

verus! {

/// A resource that the endpoint serves.
#[derive(Clone, Copy, Debug, PartialEq, Eq, Structural)]
#[non_exhaustive]
pub enum Route {
    /// The dashboard page.
    Page,
    /// The script of the dashboard.
    Bundle,
    /// The style sheet of the dashboard.
    Stylesheet,
    /// The report as JSON.
    StatusJson,
}

/// Why a request names no resource.
#[derive(Clone, Copy, Debug, PartialEq, Eq, Structural)]
#[non_exhaustive]
pub enum Error {
    /// Nothing is served under the path.
    NotFound,
    /// The method is not `GET`.
    MethodNotAllowed,
}

/// The characters that end the part of a path that names the resource.
pub open spec fn is_delimiter(c: char) -> bool {
    c == '?' || c == '#'
}

/// Whether `end` is where the resource part of `path` ends: at its first
/// delimiter, or at its end if it has none.
pub open spec fn ends_resource(path: Seq<char>, end: int) -> bool {
    &&& 0 <= end <= path.len()
    &&& forall|j: int| 0 <= j < end ==> !is_delimiter(#[trigger] path[j])
    &&& end < path.len() ==> is_delimiter(path[end])
}

/// The path without its query string and fragment.
pub open spec fn resource(path: Seq<char>) -> Seq<char> {
    path.take(choose|end: int| ends_resource(path, end))
}

/// The resource that a path without query string and fragment names.
pub open spec fn served(resource: Seq<char>) -> Route {
    if "/bundle.js"@.is_suffix_of(resource) {
        Route::Bundle
    } else if "/main.css"@.is_suffix_of(resource) {
        Route::Stylesheet
    } else if "/status.json"@.is_suffix_of(resource) {
        Route::StatusJson
    } else {
        Route::Page
    }
}

/// What a request with this method and path gets.
pub open spec fn route_of(method: Seq<char>, path: Seq<char>) -> Result<Route, Error> {
    if method == "GET"@ {
        Ok(served(resource(path)))
    } else {
        Err(Error::MethodNotAllowed)
    }
}

/// Every path has exactly one place where its resource part ends.
pub proof fn lemma_resource_end(path: Seq<char>, end: int)
    requires
        ends_resource(path, end),
    ensures
        resource(path) == path.take(end),
{
    let chosen = choose|e: int| ends_resource(path, e);
    assert(ends_resource(path, chosen));
    if chosen < end {
        assert(is_delimiter(path[chosen]));
    } else if end < chosen {
        assert(is_delimiter(path[end]));
    }
}

/// Every path has a place where its resource part ends: the result.
pub proof fn lemma_resource_exists(path: Seq<char>) -> (end: int)
    ensures
        ends_resource(path, end),
        resource(path) == path.take(end),
{
    let end = first_delimiter_from(path, 0);
    lemma_resource_end(path, end);
    end
}

proof fn first_delimiter_from(path: Seq<char>, from: int) -> (end: int)
    requires
        0 <= from <= path.len(),
        forall|j: int| 0 <= j < from ==> !is_delimiter(#[trigger] path[j]),
    ensures
        ends_resource(path, end),
    decreases path.len() - from,
{
    if from < path.len() && !is_delimiter(path[from]) {
        first_delimiter_from(path, from + 1)
    } else {
        from
    }
}

/// Only `GET` is served, whatever the path, and every path is served to
/// `GET`: no request is answered with `NotFound`.
pub proof fn lemma_only_get_is_served(method: Seq<char>, path: Seq<char>)
    ensures
        method == "GET"@ ==> route_of(method, path) is Ok,
        method != "GET"@ ==> (route_of(method, path) matches Err(e) && e
            == Error::MethodNotAllowed),
        route_of(method, path) matches Err(e) ==> e != Error::NotFound,
{
}

/// What follows the first `?` or `#` of a path has no part in the routing.
pub proof fn lemma_query_is_ignored(method: Seq<char>, path: Seq<char>, rest: Seq<char>)
    requires
        forall|j: int| 0 <= j < path.len() ==> !is_delimiter(#[trigger] path[j]),
        rest.len() > 0,
        is_delimiter(rest[0]),
    ensures
        resource(path) == path,
        resource(path + rest) == path,
        route_of(method, path + rest) == route_of(method, path),
{
    lemma_resource_end(path, path.len() as int);
    assert(path.take(path.len() as int) =~= path);
    lemma_resource_end(path + rest, path.len() as int);
    assert((path + rest).take(path.len() as int) =~= path);
}

/// The resource part of a path is the longest start of the path that holds
/// no `?` and no `#`.
pub proof fn lemma_resource_is_prefix(path: Seq<char>)
    ensures
        resource(path).is_prefix_of(path),
        forall|j: int|
            0 <= j < resource(path).len() ==> !is_delimiter(#[trigger] resource(path)[j]),
        resource(path).len() < path.len() ==> is_delimiter(path[resource(path).len() as int]),
{
    let end = lemma_resource_exists(path);
}

spec fn is_delimiter_byte(b: u8) -> bool {
    b == 0x3f || b == 0x23
}

spec fn ends_resource_bytes(bytes: Seq<u8>, end: int) -> bool {
    &&& 0 <= end <= bytes.len()
    &&& forall|j: int| 0 <= j < end ==> !is_delimiter_byte(#[trigger] bytes[j])
    &&& end < bytes.len() ==> is_delimiter_byte(bytes[end])
}

proof fn lemma_delimiter_code(c: char)
    ensures
        is_delimiter(c) ==> c <= '\u{7f}',
        c <= '\u{7f}' ==> (is_delimiter(c) <==> is_delimiter_byte(c as u8)),
{
}

/// Where the resource part ends in the encoding of a path, its encoding ends.
proof fn lemma_resource_bytes(path: Seq<char>, end: int)
    requires
        ends_resource_bytes(encode_utf8(path), end),
    ensures
        encode_utf8(resource(path)) == encode_utf8(path).take(end),
{
    let bytes = encode_utf8(path);
    let at: int = if end < bytes.len() {
        lemma_ascii_byte_is_char(path, end)
    } else {
        path.len() as int
    };
    if end < bytes.len() {
        lemma_delimiter_code(path[at]);
    } else {
        assert(path.take(at) =~= path);
        assert(bytes.take(end) =~= bytes);
    }
    assert forall|j: int| 0 <= j < at implies !is_delimiter(#[trigger] path[j]) by {
        lemma_delimiter_code(path[j]);
        if is_delimiter(path[j]) {
            lemma_ascii_char_is_byte(path, j);
            let k = encode_utf8(path.take(j)).len() as int;
            assert(is_delimiter_byte(bytes[k]));
            let front = path.take(at);
            assert(front.take(j) =~= path.take(j));
            assert(front[j] == path[j]);
            lemma_ascii_char_is_byte(front, j);
            assert(k < encode_utf8(front).len());
        }
    }
    lemma_resource_end(path, at);
}

/// A text that starts with an ASCII character ends a string exactly when its
/// encoding ends the string's encoding.
proof fn lemma_suffix_bytes(tail: Seq<char>, s: Seq<char>)
    requires
        tail.len() > 0,
        tail[0] <= '\u{7f}',
    ensures
        tail.is_suffix_of(s) <==> encode_utf8(tail).is_suffix_of(encode_utf8(s)),
{
    let bytes = encode_utf8(s);
    let tail_bytes = encode_utf8(tail);
    if tail.is_suffix_of(s) {
        let front = s.take(s.len() - tail.len());
        assert(s =~= front + tail);
        lemma_encode_concat(front, tail);
        assert(bytes.subrange(bytes.len() - tail_bytes.len(), bytes.len() as int) =~= tail_bytes);
    }
    if tail_bytes.is_suffix_of(bytes) {
        lemma_first_byte(tail);
        let k = bytes.len() - tail_bytes.len();
        assert(bytes[k] == tail_bytes[0]);
        let i = lemma_ascii_byte_is_char(s, k);
        assert(bytes.skip(k) =~= tail_bytes);
        lemma_encode_injective(s.skip(i), tail);
        assert(s.subrange(s.len() - tail.len(), s.len() as int) =~= tail);
    }
}

/// Whether the first `end` bytes of `bytes` end with `tail`.
fn ends_with(bytes: &[u8], end: usize, tail: &[u8]) -> (r: bool)
    requires
        end <= bytes.len(),
    ensures
        r == tail@.is_suffix_of(bytes@.take(end as int)),
{
    let n = tail.len();
    if n > end {
        return false;
    }
    let start = end - n;
    let ghost window = bytes@.take(end as int).subrange(end - n, end as int);
    let mut i: usize = 0;
    while i < n
        invariant
            n == tail.len(),
            start + n == end,
            end <= bytes.len(),
            i <= n,
            window == bytes@.take(end as int).subrange(end - n, end as int),
            forall|j: int| 0 <= j < i ==> bytes[start + j] == tail[j],
        decreases n - i,
    {
        if bytes[start + i] != tail[i] {
            assert(window[i as int] != tail[i as int]);
            return false;
        }
        i += 1;
    }
    assert(tail@ =~= window);
    true
}

/// The number of bytes before the first `?` or `#`.
fn resource_len(bytes: &[u8]) -> (end: usize)
    ensures
        ends_resource_bytes(bytes@, end as int),
{
    let mut end: usize = 0;
    while end < bytes.len() && bytes[end] != 0x3f && bytes[end] != 0x23
        invariant
            end <= bytes.len(),
            forall|j: int| 0 <= j < end ==> !is_delimiter_byte(#[trigger] bytes[j]),
        decreases bytes.len() - end,
    {
        end += 1;
    }
    end
}

/// The resource that a request asks for: `MethodNotAllowed` unless the method
/// is `GET`; else the script, the style sheet or the report where the path,
/// taken up to its first `?` or `#`, ends with `/bundle.js`, `/main.css` or
/// `/status.json`, and the dashboard page for every other path.
pub fn classify(method: &str, path: &str) -> (r: Result<Route, Error>)
    ensures
        r == route_of(method@, path@),
{
    let verb = method.as_bytes();
    let get = "GET".as_bytes();
    proof {
        reveal_strlit("GET");
        lemma_suffix_bytes("GET"@, method@);
    }
    if verb.len() != get.len() || !ends_with(verb, verb.len(), get) {
        proof {
            assert(verb@.take(verb.len() as int) =~= verb@);
        }
        return Err(Error::MethodNotAllowed);
    }
    proof {
        assert(verb@.take(verb.len() as int) =~= verb@);
        assert(verb@ =~= get@);
        lemma_encode_injective(method@, "GET"@);
    }
    let bytes = path.as_bytes();
    let end = resource_len(bytes);
    proof {
        reveal_strlit("/bundle.js");
        reveal_strlit("/main.css");
        reveal_strlit("/status.json");
        lemma_resource_bytes(path@, end as int);
        lemma_suffix_bytes("/bundle.js"@, resource(path@));
        lemma_suffix_bytes("/main.css"@, resource(path@));
        lemma_suffix_bytes("/status.json"@, resource(path@));
    }
    if ends_with(bytes, end, "/bundle.js".as_bytes()) {
        Ok(Route::Bundle)
    } else if ends_with(bytes, end, "/main.css".as_bytes()) {
        Ok(Route::Stylesheet)
    } else if ends_with(bytes, end, "/status.json".as_bytes()) {
        Ok(Route::StatusJson)
    } else {
        Ok(Route::Page)
    }
}

/// The resource that a request asks for. The headers have no part in it.
pub fn parse<'x, I>(method: &str, path: &str, headers: I) -> (r: Result<Route, Error>) where
    I: Iterator<Item = (&'x str, &'x [u8])>,

    ensures
        r == route_of(method@, path@),
{
    classify(method, path)
}

} // verus!
