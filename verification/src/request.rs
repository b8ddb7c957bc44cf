//! The captured request: one HTTP exchange as plain values, independent of
//! the transport that delivered it.

use crate::text::{chars_of, lower};
use vstd::prelude::*;
use warp::http::header::HeaderValue;
use warp::http::HeaderMap;

verus! {

/// One header of a request: its name as it was delivered, and the bytes of
/// its value.
#[derive(Debug)]
pub struct Header {
    pub name: String,
    pub value: Vec<u8>,
}

/// A header as mathematical values.
pub struct HeaderView {
    pub name: Seq<char>,
    pub value: Seq<u8>,
}

impl View for Header {
    type V = HeaderView;

    open spec fn view(&self) -> HeaderView {
        HeaderView { name: self.name@, value: self.value@ }
    }
}

/// A request as mathematical values.
pub struct RequestView {
    pub method: Seq<char>,
    pub path: Seq<char>,
    pub query: Seq<char>,
    pub headers: Seq<HeaderView>,
    pub body: Seq<u8>,
}

/// Why values do not make a request.
#[derive(Clone, Copy, Debug, PartialEq, Eq, Structural)]
pub enum RequestError {
    /// The method is empty or holds a character that no token may hold.
    InvalidMethod,
    /// The path does not begin with `/`, or it holds a `?`.
    InvalidPath,
}

/// Whether `c` may stand in a token: a letter, a digit, or one of
/// ``!#$%&'*+-.^_`|~``.
pub open spec fn is_token_char(c: char) -> bool {
    ('a' <= c && c <= 'z') || ('A' <= c && c <= 'Z') || ('0' <= c && c <= '9') || c == '!' || c
        == '#' || c == '$' || c == '%' || c == '&' || c == '\'' || c == '*' || c == '+' || c == '-'
        || c == '.' || c == '^' || c == '_' || c == '`' || c == '|' || c == '~'
}

/// Whether `method` is a method token: not empty, and token characters
/// alone. The standard verbs are such tokens.
pub open spec fn valid_method(method: Seq<char>) -> bool {
    method.len() > 0 && forall|i: int| 0 <= i < method.len() ==> is_token_char(method[i])
}

/// Whether `path` is the path of a request: it begins with `/` and holds
/// no `?`, since the query is no part of it.
pub open spec fn valid_path(path: Seq<char>) -> bool {
    path.len() > 0 && path[0] == '/' && forall|i: int| 0 <= i < path.len() ==> path[i] != '?'
}

/// Whether the values make a request.
pub open spec fn valid_request(r: RequestView) -> bool {
    valid_method(r.method) && valid_path(r.path)
}

/// The value of a header in the transport's collection: opaque here.
#[verifier::external_type_specification]
#[verifier::external_body]
pub struct ExHeaderValue(HeaderValue);

/// The transport's collection of headers, `HeaderMap` of the crate `http`:
/// opaque here.
#[verifier::external_type_specification]
#[verifier::external_body]
#[verifier::reject_recursive_types(T)]
pub struct ExHeaderMap<T>(HeaderMap<T>);

/// What a collection of headers holds: for each header its name and the
/// bytes of its value, in the order in which the collection hands them out.
/// Every value of a name is there; the values of one name stand together.
pub uninterp spec fn header_entries(map: HeaderMap) -> Seq<(Seq<char>, Seq<u8>)>;

/// The headers as mathematical values, in order.
pub open spec fn header_views(headers: Seq<Header>) -> Seq<HeaderView> {
    Seq::new(headers.len(), |i: int| headers[i]@)
}

/// The headers that a collection holds, in the order in which it hands them
/// out.
pub open spec fn headers_of(map: HeaderMap) -> Seq<HeaderView> {
    Seq::new(
        header_entries(map).len(),
        |i: int| HeaderView { name: header_entries(map)[i].0, value: header_entries(map)[i].1 },
    )
}

/// `HeaderMap::iter` of `http`: every header of the collection, once for
/// each value, as its name and the bytes of its value.
#[verifier::external_body]
pub(crate) fn header_list(map: &HeaderMap) -> (list: Vec<Header>)
    ensures
        list@.len() == header_entries(*map).len(),
        forall|i: int|
            0 <= i < list@.len() ==> (#[trigger] list@[i]).name@ == header_entries(*map)[i].0
                && list@[i].value@ == header_entries(*map)[i].1,
{
    map.iter()
        .map(|(name, value)| Header {
            name: name.as_str().to_string(),
            value: value.as_bytes().to_vec(),
        })
        .collect()
}

/// `HeaderMap::get` of `http`, with a string for the name: the bytes of the
/// first value under the name, whatever the case of the name's letters; none
/// where the collection has no such name, or the string is no header name.
#[verifier::external_body]
pub(crate) fn first_value<'a>(map: &'a HeaderMap, name: &str) -> (found: Option<&'a [u8]>)
    ensures
        match found {
            Some(value) => lookup(headers_of(*map), name@) == Some(value@),
            None => lookup(headers_of(*map), name@) is None,
        },
{
    map.get(name).map(|value| value.as_bytes())
}

/// Whether two header names are the same name: the case of letters does
/// not count.
pub open spec fn same_name(a: Seq<char>, b: Seq<char>) -> bool {
    lower(a) == lower(b)
}

/// The index of the first header at or after `i` whose name is `name`, or
/// the number of headers where there is none.
pub open spec fn position_from(headers: Seq<HeaderView>, name: Seq<char>, i: int) -> int
    decreases headers.len() - i,
{
    if i < 0 || i >= headers.len() {
        headers.len() as int
    } else if same_name(headers[i].name, name) {
        i
    } else {
        position_from(headers, name, i + 1)
    }
}

/// The value of the first header whose name is `name`, if there is one.
pub open spec fn lookup(headers: Seq<HeaderView>, name: Seq<char>) -> Option<Seq<u8>> {
    let k = position_from(headers, name, 0);
    if k < headers.len() {
        Some(headers[k].value)
    } else {
        None
    }
}

/// Whether `b` is a visible ASCII character, a space or a tab.
pub open spec fn is_visible(b: u8) -> bool {
    (32 <= b && b < 127) || b == 9
}

/// The value of a header as text: its bytes as characters, where all of
/// them are visible ASCII, spaces or tabs; no text otherwise.
pub open spec fn value_text(value: Seq<u8>) -> Option<Seq<char>> {
    if forall|i: int| 0 <= i < value.len() ==> is_visible(value[i]) {
        Some(Seq::new(value.len(), |i: int| value[i] as char))
    } else {
        None
    }
}

/// The content type that is taken where a request declares none that can
/// be read.
pub open spec fn default_type() -> Seq<char> {
    "text/plain"@
}

/// The declared content type: the text of the first `content-type` header,
/// or `text/plain` where there is none or its value is no text.
pub open spec fn declared_type(headers: Seq<HeaderView>) -> Seq<char> {
    match lookup(headers, "content-type"@) {
        Some(value) => match value_text(value) {
            Some(text) => text,
            None => default_type(),
        },
        None => default_type(),
    }
}

/// One captured HTTP exchange. A request is made once and never changed.
#[derive(Debug)]
pub struct Request {
    method: String,
    path: String,
    query: String,
    headers: HeaderMap,
    body: Vec<u8>,
}

impl View for Request {
    type V = RequestView;

    closed spec fn view(&self) -> RequestView {
        RequestView {
            method: self.method@,
            path: self.path@,
            query: self.query@,
            headers: headers_of(self.headers),
            body: self.body@,
        }
    }
}

/// Whether `c` may stand in a token.
fn is_token(c: char) -> (r: bool)
    ensures
        r == is_token_char(c),
{
    ('a' <= c && c <= 'z') || ('A' <= c && c <= 'Z') || ('0' <= c && c <= '9') || c == '!' || c
        == '#' || c == '$' || c == '%' || c == '&' || c == '\'' || c == '*' || c == '+' || c == '-'
        || c == '.' || c == '^' || c == '_' || c == '`' || c == '|' || c == '~'
}

/// Whether `method` is a method token.
pub fn is_valid_method(method: &str) -> (r: bool)
    ensures
        r == valid_method(method@),
{
    let v = chars_of(method);
    if v.len() == 0 {
        return false;
    }
    let mut i: usize = 0;
    while i < v.len()
        invariant
            i <= v.len(),
            v@ == method@,
            forall|k: int| 0 <= k < i ==> is_token_char(v@[k]),
        decreases v.len() - i,
    {
        if !is_token(v[i]) {
            assert(!is_token_char(method@[i as int]));
            return false;
        }
        i += 1;
    }
    true
}

/// Whether `path` is the path of a request.
pub fn is_valid_path(path: &str) -> (r: bool)
    ensures
        r == valid_path(path@),
{
    let v = chars_of(path);
    if v.len() == 0 || v[0] != '/' {
        return false;
    }
    let mut i: usize = 0;
    while i < v.len()
        invariant
            i <= v.len(),
            v@ == path@,
            forall|k: int| 0 <= k < i ==> v@[k] != '?',
        decreases v.len() - i,
    {
        if v[i] == '?' {
            return false;
        }
        i += 1;
    }
    true
}

/// The bytes of a header's value as text, where all of them are visible
/// ASCII, spaces or tabs.
pub fn visible_text(value: &[u8]) -> (text: Option<String>)
    ensures
        match text {
            Some(t) => value_text(value@) == Some(t@),
            None => value_text(value@) is None,
        },
{
    let mut t = String::new();
    let mut i: usize = 0;
    while i < value.len()
        invariant
            i <= value.len(),
            forall|k: int| 0 <= k < i ==> is_visible(value@[k]),
            t@ == Seq::new(i as nat, |k: int| value@[k] as char),
        decreases value.len() - i,
    {
        let b = value[i];
        if !((32 <= b && b < 127) || b == 9) {
            assert(!is_visible(value@[i as int]));
            return None;
        }
        t.push(b as char);
        assert(t@ =~= Seq::new((i + 1) as nat, |k: int| value@[k] as char));
        i += 1;
    }
    Some(t)
}

impl Header {
    /// The value as text, where all its bytes are visible ASCII, spaces or
    /// tabs.
    pub fn text(&self) -> (text: Option<String>)
        ensures
            match text {
                Some(t) => value_text(self.value@) == Some(t@),
                None => value_text(self.value@) is None,
            },
    {
        visible_text(self.value.as_slice())
    }
}

impl Request {
    #[verifier::type_invariant]
    spec fn well_formed(self) -> bool {
        valid_method(self.method@) && valid_path(self.path@)
    }

    /// Makes a request from the values that the transport delivered. Nothing
    /// is decoded or changed, and the collection of headers is kept as it is,
    /// with every value of every name. The method
    /// must be a token, and the path must begin with `/` and hold no `?`.
    pub fn new(
        method: String,
        path: String,
        query: String,
        headers: HeaderMap,
        body: Vec<u8>,
    ) -> (made: Result<Request, RequestError>)
        ensures
            made is Ok <==> valid_method(method@) && valid_path(path@),
            made == Err::<Request, RequestError>(RequestError::InvalidMethod) <==> !valid_method(
                method@,
            ),
            made == Err::<Request, RequestError>(RequestError::InvalidPath) <==> valid_method(
                method@,
            ) && !valid_path(path@),
            made matches Ok(r) ==> r@ == (RequestView {
                method: method@,
                path: path@,
                query: query@,
                headers: headers_of(headers),
                body: body@,
            }),
    {
        if !is_valid_method(method.as_str()) {
            Err(RequestError::InvalidMethod)
        } else if !is_valid_path(path.as_str()) {
            Err(RequestError::InvalidPath)
        } else {
            Ok(Request { method, path, query, headers, body })
        }
    }

    /// The method: a token, never empty.
    pub fn method(&self) -> (method: &String)
        ensures
            method@ == self@.method,
            valid_method(method@),
    {
        proof {
            use_type_invariant(self);
        }
        &self.method
    }

    /// The path, without the query. It begins with `/` and holds no `?`.
    pub fn path(&self) -> (path: &String)
        ensures
            path@ == self@.path,
            valid_path(path@),
    {
        proof {
            use_type_invariant(self);
        }
        &self.path
    }

    /// The raw query, without the `?` before it: empty where the request
    /// had none.
    pub fn query(&self) -> (query: &String)
        ensures
            query@ == self@.query,
    {
        &self.query
    }

    /// The headers of the request, as the transport collected them.
    pub fn headers(&self) -> (headers: &HeaderMap)
        ensures
            headers_of(*headers) == self@.headers,
    {
        &self.headers
    }

    /// The bytes of the body.
    pub fn body(&self) -> (body: &Vec<u8>)
        ensures
            body@ == self@.body,
    {
        &self.body
    }

    /// The value of the first header whose name is `name`, whatever the case
    /// of its letters.
    pub fn header(&self, name: &str) -> (value: Option<&[u8]>)
        ensures
            match value {
                Some(v) => lookup(self@.headers, name@) == Some(v@),
                None => lookup(self@.headers, name@) is None,
            },
    {
        first_value(&self.headers, name)
    }

    /// The declared content type: the text of the first `content-type`
    /// header, or `text/plain`.
    pub fn content_type(&self) -> (mime: String)
        ensures
            mime@ == declared_type(self@.headers),
    {
        match self.header("content-type") {
            Some(value) => match visible_text(value) {
                Some(text) => text,
                None => "text/plain".to_owned(),
            },
            None => "text/plain".to_owned(),
        }
    }
}

/// The name at which a header is looked up is compared without regard to
/// the case of its letters: two spellings of one name find the same index.
proof fn lemma_position_ignores_case(
    headers: Seq<HeaderView>,
    a: Seq<char>,
    b: Seq<char>,
    i: int,
)
    requires
        same_name(a, b),
    ensures
        position_from(headers, a, i) == position_from(headers, b, i),
    decreases headers.len() - i,
{
    if 0 <= i < headers.len() && !same_name(headers[i].name, a) {
        lemma_position_ignores_case(headers, a, b, i + 1);
    }
}

/// Looking a header up does not depend on the case of the name's letters:
/// `Content-Type` and `content-type` find the same value.
pub proof fn lemma_lookup_ignores_case(headers: Seq<HeaderView>, a: Seq<char>, b: Seq<char>)
    requires
        same_name(a, b),
    ensures
        lookup(headers, a) == lookup(headers, b),
{
    lemma_position_ignores_case(headers, a, b, 0);
}

/// A look-up finds the first header of the name, and every header can be
/// found: each one is the first of its name from its own index on.
pub proof fn lemma_every_header_kept(headers: Seq<HeaderView>, k: int)
    requires
        0 <= k < headers.len(),
    ensures
        position_from(headers, headers[k].name, k) == k,
        position_from(headers, headers[k].name, 0) <= k,
        lookup(headers, headers[k].name) is Some,
{
    lemma_position_bound(headers, headers[k].name, 0, k);
}

/// A header of the name at index `k` bounds the first position from any
/// index before it.
proof fn lemma_position_bound(headers: Seq<HeaderView>, name: Seq<char>, i: int, k: int)
    requires
        0 <= i <= k < headers.len(),
        same_name(headers[k].name, name),
    ensures
        i <= position_from(headers, name, i) <= k,
    decreases k - i,
{
    if i < k && !same_name(headers[i].name, name) {
        lemma_position_bound(headers, name, i + 1, k);
    }
}

/// Whether two lists of headers are the same but for the case of the
/// letters in their names.
pub open spec fn same_headers(a: Seq<HeaderView>, b: Seq<HeaderView>) -> bool {
    &&& a.len() == b.len()
    &&& forall|i: int|
        0 <= i < a.len() ==> same_name((#[trigger] a[i]).name, b[i].name) && a[i].value
            == b[i].value
}

/// The case in which header names were sent does not change at which
/// index a name is found.
proof fn lemma_position_same_headers(
    a: Seq<HeaderView>,
    b: Seq<HeaderView>,
    name: Seq<char>,
    i: int,
)
    requires
        same_headers(a, b),
    ensures
        position_from(a, name, i) == position_from(b, name, i),
    decreases a.len() - i,
{
    if 0 <= i < a.len() {
        assert(same_name(a[i].name, b[i].name));
        if !same_name(a[i].name, name) {
            lemma_position_same_headers(a, b, name, i + 1);
        }
    }
}

/// The case in which header names were sent does not change what a look-up
/// finds, nor the declared content type.
pub proof fn lemma_lookup_same_headers(a: Seq<HeaderView>, b: Seq<HeaderView>, name: Seq<char>)
    requires
        same_headers(a, b),
    ensures
        lookup(a, name) == lookup(b, name),
        declared_type(a) == declared_type(b),
{
    lemma_position_same_headers(a, b, name, 0);
    lemma_position_same_headers(a, b, "content-type"@, 0);
    lemma_position_range(a, name, 0);
    lemma_position_range(a, "content-type"@, 0);
    let k = position_from(a, name, 0);
    if k < a.len() {
        assert(same_name(a[k].name, b[k].name) && a[k].value == b[k].value);
    }
    let c = position_from(a, "content-type"@, 0);
    if c < a.len() {
        assert(same_name(a[c].name, b[c].name) && a[c].value == b[c].value);
    }
}

/// A position lies between the index from which it is sought and the number
/// of headers.
proof fn lemma_position_range(headers: Seq<HeaderView>, name: Seq<char>, i: int)
    requires
        0 <= i <= headers.len(),
    ensures
        i <= position_from(headers, name, i) <= headers.len(),
    decreases headers.len() - i,
{
    if i < headers.len() && !same_name(headers[i].name, name) {
        lemma_position_range(headers, name, i + 1);
    }
}

} // verus!
