//! The console consumer's rendering: one block of text for each captured
//! request, with the method, the path and the query on the first line, the
//! headers below it, and the body at the end.

use crate::body::{lemma_body_plain_text, lossy_text, plain_rendering, BodyRenderer};
use crate::highlight::json_theme;
use crate::mime::kind_of;
use crate::request::{
    declared_type, header_list, header_views, headers_of, lemma_lookup_same_headers, same_headers,
    same_name, value_text, visible_text, HeaderView, Request, RequestView,
};
use crate::styling::{
    is_plain, lemma_painted_plain, lemma_plain_append, lemma_plain_join, lemma_plain_text_clean,
    lemma_plain_text_concat, paint, painted, plain_text, Look, Tint,
};
use crate::text::{chars_of, join, join_chars, lower, lower_chars, rows, string_of};
use vstd::prelude::*;
use warp::http::HeaderMap;

verus! {

/// The look of the method: bold and green.
pub open spec fn method_look() -> Look {
    Look { tint: Tint::Green, bold: true, dimmed: false, italic: false }
}

/// The look of the path: bold and blue.
pub open spec fn path_look() -> Look {
    Look { tint: Tint::Blue, bold: true, dimmed: false, italic: false }
}

/// The look of the query: italic and yellow.
pub open spec fn query_look() -> Look {
    Look { tint: Tint::Yellow, bold: false, dimmed: false, italic: true }
}

/// The look of a header's name: bold and yellow.
pub open spec fn name_look() -> Look {
    Look { tint: Tint::Yellow, bold: true, dimmed: false, italic: false }
}

/// The look of the line above a body: bold, italic and dimmed.
pub open spec fn banner_look() -> Look {
    Look { tint: Tint::Plain, bold: true, dimmed: true, italic: true }
}

/// The line above a body.
pub open spec fn banner() -> Seq<char> {
    "------ Body: ------"@
}

/// What is shown for a header value that is no text.
pub open spec fn unreadable() -> Seq<char> {
    "Invalid UTF-8"@
}

/// What is shown for a header value: its text, or a note that it has none.
pub open spec fn shown_value(value: Seq<u8>) -> Seq<char> {
    match value_text(value) {
        Some(text) => text,
        None => unreadable(),
    }
}

/// One line of the headers: the name as it is shown, a colon and a space,
/// and the value.
pub open spec fn header_line(shown_name: Seq<char>, value: Seq<u8>) -> Seq<char> {
    shown_name + seq![':', ' '] + shown_value(value)
}

/// The lines of the headers, given each name as it is shown.
pub open spec fn header_lines(shown_names: Seq<Seq<char>>, headers: Seq<HeaderView>) -> Seq<
    Seq<char>,
> {
    Seq::new(headers.len(), |i: int| header_line(shown_names[i], headers[i].value))
}

/// Whether `out` renders the headers with the names shown as `shown_names`:
/// each name in lower case and in the look of a name, a line for each
/// header in order, a line feed between the lines.
pub open spec fn shows_headers(
    out: Seq<char>,
    shown_names: Seq<Seq<char>>,
    headers: Seq<HeaderView>,
) -> bool {
    &&& shown_names.len() == headers.len()
    &&& forall|i: int|
        0 <= i < shown_names.len() ==> painted(
            #[trigger] shown_names[i],
            lower(headers[i].name),
            name_look(),
        )
    &&& out == join(header_lines(shown_names, headers), '\n')
}

/// Whether `out` is a rendering of the headers.
pub open spec fn headers_rendering(out: Seq<char>, headers: Seq<HeaderView>) -> bool {
    exists|shown_names: Seq<Seq<char>>| shows_headers(out, shown_names, headers)
}

/// Whether `out` is a rendering of the query: nothing for an empty query,
/// else `?` and the query in the look of a query.
pub open spec fn query_rendering(out: Seq<char>, query: Seq<char>) -> bool {
    if query.len() == 0 {
        out.len() == 0
    } else {
        exists|shown: Seq<char>| #[trigger]
            painted(shown, query, query_look()) && out == seq!['?'] + shown
    }
}

/// Whether `out` is the body's part of a block with the line above the body
/// shown as `shown_banner` and the body rendered as `rendered` by
/// `renderer`.
pub open spec fn shows_body(
    out: Seq<char>,
    shown_banner: Seq<char>,
    rendered: Seq<char>,
    request: RequestView,
    renderer: BodyRenderer,
) -> bool {
    &&& painted(shown_banner, banner(), banner_look())
    &&& renderer.renders(
        rendered,
        kind_of(declared_type(request.headers)),
        lossy_text(request.body),
    )
    &&& out == shown_banner + seq!['\n'] + rendered
}

/// Whether `out` is the body's part of a block: nothing for an empty body,
/// else the line above a body, a line feed, and the body rendered by its
/// declared content type.
pub open spec fn body_section(out: Seq<char>, request: RequestView, renderer: BodyRenderer) -> bool {
    if request.body.len() == 0 {
        out.len() == 0
    } else {
        exists|shown_banner: Seq<char>, rendered: Seq<char>|
            shows_body(out, shown_banner, rendered, request, renderer)
    }
}

/// A block from its parts: the method, a space, the path and the query on
/// the first line; the headers; the body; each part ended by a line feed,
/// and one more line feed, which leaves a line empty behind the block.
pub open spec fn block(
    method: Seq<char>,
    path: Seq<char>,
    query: Seq<char>,
    headers: Seq<char>,
    body: Seq<char>,
) -> Seq<char> {
    method + seq![' '] + path + query + seq!['\n'] + headers + seq!['\n'] + body + seq!['\n']
        + seq!['\n']
}

/// The shown parts of a block.
pub struct Parts {
    pub method: Seq<char>,
    pub path: Seq<char>,
    pub query: Seq<char>,
    pub headers: Seq<char>,
    pub body: Seq<char>,
}

/// Whether `out` is the block of `request` with the parts shown as `parts`,
/// the body rendered by `renderer`.
pub open spec fn shows_request(
    out: Seq<char>,
    parts: Parts,
    request: RequestView,
    renderer: BodyRenderer,
) -> bool {
    &&& painted(parts.method, request.method, method_look())
    &&& painted(parts.path, request.path, path_look())
    &&& query_rendering(parts.query, request.query)
    &&& headers_rendering(parts.headers, request.headers)
    &&& body_section(parts.body, request, renderer)
    &&& out == block(parts.method, parts.path, parts.query, parts.headers, parts.body)
}

/// Whether `out` is a block for `request`, its body rendered by `renderer`.
pub open spec fn request_rendering(
    out: Seq<char>,
    request: RequestView,
    renderer: BodyRenderer,
) -> bool {
    exists|parts: Parts| shows_request(out, parts, request, renderer)
}

/// One line of the headers, from the name as it is shown and the value.
pub fn header_line_of(shown_name: &str, value: &[u8]) -> (line: String)
    ensures
        line@ == header_line(shown_name@, value@),
{
    let mut line = chars_of(shown_name);
    line.push(':');
    line.push(' ');
    let shown = match visible_text(value) {
        Some(text) => text,
        None => "Invalid UTF-8".to_owned(),
    };
    let rest = chars_of(shown.as_str());
    line.extend_from_slice(rest.as_slice());
    assert(line@ =~= header_line(shown_name@, value@));
    string_of(&line)
}

/// Renders the headers: one line for each, in the order in which the
/// collection hands them out, with the name in lower case.
pub fn render_headers(map: &HeaderMap) -> (out: String)
    ensures
        headers_rendering(out@, headers_of(*map)),
{
    let headers = header_list(map);
    let ghost views = headers_of(*map);
    assert(header_views(headers@) =~= views);
    let mut lines: Vec<Vec<char>> = Vec::new();
    let ghost mut shown_names: Seq<Seq<char>> = Seq::empty();
    let mut k: usize = 0;
    while k < headers.len()
        invariant
            k <= headers.len(),
            views == header_views(headers@),
            lines@.len() == k,
            shown_names.len() == k,
            forall|i: int|
                0 <= i < k ==> painted(#[trigger] shown_names[i], lower(views[i].name), name_look()),
            forall|i: int|
                0 <= i < k ==> (#[trigger] lines@[i])@ == header_line(
                    shown_names[i],
                    views[i].value,
                ),
        decreases headers.len() - k,
    {
        let name = string_of(&lower_chars(&chars_of(headers[k].name.as_str())));
        let shown = paint(
            name.as_str(),
            Look { tint: Tint::Yellow, bold: true, dimmed: false, italic: false },
        );
        let line = header_line_of(shown.as_str(), headers[k].value.as_slice());
        proof {
            shown_names = shown_names.push(shown@);
        }
        lines.push(chars_of(line.as_str()));
        k += 1;
    }
    let out = string_of(&join_chars(&lines, '\n'));
    proof {
        assert(rows(lines@) =~= header_lines(shown_names, views));
        assert(shows_headers(out@, shown_names, views));
    }
    out
}

/// Renders the query: nothing where it is empty, else `?` and the query.
pub fn render_query(query: &str) -> (out: String)
    ensures
        query_rendering(out@, query@),
{
    let q = chars_of(query);
    if q.len() == 0 {
        String::new()
    } else {
        let shown = paint(
            query,
            Look { tint: Tint::Yellow, bold: false, dimmed: false, italic: true },
        );
        let mut out: Vec<char> = Vec::new();
        out.push('?');
        let rest = chars_of(shown.as_str());
        out.extend_from_slice(rest.as_slice());
        assert(out@ =~= seq!['?'] + shown@);
        string_of(&out)
    }
}

/// Puts a block together from its shown parts.
pub fn assemble(method: &str, path: &str, query: &str, headers: &str, body: &str) -> (out: String)
    ensures
        out@ == block(method@, path@, query@, headers@, body@),
{
    let mut out = chars_of(method);
    out.push(' ');
    let p = chars_of(path);
    out.extend_from_slice(p.as_slice());
    let q = chars_of(query);
    out.extend_from_slice(q.as_slice());
    out.push('\n');
    let h = chars_of(headers);
    out.extend_from_slice(h.as_slice());
    out.push('\n');
    let b = chars_of(body);
    out.extend_from_slice(b.as_slice());
    out.push('\n');
    out.push('\n');
    assert(out@ =~= block(method@, path@, query@, headers@, body@));
    string_of(&out)
}

/// The consumer that shows each request on the console.
pub struct ConsoleLogger {
    renderer: BodyRenderer,
}

impl ConsoleLogger {
    /// The body renderer of the consumer.
    pub closed spec fn renderer(&self) -> BodyRenderer {
        self.renderer
    }

    /// A console consumer with a body renderer of its own: one with the
    /// syntaxes and themes that the highlighter brings.
    pub fn new() -> (logger: ConsoleLogger)
        ensures
            logger.renderer().themes().contains(json_theme()),
    {
        ConsoleLogger { renderer: BodyRenderer::new() }
    }

    /// Renders the body's part of a block. An empty body is not rendered at
    /// all: its part is empty. Any other body stands under the line above a
    /// body, rendered by the declared content type.
    pub fn render_body(&self, request: &Request) -> (out: String)
        ensures
            body_section(out@, request@, self.renderer()),
            request@.body.len() == 0 ==> out@.len() == 0,
    {
        if request.body().len() == 0 {
            String::new()
        } else {
            let mime = request.content_type();
            let rendered = self.renderer.format_body(mime.as_str(), request.body().as_slice());
            let shown = paint(
                "------ Body: ------",
                Look { tint: Tint::Plain, bold: true, dimmed: true, italic: true },
            );
            let mut out = chars_of(shown.as_str());
            out.push('\n');
            let rest = chars_of(rendered.as_str());
            out.extend_from_slice(rest.as_slice());
            assert(out@ =~= shown@ + seq!['\n'] + rendered@);
            assert(shows_body(out@, shown@, rendered@, request@, self.renderer()));
            string_of(&out)
        }
    }

    /// Renders the block of one request: what the console shows for it.
    pub fn render_request(&self, request: &Request) -> (out: String)
        ensures
            request_rendering(out@, request@, self.renderer()),
    {
        let method = paint(
            request.method().as_str(),
            Look { tint: Tint::Green, bold: true, dimmed: false, italic: false },
        );
        let path = paint(
            request.path().as_str(),
            Look { tint: Tint::Blue, bold: true, dimmed: false, italic: false },
        );
        let query = render_query(request.query().as_str());
        let headers = render_headers(request.headers());
        let body = self.render_body(request);
        let out = assemble(
            method.as_str(),
            path.as_str(),
            query.as_str(),
            headers.as_str(),
            body.as_str(),
        );
        proof {
            let parts = Parts {
                method: method@,
                path: path@,
                query: query@,
                headers: headers@,
                body: body@,
            };
            assert(shows_request(out@, parts, request@, self.renderer()));
        }
        out
    }
}

/// The headers without styling: for each header a line of the name in
/// lower case, a colon and a space, and the value.
pub open spec fn plain_headers(headers: Seq<HeaderView>) -> Seq<char> {
    join(
        Seq::new(headers.len(), |i: int| header_line(lower(headers[i].name), headers[i].value)),
        '\n',
    )
}

/// The query's part of a block without styling.
pub open spec fn plain_query(query: Seq<char>) -> Seq<char> {
    if query.len() == 0 {
        Seq::empty()
    } else {
        seq!['?'] + query
    }
}

/// The body's part of a block without styling.
pub open spec fn plain_body(request: RequestView) -> Seq<char> {
    if request.body.len() == 0 {
        Seq::empty()
    } else {
        banner() + seq!['\n'] + plain_rendering(
            kind_of(declared_type(request.headers)),
            lossy_text(request.body),
        )
    }
}

/// The block of a request without styling.
pub open spec fn plain_block(request: RequestView) -> Seq<char> {
    block(
        request.method,
        request.path,
        plain_query(request.query),
        plain_headers(request.headers),
        plain_body(request),
    )
}

/// Whether no text of the request holds an escape character: its method,
/// path and query, the names of its headers, and, where it has a body, the
/// body as text.
pub open spec fn is_plain_request(request: RequestView) -> bool {
    &&& is_plain(request.method)
    &&& is_plain(request.path)
    &&& is_plain(request.query)
    &&& forall|i: int| 0 <= i < request.headers.len() ==> is_plain(#[trigger] request.headers[i].name)
    &&& request.body.len() > 0 ==> is_plain(lossy_text(request.body))
}

/// What is shown for a header value holds no escape character.
pub(crate) proof fn lemma_shown_value_plain(value: Seq<u8>)
    ensures
        is_plain(shown_value(value)),
{
    reveal_strlit("Invalid UTF-8");
}

/// The styling of the headers wraps their names and alters nothing.
pub proof fn lemma_headers_plain_text(out: Seq<char>, headers: Seq<HeaderView>)
    requires
        headers_rendering(out, headers),
        forall|i: int| 0 <= i < headers.len() ==> is_plain(#[trigger] headers[i].name),
    ensures
        plain_text(out) == plain_headers(headers),
        is_plain(plain_headers(headers)),
{
    let shown_names = choose|shown_names: Seq<Seq<char>>| shows_headers(out, shown_names, headers);
    let shown = header_lines(shown_names, headers);
    let plain = Seq::new(
        headers.len(),
        |i: int| header_line(lower(headers[i].name), headers[i].value),
    );
    assert forall|i: int| 0 <= i < shown.len() implies plain_text(#[trigger] shown[i])
        == plain[i] && is_plain(plain[i]) by {
        let name = lower(headers[i].name);
        let rest = seq![':', ' '] + shown_value(headers[i].value);
        assert(is_plain(headers[i].name));
        assert(is_plain(name));
        lemma_shown_value_plain(headers[i].value);
        assert(is_plain(rest));
        assert(painted(shown_names[i], name, name_look()));
        lemma_painted_plain(shown_names[i], name, name_look());
        lemma_plain_text_clean(rest);
        lemma_plain_text_concat(shown_names[i], rest);
        assert(shown_names[i] + rest =~= shown[i]);
        assert(name + rest =~= plain[i]);
    }
    assert forall|i: int| 0 <= i < plain.len() implies is_plain(#[trigger] plain[i]) by {
        assert(plain_text(shown[i]) == plain[i] && is_plain(plain[i]));
    }
    lemma_plain_join(shown, plain, '\n');
}

/// The styling of the query wraps it and alters nothing.
pub proof fn lemma_query_plain_text(out: Seq<char>, query: Seq<char>)
    requires
        query_rendering(out, query),
        is_plain(query),
    ensures
        plain_text(out) == plain_query(query),
        is_plain(plain_query(query)),
{
    if query.len() == 0 {
        assert(out =~= Seq::<char>::empty());
        lemma_plain_text_clean(out);
    } else {
        let shown = choose|shown: Seq<char>| #[trigger]
            painted(shown, query, query_look()) && out == seq!['?'] + shown;
        lemma_painted_plain(shown, query, query_look());
        lemma_plain_text_clean(seq!['?']);
        lemma_plain_append(seq!['?'], shown, seq!['?'], query);
    }
}

/// The styling of the body's part wraps it and alters nothing.
pub proof fn lemma_body_section_plain_text(
    out: Seq<char>,
    request: RequestView,
    renderer: BodyRenderer,
)
    requires
        body_section(out, request, renderer),
        request.body.len() > 0 ==> is_plain(lossy_text(request.body)),
    ensures
        plain_text(out) == plain_body(request),
        is_plain(plain_body(request)),
{
    if request.body.len() == 0 {
        assert(out =~= Seq::<char>::empty());
        lemma_plain_text_clean(out);
    } else {
        let (shown_banner, rendered) = choose|shown_banner: Seq<char>, rendered: Seq<char>|
            shows_body(out, shown_banner, rendered, request, renderer);
        let kind = kind_of(declared_type(request.headers));
        let text = lossy_text(request.body);
        reveal_strlit("------ Body: ------");
        assert(is_plain(banner()));
        lemma_painted_plain(shown_banner, banner(), banner_look());
        lemma_plain_text_clean(seq!['\n']);
        lemma_plain_append(shown_banner, seq!['\n'], banner(), seq!['\n']);
        lemma_body_plain_text(rendered, kind, text);
        lemma_plain_append(
            shown_banner + seq!['\n'],
            rendered,
            banner() + seq!['\n'],
            plain_rendering(kind, text),
        );
    }
}

/// The styling of a block wraps its parts and alters nothing: stripped of
/// styling, the block of a request whose texts held no escape character is
/// the block of its plain parts.
pub proof fn lemma_request_plain_text(out: Seq<char>, request: RequestView, renderer: BodyRenderer)
    requires
        request_rendering(out, request, renderer),
        is_plain_request(request),
    ensures
        plain_text(out) == plain_block(request),
{
    let parts = choose|parts: Parts| shows_request(out, parts, request, renderer);
    let feed = seq!['\n'];
    let space = seq![' '];
    let q = plain_query(request.query);
    let h = plain_headers(request.headers);
    let b = plain_body(request);
    lemma_painted_plain(parts.method, request.method, method_look());
    lemma_painted_plain(parts.path, request.path, path_look());
    lemma_query_plain_text(parts.query, request.query);
    lemma_headers_plain_text(parts.headers, request.headers);
    lemma_body_section_plain_text(parts.body, request, renderer);
    lemma_plain_text_clean(feed);
    lemma_plain_text_clean(space);
    let s1 = parts.method + space;
    let t1 = request.method + space;
    lemma_plain_append(parts.method, space, request.method, space);
    let s2 = s1 + parts.path;
    let t2 = t1 + request.path;
    lemma_plain_append(s1, parts.path, t1, request.path);
    let s3 = s2 + parts.query;
    let t3 = t2 + q;
    lemma_plain_append(s2, parts.query, t2, q);
    let s4 = s3 + feed;
    let t4 = t3 + feed;
    lemma_plain_append(s3, feed, t3, feed);
    let s5 = s4 + parts.headers;
    let t5 = t4 + h;
    lemma_plain_append(s4, parts.headers, t4, h);
    let s6 = s5 + feed;
    let t6 = t5 + feed;
    lemma_plain_append(s5, feed, t5, feed);
    let s7 = s6 + parts.body;
    let t7 = t6 + b;
    lemma_plain_append(s6, parts.body, t6, b);
    let s8 = s7 + feed;
    let t8 = t7 + feed;
    lemma_plain_append(s7, feed, t7, feed);
    lemma_plain_append(s8, feed, t8, feed);
    assert(s8 + feed == out);
    assert(t8 + feed == plain_block(request));
}

/// An empty body has no part in the block: whatever the headers declare,
/// nothing stands between the line feed that ends the headers and the two
/// that end the block.
pub proof fn lemma_empty_body_block(out: Seq<char>, request: RequestView, renderer: BodyRenderer)
    requires
        request_rendering(out, request, renderer),
        request.body.len() == 0,
    ensures
        exists|parts: Parts|
            #![trigger shows_request(out, parts, request, renderer)]
            shows_request(out, parts, request, renderer) && out == block(
                parts.method,
                parts.path,
                parts.query,
                parts.headers,
                Seq::empty(),
            ),
        is_plain(request.method) && is_plain(request.path) && is_plain(request.query) && (forall|
            i: int,
        |
            0 <= i < request.headers.len() ==> is_plain(#[trigger] request.headers[i].name))
            ==> plain_text(out) == block(
            request.method,
            request.path,
            plain_query(request.query),
            plain_headers(request.headers),
            Seq::empty(),
        ),
{
    let parts = choose|parts: Parts| shows_request(out, parts, request, renderer);
    assert(parts.body =~= Seq::<char>::empty());
    if is_plain(request.method) && is_plain(request.path) && is_plain(request.query) && (forall|
        i: int,
    |
        0 <= i < request.headers.len() ==> is_plain(#[trigger] request.headers[i].name)) {
        lemma_request_plain_text(out, request, renderer);
    }
}

/// Whether two requests are the same but for the case of the letters in the
/// names of their headers.
pub open spec fn same_but_name_case(a: RequestView, b: RequestView) -> bool {
    &&& a.method == b.method
    &&& a.path == b.path
    &&& a.query == b.query
    &&& same_headers(a.headers, b.headers)
    &&& a.body == b.body
}

/// The case in which header names were sent has no part in the block: a
/// block for a request is a block for every request that differs from it in
/// that case alone. The header lines are the same, and so is the way in
/// which the body is rendered.
pub proof fn lemma_block_ignores_name_case(
    out: Seq<char>,
    a: RequestView,
    b: RequestView,
    renderer: BodyRenderer,
)
    requires
        same_but_name_case(a, b),
        request_rendering(out, a, renderer),
    ensures
        request_rendering(out, b, renderer),
        declared_type(a.headers) == declared_type(b.headers),
        plain_headers(a.headers) == plain_headers(b.headers),
{
    let parts = choose|parts: Parts| shows_request(out, parts, a, renderer);
    lemma_lookup_same_headers(a.headers, b.headers, "content-type"@);
    let shown_names = choose|shown_names: Seq<Seq<char>>|
        shows_headers(parts.headers, shown_names, a.headers);
    assert forall|i: int| 0 <= i < a.headers.len() implies lower(a.headers[i].name) == lower(
        b.headers[i].name,
    ) && a.headers[i].value == b.headers[i].value by {
        assert(same_name(a.headers[i].name, b.headers[i].name));
    }
    assert(header_lines(shown_names, a.headers) =~= header_lines(shown_names, b.headers));
    assert(shows_headers(parts.headers, shown_names, b.headers));
    assert(Seq::new(
        a.headers.len(),
        |i: int| header_line(lower(a.headers[i].name), a.headers[i].value),
    ) =~= Seq::new(
        b.headers.len(),
        |i: int| header_line(lower(b.headers[i].name), b.headers[i].value),
    ));
    if a.body.len() > 0 {
        let (shown_banner, rendered) = choose|shown_banner: Seq<char>, rendered: Seq<char>|
            shows_body(parts.body, shown_banner, rendered, a, renderer);
        assert(shows_body(parts.body, shown_banner, rendered, b, renderer));
    }
    assert(shows_request(out, parts, b, renderer));
}

} // verus!
