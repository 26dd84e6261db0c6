//! The responses that the pipeline hands back, and the headers that every
//! response gets before it is sent.

use crate::config::ServerConfig;
use crate::text::{chars_of, copy_of};
use vstd::prelude::*;

verus! {

/// The headers that the pipeline itself sets.
#[derive(Clone, Copy, Debug, PartialEq, Eq, Structural)]
pub enum HeaderName {
    CacheControl,
    AccessControlAllowOrigin,
    WwwAuthenticate,
    ContentType,
}

impl HeaderName {
    /// The name as it goes over the wire.
    pub fn as_str(&self) -> (r: &'static str)
        ensures
            r@ == (match self {
                HeaderName::CacheControl => "Cache-Control"@,
                HeaderName::AccessControlAllowOrigin => "Access-Control-Allow-Origin"@,
                HeaderName::WwwAuthenticate => "WWW-Authenticate"@,
                HeaderName::ContentType => "Content-Type"@,
            }),
    {
        match self {
            HeaderName::CacheControl => "Cache-Control",
            HeaderName::AccessControlAllowOrigin => "Access-Control-Allow-Origin",
            HeaderName::WwwAuthenticate => "WWW-Authenticate",
            HeaderName::ContentType => "Content-Type",
        }
    }
}

/// One header of a response.
#[derive(Clone, Debug, PartialEq, Eq)]
pub struct Header {
    pub name: HeaderName,
    pub value: String,
}

/// A header as contracts speak of it.
pub struct HeaderView {
    pub name: HeaderName,
    pub value: Seq<char>,
}

impl View for Header {
    type V = HeaderView;

    open spec fn view(&self) -> HeaderView {
        HeaderView { name: self.name, value: self.value@ }
    }
}

/// How the content type of a file that is sent is found.
#[derive(Clone, Copy, Debug, PartialEq, Eq, Structural)]
pub enum MediaType {
    /// Inferred from the file's name by whoever sends the file.
    Inferred,
    /// `text/html; charset=utf-8`, whatever the file's name.
    HtmlUtf8,
}

/// The body of a response.
#[derive(Clone, Debug, PartialEq, Eq)]
pub enum Body {
    Empty,
    /// This text.
    Text(String),
    /// The bytes of the file at `path`, as they are.
    File { path: String, media: MediaType },
}

/// A body as contracts speak of it.
pub enum BodyView {
    Empty,
    Text(Seq<char>),
    File { path: Seq<char>, media: MediaType },
}

impl View for Body {
    type V = BodyView;

    open spec fn view(&self) -> BodyView {
        match self {
            Body::Empty => BodyView::Empty,
            Body::Text(t) => BodyView::Text(t@),
            Body::File { path, media } => BodyView::File { path: path@, media: *media },
        }
    }
}

/// A response, ready to be put on the wire.
#[derive(Clone, Debug, PartialEq, Eq)]
pub struct Response {
    pub status: u16,
    pub headers: Vec<Header>,
    pub body: Body,
    /// Whether the connection is closed after the response.
    pub close_connection: bool,
}

/// A response as contracts speak of it.
pub struct ResponseView {
    pub status: u16,
    pub headers: Seq<HeaderView>,
    pub body: BodyView,
    pub close_connection: bool,
}

/// The views of the headers of `v`, in order.
pub open spec fn header_views(v: Seq<Header>) -> Seq<HeaderView> {
    Seq::new(v.len(), |i: int| v[i]@)
}

impl View for Response {
    type V = ResponseView;

    open spec fn view(&self) -> ResponseView {
        ResponseView {
            status: self.status,
            headers: header_views(self.headers@),
            body: self.body@,
            close_connection: self.close_connection,
        }
    }
}

/// The challenge that goes with a refusal of credentials.
pub open spec fn challenge() -> Seq<char> {
    "Basic realm=\"Incorrect username or password\""@
}

/// The content type of a listing and of a directory's index page.
pub open spec fn html_utf8() -> Seq<char> {
    "text/html; charset=utf-8"@
}

/// The body sent in place of a listing that could not be rendered.
pub open spec fn render_failure_text() -> Seq<char> {
    "TEMPLATE RENDER ERROR"@
}

/// 404 with nothing in it.
pub open spec fn not_found() -> ResponseView {
    ResponseView {
        status: 404,
        headers: Seq::empty(),
        body: BodyView::Empty,
        close_connection: false,
    }
}

/// 403 with nothing in it: no header, no body, and the connection closed.
pub open spec fn forbidden() -> ResponseView {
    ResponseView {
        status: 403,
        headers: Seq::empty(),
        body: BodyView::Empty,
        close_connection: true,
    }
}

/// 401 with the Basic challenge and no body.
pub open spec fn unauthorized() -> ResponseView {
    ResponseView {
        status: 401,
        headers: seq![HeaderView { name: HeaderName::WwwAuthenticate, value: challenge() }],
        body: BodyView::Empty,
        close_connection: false,
    }
}

/// 200 with the file at `path` as its body.
pub open spec fn file_found(path: Seq<char>, media: MediaType) -> ResponseView {
    ResponseView {
        status: 200,
        headers: Seq::empty(),
        body: BodyView::File { path, media },
        close_connection: false,
    }
}

/// 200 with an HTML page as its body.
pub open spec fn page(html: Seq<char>) -> ResponseView {
    ResponseView {
        status: 200,
        headers: seq![HeaderView { name: HeaderName::ContentType, value: html_utf8() }],
        body: BodyView::Text(html),
        close_connection: false,
    }
}

/// The page for a listing as the renderer returned it: the rendered page,
/// or, where rendering failed, a fixed text in its place. Either way 200.
pub open spec fn listing_page(rendered: Option<Seq<char>>) -> ResponseView {
    match rendered {
        Some(html) => page(html),
        None => page(render_failure_text()),
    }
}

/// `headers` without those called `name`.
pub open spec fn without(headers: Seq<HeaderView>, name: HeaderName) -> Seq<HeaderView>
    decreases headers.len(),
{
    if headers.len() == 0 {
        headers
    } else if headers.last().name == name {
        without(headers.drop_last(), name)
    } else {
        without(headers.drop_last(), name).push(headers.last())
    }
}

/// `headers` with `name` set to `value`, in place of whatever it was.
pub open spec fn with_header(headers: Seq<HeaderView>, name: HeaderName, value: Seq<char>) -> Seq<
    HeaderView,
> {
    without(headers, name).push(HeaderView { name, value })
}

/// The value of the header `name`, if `headers` holds one.
pub open spec fn header_value(headers: Seq<HeaderView>, name: HeaderName) -> Option<Seq<char>>
    decreases headers.len(),
{
    if headers.len() == 0 {
        None
    } else if headers.last().name == name {
        Some(headers.last().value)
    } else {
        header_value(headers.drop_last(), name)
    }
}

/// How often the header `name` occurs in `headers`.
pub open spec fn header_count(headers: Seq<HeaderView>, name: HeaderName) -> nat
    decreases headers.len(),
{
    if headers.len() == 0 {
        0
    } else if headers.last().name == name {
        header_count(headers.drop_last(), name) + 1
    } else {
        header_count(headers.drop_last(), name)
    }
}

/// A character that may stand in the value of a header: a tab, or anything
/// from the space on but the delete character.
pub open spec fn is_header_char(c: char) -> bool {
    c == '\t' || (c >= ' ' && c != '\u{7f}')
}

/// Whether `value` can be sent as the value of a header.
pub open spec fn fits_header(value: Seq<char>) -> bool {
    forall|i: int| 0 <= i < value.len() ==> is_header_char(#[trigger] value[i])
}

/// The origin that responses allow: the configured one where it can be sent
/// as a header value, and any origin otherwise.
pub open spec fn allowed_origin(config: &ServerConfig) -> Seq<char> {
    match config.cors_origin {
        Some(origin) => if fits_header(origin@) {
            origin@
        } else {
            "*"@
        },
        None => "*"@,
    }
}

/// The headers of a response after shaping: `Cache-Control: no-store` where
/// caching is off, and `Access-Control-Allow-Origin` where CORS is on.
pub open spec fn shaped_headers(config: &ServerConfig, headers: Seq<HeaderView>) -> Seq<
    HeaderView,
> {
    let cached = if config.no_cache {
        with_header(headers, HeaderName::CacheControl, "no-store"@)
    } else {
        headers
    };
    if config.cors_enabled {
        with_header(cached, HeaderName::AccessControlAllowOrigin, allowed_origin(config))
    } else {
        cached
    }
}

/// The response `r` as it is sent: shaped headers, everything else as it was.
pub open spec fn shaped(config: &ServerConfig, r: ResponseView) -> ResponseView {
    ResponseView { headers: shaped_headers(config, r.headers), ..r }
}

/// Setting a header leaves those of every other name as they were, and
/// leaves the header itself once, with the value set.
pub proof fn lemma_with_header(
    headers: Seq<HeaderView>,
    name: HeaderName,
    value: Seq<char>,
    other: HeaderName,
)
    ensures
        header_value(with_header(headers, name, value), name) == Some(value),
        header_count(with_header(headers, name, value), name) == 1,
        other != name ==> header_value(with_header(headers, name, value), other) == header_value(
            headers,
            other,
        ),
        other != name ==> header_count(with_header(headers, name, value), other) == header_count(
            headers,
            other,
        ),
{
    lemma_without(headers, name, other);
    let set = with_header(headers, name, value);
    assert(set.drop_last() =~= without(headers, name));
}

/// Removing a header removes every occurrence of it and nothing else.
pub proof fn lemma_without(headers: Seq<HeaderView>, name: HeaderName, other: HeaderName)
    ensures
        header_count(without(headers, name), name) == 0,
        header_value(without(headers, name), name) is None,
        other != name ==> header_value(without(headers, name), other) == header_value(
            headers,
            other,
        ),
        other != name ==> header_count(without(headers, name), other) == header_count(
            headers,
            other,
        ),
    decreases headers.len(),
{
    if headers.len() > 0 {
        lemma_without(headers.drop_last(), name, other);
        if headers.last().name != name {
            let kept = without(headers, name);
            assert(kept.drop_last() =~= without(headers.drop_last(), name));
            assert(kept.last() == headers.last());
        }
    }
}

/// Every shaped response forbids caching where caching is off, and allows
/// the configured origin where CORS is on; each of the two headers occurs
/// once. This holds of every response, whatever its status.
pub proof fn lemma_shaped_headers(config: &ServerConfig, r: ResponseView)
    ensures
        shaped(config, r).status == r.status,
        shaped(config, r).body == r.body,
        shaped(config, r).close_connection == r.close_connection,
        config.no_cache ==> header_value(shaped(config, r).headers, HeaderName::CacheControl)
            == Some("no-store"@) && header_count(
            shaped(config, r).headers,
            HeaderName::CacheControl,
        ) == 1,
        config.cors_enabled ==> header_value(
            shaped(config, r).headers,
            HeaderName::AccessControlAllowOrigin,
        ) == Some(allowed_origin(config)) && header_count(
            shaped(config, r).headers,
            HeaderName::AccessControlAllowOrigin,
        ) == 1,
        !config.no_cache && !config.cors_enabled ==> shaped(config, r) == r,
{
    let cached = if config.no_cache {
        with_header(r.headers, HeaderName::CacheControl, "no-store"@)
    } else {
        r.headers
    };
    if config.no_cache {
        lemma_with_header(
            r.headers,
            HeaderName::CacheControl,
            "no-store"@,
            HeaderName::AccessControlAllowOrigin,
        );
    }
    if config.cors_enabled {
        lemma_with_header(
            cached,
            HeaderName::AccessControlAllowOrigin,
            allowed_origin(config),
            HeaderName::CacheControl,
        );
    }
}

/// Whether `value` can be sent as the value of a header.
pub fn header_value_ok(value: &str) -> (ok: bool)
    ensures
        ok == fits_header(value@),
{
    let chars = chars_of(value);
    let mut i: usize = 0;
    while i < chars.len()
        invariant
            i <= chars.len(),
            chars@ == value@,
            forall|k: int| 0 <= k < i ==> is_header_char(#[trigger] chars@[k]),
        decreases chars.len() - i,
    {
        let c = chars[i];
        if !(c == '\t' || (c >= ' ' && c != '\u{7f}')) {
            return false;
        }
        i += 1;
    }
    true
}

/// `headers` with `name` set to `value`.
pub fn set_header(headers: Vec<Header>, name: HeaderName, value: String) -> (out: Vec<Header>)
    ensures
        header_views(out@) == with_header(header_views(headers@), name, value@),
{
    let mut out: Vec<Header> = Vec::new();
    let mut i: usize = 0;
    let ghost all = header_views(headers@);
    proof {
        assert(all.take(0) =~= Seq::<HeaderView>::empty());
        assert(header_views(out@) =~= Seq::<HeaderView>::empty());
    }
    while i < headers.len()
        invariant
            i <= headers.len(),
            all == header_views(headers@),
            header_views(out@) == without(all.take(i as int), name),
        decreases headers.len() - i,
    {
        proof {
            assert(all.take(i + 1).drop_last() =~= all.take(i as int));
            assert(all.take(i + 1).last() == headers@[i as int]@);
        }
        if headers[i].name != name {
            let ghost before = header_views(out@);
            let kept = Header { name: headers[i].name, value: headers[i].value.clone() };
            out.push(kept);
            proof {
                assert(header_views(out@) =~= before.push(headers@[i as int]@));
            }
        }
        i += 1;
    }
    proof {
        assert(all.take(i as int) =~= all);
    }
    let ghost before = header_views(out@);
    let set = Header { name, value };
    out.push(set);
    proof {
        assert(header_views(out@) =~= before.push(set@));
    }
    out
}

/// The origin that responses allow.
pub fn origin_to_allow(config: &ServerConfig) -> (origin: String)
    ensures
        origin@ == allowed_origin(config),
{
    match &config.cors_origin {
        Some(o) => if header_value_ok(o.as_str()) {
            o.clone()
        } else {
            copy_of("*")
        },
        None => copy_of("*"),
    }
}

/// Shapes the headers of a response: the last step before any response,
/// whatever its status, is sent.
pub fn shape(config: &ServerConfig, response: Response) -> (out: Response)
    ensures
        out@ == shaped(config, response@),
{
    let Response { status, headers, body, close_connection } = response;
    let cached = if config.no_cache {
        set_header(headers, HeaderName::CacheControl, copy_of("no-store"))
    } else {
        headers
    };
    let allowed = if config.cors_enabled {
        set_header(cached, HeaderName::AccessControlAllowOrigin, origin_to_allow(config))
    } else {
        cached
    };
    Response { status, headers: allowed, body, close_connection }
}

impl Response {
    /// 404 with nothing in it.
    pub fn not_found() -> (r: Response)
        ensures
            r@ == not_found(),
    {
        let r = Response {
            status: 404,
            headers: Vec::new(),
            body: Body::Empty,
            close_connection: false,
        };
        proof {
            assert(header_views(r.headers@) =~= Seq::<HeaderView>::empty());
        }
        r
    }

    /// 403 with nothing in it, and the connection closed.
    pub fn forbidden() -> (r: Response)
        ensures
            r@ == forbidden(),
    {
        let r = Response {
            status: 403,
            headers: Vec::new(),
            body: Body::Empty,
            close_connection: true,
        };
        proof {
            assert(header_views(r.headers@) =~= Seq::<HeaderView>::empty());
        }
        r
    }

    /// 401 with the Basic challenge.
    pub fn unauthorized() -> (r: Response)
        ensures
            r@ == unauthorized(),
    {
        let mut headers: Vec<Header> = Vec::new();
        headers.push(
            Header {
                name: HeaderName::WwwAuthenticate,
                value: copy_of("Basic realm=\"Incorrect username or password\""),
            },
        );
        let r = Response { status: 401, headers, body: Body::Empty, close_connection: false };
        proof {
            assert(header_views(r.headers@) =~= unauthorized().headers);
        }
        r
    }

    /// 200 with the file at `path` as its body.
    pub fn file(path: String, media: MediaType) -> (r: Response)
        ensures
            r@ == file_found(path@, media),
    {
        let r = Response {
            status: 200,
            headers: Vec::new(),
            body: Body::File { path, media },
            close_connection: false,
        };
        proof {
            assert(header_views(r.headers@) =~= Seq::<HeaderView>::empty());
        }
        r
    }

    /// 200 with an HTML page as its body.
    pub fn page(html: String) -> (r: Response)
        ensures
            r@ == page(html@),
    {
        let mut headers: Vec<Header> = Vec::new();
        headers.push(
            Header { name: HeaderName::ContentType, value: copy_of("text/html; charset=utf-8") },
        );
        let r = Response { status: 200, headers, body: Body::Text(html), close_connection: false };
        proof {
            assert(header_views(r.headers@) =~= page(html@).headers);
        }
        r
    }
}

} // verus!
