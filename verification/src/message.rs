//! HTTP responses and how they are built.
use vstd::prelude::*;
use vstd::utf8::encode_utf8;

verus! {

/// The headers of `http`, kept in its own collection.
#[verifier::external_type_specification]
#[verifier::external_body]
#[verifier::reject_recursive_types(T)]
pub struct ExHeaderMap<T>(http::HeaderMap<T>);

/// A header value of `http`.
#[verifier::external_type_specification]
#[verifier::external_body]
pub struct ExHeaderValue(http::HeaderValue);

/// The values that headers hold, by the name of the header in lower case, in the order they were
/// added.
pub uninterp spec fn header_entries(headers: http::HeaderMap<http::HeaderValue>) -> Map<
    Seq<char>,
    Seq<Seq<u8>>,
>;

/// Number of header names for which there is always room.
pub const HEADER_ROOM: u64 = 4096;

/// Whether a character can stand in a header name.
pub open spec fn is_token(c: char) -> bool {
    ||| '0' <= c <= '9'
    ||| 'a' <= c <= 'z'
    ||| 'A' <= c <= 'Z'
    ||| c == '!' || c == '#' || c == '$' || c == '%' || c == '&' || c == '\'' || c == '*' || c
        == '+' || c == '-' || c == '.' || c == '^' || c == '_' || c == '`' || c == '|' || c == '~'
}

/// Whether a text is a header name.
pub open spec fn is_header_name(name: Seq<char>) -> bool {
    &&& 1 <= name.len() <= 65535
    &&& forall|i: int| 0 <= i < name.len() ==> is_token(#[trigger] name[i])
}

/// Whether a text is a header value.
pub open spec fn is_header_value(value: Seq<char>) -> bool {
    let bytes = encode_utf8(value);
    forall|i: int|
        0 <= i < bytes.len() ==> (#[trigger] bytes[i] >= 32 && bytes[i] != 127) || bytes[i] == 9
}

/// A character in lower case, for the letters that header names are made of.
pub open spec fn lower(c: char) -> char {
    if 'A' <= c <= 'Z' {
        ((c as u32) + 32) as char
    } else {
        c
    }
}

/// The headers with one more value.
pub open spec fn with_header(
    entries: Map<Seq<char>, Seq<Seq<u8>>>,
    name: Seq<char>,
    value: Seq<char>,
) -> Map<Seq<char>, Seq<Seq<u8>>> {
    let key = name.map_values(|c: char| lower(c));
    let values = if entries.contains_key(key) {
        entries[key]
    } else {
        Seq::empty()
    };
    entries.insert(key, values.push(encode_utf8(value)))
}

/// No header at all.
pub open spec fn no_entries() -> Map<Seq<char>, Seq<Seq<u8>>> {
    Map::empty()
}

/// Calls `http::HeaderMap::new`.
///
/// Trusted: it holds no header.
#[verifier::external_body]
fn no_header() -> (r: http::HeaderMap<http::HeaderValue>)
    ensures
        header_entries(r) == no_entries(),
{
    http::HeaderMap::new()
}

/// Calls `http::HeaderMap::try_append` on the name and the value that `http` reads.
///
/// Trusted: a text that is no header name or no header value is refused, the value is added after
/// the ones its name already has, headers that refuse a value are left as they were, and there is
/// always room for a few thousands of names. How many more fit before the headers are full is left
/// unsaid.
#[verifier::external_body]
fn append_header(
    headers: &mut http::HeaderMap<http::HeaderValue>,
    name: &str,
    value: &str,
) -> (r: Result<(), http::Error>)
    ensures
        !(is_header_name(name@) && is_header_value(value@)) ==> r is Err,
        is_header_name(name@) && is_header_value(value@) && header_entries(
            *old(headers),
        ).dom().finite() && header_entries(*old(headers)).dom().len() < HEADER_ROOM ==> r is Ok,
        r is Ok ==> header_entries(*final(headers)) == with_header(
            header_entries(*old(headers)),
            name@,
            value@,
        ),
        r is Err ==> header_entries(*final(headers)) == header_entries(*old(headers)),
{
    let name = http::HeaderName::try_from(name)?;
    let value = http::HeaderValue::try_from(value)?;
    headers.try_append(name, value)?;
    Ok(())
}

/// Calls `http::StatusCode::from_u16` and gives the code back.
///
/// Trusted: a status code has three digits, and the first is no zero.
#[verifier::external_body]
fn checked_status(status: u16) -> (r: Result<u16, http::Error>)
    ensures
        r is Ok <==> 100 <= status <= 999,
        r matches Ok(code) ==> code == status,
{
    Ok(http::StatusCode::from_u16(status)?.as_u16())
}

/// The version of an HTTP message.
#[derive(Debug, Clone, Copy, PartialEq, Eq, Structural)]
pub enum HttpVersion {
    /// HTTP/0.9
    Http09,
    /// HTTP/1.0
    Http10,
    /// HTTP/1.1
    Http11,
    /// HTTP/2
    Http2,
    /// HTTP/3
    Http3,
}

/// What a version is called.
pub open spec fn version_name(version: HttpVersion) -> Seq<char> {
    match version {
        HttpVersion::Http11 => "HTTP/1.1"@,
        HttpVersion::Http2 => "HTTP/2"@,
        HttpVersion::Http3 => "HTTP/3"@,
        _ => "Unknown"@,
    }
}

/// What a version is called.
pub fn hyper_version_str(version: HttpVersion) -> (r: &'static str)
    ensures
        r@ == version_name(version),
{
    match version {
        HttpVersion::Http11 => "HTTP/1.1",
        HttpVersion::Http2 => "HTTP/2",
        HttpVersion::Http3 => "HTTP/3",
        _ => "Unknown",
    }
}

/// What the version of a connection is called, by what it negotiated.
pub open spec fn connection_version(h2: bool) -> Seq<char> {
    if h2 {
        "HTTP/2"@
    } else {
        "HTTP/1.1"@
    }
}

/// What the version of a connection is called, by what it negotiated.
pub fn connection_version_str(h2: bool) -> (r: &'static str)
    ensures
        r@ == connection_version(h2),
{
    if h2 {
        "HTTP/2"
    } else {
        "HTTP/1.1"
    }
}

/// Whether the protocol a connection negotiated is HTTP/2.
pub fn is_h2(alpn: &[u8]) -> (r: bool)
    ensures
        r == (alpn@ == seq!['h' as u8, '2' as u8]),
{
    let r: bool = alpn.len() == 2 && alpn[0] == 0x68 && alpn[1] == 0x32;
    assert(r ==> alpn@ =~= seq!['h' as u8, '2' as u8]);
    r
}

/// The body of an HTTP message.
#[derive(Debug)]
pub enum Body<B> {
    /// No byte at all.
    Empty,
    /// Bytes that are all there.
    Full(Vec<u8>),
    /// A body of the adaptor's own.
    Other(B),
}

impl<B> Body<B> {
    /// Whether the body is a text, all there.
    pub open spec fn is_text(self, text: Seq<char>) -> bool {
        self matches Body::Full(bytes) && bytes@ == encode_utf8(text)
    }

    /// A body made of a text.
    pub fn text(text: &str) -> (r: Body<B>)
        ensures
            r.is_text(text@),
    {
        Body::Full(text.as_bytes_vec())
    }
}

/// An HTTP response.
#[derive(Debug)]
pub struct HttpResponse<B> {
    /// Status code.
    pub status: u16,
    /// HTTP version.
    pub version: HttpVersion,
    /// Headers.
    pub headers: http::HeaderMap<http::HeaderValue>,
    /// Body.
    pub body: Body<B>,
}

impl<B> HttpResponse<B> {
    /// Values of the headers by their name.
    pub open spec fn entries(self) -> Map<Seq<char>, Seq<Seq<u8>>> {
        header_entries(self.headers)
    }
}

/// What a response builder holds as long as nothing was refused.
#[derive(Debug)]
pub struct Head {
    /// Status code.
    pub status: u16,
    /// HTTP version.
    pub version: HttpVersion,
    /// Headers.
    pub headers: http::HeaderMap<http::HeaderValue>,
}

/// Builds a response step by step, keeping the first thing that is refused.
#[derive(Debug)]
pub struct ResponseBuilder {
    /// The response so far, or what was refused.
    pub head: Result<Head, http::Error>,
}

impl ResponseBuilder {
    /// A response without header, successful until told otherwise.
    pub fn new() -> (r: ResponseBuilder)
        ensures
            r.head matches Ok(head) && head.status == 200 && head.version == HttpVersion::Http11
                && header_entries(head.headers) == no_entries(),
    {
        ResponseBuilder {
            head: Ok(Head { status: 200, version: HttpVersion::Http11, headers: no_header() }),
        }
    }

    /// Set the status code.
    pub fn status(self, status: u16) -> (r: ResponseBuilder)
        ensures
            match self.head {
                Ok(head) => if 100 <= status <= 999 {
                    r.head == Ok::<Head, http::Error>(Head { status, ..head })
                } else {
                    r.head is Err
                },
                Err(error) => r.head == Err::<Head, http::Error>(error),
            },
    {
        match self.head {
            Ok(head) => match checked_status(status) {
                Ok(status) => ResponseBuilder { head: Ok(Head { status, ..head }) },
                Err(error) => ResponseBuilder { head: Err(error) },
            },
            Err(error) => ResponseBuilder { head: Err(error) },
        }
    }

    /// Add a header.
    pub fn header(self, name: &str, value: &str) -> (r: ResponseBuilder)
        ensures
            match self.head {
                Ok(head) => {
                    &&& r.head matches Ok(after) ==> {
                        &&& is_header_name(name@) && is_header_value(value@)
                        &&& after.status == head.status
                        &&& after.version == head.version
                        &&& header_entries(after.headers) == with_header(
                            header_entries(head.headers),
                            name@,
                            value@,
                        )
                    }
                    &&& is_header_name(name@) && is_header_value(value@) && header_entries(
                        head.headers,
                    ).dom().finite() && header_entries(head.headers).dom().len() < HEADER_ROOM
                        ==> r.head is Ok
                },
                Err(error) => r.head == Err::<Head, http::Error>(error),
            },
    {
        match self.head {
            Ok(head) => {
                let mut headers = head.headers;
                match append_header(&mut headers, name, value) {
                    Ok(_) => ResponseBuilder {
                        head: Ok(Head { status: head.status, version: head.version, headers }),
                    },
                    Err(error) => ResponseBuilder { head: Err(error) },
                }
            },
            Err(error) => ResponseBuilder { head: Err(error) },
        }
    }

    /// Finish with a body.
    pub fn body<B>(self, body: Body<B>) -> (r: Result<HttpResponse<B>, http::Error>)
        ensures
            r == self.finished(body),
    {
        match self.head {
            Ok(head) => Ok(
                HttpResponse {
                    status: head.status,
                    version: head.version,
                    headers: head.headers,
                    body,
                },
            ),
            Err(error) => Err(error),
        }
    }

    /// What the builder finishes as with a body.
    pub open spec fn finished<B>(self, body: Body<B>) -> Result<HttpResponse<B>, http::Error> {
        match self.head {
            Ok(head) => Ok(
                HttpResponse {
                    status: head.status,
                    version: head.version,
                    headers: head.headers,
                    body,
                },
            ),
            Err(error) => Err(error),
        }
    }
}

/// Each of the three last versions has its name, and the ones before are not told apart.
pub proof fn law_versions_have_a_name(version: HttpVersion)
    ensures
        version is Http11 ==> version_name(version) == "HTTP/1.1"@,
        version is Http2 ==> version_name(version) == "HTTP/2"@,
        version is Http3 ==> version_name(version) == "HTTP/3"@,
        version is Http09 || version is Http10 ==> version_name(version) == "Unknown"@,
{
}

/// A connection is named after the version that its messages have.
pub proof fn law_connection_is_named_after_its_messages()
    ensures
        connection_version(true) == version_name(HttpVersion::Http2),
        connection_version(false) == version_name(HttpVersion::Http11),
{
}

/// A header is added under its name in lower case, after the values that this name already has, and
/// the others are left as they are.
pub proof fn law_header_is_added_last(
    entries: Map<Seq<char>, Seq<Seq<u8>>>,
    name: Seq<char>,
    value: Seq<char>,
    key: Seq<char>,
    other: Seq<char>,
)
    requires
        key.len() == name.len(),
        forall|i: int|
            0 <= i < name.len() ==> #[trigger] key[i] == if 65 <= name[i] as u32 <= 90 {
                (name[i] as u32 + 32) as char
            } else {
                name[i]
            },
    ensures
        ({
            let after = with_header(entries, name, value);
            &&& after.contains_key(key)
            &&& entries.contains_key(key) ==> after[key] == entries[key].push(encode_utf8(value))
            &&& !entries.contains_key(key) ==> after[key] == seq![encode_utf8(value)]
            &&& other != key ==> (after.contains_key(other) <==> entries.contains_key(other))
            &&& other != key && entries.contains_key(other) ==> after[other] == entries[other]
        }),
{
    assert(name.map_values(|c: char| lower(c)) =~= key);
    assert(Seq::<Seq<u8>>::empty().push(encode_utf8(value)) =~= seq![encode_utf8(value)]);
}

/// Without header there is none under any name.
pub proof fn law_no_entries_is_empty(name: Seq<char>)
    ensures
        !no_entries().contains_key(name),
{
}

/// A header name is made of letters, digits and a few signs, and there is at least one.
pub proof fn law_header_names(name: Seq<char>, i: int)
    requires
        is_header_name(name),
    ensures
        0 < name.len() < 65536,
        0 <= i < name.len() ==> 32 < name[i] as u32 && (name[i] as u32) < 127 && name[i] != ':'
            && name[i] != ',' && name[i] != ';' && name[i] != '/' && name[i] != '"',
{
}

/// A body is a text exactly when it is made of the bytes that write it.
pub proof fn law_text_is_its_bytes<B>(body: Body<B>, text: Seq<char>)
    ensures
        body.is_text(text) <==> (body matches Body::Full(bytes) && bytes@ == encode_utf8(text)),
{
}

/// A response that nothing was refused of is finished with all that its builder holds and the body it
/// is given, and otherwise what was refused is told.
pub proof fn law_finished_response_is_what_was_built<B>(builder: ResponseBuilder, body: Body<B>)
    ensures
        match builder.head {
            Ok(head) => {
                &&& builder.finished(body) is Ok
                &&& builder.finished(body)->Ok_0.status == head.status
                &&& builder.finished(body)->Ok_0.version == head.version
                &&& builder.finished(body)->Ok_0.headers == head.headers
                &&& builder.finished(body)->Ok_0.entries() == header_entries(head.headers)
                &&& builder.finished(body)->Ok_0.body == body
            },
            Err(error) => builder.finished(body) is Err && builder.finished(body)->Err_0 == error,
        },
{
}

} // verus!
