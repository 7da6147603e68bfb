//! What turns HTTP requests into service requests, and service outcomes into HTTP responses.
use crate::error::{ErrorMsg, HttpError, ServiceError};
use crate::message::{
    header_entries, is_header_name, is_header_value, law_header_is_added_last, no_entries,
    with_header, Body, HttpResponse, HttpVersion, ResponseBuilder,
};
use crate::text::join;
use crate::PRODUCT_VERSION_HEADER;
use vstd::prelude::*;
use vstd::std_specs::convert::FromSpec;
use vstd::utf8::{encode_utf8, is_ascii_chars, is_ascii_chars_encode_utf8};

verus! {

/// Headers of a response that only says what made it.
pub open spec fn product_entries() -> Map<Seq<char>, Seq<Seq<u8>>> {
    with_header(no_entries(), "Server"@, PRODUCT_VERSION_HEADER@)
}

/// Whether a builder holds a response that only says what made it, or refused its status code.
pub open spec fn is_product_head(builder: ResponseBuilder, status: u16) -> bool {
    if 100 <= status <= 999 {
        builder.head matches Ok(head) && head.status == status && head.version
            == HttpVersion::Http11 && header_entries(head.headers) == product_entries()
    } else {
        builder.head is Err
    }
}

/// The header every response carries is one that `http` takes.
proof fn lemma_product_header()
    ensures
        is_header_name("Server"@),
        is_header_value(PRODUCT_VERSION_HEADER@),
{
    reveal_strlit("Server");
    reveal_strlit("prosa-hyper/0.3.0 (Unix)");
    let value = PRODUCT_VERSION_HEADER@;
    assert(is_ascii_chars(value));
    is_ascii_chars_encode_utf8(value);
    let bytes = encode_utf8(value);
    assert forall|i: int| 0 <= i < bytes.len() implies (#[trigger] bytes[i] >= 32 && bytes[i]
        != 127) || bytes[i] == 9 by {
        assert(bytes[i] == value[i] as u8);
    }
}

/// A response that says what made it, with a status code.
pub fn product_response(status: u16) -> (r: ResponseBuilder)
    ensures
        is_product_head(r, status),
{
    proof {
        lemma_product_header();
    }
    ResponseBuilder::new().status(status).header("Server", PRODUCT_VERSION_HEADER)
}

/// Adaptor of the server processor.
pub trait HyperServerAdaptor {
    /// Start a response with a status code and the headers of the adaptor. The processor answers
    /// with it what no service can.
    fn response_builder(&self, status_code: u16) -> (r: ResponseBuilder)
        default_ensures
            is_product_head(r, status_code),
    {
        product_response(status_code)
    }
}

/// The status code a service error is answered with.
pub open spec fn error_status(error: ServiceError) -> u16 {
    match error {
        ServiceError::NoError(_) => 202,
        ServiceError::UnableToReachService(_) => 503,
        ServiceError::Timeout(_, _) => 504,
        ServiceError::ProtocolError(_) => 502,
    }
}

/// Whether a body is the one a service error is answered with.
pub open spec fn is_error_body<B>(error: ServiceError, body: Body<B>) -> bool {
    if error is UnableToReachService {
        body.is_text("Can't reach service"@)
    } else {
        body is Empty
    }
}

/// A response, or the error `http` refused it with.
pub open spec fn http_result<B>(res: Result<HttpResponse<B>, http::Error>) -> Result<
    HttpResponse<B>,
    HttpError,
> {
    match res {
        Ok(response) => Ok(response),
        Err(error) => Err(HttpError::Http(error)),
    }
}

/// Give a response, or the error `http` refused it with.
pub fn into_http_result<B>(res: Result<HttpResponse<B>, http::Error>) -> (r: Result<
    HttpResponse<B>,
    HttpError,
>)
    ensures
        r == http_result(res),
{
    match res {
        Ok(response) => Ok(response),
        Err(error) => Err(HttpError::Http(error)),
    }
}

/// Make a response out of a service error: accepted when there was none, unavailable when the
/// service can't be reached, a gateway timeout when it did not answer in time, and a bad gateway
/// when it made a protocol error.
pub fn default_srv_error_response<M, F, B>(err: &ErrorMsg<M>, response_builder: F) -> (r: Result<
    HttpResponse<B>,
    HttpError,
>) where F: Fn(u16) -> ResponseBuilder
    requires
        call_requires(response_builder, (error_status(err.err),)),
    ensures
        exists|builder: ResponseBuilder, body: Body<B>|
            call_ensures(response_builder, (error_status(err.err),), builder) && is_error_body(
                err.err,
                body,
            ) && r == http_result(#[trigger] builder.finished(body)),
{
    let (status, body): (u16, Body<B>) = match err.get_err() {
        ServiceError::NoError(_) => (202, Body::Empty),
        ServiceError::UnableToReachService(_) => (503, Body::text("Can't reach service")),
        ServiceError::Timeout(_, _) => (504, Body::Empty),
        ServiceError::ProtocolError(_) => (502, Body::Empty),
    };
    let builder = response_builder(status);
    into_http_result(builder.body(body))
}

/// How an HTTP request is answered.
#[derive(Debug)]
pub enum HyperResp<H, M, B> {
    /// Ask a service, and make a response out of what it answers.
    SrvReq(String, M, H),
    /// Answer right away.
    HttpResp(HttpResponse<B>),
    /// Fail right away.
    HttpErr(HttpError),
}

impl<H, M, B> From<HttpError> for HyperResp<H, M, B> {
    fn from(error: HttpError) -> (r: Self) {
        HyperResp::HttpErr(error)
    }
}

impl<H, M, B> vstd::std_specs::convert::FromSpecImpl<HttpError> for HyperResp<H, M, B> {
    open spec fn obeys_from_spec() -> bool {
        true
    }

    open spec fn from_spec(error: HttpError) -> Self {
        HyperResp::HttpErr(error)
    }
}

impl<H, M, B> From<hyper::Error> for HyperResp<H, M, B> {
    fn from(error: hyper::Error) -> (r: Self) {
        HyperResp::HttpErr(HttpError::Hyper(error))
    }
}

impl<H, M, B> vstd::std_specs::convert::FromSpecImpl<hyper::Error> for HyperResp<H, M, B> {
    open spec fn obeys_from_spec() -> bool {
        true
    }

    open spec fn from_spec(error: hyper::Error) -> Self {
        HyperResp::HttpErr(HttpError::Hyper(error))
    }
}

impl<H, M, B> From<http::Error> for HyperResp<H, M, B> {
    fn from(error: http::Error) -> (r: Self) {
        HyperResp::HttpErr(HttpError::Http(error))
    }
}

impl<H, M, B> vstd::std_specs::convert::FromSpecImpl<http::Error> for HyperResp<H, M, B> {
    open spec fn obeys_from_spec() -> bool {
        true
    }

    open spec fn from_spec(error: http::Error) -> Self {
        HyperResp::HttpErr(HttpError::Http(error))
    }
}

impl<H, M, B> From<Result<HttpResponse<B>, http::Error>> for HyperResp<H, M, B> {
    fn from(res: Result<HttpResponse<B>, http::Error>) -> (r: Self) {
        match res {
            Ok(response) => HyperResp::HttpResp(response),
            Err(error) => HyperResp::HttpErr(HttpError::Http(error)),
        }
    }
}

impl<H, M, B> vstd::std_specs::convert::FromSpecImpl<Result<HttpResponse<B>, http::Error>> for HyperResp<H, M, B> {
    open spec fn obeys_from_spec() -> bool {
        true
    }

    open spec fn from_spec(res: Result<HttpResponse<B>, http::Error>) -> Self {
        match res {
            Ok(response) => HyperResp::HttpResp(response),
            Err(error) => HyperResp::HttpErr(HttpError::Http(error)),
        }
    }
}

/// Adaptor that answers every request with the same greeting.
#[derive(Debug)]
pub struct HelloHyperServerAdaptor {
    hello_msg: String,
}

impl HyperServerAdaptor for HelloHyperServerAdaptor {

}

impl HelloHyperServerAdaptor {
    /// The greeting.
    pub closed spec fn greeting(self) -> Seq<char> {
        self.hello_msg@
    }

    /// An adaptor that greets in the name of a processor.
    pub fn new(name: &str) -> (r: HelloHyperServerAdaptor)
        ensures
            r.greeting() == "Hello from "@ + name@,
    {
        HelloHyperServerAdaptor { hello_msg: join("Hello from ", name) }
    }

    /// Answer any request with the greeting.
    pub fn process_http_request<H, M, B>(&self) -> (r: HyperResp<H, M, B>)
        ensures
            r matches HyperResp::HttpResp(response) && response.status == 200 && response.version
                == HttpVersion::Http11 && response.entries() == product_entries()
                && response.body.is_text(self.greeting()),
    {
        let response: Result<HttpResponse<B>, http::Error> = product_response(200).body(
            Body::text(self.hello_msg.as_str()),
        );
        HyperResp::from(response)
    }
}

/// A response that only says what made it has one header, under which stands what the processor says
/// it is.
pub proof fn law_product_header_stands_alone(name: Seq<char>)
    ensures
        product_entries().contains_key(name) <==> name == "server"@,
        product_entries()["server"@] == seq![encode_utf8(PRODUCT_VERSION_HEADER@)],
{
    reveal_strlit("Server");
    reveal_strlit("server");
    law_header_is_added_last(no_entries(), "Server"@, PRODUCT_VERSION_HEADER@, "server"@, name);
}

/// A response started the default way has the status code it was given when that is one, the version
/// of HTTP/1.1 and the header that says what made it. It is refused otherwise.
pub proof fn law_started_response(builder: ResponseBuilder, status: u16, name: Seq<char>)
    requires
        is_product_head(builder, status),
    ensures
        builder.head is Ok <==> 100 <= status < 1000,
        builder.head matches Ok(head) ==> {
            &&& head.status == status
            &&& head.version is Http11
            &&& header_entries(head.headers).contains_key(name) <==> name == "server"@
            &&& header_entries(head.headers)["server"@] == seq![
                encode_utf8(PRODUCT_VERSION_HEADER@),
            ]
        },
{
    law_product_header_stands_alone(name);
}

/// A service error is told apart by its status code.
pub proof fn law_error_status(error: ServiceError)
    ensures
        error is NoError <==> error_status(error) == 202,
        error is UnableToReachService <==> error_status(error) == 503,
        error is Timeout <==> error_status(error) == 504,
        error is ProtocolError <==> error_status(error) == 502,
{
}

/// A response is given as it is, and what `http` refused is told as it is.
pub proof fn law_http_result_keeps_what_it_is_given<B>(
    response: HttpResponse<B>,
    error: http::Error,
)
    ensures
        http_result(Ok::<HttpResponse<B>, http::Error>(response)) == Ok::<
            HttpResponse<B>,
            HttpError,
        >(response),
        http_result(Err::<HttpResponse<B>, http::Error>(error)) == Err::<
            HttpResponse<B>,
            HttpError,
        >(HttpError::Http(error)),
{
}

/// An HTTP request is answered with the response that was made, or fails with the error that was met.
pub proof fn law_answers_keep_their_source<H, M, B>(
    failed: HttpError,
    hyper: hyper::Error,
    http: http::Error,
    response: HttpResponse<B>,
)
    ensures
        <HyperResp<H, M, B> as FromSpec<HttpError>>::from_spec(failed) == HyperResp::<
            H,
            M,
            B,
        >::HttpErr(failed),
        <HyperResp<H, M, B> as FromSpec<hyper::Error>>::from_spec(hyper) == HyperResp::<
            H,
            M,
            B,
        >::HttpErr(HttpError::Hyper(hyper)),
        <HyperResp<H, M, B> as FromSpec<http::Error>>::from_spec(http) == HyperResp::<
            H,
            M,
            B,
        >::HttpErr(HttpError::Http(http)),
        <HyperResp<H, M, B> as FromSpec<Result<HttpResponse<B>, http::Error>>>::from_spec(
            Ok::<HttpResponse<B>, http::Error>(response),
        ) == HyperResp::<H, M, B>::HttpResp(response),
        <HyperResp<H, M, B> as FromSpec<Result<HttpResponse<B>, http::Error>>>::from_spec(
            Err::<HttpResponse<B>, http::Error>(http),
        ) == HyperResp::<H, M, B>::HttpErr(HttpError::Http(http)),
{
}

} // verus!
