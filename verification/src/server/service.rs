//! How the server answers one HTTP request.
use crate::error::{ErrorMsg, HttpError};
use crate::message::{
    connection_version, connection_version_str, hyper_version_str, version_name, Body, HttpResponse,
    ResponseBuilder,
};
use crate::server::adaptor::{into_http_result, HyperResp, HyperServerAdaptor};
use vstd::prelude::*;
use vstd::utf8::encode_utf8;

verus! {

/// What the answer of a request is counted under.
#[derive(Debug, Clone, Copy)]
pub struct ResponseCount {
    /// Status code.
    pub code: u16,
    /// HTTP version.
    pub version: &'static str,
}

/// What an HTTP request calls for.
#[derive(Debug)]
pub enum ServiceCall<H, M, B> {
    /// The answer is there.
    Done { response: Result<HttpResponse<B>, HttpError>, count: ResponseCount },
    /// A service has to be asked.
    Ask { service: String, data: M, handler: H },
}

/// What a service gave back.
#[derive(Debug)]
pub enum InternAnswer<M> {
    /// A response.
    Response(M),
    /// An error.
    Error(ErrorMsg<M>),
    /// Anything else.
    Other,
    /// Nothing, and nothing will come.
    Closed,
}

/// Whether a count is the one of a response.
pub open spec fn counts<B>(count: ResponseCount, response: HttpResponse<B>) -> bool {
    count.code == response.status && count.version@ == version_name(response.version)
}

/// Answer an HTTP request by what the adaptor made of it, or ask the service it calls for. A
/// failure is counted as an unavailable service.
pub fn process_call<H, M, B>(resp: HyperResp<H, M, B>, h2: bool) -> (r: ServiceCall<H, M, B>)
    ensures
        match resp {
            HyperResp::SrvReq(service, data, handler) => r == (ServiceCall::<H, M, B>::Ask {
                service,
                data,
                handler,
            }),
            HyperResp::HttpResp(res) => r matches ServiceCall::Done { response, count }
                && response == Ok::<HttpResponse<B>, HttpError>(res) && counts(count, res),
            HyperResp::HttpErr(err) => r matches ServiceCall::Done { response, count } && response
                == Err::<HttpResponse<B>, HttpError>(err) && count.code == 503 && count.version@
                == connection_version(h2),
        },
{
    match resp {
        HyperResp::SrvReq(service, data, handler) => ServiceCall::Ask { service, data, handler },
        HyperResp::HttpResp(res) => {
            let count = ResponseCount {
                code: res.status,
                version: hyper_version_str(res.version),
            };
            ServiceCall::Done { response: Ok(res), count }
        },
        HyperResp::HttpErr(err) => {
            let count = ResponseCount { code: 503, version: connection_version_str(h2) };
            ServiceCall::Done { response: Err(err), count }
        },
    }
}

/// What the answer of a service is counted under. A failure to make a response of it is not counted.
pub fn count_response<B>(response: &Result<HttpResponse<B>, HttpError>) -> (r: Option<
    ResponseCount,
>)
    ensures
        match *response {
            Ok(res) => r is Some && counts(r->0, res),
            Err(_) => r is None,
        },
{
    match response {
        Ok(res) => Some(
            ResponseCount { code: res.status, version: hyper_version_str(res.version) },
        ),
        Err(_) => None,
    }
}

/// Whether a result is what a builder finishes as with a text.
pub open spec fn is_text_page<B>(
    builder: ResponseBuilder,
    text: Seq<char>,
    r: Result<HttpResponse<B>, HttpError>,
) -> bool {
    match builder.head {
        Ok(head) => r matches Ok(response) && response.status == head.status && response.version
            == head.version && response.headers == head.headers && response.body.is_text(text),
        Err(error) => r == Err::<HttpResponse<B>, HttpError>(HttpError::Http(error)),
    }
}

/// Finish a response with a text.
pub fn text_page<B>(builder: ResponseBuilder, text: &str) -> (r: Result<
    HttpResponse<B>,
    HttpError,
>)
    ensures
        is_text_page(builder, text@, r),
{
    into_http_result(builder.body(Body::text(text)))
}

/// Make a response out of what a service gave back: the handler makes the one of a response or an
/// error, and the processor answers itself when it is neither or when nothing came.
pub fn wait_intern_resp<A, H, M, B>(adaptor: &A, handler: H, answer: InternAnswer<M>) -> (r: Result<
    HttpResponse<B>,
    HttpError,
>) where
    A: HyperServerAdaptor,
    H: FnOnce(&A, Result<M, ErrorMsg<M>>) -> Result<HttpResponse<B>, HttpError>,

    requires
        answer matches InternAnswer::Response(data) ==> call_requires(
            handler,
            (adaptor, Ok::<M, ErrorMsg<M>>(data)),
        ),
        answer matches InternAnswer::Error(error) ==> call_requires(
            handler,
            (adaptor, Err::<M, ErrorMsg<M>>(error)),
        ),
    ensures
        match answer {
            InternAnswer::Response(data) => call_ensures(
                handler,
                (adaptor, Ok::<M, ErrorMsg<M>>(data)),
                r,
            ),
            InternAnswer::Error(error) => call_ensures(
                handler,
                (adaptor, Err::<M, ErrorMsg<M>>(error)),
                r,
            ),
            InternAnswer::Other => exists|builder: ResponseBuilder|
                call_ensures(A::response_builder, (adaptor, 500u16), builder)
                    && #[trigger] is_text_page(builder, "Server error"@, r),
            InternAnswer::Closed => exists|builder: ResponseBuilder|
                call_ensures(A::response_builder, (adaptor, 503u16), builder)
                    && #[trigger] is_text_page(
                    builder,
                    "Can't handle your request for now"@,
                    r,
                ),
        },
{
    match answer {
        InternAnswer::Response(data) => handler(adaptor, Ok(data)),
        InternAnswer::Error(error) => handler(adaptor, Err(error)),
        InternAnswer::Other => {
            let builder = adaptor.response_builder(500);
            text_page(builder, "Server error")
        },
        InternAnswer::Closed => {
            let builder = adaptor.response_builder(503);
            text_page(builder, "Can't handle your request for now")
        },
    }
}

/// An answer is counted under its own status code and the name of its own version.
pub proof fn law_count_is_of_the_response<B>(count: ResponseCount, response: HttpResponse<B>)
    ensures
        counts(count, response) <==> count.code == response.status && count.version@
            == version_name(response.version),
{
}

/// A page of the processor's own is what the adaptor started, with the text as its body. It fails
/// exactly when something was refused to the adaptor, with what was.
pub proof fn law_text_page_is_what_was_started<B>(
    builder: ResponseBuilder,
    text: Seq<char>,
    r: Result<HttpResponse<B>, HttpError>,
)
    requires
        is_text_page(builder, text, r),
    ensures
        r is Ok <==> builder.head is Ok,
        r matches Ok(response) ==> {
            &&& builder.head->Ok_0.status == response.status
            &&& builder.head->Ok_0.version == response.version
            &&& builder.head->Ok_0.headers == response.headers
            &&& response.body is Full
            &&& response.body->Full_0@ == encode_utf8(text)
        },
        r matches Err(error) ==> error == HttpError::Http(builder.head->Err_0),
{
}

} // verus!
