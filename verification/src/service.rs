//! The three routes of the service and what each answers.
//!
//! A request reaches this module already taken apart by the HTTP layer: the
//! method, the path, and for each of the two places an input can come from
//! (the query string, a JSON body) what was found there under the name
//! `input`. From that the module picks the route, decides whether an input
//! was given, hands it to the transformation and wraps the result. The
//! transformation itself is supplied by the caller.

use crate::text::same_text;
use vstd::prelude::*;
use vstd::string::StringExecFns;

verus! {

/// The path of the landing page.
pub const LANDING_PATH: &'static str = "/";

/// The path of the transformation.
pub const TRANSFORM_PATH: &'static str = "/schmfy";

/// The method of a request, as far as the routes tell methods apart.
#[derive(Clone, Copy, Debug, PartialEq, Eq, Structural)]
pub enum Method {
    Get,
    Post,
    /// Any method that no route answers.
    Other,
}

/// Where a request carries its input.
#[derive(Clone, Copy, Debug, PartialEq, Eq, Structural)]
pub enum Source {
    /// The parameter `input` of the query string.
    Query,
    /// The field `input` of a JSON object in the body.
    Body,
}

/// One of the routes.
#[derive(Clone, Copy, Debug, PartialEq, Eq, Structural)]
pub enum Route {
    /// The landing page.
    Landing,
    /// The transformation, with the place its input comes from.
    Transform(Source),
}

/// Why no input could be taken from a request.
#[derive(Clone, Copy, Debug, PartialEq, Eq, Structural)]
pub enum Fault {
    /// The source was read, and holds nothing under `input`.
    Missing,
    /// The source is not well formed, or breaks off.
    Malformed,
    /// What stands under `input` is not one string.
    WrongType,
    /// The body is not declared to be JSON.
    MediaType,
}

/// A request from which no input could be taken.
#[derive(Clone, Copy, Debug, PartialEq, Eq, Structural)]
pub struct DecodeError {
    pub source: Source,
    pub fault: Fault,
}

/// The status of a response.
#[derive(Clone, Copy, Debug, PartialEq, Eq, Structural)]
pub enum Status {
    /// 200, the only status that reports success.
    Success,
    BadRequest,
    UnsupportedMediaType,
    UnprocessableEntity,
}

/// What kind of text a response holds.
#[derive(Clone, Copy, Debug, PartialEq, Eq, Structural)]
pub enum ContentType {
    Html,
    PlainText,
}

/// The text to transform.
#[derive(Clone, Debug, PartialEq, Eq)]
pub struct Input {
    pub input: String,
}

/// What the HTTP layer found in one source: the string under `input` or its
/// absence where the source could be read, the fault where it could not.
pub type Extracted = Result<Option<String>, Fault>;

/// A request, taken apart.
#[derive(Debug, PartialEq, Eq)]
pub struct Request {
    pub method: Method,
    /// The path, without the query string.
    pub path: String,
    /// What the query string holds.
    pub query: Extracted,
    /// What the body holds.
    pub body: Extracted,
}

/// A response: status, kind of content, and the text itself.
#[derive(Clone, Debug, PartialEq, Eq)]
pub struct Response {
    pub status: Status,
    pub content_type: ContentType,
    pub body: String,
}

/// The route table.
pub open spec fn route_of(method: Method, path: Seq<char>) -> Option<Route> {
    if path == LANDING_PATH@ && method == Method::Get {
        Some(Route::Landing)
    } else if path == TRANSFORM_PATH@ && method == Method::Get {
        Some(Route::Transform(Source::Query))
    } else if path == TRANSFORM_PATH@ && method == Method::Post {
        Some(Route::Transform(Source::Body))
    } else {
        None
    }
}

/// The number of a status.
pub open spec fn status_code(status: Status) -> u16 {
    match status {
        Status::Success => 200,
        Status::BadRequest => 400,
        Status::UnsupportedMediaType => 415,
        Status::UnprocessableEntity => 422,
    }
}

/// Whether a status reports success.
pub open spec fn is_success(status: Status) -> bool {
    200 <= status_code(status) <= 299
}

/// Whether a status blames the request.
pub open spec fn is_client_error(status: Status) -> bool {
    400 <= status_code(status) <= 499
}

/// The input that a source yields. The string under `input` is taken as it
/// is, the empty one too; where there is none, that is an error, and no
/// other input stands in for it.
pub open spec fn decoded(source: Source, extracted: Extracted) -> Result<Input, DecodeError> {
    match extracted {
        Ok(Some(input)) => Ok(Input { input }),
        Ok(None) => Err(DecodeError { source, fault: Fault::Missing }),
        Err(fault) => Err(DecodeError { source, fault }),
    }
}

/// The status that answers a request from which no input could be taken.
pub open spec fn rejection_status(error: DecodeError) -> Status {
    match error.fault {
        Fault::Malformed => Status::BadRequest,
        Fault::MediaType => Status::UnsupportedMediaType,
        Fault::Missing | Fault::WrongType => match error.source {
            Source::Query => Status::BadRequest,
            Source::Body => Status::UnprocessableEntity,
        },
    }
}

/// The message that answers a request from which no input could be taken.
pub open spec fn rejection_text(error: DecodeError) -> Seq<char> {
    match error.fault {
        Fault::Missing => match error.source {
            Source::Query => "missing query parameter `input`"@,
            Source::Body => "missing field `input`"@,
        },
        Fault::Malformed => match error.source {
            Source::Query => "malformed query string"@,
            Source::Body => "malformed JSON body"@,
        },
        Fault::WrongType => "`input` must be a string"@,
        Fault::MediaType => "expected a JSON body"@,
    }
}

/// Whether `response` is the landing page with content `landing`.
pub open spec fn is_landing(response: Response, landing: Seq<char>) -> bool {
    &&& response.status == Status::Success
    &&& response.content_type == ContentType::Html
    &&& response.body@ == landing
}

/// Whether `response` carries what `transform` returned for `input`, and
/// nothing else.
pub open spec fn is_transformed<F: Fn(String) -> String>(
    response: Response,
    transform: F,
    input: String,
) -> bool {
    &&& response.status == Status::Success
    &&& response.content_type == ContentType::PlainText
    &&& call_ensures(transform, (input,), response.body)
}

/// Whether `response` turns a request down for `error`.
pub open spec fn is_rejection(response: Response, error: DecodeError) -> bool {
    &&& response.status == rejection_status(error)
    &&& response.content_type == ContentType::PlainText
    &&& response.body@ == rejection_text(error)
}

/// Whether `response` answers a request for the transformation from which
/// `decoded` was taken: the transformed input, or the rejection.
pub open spec fn is_transform_answer<F: Fn(String) -> String>(
    response: Response,
    transform: F,
    decoded: Result<Input, DecodeError>,
) -> bool {
    match decoded {
        Ok(input) => is_transformed(response, transform, input.input),
        Err(error) => is_rejection(response, error),
    }
}

/// Whether `answer` is what the service says to `request`: nothing where no
/// route matches, the landing page on its route whatever else the request
/// holds, and on the routes of the transformation the answer to what the
/// route's own source holds.
pub open spec fn is_answer<F: Fn(String) -> String>(
    answer: Option<Response>,
    transform: F,
    landing: Seq<char>,
    request: Request,
) -> bool {
    match route_of(request.method, request.path@) {
        None => answer is None,
        Some(Route::Landing) => answer matches Some(response) && is_landing(response, landing),
        Some(Route::Transform(source)) => answer matches Some(response) && is_transform_answer(
            response,
            transform,
            decoded(source, extracted_from(request, source)),
        ),
    }
}

/// What a request holds in one of its sources.
pub open spec fn extracted_from(request: Request, source: Source) -> Extracted {
    match source {
        Source::Query => request.query,
        Source::Body => request.body,
    }
}

/// Whether `transform` may be called on the input of `request`, if the
/// request is routed to the transformation and holds an input.
pub open spec fn accepts_input_of<F: Fn(String) -> String>(transform: F, request: Request) -> bool {
    match route_of(request.method, request.path@) {
        Some(Route::Transform(source)) => match extracted_from(request, source) {
            Ok(Some(input)) => call_requires(transform, (input,)),
            _ => true,
        },
        _ => true,
    }
}

impl Status {
    /// The number of the status.
    pub fn code(&self) -> (r: u16)
        ensures
            r == status_code(*self),
    {
        match self {
            Status::Success => 200,
            Status::BadRequest => 400,
            Status::UnsupportedMediaType => 415,
            Status::UnprocessableEntity => 422,
        }
    }

    /// Whether the status reports success.
    pub fn is_success(&self) -> (r: bool)
        ensures
            r == is_success(*self),
            r <==> *self == Status::Success,
    {
        match self {
            Status::Success => true,
            _ => false,
        }
    }

    /// Whether the status blames the request.
    pub fn is_client_error(&self) -> (r: bool)
        ensures
            r == is_client_error(*self),
            r <==> *self != Status::Success,
    {
        match self {
            Status::Success => false,
            _ => true,
        }
    }
}

impl DecodeError {
    /// The status that answers the request.
    pub fn status(&self) -> (r: Status)
        ensures
            r == rejection_status(*self),
            is_client_error(r),
    {
        match self.fault {
            Fault::Malformed => Status::BadRequest,
            Fault::MediaType => Status::UnsupportedMediaType,
            Fault::Missing | Fault::WrongType => match self.source {
                Source::Query => Status::BadRequest,
                Source::Body => Status::UnprocessableEntity,
            },
        }
    }

    /// The message that answers the request.
    pub fn message(&self) -> (r: &'static str)
        ensures
            r@ == rejection_text(*self),
    {
        match self.fault {
            Fault::Missing => match self.source {
                Source::Query => "missing query parameter `input`",
                Source::Body => "missing field `input`",
            },
            Fault::Malformed => match self.source {
                Source::Query => "malformed query string",
                Source::Body => "malformed JSON body",
            },
            Fault::WrongType => "`input` must be a string",
            Fault::MediaType => "expected a JSON body",
        }
    }
}

/// Looks a request up in the route table.
pub fn route(method: Method, path: &str) -> (r: Option<Route>)
    ensures
        r == route_of(method, path@),
{
    match method {
        Method::Get => {
            if same_text(path, LANDING_PATH) {
                Some(Route::Landing)
            } else if same_text(path, TRANSFORM_PATH) {
                Some(Route::Transform(Source::Query))
            } else {
                None
            }
        },
        Method::Post => {
            if same_text(path, TRANSFORM_PATH) {
                proof {
                    lemma_paths_differ();
                }
                Some(Route::Transform(Source::Body))
            } else {
                None
            }
        },
        Method::Other => None,
    }
}

/// The two paths are different.
pub proof fn lemma_paths_differ()
    ensures
        LANDING_PATH@ != TRANSFORM_PATH@,
        LANDING_PATH@ == seq!['/'],
        TRANSFORM_PATH@ == seq!['/', 's', 'c', 'h', 'm', 'f', 'y'],
{
    reveal_strlit("/");
    reveal_strlit("/schmfy");
    assert(LANDING_PATH@ =~= seq!['/']);
    assert(TRANSFORM_PATH@ =~= seq!['/', 's', 'c', 'h', 'm', 'f', 'y']);
    assert(LANDING_PATH@.len() != TRANSFORM_PATH@.len());
}

/// Takes the input from what a source holds.
pub fn decode(source: Source, extracted: Extracted) -> (r: Result<Input, DecodeError>)
    ensures
        r == decoded(source, extracted),
{
    match extracted {
        Ok(Some(input)) => Ok(Input { input }),
        Ok(None) => Err(DecodeError { source, fault: Fault::Missing }),
        Err(fault) => Err(DecodeError { source, fault }),
    }
}

/// The landing page.
pub fn home(landing: &str) -> (r: Response)
    ensures
        is_landing(r, landing@),
{
    Response { status: Status::Success, content_type: ContentType::Html, body: landing.to_owned() }
}

/// The response that turns a request down.
pub fn reject(error: DecodeError) -> (r: Response)
    ensures
        is_rejection(r, error),
        is_client_error(r.status),
        !is_success(r.status),
{
    Response {
        status: error.status(),
        content_type: ContentType::PlainText,
        body: String::from_str(error.message()),
    }
}

/// Hands the input to the transformation, once, and returns what comes
/// back.
pub fn invoke<F: Fn(String) -> String>(input: Input, transform: &F) -> (r: String)
    requires
        call_requires(*transform, (input.input,)),
    ensures
        call_ensures(*transform, (input.input,), r),
{
    transform(input.input)
}

/// The response to a request for the transformation: the transformed input
/// where one was taken from the request, else the rejection.
pub fn respond<F: Fn(String) -> String>(decoded: Result<Input, DecodeError>, transform: &F) -> (r:
    Response)
    requires
        decoded matches Ok(input) ==> call_requires(*transform, (input.input,)),
    ensures
        is_transform_answer(r, *transform, decoded),
        is_success(r.status) <==> decoded is Ok,
        is_client_error(r.status) <==> decoded is Err,
{
    match decoded {
        Ok(input) => Response {
            status: Status::Success,
            content_type: ContentType::PlainText,
            body: invoke(input, transform),
        },
        Err(error) => reject(error),
    }
}

/// Answers `GET /schmfy`: transforms the parameter `input` of the query
/// string.
pub fn schmfy<F: Fn(String) -> String>(query: Extracted, transform: &F) -> (r: Response)
    requires
        query matches Ok(Some(input)) ==> call_requires(*transform, (input,)),
    ensures
        is_transform_answer(r, *transform, decoded(Source::Query, query)),
        is_success(r.status) <==> query matches Ok(Some(_)),
        is_client_error(r.status) <==> !(query matches Ok(Some(_))),
{
    respond(decode(Source::Query, query), transform)
}

/// Answers `POST /schmfy`: transforms the field `input` of the JSON body.
pub fn schmfy_post<F: Fn(String) -> String>(body: Extracted, transform: &F) -> (r: Response)
    requires
        body matches Ok(Some(input)) ==> call_requires(*transform, (input,)),
    ensures
        is_transform_answer(r, *transform, decoded(Source::Body, body)),
        is_success(r.status) <==> body matches Ok(Some(_)),
        is_client_error(r.status) <==> !(body matches Ok(Some(_))),
{
    respond(decode(Source::Body, body), transform)
}

/// Answers a request: routes it, takes the input from the source that the
/// route names, and responds. `None` where the request matches no route.
pub fn handle<F: Fn(String) -> String>(request: Request, landing: &str, transform: &F) -> (r:
    Option<Response>)
    requires
        accepts_input_of(*transform, request),
    ensures
        is_answer(r, *transform, landing@, request),
{
    match route(request.method, request.path.as_str()) {
        None => None,
        Some(Route::Landing) => Some(home(landing)),
        Some(Route::Transform(Source::Query)) => Some(schmfy(request.query, transform)),
        Some(Route::Transform(Source::Body)) => Some(schmfy_post(request.body, transform)),
    }
}

/// `GET /` is answered with the landing page, whatever the query string and
/// the body hold.
pub proof fn lemma_landing_always<F: Fn(String) -> String>(
    answer: Option<Response>,
    transform: F,
    landing: Seq<char>,
    request: Request,
)
    requires
        is_answer(answer, transform, landing, request),
        request.method == Method::Get,
        request.path@ == LANDING_PATH@,
    ensures
        answer is Some,
        answer->0.status == Status::Success,
        is_success(answer->0.status),
        answer->0.content_type == ContentType::Html,
        answer->0.body@ == landing,
{
}

/// `GET /schmfy` with a parameter `input` is answered with what the
/// transformation returned for that parameter, as plain text and with
/// success, whatever the body holds.
pub proof fn lemma_query_transformed<F: Fn(String) -> String>(
    answer: Option<Response>,
    transform: F,
    landing: Seq<char>,
    request: Request,
    input: String,
)
    requires
        is_answer(answer, transform, landing, request),
        request.method == Method::Get,
        request.path@ == TRANSFORM_PATH@,
        request.query == Ok::<Option<String>, Fault>(Some(input)),
    ensures
        answer is Some,
        answer->0.status == Status::Success,
        is_success(answer->0.status),
        answer->0.content_type == ContentType::PlainText,
        call_ensures(transform, (input,), answer->0.body),
{
    lemma_paths_differ();
}

/// `GET /schmfy` without a parameter `input` is turned down: the status
/// blames the request and is never success, and the transformation is not
/// asked about an empty or any other input in its place.
pub proof fn lemma_query_missing<F: Fn(String) -> String>(
    answer: Option<Response>,
    transform: F,
    landing: Seq<char>,
    request: Request,
)
    requires
        is_answer(answer, transform, landing, request),
        request.method == Method::Get,
        request.path@ == TRANSFORM_PATH@,
        !(request.query matches Ok(Some(_))),
    ensures
        answer is Some,
        is_client_error(answer->0.status),
        !is_success(answer->0.status),
        request.query == Ok::<Option<String>, Fault>(None) ==> is_rejection(
            answer->0,
            DecodeError { source: Source::Query, fault: Fault::Missing },
        ),
{
    lemma_paths_differ();
}

/// `POST /schmfy` is answered with what the transformation returned for the
/// field `input` of the body where the body holds one, and is turned down
/// with a status that blames the request where it holds none, holds
/// something else than a string there, or is not well formed.
pub proof fn lemma_body_transformed<F: Fn(String) -> String>(
    answer: Option<Response>,
    transform: F,
    landing: Seq<char>,
    request: Request,
)
    requires
        is_answer(answer, transform, landing, request),
        request.method == Method::Post,
        request.path@ == TRANSFORM_PATH@,
    ensures
        answer is Some,
        request.body matches Ok(Some(input)) ==> {
            &&& answer->0.status == Status::Success
            &&& answer->0.content_type == ContentType::PlainText
            &&& call_ensures(transform, (input,), answer->0.body)
        },
        !(request.body matches Ok(Some(_))) ==> is_client_error(answer->0.status) && !is_success(
            answer->0.status,
        ),
        request.body == Ok::<Option<String>, Fault>(None) ==> answer->0.status
            == Status::UnprocessableEntity,
        request.body == Err::<Option<String>, Fault>(Fault::WrongType) ==> answer->0.status
            == Status::UnprocessableEntity,
        request.body == Err::<Option<String>, Fault>(Fault::Malformed) ==> answer->0.status
            == Status::BadRequest,
{
    lemma_paths_differ();
}

/// No status reports success and blames the request at once, and a
/// rejection never reports success.
pub proof fn lemma_rejection_is_client_error(error: DecodeError)
    ensures
        is_client_error(rejection_status(error)),
        !is_success(rejection_status(error)),
{
}

} // verus!
