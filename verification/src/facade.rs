//! The HTTP facade: translates one inbound request into one executor
//! submission and renders the typed result or error back to wire format.
//!
//! The facade holds no document state of its own — the store behind the
//! executor is the single source of truth. When the policy guard is enabled,
//! every request is first checked against the external decision service's
//! verdict; a deny short-circuits to a forbidden response before the
//! executor is touched.

use vstd::prelude::*;

use crate::codec::{parse_doc, parse_document, ser_doc, serialize_document};
use crate::config::ServerConfig;
use crate::errors::LoadError;
use crate::executor::{Executor, Request, Response};
use crate::store::{load_doc, load_ok, written, MediumV};
use crate::text::{copy_range, range_eq_str};

verus! {

// ---------------------------------------------------------------------------
// The policy guard
// ---------------------------------------------------------------------------
/// The decision service's verdict wrapper, as its reply deserializes.
#[derive(Clone, Debug)]
pub struct OPAResult {
    pub allow: bool,
}

/// The decision service's whole reply.
#[derive(Clone, Debug)]
pub struct PolicyDecision {
    pub result: OPAResult,
}

impl PolicyDecision {
    /// Whether the decision service allowed the request.
    pub fn allowed(&self) -> (r: bool)
        ensures
            r == self.result.allow,
    {
        self.result.allow
    }
}

/// Whether a fetched verdict allows the request: an absent or unreadable
/// verdict denies, so the guard fails closed.
pub open spec fn spec_allows(d: Option<PolicyDecision>) -> bool {
    match d {
        Some(p) => p.result.allow,
        None => false,
    }
}

/// Reads the decision service's reply: the verdict allows exactly when the
/// reply asserts `"allow":true` (with or without a space), and anything
/// else — a denial, an unreadable reply — denies.
pub fn parse_decision(body: &str) -> (r: PolicyDecision)
    ensures
        r.result.allow == (crate::text::contains_seq(body@, "\"allow\":true"@)
            || crate::text::contains_seq(body@, "\"allow\": true"@)),
{
    let allow = crate::text::contains_str(body, "\"allow\":true") || crate::text::contains_str(
        body,
        "\"allow\": true",
    );
    PolicyDecision { result: OPAResult { allow } }
}

// ---------------------------------------------------------------------------
// Requests and routing
// ---------------------------------------------------------------------------
/// The request methods the facade distinguishes.
#[derive(Clone, Copy, Debug, PartialEq, Eq, Structural)]
pub enum HttpMethod {
    Get,
    Post,
    Put,
    Delete,
    Other,
}

/// Where one method and path lead.
pub enum RouteTarget {
    /// The service index: a redirect.
    Index,
    /// List the documents.
    ListModels,
    /// Create a document from the request body.
    CreateModel,
    /// Read one document by id.
    GetModel(Seq<char>),
    /// Replace one document by id with the request body.
    UpdateModel(Seq<char>),
    /// An unmatched read: not found.
    NotFound,
    /// An unmatched write: method not allowed.
    MethodNotAllowed,
}

/// Whether `s` starts with `p`.
pub open spec fn starts_with(s: Seq<char>, p: Seq<char>) -> bool {
    s.len() >= p.len() && s.subrange(0, p.len() as int) == p
}

/// The routing table: `GET /model` lists, `POST /model` creates,
/// `GET /model/{id}` reads, `PUT /model/{id}` replaces; the root redirects;
/// every other read is not found and every other write is not allowed.
pub open spec fn route_spec(m: HttpMethod, path: Seq<char>) -> RouteTarget {
    if path == ""@ || path == "/"@ {
        RouteTarget::Index
    } else if path == "/model"@ {
        match m {
            HttpMethod::Get => RouteTarget::ListModels,
            HttpMethod::Post => RouteTarget::CreateModel,
            _ => RouteTarget::MethodNotAllowed,
        }
    } else if starts_with(path, "/model/"@) && path.len() > "/model/"@.len() {
        let id = path.subrange("/model/"@.len() as int, path.len() as int);
        match m {
            HttpMethod::Get => RouteTarget::GetModel(id),
            HttpMethod::Put => RouteTarget::UpdateModel(id),
            _ => RouteTarget::MethodNotAllowed,
        }
    } else {
        match m {
            HttpMethod::Get => RouteTarget::NotFound,
            _ => RouteTarget::MethodNotAllowed,
        }
    }
}

// ---------------------------------------------------------------------------
// Responses
// ---------------------------------------------------------------------------
/// A typed response ready to render to the wire.
#[derive(Clone, Debug)]
pub struct HttpResponse {
    /// The transport status code.
    pub status: u16,
    /// Whether the body is the JSON-like document text.
    pub is_document: bool,
    /// A redirect target, when the status calls for one.
    pub location: Option<String>,
    /// The response body.
    pub body: String,
}

/// The status a typed load error maps to: parse failures are the client's,
/// medium failures are the server's and stay generic, a missing document is
/// not found, an unimplemented operation says so, and a denial is forbidden.
pub open spec fn spec_status_of(e: LoadError) -> u16 {
    match e {
        LoadError::IOError => 500,
        LoadError::BadFormat(_) => 400,
        LoadError::BadStructure(_) => 500,
        LoadError::NotFound => 404,
        LoadError::Unsupported => 501,
        LoadError::Unauthorized => 403,
    }
}

/// The status a failed read reports, determined by the medium's shape.
pub open spec fn read_fail_status(m: MediumV) -> u16 {
    match m {
        MediumV::Vacant => 500,
        MediumV::Foreign => 500,
        MediumV::Root(_) => 400,
    }
}

/// Maps a typed error to its transport response: the status from the
/// taxonomy, and a body that exposes detail only for client errors.
pub fn error_response(e: &LoadError) -> (r: HttpResponse)
    ensures
        r.status == spec_status_of(*e),
        r.location is None,
{
    match e {
        LoadError::BadFormat(msg) => HttpResponse {
            status: 400,
            is_document: false,
            location: None,
            body: msg.clone(),
        },
        LoadError::NotFound => HttpResponse {
            status: 404,
            is_document: false,
            location: None,
            body: String::new(),
        },
        LoadError::Unsupported => HttpResponse {
            status: 501,
            is_document: false,
            location: None,
            body: String::from_str("not implemented"),
        },
        LoadError::Unauthorized => HttpResponse {
            status: 403,
            is_document: false,
            location: None,
            body: String::from_str("forbidden"),
        },
        LoadError::IOError => HttpResponse {
            status: 500,
            is_document: false,
            location: None,
            body: String::from_str("internal error"),
        },
        LoadError::BadStructure(_) => HttpResponse {
            status: 500,
            is_document: false,
            location: None,
            body: String::from_str("internal error"),
        },
    }
}

/// A successful document response.
pub fn http_ok_doc(d: &crate::document::Document) -> (r: HttpResponse)
    ensures
        r.status == 200,
        r.body@ == ser_doc(d@),
        r.location is None,
{
    HttpResponse {
        status: 200,
        is_document: true,
        location: None,
        body: serialize_document(d),
    }
}

/// A client-error response carrying a diagnostic.
pub fn http_bad_request(msg: &str) -> (r: HttpResponse)
    ensures
        r.status == 400,
        r.body@ == msg@,
        r.location is None,
{
    HttpResponse {
        status: 400,
        is_document: false,
        location: None,
        body: msg.to_owned(),
    }
}

/// The unmatched-read response.
pub fn http_not_found() -> (r: HttpResponse)
    ensures
        r.status == 404,
        r.location is None,
{
    HttpResponse { status: 404, is_document: false, location: None, body: String::new() }
}

/// The index redirect.
pub fn jsonapi_index() -> (r: HttpResponse)
    ensures
        r.status == 302,
        r.location matches Some(l) && l@ == "api/model/1"@,
{
    HttpResponse {
        status: 302,
        is_document: false,
        location: Some(String::from_str("api/model/1")),
        body: String::new(),
    }
}

// ---------------------------------------------------------------------------
// Handlers: one executor submission each
// ---------------------------------------------------------------------------
/// What a read handler leaves behind: the medium untouched, one more
/// submission counted, and a response that is the one document on success
/// or the taxonomy's status on failure.
pub open spec fn read_handler_post(e0: Executor, e1: Executor, r: HttpResponse) -> bool {
    &&& e1.wf()
    &&& e1.medium@ == e0.medium@
    &&& e1.locator == e0.locator
    &&& e1.workers == e0.workers
    &&& e1.submitted == e0.submitted + 1
    &&& if !e0.is_filesystem() {
        r.status == 501
    } else if load_ok(e0.medium@) {
        r.status == 200 && r.body@ == ser_doc(load_doc(e0.medium@))
    } else {
        r.status == read_fail_status(e0.medium@)
    }
}

/// What a write handler leaves behind for a payload that parses: the root
/// wholly replaced and echoed back on success, nothing moved on failure.
pub open spec fn write_handler_post(e0: Executor, e1: Executor, p: Seq<char>, r: HttpResponse)
    -> bool {
    &&& e1.wf()
    &&& e1.locator == e0.locator
    &&& e1.workers == e0.workers
    &&& e1.submitted == e0.submitted + 1
    &&& if !e0.is_filesystem() {
        r.status == 501 && e1.medium@ == e0.medium@
    } else if parse_doc(p) is Some && !(e0.medium@ is Foreign) {
        r.status == 200 && e1.medium@ == written(parse_doc(p).unwrap()) && r.body@ == ser_doc(
            parse_doc(p).unwrap(),
        )
    } else {
        e1.medium@ == e0.medium@ && r.status == (if parse_doc(p) is None {
            400u16
        } else {
            500u16
        })
    }
}

/// `GET /model`: one `List` submission, rendered.
pub fn get_models(exec: &mut Executor) -> (r: HttpResponse)
    requires
        old(exec).wf(),
        old(exec).submitted < u64::MAX,
    ensures
        read_handler_post(*old(exec), *final(exec), r),
{
    let resp = exec.submit(Request::List);
    match resp {
        Response::Docs(ds) => {
            if ds.len() >= 1 {
                http_ok_doc(&ds[0])
            } else {
                // The filesystem variant always lists exactly one document.
                http_not_found()
            }
        },
        Response::Failed(e) => error_response(&e),
        Response::Doc(d) => http_ok_doc(&d),
        Response::Done => http_not_found(),
    }
}

/// `GET /model/{id}`: one `Get` submission, rendered.
pub fn get_model(exec: &mut Executor, id: &str) -> (r: HttpResponse)
    requires
        old(exec).wf(),
        old(exec).submitted < u64::MAX,
    ensures
        read_handler_post(*old(exec), *final(exec), r),
{
    let resp = exec.submit(Request::Get(id.to_owned()));
    match resp {
        Response::Doc(d) => http_ok_doc(&d),
        Response::Failed(e) => error_response(&e),
        Response::Docs(_) => http_not_found(),
        Response::Done => http_not_found(),
    }
}

/// `POST /model`: the body is parsed first; a body that is not a document
/// is the client's error and the executor is never touched. One `Create`
/// submission otherwise.
pub fn create_model(exec: &mut Executor, body: &str) -> (r: HttpResponse)
    requires
        old(exec).wf(),
        old(exec).submitted < u64::MAX,
    ensures
        parse_doc(body@) is None ==> r.status == 400 && *final(exec) == *old(exec),
        parse_doc(body@) is Some ==> write_handler_post(*old(exec), *final(exec), body@, r),
{
    match parse_document(body) {
        Err(e) => error_response(&e),
        Ok(_) => {
            let resp = exec.submit(Request::Create(body.to_owned()));
            match resp {
                Response::Doc(d) => http_ok_doc(&d),
                Response::Failed(e) => error_response(&e),
                Response::Docs(_) => http_not_found(),
                Response::Done => http_not_found(),
            }
        },
    }
}

/// `PUT /model/{id}`: a missing or undecodable body, or one that is not a
/// document, is the client's error, reported without ever invoking the
/// store's `update`. One `Update` submission otherwise.
pub fn update_model(exec: &mut Executor, body: Option<&String>) -> (r: HttpResponse)
    requires
        old(exec).wf(),
        old(exec).submitted < u64::MAX,
    ensures
        body is None ==> r.status == 400 && *final(exec) == *old(exec),
        body matches Some(b) ==> (if parse_doc(b@) is Some {
            write_handler_post(*old(exec), *final(exec), b@, r)
        } else {
            r.status == 400 && *final(exec) == *old(exec)
        }),
{
    match body {
        None => http_bad_request("Invalid JSON"),
        Some(b) => {
            match parse_document(b.as_str()) {
                Err(e) => error_response(&e),
                Ok(_) => {
                    let resp = exec.submit(Request::Update(b.clone()));
                    match resp {
                        Response::Doc(d) => http_ok_doc(&d),
                        Response::Failed(e) => error_response(&e),
                        Response::Docs(_) => http_not_found(),
                        Response::Done => http_not_found(),
                    }
                },
            }
        },
    }
}

// ---------------------------------------------------------------------------
// The one entry point
// ---------------------------------------------------------------------------
/// The route decision as executable data: the id, when one is addressed,
/// is re-read from the path.
#[derive(Clone, Copy, Debug, PartialEq, Eq, Structural)]
pub enum RouteKind {
    Index,
    ListModels,
    CreateModel,
    GetModel,
    UpdateModel,
    NotFound,
    MethodNotAllowed,
}

/// Decides the route of one request.
pub fn route(method: HttpMethod, path: &str) -> (r: RouteKind)
    ensures
        ({
            let t = route_spec(method, path@);
            match r {
                RouteKind::Index => t is Index,
                RouteKind::ListModels => t is ListModels,
                RouteKind::CreateModel => t is CreateModel,
                RouteKind::GetModel => t is GetModel,
                RouteKind::UpdateModel => t is UpdateModel,
                RouteKind::NotFound => t is NotFound,
                RouteKind::MethodNotAllowed => t is MethodNotAllowed,
            }
        }),
{
    let n = path.unicode_len();
    if n == 0 {
        proof {
            reveal_strlit("");
            assert(path@ =~= ""@);
        }
        return RouteKind::Index;
    }
    if crate::text::str_eq(path, "/") {
        return RouteKind::Index;
    }
    proof {
        reveal_strlit("");
        assert(path@ != ""@);
    }
    if crate::text::str_eq(path, "/model") {
        return match method {
            HttpMethod::Get => RouteKind::ListModels,
            HttpMethod::Post => RouteKind::CreateModel,
            _ => RouteKind::MethodNotAllowed,
        };
    }
    let prefix = "/model/";
    let plen = prefix.unicode_len();
    if n > plen && range_eq_str(path, 0, plen, prefix) {
        proof {
            assert(starts_with(path@, "/model/"@));
        }
        return match method {
            HttpMethod::Get => RouteKind::GetModel,
            HttpMethod::Put => RouteKind::UpdateModel,
            _ => RouteKind::MethodNotAllowed,
        };
    }
    proof {
        if starts_with(path@, "/model/"@) && path@.len() > "/model/"@.len() {
            assert(path@.subrange(0, plen as int) == "/model/"@);
        }
    }
    match method {
        HttpMethod::Get => RouteKind::NotFound,
        _ => RouteKind::MethodNotAllowed,
    }
}

/// Serves one whole request: the policy guard first — with the guard enabled,
/// a denied or missing verdict is forbidden before the executor is touched —
/// then the route's one submission, then the rendered response.
pub fn handle_request(
    config: &ServerConfig,
    decision: Option<PolicyDecision>,
    method: HttpMethod,
    path: &str,
    body: Option<&String>,
    exec: &mut Executor,
) -> (r: HttpResponse)
    requires
        old(exec).wf(),
        old(exec).submitted < u64::MAX,
        config.wf(),
    ensures
        final(exec).wf(),
        config.enable_opa && !spec_allows(decision) ==> r.status == 403 && *final(exec)
            == *old(exec),
        (!config.enable_opa || spec_allows(decision)) ==> match route_spec(method, path@) {
            RouteTarget::Index => r.status == 302 && *final(exec) == *old(exec),
            RouteTarget::NotFound => r.status == 404 && *final(exec) == *old(exec),
            RouteTarget::MethodNotAllowed => r.status == 405 && *final(exec) == *old(exec),
            RouteTarget::ListModels => read_handler_post(*old(exec), *final(exec), r),
            RouteTarget::GetModel(_) => read_handler_post(*old(exec), *final(exec), r),
            RouteTarget::CreateModel => match body {
                Some(b) => if parse_doc(b@) is Some {
                    write_handler_post(*old(exec), *final(exec), b@, r)
                } else {
                    r.status == 400 && *final(exec) == *old(exec)
                },
                None => r.status == 400 && *final(exec) == *old(exec),
            },
            RouteTarget::UpdateModel(_) => match body {
                Some(b) => if parse_doc(b@) is Some {
                    write_handler_post(*old(exec), *final(exec), b@, r)
                } else {
                    r.status == 400 && *final(exec) == *old(exec)
                },
                None => r.status == 400 && *final(exec) == *old(exec),
            },
        },
{
    if config.enable_opa {
        let allowed = match &decision {
            Some(d) => d.allowed(),
            None => false,
        };
        if !allowed {
            return error_response(&LoadError::Unauthorized);
        }
    }
    match route(method, path) {
        RouteKind::Index => jsonapi_index(),
        RouteKind::NotFound => http_not_found(),
        RouteKind::MethodNotAllowed => HttpResponse {
            status: 405,
            is_document: false,
            location: None,
            body: String::new(),
        },
        RouteKind::ListModels => get_models(exec),
        RouteKind::GetModel => {
            // The filesystem variant ignores the advisory id; hand it on as
            // the path spelled it.
            let prefix = "/model/";
            let plen = prefix.unicode_len();
            let n = path.unicode_len();
            let id = if n > plen {
                copy_range(path, plen, n)
            } else {
                String::new()
            };
            get_model(exec, id.as_str())
        },
        RouteKind::UpdateModel => update_model(exec, body),
        RouteKind::CreateModel => {
            match body {
                Some(b) => create_model(exec, b.as_str()),
                None => http_bad_request("Invalid JSON"),
            }
        },
    }
}

/// The startup check for `serve`: enabling the policy guard without a
/// decision-service address is a configuration error, and the server must
/// not start.
pub fn serve_check(config: &ServerConfig) -> (r: Result<(), String>)
    ensures
        r is Ok <==> config.wf(),
{
    if config.check() {
        Ok(())
    } else {
        Err(
            String::from_str(
                "serve: enable_opa is set but no URL for OPA is configured, aborting",
            ),
        )
    }
}

} // verus!
