use gears_cli::config::ServerConfig;
use gears_cli::executor::{Executor, Request};
use gears_cli::facade::{
    handle_request, serve_check, HttpMethod, OPAResult, PolicyDecision,
};
use gears_cli::store::StoreMedium;

fn payload(id: &str, name: &str) -> String {
    format!("id {}\nname {}\nlocale en_US\n", id, name)
}

fn ready_executor() -> Executor {
    let mut e = Executor::new("./project", 3, StoreMedium::Vacant);
    let _ = e.submit(Request::New);
    e
}

fn open_config() -> ServerConfig {
    ServerConfig { enable_opa: false, opa_url: None }
}

fn guarded_config() -> ServerConfig {
    ServerConfig { enable_opa: true, opa_url: Some(String::from("http://opa/v1/data/allow")) }
}

fn deny() -> Option<PolicyDecision> {
    Some(PolicyDecision { result: OPAResult { allow: false } })
}

fn allow() -> Option<PolicyDecision> {
    Some(PolicyDecision { result: OPAResult { allow: true } })
}

#[test]
fn facade_get_model_returns_the_document() {
    let mut e = ready_executor();
    let r = handle_request(&open_config(), None, HttpMethod::Get, "/model/any", None, &mut e);
    assert_eq!(r.status, 200);
    assert!(r.body.contains("id default"));
}

#[test]
fn facade_list_models_returns_the_document() {
    let mut e = ready_executor();
    let r = handle_request(&open_config(), None, HttpMethod::Get, "/model", None, &mut e);
    assert_eq!(r.status, 200);
    assert!(r.body.contains("id default"));
}

#[test]
fn facade_put_persists_the_replacement() {
    let mut e = ready_executor();
    let body = payload("m2", "two");
    let r = handle_request(
        &open_config(),
        None,
        HttpMethod::Put,
        "/model/m2",
        Some(&body),
        &mut e,
    );
    assert_eq!(r.status, 200);
    match &e.medium {
        StoreMedium::Root(text) => assert_eq!(*text, body),
        _ => panic!("the medium must hold the replacement"),
    }
}

#[test]
fn facade_put_with_undecodable_body_is_client_error_without_update() {
    // A body that never decoded stays the client's error, and the store's
    // update is never invoked.
    let mut e = ready_executor();
    let submitted_before = e.submitted;
    let r = handle_request(&open_config(), None, HttpMethod::Put, "/model/m1", None, &mut e);
    assert_eq!(r.status, 400);
    assert_eq!(e.submitted, submitted_before);
}

#[test]
fn facade_put_with_non_document_body_is_client_error_without_update() {
    let mut e = ready_executor();
    let before = match &e.medium {
        StoreMedium::Root(p) => p.clone(),
        _ => panic!("root expected"),
    };
    let submitted_before = e.submitted;
    let body = String::from("certainly not a document");
    let r = handle_request(
        &open_config(),
        None,
        HttpMethod::Put,
        "/model/m1",
        Some(&body),
        &mut e,
    );
    assert_eq!(r.status, 400);
    assert_eq!(e.submitted, submitted_before);
    match &e.medium {
        StoreMedium::Root(p) => assert_eq!(*p, before),
        _ => panic!("the medium must be untouched"),
    }
}

#[test]
fn facade_post_creates_a_document() {
    let mut e = Executor::new("./project", 3, StoreMedium::Vacant);
    let body = payload("m3", "three");
    let r = handle_request(&open_config(), None, HttpMethod::Post, "/model", Some(&body), &mut e);
    assert_eq!(r.status, 200);
    match &e.medium {
        StoreMedium::Root(text) => assert_eq!(*text, body),
        _ => panic!("the medium must hold the creation"),
    }
}

#[test]
fn facade_unmatched_get_is_not_found() {
    let mut e = ready_executor();
    let r = handle_request(&open_config(), None, HttpMethod::Get, "/nothing/here", None, &mut e);
    assert_eq!(r.status, 404);
}

#[test]
fn facade_unmatched_non_get_is_method_not_allowed() {
    let mut e = ready_executor();
    let r = handle_request(&open_config(), None, HttpMethod::Post, "/nothing", None, &mut e);
    assert_eq!(r.status, 405);
    let r = handle_request(&open_config(), None, HttpMethod::Delete, "/model/m1", None, &mut e);
    assert_eq!(r.status, 405);
}

#[test]
fn facade_index_redirects() {
    let mut e = ready_executor();
    let r = handle_request(&open_config(), None, HttpMethod::Get, "/", None, &mut e);
    assert_eq!(r.status, 302);
    assert_eq!(r.location.as_deref(), Some("api/model/1"));
}

#[test]
fn facade_read_failure_maps_to_server_error() {
    let mut e = Executor::new("./project", 3, StoreMedium::Vacant);
    let r = handle_request(&open_config(), None, HttpMethod::Get, "/model", None, &mut e);
    assert_eq!(r.status, 500);
    let mut corrupt = Executor::new("./project", 3, StoreMedium::Root(String::from("junk")));
    let r = handle_request(&open_config(), None, HttpMethod::Get, "/model", None, &mut corrupt);
    assert_eq!(r.status, 400);
}

#[test]
fn policy_deny_never_reaches_the_executor() {
    // With the guard enabled and the decision service denying, no request
    // reaches the executor: the backend call counter stays at zero.
    let mut e = ready_executor();
    let submitted_before = e.submitted;
    let body = payload("m2", "two");
    for (method, path, b) in [
        (HttpMethod::Get, "/model", None),
        (HttpMethod::Get, "/model/m1", None),
        (HttpMethod::Post, "/model", Some(&body)),
        (HttpMethod::Put, "/model/m1", Some(&body)),
    ] {
        let r = handle_request(&guarded_config(), deny(), method, path, b, &mut e);
        assert_eq!(r.status, 403);
    }
    assert_eq!(e.submitted, submitted_before);
}

#[test]
fn policy_missing_verdict_fails_closed() {
    let mut e = ready_executor();
    let submitted_before = e.submitted;
    let r = handle_request(&guarded_config(), None, HttpMethod::Get, "/model", None, &mut e);
    assert_eq!(r.status, 403);
    assert_eq!(e.submitted, submitted_before);
}

#[test]
fn policy_allow_passes_through() {
    let mut e = ready_executor();
    let r = handle_request(&guarded_config(), allow(), HttpMethod::Get, "/model", None, &mut e);
    assert_eq!(r.status, 200);
}

#[test]
fn policy_decision_reports_its_verdict() {
    assert!(PolicyDecision { result: OPAResult { allow: true } }.allowed());
    assert!(!PolicyDecision { result: OPAResult { allow: false } }.allowed());
}

#[test]
fn serve_refuses_guard_without_address() {
    assert!(serve_check(&ServerConfig { enable_opa: true, opa_url: None }).is_err());
    assert!(serve_check(&guarded_config()).is_ok());
    assert!(serve_check(&open_config()).is_ok());
}
