use gears_cli::executor::{Executor, Request, Response};
use gears_cli::store::StoreMedium;

fn payload(id: &str, name: &str) -> String {
    format!("id {}\nname {}\nlocale en_US\n", id, name)
}

fn fresh_executor(n: usize) -> Executor {
    Executor::new("./project", n, StoreMedium::Vacant)
}

#[test]
fn executor_new_then_get_serves_the_default_document() {
    let mut e = fresh_executor(3);
    match e.submit(Request::New) {
        Response::Doc(d) => assert_eq!(d.id, "default"),
        _ => panic!("New on a vacant medium must return the default document"),
    }
    match e.submit(Request::Get(String::from("any"))) {
        Response::Doc(d) => assert_eq!(d.id, "default"),
        _ => panic!("Get after New must return the document"),
    }
}

#[test]
fn executor_counts_operations_that_reach_the_backend() {
    let mut e = fresh_executor(3);
    assert_eq!(e.submitted, 0);
    let _ = e.submit(Request::New);
    let _ = e.submit(Request::List);
    let _ = e.submit(Request::Get(String::from("x")));
    assert_eq!(e.submitted, 3);
}

#[test]
fn executor_assigns_workers_round_robin() {
    let mut e = fresh_executor(3);
    assert_eq!(e.next_worker, 0);
    let _ = e.submit(Request::New);
    assert_eq!(e.next_worker, 1);
    let _ = e.submit(Request::List);
    assert_eq!(e.next_worker, 2);
    let _ = e.submit(Request::List);
    assert_eq!(e.next_worker, 0);
    assert_eq!(e.workers.len(), 3);
}

#[test]
fn executor_failure_does_not_poison_the_pool() {
    let mut e = fresh_executor(2);
    // A failing request reports a typed error...
    match e.submit(Request::Get(String::from("x"))) {
        Response::Failed(_) => {},
        _ => panic!("Get on a vacant medium must fail"),
    }
    // ...and the pool keeps serving subsequent requests.
    match e.submit(Request::New) {
        Response::Doc(_) => {},
        _ => panic!("the pool must keep serving after one failure"),
    }
    match e.submit(Request::List) {
        Response::Docs(ds) => assert_eq!(ds.len(), 1),
        _ => panic!("List after recovery must succeed"),
    }
}

#[test]
fn executor_two_updates_leave_exactly_the_last_payload() {
    // However two whole-document mutations are ordered, the persisted
    // medium holds exactly one payload's serialization, never a mixture of
    // the two.
    let p1 = payload("first", "alpha");
    let p2 = payload("second", "beta");
    let mut e = fresh_executor(3);
    let _ = e.submit(Request::Update(p1.clone()));
    let _ = e.submit(Request::Update(p2.clone()));
    match &e.medium {
        StoreMedium::Root(text) => assert_eq!(*text, p2),
        _ => panic!("the medium must hold a root"),
    }
    // The other order leaves the other whole payload.
    let mut e2 = fresh_executor(3);
    let _ = e2.submit(Request::Update(p2.clone()));
    let _ = e2.submit(Request::Update(p1.clone()));
    match &e2.medium {
        StoreMedium::Root(text) => assert_eq!(*text, p1),
        _ => panic!("the medium must hold a root"),
    }
}

#[test]
fn executor_failed_mutation_moves_nothing() {
    let mut e = fresh_executor(1);
    let _ = e.submit(Request::Create(payload("m1", "one")));
    let before = match &e.medium {
        StoreMedium::Root(p) => p.clone(),
        _ => panic!("medium must hold a root"),
    };
    match e.submit(Request::Update(String::from("garbage"))) {
        Response::Failed(_) => {},
        _ => panic!("a malformed update must fail"),
    }
    match &e.medium {
        StoreMedium::Root(p) => assert_eq!(*p, before),
        _ => panic!("a failed mutation must move nothing"),
    }
}

#[test]
fn executor_delete_is_unsupported() {
    let mut e = fresh_executor(1);
    let _ = e.submit(Request::New);
    match e.submit(Request::Delete(String::from("default"))) {
        Response::Failed(err) => {
            assert!(matches!(err, gears_cli::errors::LoadError::Unsupported));
        },
        _ => panic!("Delete must fail distinctly"),
    }
}

#[test]
fn executor_relational_locator_fails_distinctly() {
    let mut e = Executor::new("sqlite:db", 2, StoreMedium::Vacant);
    match e.submit(Request::New) {
        Response::Failed(err) => {
            assert!(matches!(err, gears_cli::errors::LoadError::Unsupported));
        },
        _ => panic!("the relational variant is unimplemented"),
    }
}
