use gears_cli::codec::serialize_document;
use gears_cli::document::Document;
use gears_cli::errors::LoadError;
use gears_cli::store::{
    check_locator_relational, Backend, FileSystemModelStore, SQLliteModelStore, StoreHandle,
    StoreMedium,
};

fn s(x: &str) -> String {
    String::from(x)
}

fn fs_store() -> FileSystemModelStore {
    FileSystemModelStore { root: s("/tmp/project") }
}

fn payload(id: &str, name: &str) -> String {
    format!("id {}\nname {}\nlocale en_US\n", id, name)
}

#[test]
fn initialize_then_get_yields_stable_id() {
    // For a valid locator, initialize followed by get returns a document
    // whose id is stable across repeated gets.
    let store = fs_store();
    let mut medium = StoreMedium::Vacant;
    let d = store.initialize(&mut medium).expect("initialize on a vacant locator succeeds");
    let g1 = store.get(&medium, "anything").expect("get after initialize succeeds");
    let g2 = store.get(&medium, "other-id").expect("repeated get succeeds");
    assert_eq!(d.id, "default");
    assert_eq!(g1.id, g2.id);
    assert_eq!(g1.id, d.id);
}

#[test]
fn initialize_on_foreign_locator_is_bad_structure() {
    let store = fs_store();
    let mut medium = StoreMedium::Foreign;
    let r = store.initialize(&mut medium);
    assert!(matches!(r, Err(LoadError::BadStructure(_))));
    assert!(matches!(medium, StoreMedium::Foreign));
}

#[test]
fn create_then_get_returns_the_document() {
    let store = fs_store();
    let mut medium = StoreMedium::Vacant;
    let created = store.create(&mut medium, &payload("m7", "seven")).expect("create succeeds");
    assert_eq!(created.id, "m7");
    let got = store.get(&medium, "m7").expect("get after create succeeds");
    assert_eq!(got.id, "m7");
    assert_eq!(got.name, "seven");
}

#[test]
fn create_malformed_leaves_previous_document_unchanged() {
    let store = fs_store();
    let mut medium = StoreMedium::Vacant;
    store.create(&mut medium, &payload("m7", "seven")).expect("create succeeds");
    let before = match &medium {
        StoreMedium::Root(p) => p.clone(),
        _ => panic!("medium must hold a root"),
    };
    let r = store.create(&mut medium, "this is no document");
    assert!(matches!(r, Err(LoadError::BadFormat(_))));
    match &medium {
        StoreMedium::Root(p) => assert_eq!(*p, before),
        _ => panic!("medium must still hold the previous root"),
    }
}

#[test]
fn update_of_own_serialization_round_trips() {
    // update(serialize(get(L, id))) leaves the id unchanged and raises no
    // error.
    let store = fs_store();
    let mut medium = StoreMedium::Vacant;
    store.create(&mut medium, &payload("m9", "nine")).expect("create succeeds");
    let got = store.get(&medium, "m9").expect("get succeeds");
    let reserialized = serialize_document(&got);
    let updated = store.update(&mut medium, &reserialized).expect("round-trip update succeeds");
    assert_eq!(updated.id, "m9");
    let again = store.get(&medium, "m9").expect("get after round trip succeeds");
    assert_eq!(again.id, "m9");
    assert_eq!(again.name, "nine");
}

#[test]
fn get_on_vacant_locator_is_io_error() {
    let store = fs_store();
    let medium = StoreMedium::Vacant;
    assert!(matches!(store.get(&medium, "x"), Err(LoadError::IOError)));
}

#[test]
fn get_on_corrupt_root_is_bad_format() {
    let store = fs_store();
    let medium = StoreMedium::Root(s("not a document"));
    assert!(matches!(store.get(&medium, "x"), Err(LoadError::BadFormat(_))));
}

#[test]
fn list_yields_exactly_one_document() {
    let store = fs_store();
    let mut medium = StoreMedium::Vacant;
    store.initialize(&mut medium).expect("initialize succeeds");
    let ds = store.list(&medium).expect("list succeeds");
    assert_eq!(ds.len(), 1);
    assert_eq!(ds[0].id, "default");
}

#[test]
fn delete_is_unsupported_not_silent() {
    let store = fs_store();
    let mut medium = StoreMedium::Vacant;
    store.initialize(&mut medium).expect("initialize succeeds");
    assert!(matches!(store.delete(&mut medium, "default"), Err(LoadError::Unsupported)));
    // The medium is untouched.
    assert!(store.get(&medium, "default").is_ok());
}

#[test]
fn store_constructor_accepts_only_loadable_roots() {
    let medium = StoreMedium::Root(payload("m1", "one"));
    assert!(FileSystemModelStore::new("/tmp/p", &medium).is_ok());
    let vacant = StoreMedium::Vacant;
    assert!(matches!(
        FileSystemModelStore::new("/tmp/p", &vacant),
        Err(LoadError::BadStructure(_))
    ));
}

#[test]
fn relational_variant_fails_distinctly() {
    assert!(matches!(SQLliteModelStore::new("sqlite:db"), Err(LoadError::Unsupported)));
    let store = SQLliteModelStore { root: s("sqlite:db") };
    let mut medium = StoreMedium::Vacant;
    assert!(matches!(store.list(&medium), Err(LoadError::Unsupported)));
    assert!(matches!(store.get(&medium, "x"), Err(LoadError::Unsupported)));
    assert!(matches!(store.initialize(&mut medium), Err(LoadError::Unsupported)));
    assert!(matches!(store.create(&mut medium, "x"), Err(LoadError::Unsupported)));
    assert!(matches!(store.update(&mut medium, "x"), Err(LoadError::Unsupported)));
    assert!(matches!(store.delete(&mut medium, "x"), Err(LoadError::Unsupported)));
}

#[test]
fn locator_prefix_selects_the_relational_variant() {
    assert!(check_locator_relational("sqlite:/var/db/models"));
    assert!(!check_locator_relational("/var/models"));
    assert!(!check_locator_relational("sqlite"));
    assert!(!check_locator_relational(""));
    // Parsing is total: any other string is a filesystem path.
    assert!(!check_locator_relational("postgres:whatever"));
}

#[test]
fn handle_open_decides_variant_once() {
    let h = StoreHandle::open("sqlite:db");
    assert!(matches!(h.backend, Backend::Relational(_)));
    assert_eq!(h.locator, "sqlite:db");
    let h2 = StoreHandle::open("./project");
    assert!(matches!(h2.backend, Backend::Filesystem(_)));
}

#[test]
fn handle_dispatches_by_variant() {
    let fs = StoreHandle::open("./project");
    let mut medium = StoreMedium::Root(payload("m1", "one"));
    assert!(fs.get(&medium, "m1").is_ok());
    let rel = StoreHandle::open("sqlite:db");
    assert!(matches!(rel.get(&medium, "m1"), Err(LoadError::Unsupported)));
    assert!(matches!(rel.update(&mut medium, "x"), Err(LoadError::Unsupported)));
}

#[test]
fn default_document_serializes_to_minimal_root() {
    let d = Document::default_doc();
    assert_eq!(serialize_document(&d), "id default\nname default\nlocale en_US\n");
}
