use gears_cli::document::ComponentKind;
use gears_cli::session::{parse_command, Command, ShellSession};
use gears_cli::store::{StoreHandle, StoreMedium};

fn fresh_project() -> (ShellSession, StoreHandle, StoreMedium) {
    let handle = StoreHandle::open("./project");
    let mut medium = StoreMedium::Vacant;
    match &handle.backend {
        gears_cli::store::Backend::Filesystem(fs) => {
            fs.initialize(&mut medium).expect("initialize succeeds");
        },
        _ => panic!("a plain path opens the filesystem variant"),
    }
    let session = ShellSession::start("en_US", &handle, &medium).expect("session starts");
    (session, handle, medium)
}

#[test]
fn session_generate_translation_then_sync_persists_locale() {
    // Generate(Translation, "es_ES") then Sync against a fresh project
    // persists a document containing an es_ES locale entry.
    let (mut session, handle, mut medium) = fresh_project();
    let out = session.run_line("generate translation es_ES", &handle, &mut medium);
    assert!(out.is_ok());
    let out = session.run_line("sync", &handle, &mut medium);
    assert!(out.is_ok());
    match &handle.backend {
        gears_cli::store::Backend::Filesystem(fs) => {
            let persisted = fs.get(&medium, "any").expect("persisted document loads");
            assert!(persisted.translations.iter().any(|t| t.locale == "es_ES"));
        },
        _ => unreachable!(),
    }
}

#[test]
fn session_sync_reflects_latest_in_memory_mutations() {
    let (mut session, handle, mut medium) = fresh_project();
    session.run_line("generate page landing", &handle, &mut medium).expect("generate ok");
    session.run_line("add entity person", &handle, &mut medium).expect("add ok");
    session.run_line("sync", &handle, &mut medium).expect("sync ok");
    match &handle.backend {
        gears_cli::store::Backend::Filesystem(fs) => {
            let persisted = fs.get(&medium, "any").expect("persisted document loads");
            assert_eq!(persisted.pages, vec![String::from("landing")]);
            assert_eq!(persisted.entities.len(), 1);
            assert_eq!(persisted.entities[0].name, "person");
        },
        _ => unreachable!(),
    }
}

#[test]
fn session_unparseable_line_changes_nothing_and_loop_survives() {
    // An unparseable line must not terminate the loop and must not alter
    // the working copy; the next valid command still applies.
    let (mut session, handle, mut medium) = fresh_project();
    let pages_before = session.model.pages.clone();

    let r = session.run_line("", &handle, &mut medium);
    assert!(r.is_err());
    assert_eq!(session.model.pages, pages_before);

    let r = session.run_line("frobnicate the model", &handle, &mut medium);
    assert!(r.is_err());
    assert_eq!(session.model.pages, pages_before);

    let r = session.run_line("generate page landing", &handle, &mut medium);
    assert!(r.is_ok());
    assert_eq!(session.model.pages, vec![String::from("landing")]);
}

#[test]
fn session_failed_sync_keeps_working_copy_for_retry() {
    let handle = StoreHandle::open("sqlite:db");
    let fs_handle = StoreHandle::open("./project");
    let mut medium = StoreMedium::Vacant;
    match &fs_handle.backend {
        gears_cli::store::Backend::Filesystem(fs) => {
            fs.initialize(&mut medium).expect("initialize succeeds");
        },
        _ => unreachable!(),
    }
    let mut session = ShellSession::start("en_US", &fs_handle, &medium).expect("session starts");
    session.run_line("generate page landing", &fs_handle, &mut medium).expect("generate ok");
    // Syncing through the unimplemented relational handle fails...
    let r = session.run_line("sync", &handle, &mut medium);
    assert!(r.is_err());
    // ...but the working copy is intact, and the retry on the real handle
    // succeeds.
    assert_eq!(session.model.pages, vec![String::from("landing")]);
    session.run_line("sync", &fs_handle, &mut medium).expect("retry succeeds");
}

#[test]
fn session_never_starts_on_unloadable_store() {
    let handle = StoreHandle::open("./project");
    let medium = StoreMedium::Vacant;
    assert!(ShellSession::start("en_US", &handle, &medium).is_err());
}

#[test]
fn session_generate_translation_pads_key_parity() {
    let (mut session, handle, mut medium) = fresh_project();
    // Give the first locale a key, then generate a second locale: the
    // parity pass gives the new locale the same key with an empty value.
    session.model.generate(ComponentKind::Translation, String::from("en_US"));
    session.model.translations[0].entries.push(gears_cli::document::Entry {
        key: String::from("title"),
        value: String::from("Home"),
    });
    session.run_line("generate translation es_ES", &handle, &mut medium).expect("generate ok");
    let es = session
        .model
        .translations
        .iter()
        .find(|t| t.locale == "es_ES")
        .expect("es_ES exists");
    assert_eq!(es.entries.len(), 1);
    assert_eq!(es.entries[0].key, "title");
    assert_eq!(es.entries[0].value, "");
}

#[test]
fn session_destroy_removes_named_components() {
    let (mut session, handle, mut medium) = fresh_project();
    session.run_line("generate page a", &handle, &mut medium).expect("ok");
    session.run_line("generate page b", &handle, &mut medium).expect("ok");
    session.run_line("destroy page a", &handle, &mut medium).expect("ok");
    assert_eq!(session.model.pages, vec![String::from("b")]);
}

#[test]
fn session_list_reports_component_names() {
    let (mut session, handle, mut medium) = fresh_project();
    session.run_line("generate xflow checkout", &handle, &mut medium).expect("ok");
    let out = session.run_line("list xflow", &handle, &mut medium).expect("list ok");
    assert_eq!(out, vec![String::from("checkout")]);
}

#[test]
fn session_set_updates_settings_and_locale() {
    let (mut session, handle, mut medium) = fresh_project();
    session.run_line("set color green", &handle, &mut medium).expect("set ok");
    assert_eq!(session.settings.len(), 1);
    assert_eq!(session.settings[0].key, "color");
    assert_eq!(session.settings[0].value, "green");
    // Setting the same key replaces the value.
    session.run_line("set color blue", &handle, &mut medium).expect("set ok");
    assert_eq!(session.settings.len(), 1);
    assert_eq!(session.settings[0].value, "blue");
    // The locale key moves the active locale the sync narrows to.
    session.run_line("set locale nl_NL", &handle, &mut medium).expect("set ok");
    assert_eq!(session.locale, "nl_NL");
    session.run_line("sync", &handle, &mut medium).expect("sync ok");
    match &handle.backend {
        gears_cli::store::Backend::Filesystem(fs) => {
            let persisted = fs.get(&medium, "any").expect("loads");
            assert_eq!(persisted.locale, "nl_NL");
        },
        _ => unreachable!(),
    }
}

#[test]
fn session_attribute_commands_touch_the_named_entity() {
    let (mut session, handle, mut medium) = fresh_project();
    session.run_line("add entity person", &handle, &mut medium).expect("ok");
    session.run_line("add attribute person age", &handle, &mut medium).expect("ok");
    assert_eq!(session.model.entities[0].attributes, vec![String::from("age")]);
    session.run_line("remove attribute person age", &handle, &mut medium).expect("ok");
    assert!(session.model.entities[0].attributes.is_empty());
    // Addressing a missing entity is a reported failure, not a change.
    assert!(session.run_line("add attribute ghost age", &handle, &mut medium).is_err());
}

#[test]
fn session_remove_entity_removes_by_name() {
    let (mut session, handle, mut medium) = fresh_project();
    session.run_line("add entity person", &handle, &mut medium).expect("ok");
    session.run_line("add entity invoice", &handle, &mut medium).expect("ok");
    session.run_line("remove entity person", &handle, &mut medium).expect("ok");
    assert_eq!(session.model.entities.len(), 1);
    assert_eq!(session.model.entities[0].name, "invoice");
}

#[test]
fn session_alter_and_rename_report_unimplemented() {
    let (mut session, handle, mut medium) = fresh_project();
    let r = session.run_line("alter entity person", &handle, &mut medium);
    assert!(r.unwrap_err().contains("not implemented"));
    let r = session.run_line("rename entity person being", &handle, &mut medium);
    assert!(r.unwrap_err().contains("not implemented"));
}

#[test]
fn session_help_and_nop_leave_state_alone() {
    let (mut session, handle, mut medium) = fresh_project();
    let help = session.run_line("help", &handle, &mut medium).expect("help ok");
    assert_eq!(help.len(), 5);
    assert_eq!(help[0], "<< Help");
    let nop = session.run_line("nop", &handle, &mut medium).expect("nop ok");
    assert!(nop.is_empty());
}

#[test]
fn grammar_accepts_the_command_vocabulary() {
    assert!(matches!(parse_command("help"), Ok(Command::Help)));
    assert!(matches!(parse_command("sync"), Ok(Command::Sync)));
    assert!(matches!(parse_command("nop"), Ok(Command::Nop)));
    assert!(matches!(parse_command("list page"), Ok(Command::List(ComponentKind::Page))));
    assert!(matches!(
        parse_command("generate translation es_ES"),
        Ok(Command::Generate(ComponentKind::Translation, _))
    ));
    assert!(matches!(
        parse_command("destroy xflow checkout"),
        Ok(Command::Destroy(ComponentKind::Xflow, _))
    ));
    assert!(matches!(parse_command("set a b"), Ok(Command::SetValue(_, _))));
    assert!(matches!(parse_command("add entity person"), Ok(Command::AddEntity(_))));
    assert!(matches!(
        parse_command("remove attribute person age"),
        Ok(Command::RemoveAttribute(_, _))
    ));
}

#[test]
fn grammar_rejects_what_it_does_not_know() {
    assert!(parse_command("").is_err());
    assert!(parse_command("help me please now").is_err());
    assert!(parse_command("list").is_err());
    assert!(parse_command("list widget").is_err());
    assert!(parse_command("generate page").is_err());
    assert!(parse_command("generate page  ").is_err());
    assert!(parse_command("two\nlines").is_err());
}
