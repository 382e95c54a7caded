use gears_cli::cli::{
    build_prepare, export_model, import_model, project_support_files, render_validation_errors,
    transform, validate_model, validate_ok_message, ValidationError,
};
use gears_cli::codec::serialize_document;
use gears_cli::config::{format_from_arg, AppState, Format};
use gears_cli::document::{Document, Entry, Translation};
use gears_cli::errors::LoadError;
use gears_cli::store::StoreMedium;

fn s(x: &str) -> String {
    String::from(x)
}

fn payload(id: &str, name: &str) -> String {
    format!("id {}\nname {}\nlocale en_US\n", id, name)
}

fn valid_document() -> Document {
    Document {
        id: s("m1"),
        name: s("demo"),
        locale: s("en_US"),
        pages: vec![s("home"), s("about")],
        xflows: vec![],
        translations: vec![Translation {
            locale: s("en_US"),
            entries: vec![Entry { key: s("title"), value: s("Home") }],
        }],
        entities: vec![],
    }
}

#[test]
fn validate_accepts_a_valid_document() {
    let d = valid_document();
    assert!(validate_model(&d).is_empty());
    assert_eq!(validate_ok_message(&d), "Model 'm1' validates OK");
}

#[test]
fn validate_reports_duplicate_page_names() {
    let mut d = valid_document();
    d.pages.push(s("home"));
    let errors = validate_model(&d);
    assert_eq!(errors.len(), 1);
    assert_eq!(errors[0].message, "duplicate page name");
}

#[test]
fn validate_reports_each_violated_condition_once() {
    let mut d = valid_document();
    d.pages.push(s("home"));
    d.translations.push(Translation { locale: s("en_US"), entries: vec![] });
    d.translations[0].entries.push(Entry { key: s("title"), value: s("again") });
    let messages: Vec<String> =
        validate_model(&d).into_iter().map(|e| e.message).collect();
    assert_eq!(
        messages,
        vec![
            s("duplicate page name"),
            s("duplicate locale"),
            s("duplicate translation key"),
        ]
    );
}

#[test]
fn validate_reports_malformed_text() {
    let mut d = valid_document();
    d.pages.push(s("has a space"));
    let errors = validate_model(&d);
    assert_eq!(errors[0].message, "document contains malformed text");
}

#[test]
fn validation_errors_render_as_the_operator_sees_them() {
    let errors = vec![ValidationError {
        message: s("duplicate page name"),
        paths: vec![s("pages"), s("home")],
    }];
    let lines = render_validation_errors(&errors);
    assert_eq!(lines, vec![s("Error 'duplicate page name' - Path 'pages;home'")]);
}

#[test]
fn transform_normalizes_a_document() {
    let text = payload("m1", "demo");
    let out = transform(&text, &Format::JSON, &Format::YAML).expect("parses");
    assert_eq!(out, text);
    let r = transform("junk", &Format::JSON, &Format::JSON);
    assert!(matches!(r, Err(LoadError::BadFormat(_))));
}

#[test]
fn import_narrows_to_locale_and_persists() {
    let mut medium = StoreMedium::Vacant;
    let d = import_model(&payload("m1", "demo"), "nl_NL", &mut medium).expect("imports");
    assert_eq!(d.locale, "nl_NL");
    match &medium {
        StoreMedium::Root(text) => assert_eq!(*text, serialize_document(&d)),
        _ => panic!("import must persist a root"),
    }
    // A malformed payload changes nothing.
    let mut untouched = StoreMedium::Vacant;
    assert!(import_model("junk", "nl_NL", &mut untouched).is_err());
    assert!(matches!(untouched, StoreMedium::Vacant));
}

#[test]
fn export_renders_under_the_requested_locale() {
    let medium = StoreMedium::Root(payload("m1", "demo"));
    let out = export_model(&medium, "fr_FR", &Format::JSON).expect("exports");
    assert!(out.contains("locale fr_FR"));
    assert!(export_model(&StoreMedium::Vacant, "fr_FR", &Format::JSON).is_err());
}

#[test]
fn build_prepare_pads_and_narrows() {
    let mut d = valid_document();
    d.translations.push(Translation { locale: s("es_ES"), entries: vec![] });
    let built = build_prepare(&d, "es_ES");
    assert_eq!(built.locale, "es_ES");
    let es = built.translations.iter().find(|t| t.locale == "es_ES").unwrap();
    assert_eq!(es.entries.len(), 1);
    assert_eq!(es.entries[0].key, "title");
    assert_eq!(es.entries[0].value, "");
}

#[test]
fn project_files_scaffold_the_root() {
    let files = project_support_files("/work/p");
    assert_eq!(files.len(), 2);
    assert_eq!(files[0].path, "/work/p/.gitignore");
    assert_eq!(files[1].path, "/work/p/README.md");
    assert!(files[0].content.contains("history.gears-shell"));
    assert!(files[1].content.contains("gears project"));
}

#[test]
fn format_argument_parsing_defaults_to_json() {
    assert_eq!(format_from_arg("yaml"), Format::YAML);
    assert_eq!(format_from_arg("json"), Format::JSON);
    assert_eq!(format_from_arg("anything"), Format::JSON);
}

#[test]
fn app_state_carries_the_invocation() {
    let st = AppState {
        locale: s("en_US"),
        path_config: s("project.conf"),
        path_in: s("."),
        path_out: s("out"),
        format_in: Format::JSON,
        format_out: Format::YAML,
    };
    assert_eq!(st.locale, "en_US");
    assert_eq!(st.format_out, Format::YAML);
}
