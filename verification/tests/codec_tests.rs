use gears_cli::codec::{parse_document, serialize_document};
use gears_cli::document::{Document, Entity, Entry, Translation};
use gears_cli::errors::LoadError;

fn s(x: &str) -> String {
    String::from(x)
}

fn sample_document() -> Document {
    Document {
        id: s("m1"),
        name: s("demo"),
        locale: s("en_US"),
        pages: vec![s("home"), s("about")],
        xflows: vec![s("signup")],
        translations: vec![
            Translation {
                locale: s("en_US"),
                entries: vec![
                    Entry { key: s("title"), value: s("Home page") },
                    Entry { key: s("greeting"), value: s("hello there") },
                ],
            },
            Translation {
                locale: s("nl_NL"),
                entries: vec![Entry { key: s("title"), value: s("Startpagina") }],
            },
        ],
        entities: vec![
            Entity { name: s("person"), attributes: vec![s("age"), s("email")] },
        ],
    }
}

#[test]
fn codec_serialize_exact_form() {
    let d = Document {
        id: s("m1"),
        name: s("demo"),
        locale: s("en_US"),
        pages: vec![s("home")],
        xflows: vec![],
        translations: vec![Translation {
            locale: s("es_ES"),
            entries: vec![Entry { key: s("title"), value: s("hola mundo") }],
        }],
        entities: vec![Entity { name: s("person"), attributes: vec![s("age")] }],
    };
    let out = serialize_document(&d);
    assert_eq!(
        out,
        "id m1\nname demo\nlocale en_US\npage home\ntrans es_ES\nentry title hola mundo\nentity person\nattr age\n"
    );
}

#[test]
fn codec_round_trip_preserves_document() {
    let d = sample_document();
    let text = serialize_document(&d);
    let back = parse_document(&text).expect("serialized document must parse");
    assert_eq!(back.id, d.id);
    assert_eq!(back.name, d.name);
    assert_eq!(back.locale, d.locale);
    assert_eq!(back.pages, d.pages);
    assert_eq!(back.xflows, d.xflows);
    assert_eq!(back.translations.len(), d.translations.len());
    assert_eq!(back.translations[0].entries[1].value, "hello there");
    assert_eq!(back.entities[0].attributes, d.entities[0].attributes);
    // A second trip gives the identical text.
    assert_eq!(serialize_document(&back), text);
}

#[test]
fn codec_rejects_unterminated_line() {
    let r = parse_document("id m1\nname demo\nlocale en_US");
    assert!(matches!(r, Err(LoadError::BadFormat(_))));
}

#[test]
fn codec_rejects_unknown_tag() {
    let r = parse_document("id m1\nname demo\nlocale en_US\nbogus x\n");
    assert!(matches!(r, Err(LoadError::BadFormat(_))));
}

#[test]
fn codec_rejects_entry_outside_translation_section() {
    let r = parse_document("id m1\nname demo\nlocale en_US\nentry title hi\n");
    assert!(matches!(r, Err(LoadError::BadFormat(_))));
}

#[test]
fn codec_rejects_attr_outside_entity_section() {
    let r = parse_document("id m1\nname demo\nlocale en_US\nattr age\n");
    assert!(matches!(r, Err(LoadError::BadFormat(_))));
}

#[test]
fn codec_rejects_duplicate_header_record() {
    let r = parse_document("id m1\nid m2\nname demo\nlocale en_US\n");
    assert!(matches!(r, Err(LoadError::BadFormat(_))));
}

#[test]
fn codec_rejects_missing_header() {
    // No id record: the parsed document is not well formed.
    let r = parse_document("name demo\nlocale en_US\n");
    assert!(matches!(r, Err(LoadError::BadFormat(_))));
}

#[test]
fn codec_rejects_empty_input() {
    let r = parse_document("");
    assert!(matches!(r, Err(LoadError::BadFormat(_))));
}

#[test]
fn codec_accepts_value_with_spaces_and_empty_value() {
    let text = "id m1\nname demo\nlocale en_US\ntrans en_US\nentry a one two three\nentry b \n";
    let d = parse_document(text).expect("entry values may hold spaces or be empty");
    assert_eq!(d.translations[0].entries[0].value, "one two three");
    assert_eq!(d.translations[0].entries[1].value, "");
}

#[test]
fn codec_rejects_malformed_token() {
    // A tag with no argument separator is rejected.
    let r = parse_document("id m1\nname demo\nlocale en_US\npage\n");
    assert!(matches!(r, Err(LoadError::BadFormat(_))));
}
