//! The persisted text form of a document and its proofs.
//!
//! A document is stored as a sequence of newline-terminated records, each a
//! tag, a space, and the record's argument: the three header records `id`,
//! `name` and `locale`, one `page`/`xflow` record per component, a `trans`
//! record opening each locale's section followed by its `entry` records, and
//! an `entity` record opening each entity's section followed by its `attr`
//! records. Parsing folds the records over a document under construction;
//! serializing emits the canonical record order. The round-trip theorem
//! states that parsing a serialized well-formed document gives it back.

use vstd::prelude::*;

use crate::document::{
    Document, DocV, Entity, EntityV, Entry, EntryV, Translation, TranslationV, wf_doc, wf_entity,
    wf_tokens, wf_translation,
};
use crate::errors::LoadError;
use crate::text::{
    check_text_range, check_token_range, copy_range, find_char, find_char_range,
    lemma_find_char_append, lemma_find_char_range, range_eq_str, wf_text, wf_token,
};

verus! {

// ---------------------------------------------------------------------------
// Spec serializer
// ---------------------------------------------------------------------------
/// One record: tag, space, argument, newline.
pub open spec fn ser_line(tag: Seq<char>, arg: Seq<char>) -> Seq<char> {
    tag + " "@ + arg + "\n"@
}

/// One record per name, in order.
pub open spec fn ser_names(tag: Seq<char>, names: Seq<Seq<char>>) -> Seq<char>
    decreases names.len(),
{
    if names.len() == 0 {
        Seq::empty()
    } else {
        ser_line(tag, names[0]) + ser_names(tag, names.drop_first())
    }
}

/// One `entry` record per pair, in order; the argument is key, space, value.
pub open spec fn ser_entries(entries: Seq<EntryV>) -> Seq<char>
    decreases entries.len(),
{
    if entries.len() == 0 {
        Seq::empty()
    } else {
        ser_line("entry"@, entries[0].key + " "@ + entries[0].value) + ser_entries(
            entries.drop_first(),
        )
    }
}

/// Each translation: its `trans` record, then its entries.
pub open spec fn ser_translations(ts: Seq<TranslationV>) -> Seq<char>
    decreases ts.len(),
{
    if ts.len() == 0 {
        Seq::empty()
    } else {
        ser_line("trans"@, ts[0].locale) + ser_entries(ts[0].entries) + ser_translations(
            ts.drop_first(),
        )
    }
}

/// Each entity: its `entity` record, then its attributes.
pub open spec fn ser_entities(es: Seq<EntityV>) -> Seq<char>
    decreases es.len(),
{
    if es.len() == 0 {
        Seq::empty()
    } else {
        ser_line("entity"@, es[0].name) + ser_names("attr"@, es[0].attributes) + ser_entities(
            es.drop_first(),
        )
    }
}

/// The canonical text form of a document.
pub open spec fn ser_doc(d: DocV) -> Seq<char> {
    ser_line("id"@, d.id) + ser_line("name"@, d.name) + ser_line("locale"@, d.locale) + ser_names(
        "page"@,
        d.pages,
    ) + ser_names("xflow"@, d.xflows) + ser_translations(d.translations) + ser_entities(d.entities)
}

// ---------------------------------------------------------------------------
// Spec parser
// ---------------------------------------------------------------------------
/// One parsed record.
pub enum Record {
    DocId(Seq<char>),
    DocName(Seq<char>),
    DocLocale(Seq<char>),
    PageDecl(Seq<char>),
    XflowDecl(Seq<char>),
    TransDecl(Seq<char>),
    TransEntry(Seq<char>, Seq<char>),
    EntityDecl(Seq<char>),
    AttrDecl(Seq<char>),
}

/// The document a parse starts from: every field empty.
pub open spec fn empty_docv() -> DocV {
    DocV {
        id: Seq::empty(),
        name: Seq::empty(),
        locale: Seq::empty(),
        pages: Seq::empty(),
        xflows: Seq::empty(),
        translations: Seq::empty(),
        entities: Seq::empty(),
    }
}

/// Reads one line (without its newline) as a record. A line is a known tag,
/// one space, and an argument in the tag's grammar; anything else is
/// rejected.
pub open spec fn parse_record(line: Seq<char>) -> Option<Record> {
    let k = find_char(line, ' ');
    if k < 0 {
        None
    } else {
        let tag = line.subrange(0, k);
        let rem = line.subrange(k + 1, line.len() as int);
        if tag == "id"@ {
            if wf_token(rem) {
                Some(Record::DocId(rem))
            } else {
                None
            }
        } else if tag == "name"@ {
            if wf_token(rem) {
                Some(Record::DocName(rem))
            } else {
                None
            }
        } else if tag == "locale"@ {
            if wf_token(rem) {
                Some(Record::DocLocale(rem))
            } else {
                None
            }
        } else if tag == "page"@ {
            if wf_token(rem) {
                Some(Record::PageDecl(rem))
            } else {
                None
            }
        } else if tag == "xflow"@ {
            if wf_token(rem) {
                Some(Record::XflowDecl(rem))
            } else {
                None
            }
        } else if tag == "trans"@ {
            if wf_token(rem) {
                Some(Record::TransDecl(rem))
            } else {
                None
            }
        } else if tag == "entity"@ {
            if wf_token(rem) {
                Some(Record::EntityDecl(rem))
            } else {
                None
            }
        } else if tag == "attr"@ {
            if wf_token(rem) {
                Some(Record::AttrDecl(rem))
            } else {
                None
            }
        } else if tag == "entry"@ {
            let j = find_char(rem, ' ');
            if j < 0 {
                None
            } else {
                let key = rem.subrange(0, j);
                let value = rem.subrange(j + 1, rem.len() as int);
                if wf_token(key) && wf_text(value) {
                    Some(Record::TransEntry(key, value))
                } else {
                    None
                }
            }
        } else {
            None
        }
    }
}

/// Folds one record into the document under construction. The three header
/// records may be given once each; an `entry` needs an open `trans` section
/// and an `attr` an open `entity` section.
pub open spec fn apply_record(b: DocV, r: Record) -> Option<DocV> {
    match r {
        Record::DocId(x) => if b.id.len() == 0 {
            Some(DocV { id: x, ..b })
        } else {
            None
        },
        Record::DocName(x) => if b.name.len() == 0 {
            Some(DocV { name: x, ..b })
        } else {
            None
        },
        Record::DocLocale(x) => if b.locale.len() == 0 {
            Some(DocV { locale: x, ..b })
        } else {
            None
        },
        Record::PageDecl(x) => Some(DocV { pages: b.pages.push(x), ..b }),
        Record::XflowDecl(x) => Some(DocV { xflows: b.xflows.push(x), ..b }),
        Record::TransDecl(l) => Some(
            DocV {
                translations: b.translations.push(
                    TranslationV { locale: l, entries: Seq::empty() },
                ),
                ..b
            },
        ),
        Record::TransEntry(k, v) => if b.translations.len() > 0 {
            let last = b.translations.len() - 1;
            let t = b.translations[last];
            Some(
                DocV {
                    translations: b.translations.update(
                        last,
                        TranslationV { entries: t.entries.push(EntryV { key: k, value: v }), ..t },
                    ),
                    ..b
                },
            )
        } else {
            None
        },
        Record::EntityDecl(n) => Some(
            DocV {
                entities: b.entities.push(EntityV { name: n, attributes: Seq::empty() }),
                ..b
            },
        ),
        Record::AttrDecl(a) => if b.entities.len() > 0 {
            let last = b.entities.len() - 1;
            let e = b.entities[last];
            Some(
                DocV {
                    entities: b.entities.update(
                        last,
                        EntityV { attributes: e.attributes.push(a), ..e },
                    ),
                    ..b
                },
            )
        } else {
            None
        },
    }
}

/// Reads one line and folds it into the document under construction.
pub open spec fn apply_line(b: DocV, line: Seq<char>) -> Option<DocV> {
    match parse_record(line) {
        Some(r) => apply_record(b, r),
        None => None,
    }
}

/// Folds every remaining newline-terminated line into `b`. Input that ends
/// in an unterminated line is rejected.
pub open spec fn parse_rest(b: DocV, s: Seq<char>) -> Option<DocV>
    decreases s.len(),
{
    if s.len() == 0 {
        Some(b)
    } else {
        let k = find_char(s, '\n');
        if !(0 <= k < s.len()) {
            None
        } else {
            let line = s.subrange(0, k);
            let rest = s.subrange(k + 1, s.len() as int);
            match apply_line(b, line) {
                Some(b2) => parse_rest(b2, rest),
                None => None,
            }
        }
    }
}

/// The whole parse: fold every record, then accept only a well-formed
/// document (in particular, one whose three header records were present).
pub open spec fn parse_doc(s: Seq<char>) -> Option<DocV> {
    match parse_rest(empty_docv(), s) {
        Some(d) => if wf_doc(d) {
            Some(d)
        } else {
            None
        },
        None => None,
    }
}

// ---------------------------------------------------------------------------
// Exec serializer
// ---------------------------------------------------------------------------
/// Distribution of the name serializer over concatenation.
proof fn lemma_ser_names_app(tag: Seq<char>, a: Seq<Seq<char>>, b: Seq<Seq<char>>)
    ensures
        ser_names(tag, a + b) == ser_names(tag, a) + ser_names(tag, b),
    decreases a.len(),
{
    if a.len() == 0 {
        assert(a + b =~= b);
        assert(Seq::<char>::empty() + ser_names(tag, b) =~= ser_names(tag, b));
    } else {
        assert((a + b).drop_first() =~= a.drop_first() + b);
        lemma_ser_names_app(tag, a.drop_first(), b);
        assert(ser_line(tag, (a + b)[0]) + (ser_names(tag, a.drop_first()) + ser_names(tag, b))
            =~= (ser_line(tag, a[0]) + ser_names(tag, a.drop_first())) + ser_names(tag, b));
    }
}

/// Distribution of the entry serializer over concatenation.
proof fn lemma_ser_entries_app(a: Seq<EntryV>, b: Seq<EntryV>)
    ensures
        ser_entries(a + b) == ser_entries(a) + ser_entries(b),
    decreases a.len(),
{
    if a.len() == 0 {
        assert(a + b =~= b);
        assert(Seq::<char>::empty() + ser_entries(b) =~= ser_entries(b));
    } else {
        assert((a + b).drop_first() =~= a.drop_first() + b);
        lemma_ser_entries_app(a.drop_first(), b);
        assert(ser_line("entry"@, (a + b)[0].key + " "@ + (a + b)[0].value) + (ser_entries(
            a.drop_first(),
        ) + ser_entries(b)) =~= (ser_line("entry"@, a[0].key + " "@ + a[0].value) + ser_entries(
            a.drop_first(),
        )) + ser_entries(b));
    }
}

/// Distribution of the translation serializer over concatenation.
proof fn lemma_ser_translations_app(a: Seq<TranslationV>, b: Seq<TranslationV>)
    ensures
        ser_translations(a + b) == ser_translations(a) + ser_translations(b),
    decreases a.len(),
{
    if a.len() == 0 {
        assert(a + b =~= b);
        assert(Seq::<char>::empty() + ser_translations(b) =~= ser_translations(b));
    } else {
        assert((a + b).drop_first() =~= a.drop_first() + b);
        lemma_ser_translations_app(a.drop_first(), b);
        assert(ser_line("trans"@, (a + b)[0].locale) + ser_entries((a + b)[0].entries) + (
        ser_translations(a.drop_first()) + ser_translations(b)) =~= (ser_line("trans"@, a[0].locale)
            + ser_entries(a[0].entries) + ser_translations(a.drop_first())) + ser_translations(b));
    }
}

/// Distribution of the entity serializer over concatenation.
proof fn lemma_ser_entities_app(a: Seq<EntityV>, b: Seq<EntityV>)
    ensures
        ser_entities(a + b) == ser_entities(a) + ser_entities(b),
    decreases a.len(),
{
    if a.len() == 0 {
        assert(a + b =~= b);
        assert(Seq::<char>::empty() + ser_entities(b) =~= ser_entities(b));
    } else {
        assert((a + b).drop_first() =~= a.drop_first() + b);
        lemma_ser_entities_app(a.drop_first(), b);
        assert(ser_line("entity"@, (a + b)[0].name) + ser_names("attr"@, (a + b)[0].attributes) + (
        ser_entities(a.drop_first()) + ser_entities(b)) =~= (ser_line("entity"@, a[0].name)
            + ser_names("attr"@, a[0].attributes) + ser_entities(a.drop_first())) + ser_entities(
            b,
        ));
    }
}

/// Serializing one more name appends one more record.
proof fn lemma_ser_names_snoc(tag: Seq<char>, names: Seq<Seq<char>>, x: Seq<char>)
    ensures
        ser_names(tag, names.push(x)) == ser_names(tag, names) + ser_line(tag, x),
{
    reveal_with_fuel(ser_names, 3);
    lemma_ser_names_app(tag, names, seq![x]);
    assert(names.push(x) =~= names + seq![x]);
    assert(seq![x].drop_first() =~= Seq::<Seq<char>>::empty());
    assert(ser_names(tag, seq![x]) =~= ser_line(tag, x));
}

/// Serializing one more entry appends one more record.
proof fn lemma_ser_entries_snoc(entries: Seq<EntryV>, e: EntryV)
    ensures
        ser_entries(entries.push(e)) == ser_entries(entries) + ser_line(
            "entry"@,
            e.key + " "@ + e.value,
        ),
{
    reveal_with_fuel(ser_entries, 3);
    lemma_ser_entries_app(entries, seq![e]);
    assert(entries.push(e) =~= entries + seq![e]);
    assert(seq![e].drop_first() =~= Seq::<EntryV>::empty());
    assert(ser_entries(seq![e]) =~= ser_line("entry"@, e.key + " "@ + e.value));
}

/// Serializing one more translation appends its section.
proof fn lemma_ser_translations_snoc(ts: Seq<TranslationV>, t: TranslationV)
    ensures
        ser_translations(ts.push(t)) == ser_translations(ts) + (ser_line("trans"@, t.locale)
            + ser_entries(t.entries)),
{
    reveal_with_fuel(ser_translations, 3);
    lemma_ser_translations_app(ts, seq![t]);
    assert(ts.push(t) =~= ts + seq![t]);
    assert(seq![t].drop_first() =~= Seq::<TranslationV>::empty());
    assert(ser_translations(seq![t]) =~= ser_line("trans"@, t.locale) + ser_entries(t.entries));
}

/// Serializing one more entity appends its section.
proof fn lemma_ser_entities_snoc(es: Seq<EntityV>, e: EntityV)
    ensures
        ser_entities(es.push(e)) == ser_entities(es) + (ser_line("entity"@, e.name) + ser_names(
            "attr"@,
            e.attributes,
        )),
{
    reveal_with_fuel(ser_entities, 3);
    lemma_ser_entities_app(es, seq![e]);
    assert(es.push(e) =~= es + seq![e]);
    assert(seq![e].drop_first() =~= Seq::<EntityV>::empty());
    assert(ser_entities(seq![e]) =~= ser_line("entity"@, e.name) + ser_names(
        "attr"@,
        e.attributes,
    ));
}

/// Appends one record to `out`.
fn push_line(out: &mut String, tag: &str, arg: &str)
    ensures
        final(out)@ == old(out)@ + ser_line(tag@, arg@),
{
    out.append(tag);
    out.append(" ");
    out.append(arg);
    out.append("\n");
    proof {
        assert(final(out)@ =~= old(out)@ + ser_line(tag@, arg@));
    }
}

/// Renders a document in its canonical text form.
pub fn serialize_document(d: &Document) -> (out: String)
    ensures
        out@ == ser_doc(d@),
{
    let ghost dv = d@;
    let mut out = String::new();
    push_line(&mut out, "id", d.id.as_str());
    push_line(&mut out, "name", d.name.as_str());
    push_line(&mut out, "locale", d.locale.as_str());
    proof {
        assert(out@ =~= ser_line("id"@, dv.id) + ser_line("name"@, dv.name) + ser_line(
            "locale"@,
            dv.locale,
        ));
    }
    let ghost header = out@;

    let mut i: usize = 0;
    while i < d.pages.len()
        invariant
            i <= d.pages.len(),
            dv == d@,
            out@ == header + ser_names("page"@, dv.pages.take(i as int)),
            header == ser_line("id"@, dv.id) + ser_line("name"@, dv.name) + ser_line(
                "locale"@,
                dv.locale,
            ),
        decreases d.pages.len() - i,
    {
        push_line(&mut out, "page", d.pages[i].as_str());
        proof {
            assert(dv.pages.take(i + 1) =~= dv.pages.take(i as int).push(dv.pages[i as int]));
            lemma_ser_names_snoc("page"@, dv.pages.take(i as int), dv.pages[i as int]);
            assert(out@ =~= header + ser_names("page"@, dv.pages.take(i + 1)));
        }
        i = i + 1;
    }
    proof {
        assert(dv.pages.take(dv.pages.len() as int) =~= dv.pages);
    }
    let ghost with_pages = out@;

    let mut i: usize = 0;
    while i < d.xflows.len()
        invariant
            i <= d.xflows.len(),
            dv == d@,
            out@ == with_pages + ser_names("xflow"@, dv.xflows.take(i as int)),
            with_pages == header + ser_names("page"@, dv.pages),
            header == ser_line("id"@, dv.id) + ser_line("name"@, dv.name) + ser_line(
                "locale"@,
                dv.locale,
            ),
        decreases d.xflows.len() - i,
    {
        push_line(&mut out, "xflow", d.xflows[i].as_str());
        proof {
            assert(dv.xflows.take(i + 1) =~= dv.xflows.take(i as int).push(dv.xflows[i as int]));
            lemma_ser_names_snoc("xflow"@, dv.xflows.take(i as int), dv.xflows[i as int]);
            assert(out@ =~= with_pages + ser_names("xflow"@, dv.xflows.take(i + 1)));
        }
        i = i + 1;
    }
    proof {
        assert(dv.xflows.take(dv.xflows.len() as int) =~= dv.xflows);
    }
    let ghost with_xflows = out@;

    let mut i: usize = 0;
    while i < d.translations.len()
        invariant
            i <= d.translations.len(),
            dv == d@,
            out@ == with_xflows + ser_translations(dv.translations.take(i as int)),
            with_xflows == header + ser_names("page"@, dv.pages) + ser_names("xflow"@, dv.xflows),
            header == ser_line("id"@, dv.id) + ser_line("name"@, dv.name) + ser_line(
                "locale"@,
                dv.locale,
            ),
        decreases d.translations.len() - i,
    {
        let t = &d.translations[i];
        push_line(&mut out, "trans", t.locale.as_str());
        let ghost with_decl = out@;
        let mut j: usize = 0;
        while j < t.entries.len()
            invariant
                j <= t.entries.len(),
                t == &d.translations[i as int],
                i < d.translations.len(),
                dv == d@,
                out@ == with_decl + ser_entries(t@.entries.take(j as int)),
            decreases t.entries.len() - j,
        {
            let e = &t.entries[j];
            out.append("entry ");
            out.append(e.key.as_str());
            out.append(" ");
            out.append(e.value.as_str());
            out.append("\n");
            proof {
                reveal_strlit("entry");
                reveal_strlit("entry ");
                reveal_strlit(" ");
                assert("entry "@ =~= "entry"@ + " "@);
                assert(t@.entries.take(j + 1) =~= t@.entries.take(j as int).push(
                    t@.entries[j as int],
                ));
                lemma_ser_entries_snoc(t@.entries.take(j as int), t@.entries[j as int]);
                assert(out@ =~= with_decl + ser_entries(t@.entries.take(j + 1)));
            }
            j = j + 1;
        }
        proof {
            assert(t@.entries.take(t@.entries.len() as int) =~= t@.entries);
            assert(dv.translations.take(i + 1) =~= dv.translations.take(i as int).push(
                dv.translations[i as int],
            ));
            lemma_ser_translations_snoc(dv.translations.take(i as int), dv.translations[i as int]);
            assert(dv.translations[i as int] == t@);
            assert(out@ =~= with_xflows + ser_translations(dv.translations.take(i + 1)));
        }
        i = i + 1;
    }
    proof {
        assert(dv.translations.take(dv.translations.len() as int) =~= dv.translations);
    }
    let ghost with_trans = out@;

    let mut i: usize = 0;
    while i < d.entities.len()
        invariant
            i <= d.entities.len(),
            dv == d@,
            out@ == with_trans + ser_entities(dv.entities.take(i as int)),
            with_trans == header + ser_names("page"@, dv.pages) + ser_names("xflow"@, dv.xflows)
                + ser_translations(dv.translations),
            header == ser_line("id"@, dv.id) + ser_line("name"@, dv.name) + ser_line(
                "locale"@,
                dv.locale,
            ),
        decreases d.entities.len() - i,
    {
        let e = &d.entities[i];
        push_line(&mut out, "entity", e.name.as_str());
        let ghost with_decl = out@;
        let mut j: usize = 0;
        while j < e.attributes.len()
            invariant
                j <= e.attributes.len(),
                e == &d.entities[i as int],
                i < d.entities.len(),
                dv == d@,
                out@ == with_decl + ser_names("attr"@, e@.attributes.take(j as int)),
            decreases e.attributes.len() - j,
        {
            push_line(&mut out, "attr", e.attributes[j].as_str());
            proof {
                assert(e@.attributes.take(j + 1) =~= e@.attributes.take(j as int).push(
                    e@.attributes[j as int],
                ));
                lemma_ser_names_snoc("attr"@, e@.attributes.take(j as int), e@.attributes[j as int]);
                assert(out@ =~= with_decl + ser_names("attr"@, e@.attributes.take(j + 1)));
            }
            j = j + 1;
        }
        proof {
            assert(e@.attributes.take(e@.attributes.len() as int) =~= e@.attributes);
            assert(dv.entities.take(i + 1) =~= dv.entities.take(i as int).push(
                dv.entities[i as int],
            ));
            lemma_ser_entities_snoc(dv.entities.take(i as int), dv.entities[i as int]);
            assert(dv.entities[i as int] == e@);
            assert(out@ =~= with_trans + ser_entities(dv.entities.take(i + 1)));
        }
        i = i + 1;
    }
    proof {
        assert(dv.entities.take(dv.entities.len() as int) =~= dv.entities);
        assert(out@ =~= ser_doc(dv));
    }
    out
}

// ---------------------------------------------------------------------------
// Exec parser
// ---------------------------------------------------------------------------
/// Whether the whole of `s` is a well-formed token.
pub fn check_token_str(s: &str) -> (r: bool)
    ensures
        r == wf_token(s@),
{
    let n = s.unicode_len();
    let r = check_token_range(s, 0, n);
    proof {
        assert(s@.subrange(0, n as int) =~= s@);
    }
    r
}

/// Whether the whole of `s` is newline-free text.
pub fn check_text_str(s: &str) -> (r: bool)
    ensures
        r == wf_text(s@),
{
    let n = s.unicode_len();
    let r = check_text_range(s, 0, n);
    proof {
        assert(s@.subrange(0, n as int) =~= s@);
    }
    r
}

/// Whether a document is well formed, computed field by field.
pub fn check_wf_document(d: &Document) -> (r: bool)
    ensures
        r == wf_doc(d@),
{
    if !check_token_str(d.id.as_str()) {
        return false;
    }
    if !check_token_str(d.name.as_str()) {
        return false;
    }
    if !check_token_str(d.locale.as_str()) {
        return false;
    }
    let mut i: usize = 0;
    while i < d.pages.len()
        invariant
            i <= d.pages.len(),
            forall|j: int| 0 <= j < i ==> wf_token(#[trigger] d@.pages[j]),
        decreases d.pages.len() - i,
    {
        if !check_token_str(d.pages[i].as_str()) {
            assert(!wf_token(d@.pages[i as int]));
            return false;
        }
        i = i + 1;
    }
    let mut i: usize = 0;
    while i < d.xflows.len()
        invariant
            i <= d.xflows.len(),
            forall|j: int| 0 <= j < i ==> wf_token(#[trigger] d@.xflows[j]),
        decreases d.xflows.len() - i,
    {
        if !check_token_str(d.xflows[i].as_str()) {
            assert(!wf_token(d@.xflows[i as int]));
            return false;
        }
        i = i + 1;
    }
    let mut i: usize = 0;
    while i < d.translations.len()
        invariant
            i <= d.translations.len(),
            forall|j: int| 0 <= j < i ==> wf_translation(#[trigger] d@.translations[j]),
        decreases d.translations.len() - i,
    {
        let t = &d.translations[i];
        if !check_token_str(t.locale.as_str()) {
            assert(!wf_translation(d@.translations[i as int]));
            return false;
        }
        let mut j: usize = 0;
        while j < t.entries.len()
            invariant
                j <= t.entries.len(),
                t == &d.translations[i as int],
                i < d.translations.len(),
                forall|m: int| 0 <= m < j ==> wf_token(#[trigger] t@.entries[m].key),
                forall|m: int| 0 <= m < j ==> wf_text(#[trigger] t@.entries[m].value),
            decreases t.entries.len() - j,
        {
            if !check_token_str(t.entries[j].key.as_str()) {
                assert(!wf_token(t@.entries[j as int].key));
                assert(!wf_translation(d@.translations[i as int]));
                return false;
            }
            if !check_text_str(t.entries[j].value.as_str()) {
                assert(!wf_text(t@.entries[j as int].value));
                assert(!wf_translation(d@.translations[i as int]));
                return false;
            }
            j = j + 1;
        }
        assert(wf_translation(d@.translations[i as int]));
        i = i + 1;
    }
    let mut i: usize = 0;
    while i < d.entities.len()
        invariant
            i <= d.entities.len(),
            forall|j: int| 0 <= j < i ==> wf_entity(#[trigger] d@.entities[j]),
        decreases d.entities.len() - i,
    {
        let e = &d.entities[i];
        if !check_token_str(e.name.as_str()) {
            assert(!wf_entity(d@.entities[i as int]));
            return false;
        }
        let mut j: usize = 0;
        while j < e.attributes.len()
            invariant
                j <= e.attributes.len(),
                e == &d.entities[i as int],
                i < d.entities.len(),
                forall|m: int| 0 <= m < j ==> wf_token(#[trigger] e@.attributes[m]),
            decreases e.attributes.len() - j,
        {
            if !check_token_str(e.attributes[j].as_str()) {
                assert(!wf_token(e@.attributes[j as int]));
                assert(!wf_entity(d@.entities[i as int]));
                return false;
            }
            j = j + 1;
        }
        assert(wf_entity(d@.entities[i as int]));
        i = i + 1;
    }
    true
}

/// Reads the line `s[from..to]` as one record and folds it into `doc`;
/// reports whether the line was accepted, leaving `doc` unchanged otherwise.
fn apply_line_range(s: &str, from: usize, to: usize, doc: &mut Document) -> (ok: bool)
    requires
        from <= to <= s@.len(),
    ensures
        ({
            let line = s@.subrange(from as int, to as int);
            match apply_line(old(doc)@, line) {
                Some(d2) => ok && final(doc)@ == d2,
                None => !ok && final(doc)@ == old(doc)@,
            }
        }),
{
    let ghost line = s@.subrange(from as int, to as int);
    let ksp = find_char_range(s, ' ', from, to);
    proof {
        lemma_find_char_range(s@, ' ', from as int, to as int, ksp);
    }
    let k = match ksp {
        None => {
            assert(find_char(line, ' ') == -1);
            return false;
        },
        Some(k) => k,
    };
    let ghost tag = line.subrange(0, k - from);
    let ghost rem = line.subrange(k - from + 1, line.len() as int);
    proof {
        assert(tag =~= s@.subrange(from as int, k as int));
        assert(rem =~= s@.subrange(k + 1, to as int));
    }
    if range_eq_str(s, from, k, "id") {
        if check_token_range(s, k + 1, to) {
            if doc.id.as_str().is_empty() {
                doc.id = copy_range(s, k + 1, to);
                proof {
                    assert(final(doc)@ =~= apply_line(old(doc)@, line).unwrap());
                }
                true
            } else {
                false
            }
        } else {
            false
        }
    } else if range_eq_str(s, from, k, "name") {
        if check_token_range(s, k + 1, to) {
            if doc.name.as_str().is_empty() {
                doc.name = copy_range(s, k + 1, to);
                proof {
                    assert(final(doc)@ =~= apply_line(old(doc)@, line).unwrap());
                }
                true
            } else {
                false
            }
        } else {
            false
        }
    } else if range_eq_str(s, from, k, "locale") {
        if check_token_range(s, k + 1, to) {
            if doc.locale.as_str().is_empty() {
                doc.locale = copy_range(s, k + 1, to);
                proof {
                    assert(final(doc)@ =~= apply_line(old(doc)@, line).unwrap());
                }
                true
            } else {
                false
            }
        } else {
            false
        }
    } else if range_eq_str(s, from, k, "page") {
        if check_token_range(s, k + 1, to) {
            doc.pages.push(copy_range(s, k + 1, to));
            proof {
                assert(final(doc)@ =~= apply_line(old(doc)@, line).unwrap());
            }
            true
        } else {
            false
        }
    } else if range_eq_str(s, from, k, "xflow") {
        if check_token_range(s, k + 1, to) {
            doc.xflows.push(copy_range(s, k + 1, to));
            proof {
                assert(final(doc)@ =~= apply_line(old(doc)@, line).unwrap());
            }
            true
        } else {
            false
        }
    } else if range_eq_str(s, from, k, "trans") {
        if check_token_range(s, k + 1, to) {
            doc.translations.push(
                Translation { locale: copy_range(s, k + 1, to), entries: Vec::new() },
            );
            proof {
                assert(final(doc)@ =~~= apply_line(old(doc)@, line).unwrap());
            }
            true
        } else {
            false
        }
    } else if range_eq_str(s, from, k, "entity") {
        if check_token_range(s, k + 1, to) {
            doc.entities.push(
                Entity { name: copy_range(s, k + 1, to), attributes: Vec::new() },
            );
            proof {
                assert(final(doc)@ =~~= apply_line(old(doc)@, line).unwrap());
            }
            true
        } else {
            false
        }
    } else if range_eq_str(s, from, k, "attr") {
        if check_token_range(s, k + 1, to) {
            if doc.entities.len() > 0 {
                let mut e = doc.entities.pop().unwrap();
                e.attributes.push(copy_range(s, k + 1, to));
                doc.entities.push(e);
                proof {
                    let b = old(doc)@;
                    let last = b.entities.len() - 1;
                    assert(final(doc)@.entities =~~= b.entities.update(
                        last,
                        EntityV {
                            attributes: b.entities[last].attributes.push(rem),
                            ..b.entities[last]
                        },
                    ));
                    assert(final(doc)@ =~~= apply_line(old(doc)@, line).unwrap());
                }
                true
            } else {
                false
            }
        } else {
            false
        }
    } else if range_eq_str(s, from, k, "entry") {
        let jsp = find_char_range(s, ' ', k + 1, to);
        proof {
            lemma_find_char_range(s@, ' ', k + 1, to as int, jsp);
        }
        let j = match jsp {
            None => {
                assert(find_char(rem, ' ') == -1);
                return false;
            },
            Some(j) => j,
        };
        let ghost key = rem.subrange(0, j - (k + 1));
        let ghost value = rem.subrange(j - (k + 1) + 1, rem.len() as int);
        proof {
            assert(key =~= s@.subrange(k + 1, j as int));
            assert(value =~= s@.subrange(j + 1, to as int));
        }
        if check_token_range(s, k + 1, j) && check_text_range(s, j + 1, to) {
            if doc.translations.len() > 0 {
                let mut t = doc.translations.pop().unwrap();
                t.entries.push(Entry { key: copy_range(s, k + 1, j), value: copy_range(s, j + 1, to) });
                doc.translations.push(t);
                proof {
                    let b = old(doc)@;
                    let last = b.translations.len() - 1;
                    assert(final(doc)@.translations =~~= b.translations.update(
                        last,
                        TranslationV {
                            entries: b.translations[last].entries.push(
                                EntryV { key: key, value: value },
                            ),
                            ..b.translations[last]
                        },
                    ));
                    assert(final(doc)@ =~~= apply_line(old(doc)@, line).unwrap());
                }
                true
            } else {
                false
            }
        } else {
            false
        }
    } else {
        false
    }
}

/// Parses a payload into a document: the functional inverse of
/// `serialize_document` on everything the serializer emits, and a typed
/// `BadFormat` rejection of everything else.
pub fn parse_document(s: &str) -> (r: Result<Document, LoadError>)
    ensures
        match r {
            Ok(d) => parse_doc(s@) == Some(d@) && wf_doc(d@),
            Err(e) => parse_doc(s@) is None && e is BadFormat,
        },
{
    let n = s.unicode_len();
    let mut doc = Document {
        id: String::new(),
        name: String::new(),
        locale: String::new(),
        pages: Vec::new(),
        xflows: Vec::new(),
        translations: Vec::new(),
        entities: Vec::new(),
    };
    proof {
        assert(doc@ =~= empty_docv());
        assert(s@.subrange(0, s@.len() as int) =~= s@);
    }
    let mut pos: usize = 0;
    while pos < n
        invariant
            pos <= n,
            n == s@.len(),
            parse_rest(empty_docv(), s@) == parse_rest(doc@, s@.subrange(pos as int, n as int)),
        decreases n - pos,
    {
        let ghost suffix = s@.subrange(pos as int, n as int);
        let nl = find_char_range(s, '\n', pos, n);
        proof {
            lemma_find_char_range(s@, '\n', pos as int, n as int, nl);
        }
        let k = match nl {
            None => {
                assert(find_char(suffix, '\n') == -1);
                return Err(LoadError::BadFormat(String::from_str("unterminated final line")));
            },
            Some(k) => k,
        };
        let ghost line = suffix.subrange(0, k - pos);
        let ghost rest = suffix.subrange(k - pos + 1, suffix.len() as int);
        proof {
            assert(line =~= s@.subrange(pos as int, k as int));
            assert(rest =~= s@.subrange(k + 1, n as int));
        }
        let ok = apply_line_range(s, pos, k, &mut doc);
        if !ok {
            return Err(LoadError::BadFormat(String::from_str("unrecognized record")));
        }
        pos = k + 1;
    }
    proof {
        assert(s@.subrange(n as int, n as int) =~= Seq::<char>::empty());
    }
    if check_wf_document(&doc) {
        Ok(doc)
    } else {
        Err(LoadError::BadFormat(String::from_str("incomplete document")))
    }
}

// ---------------------------------------------------------------------------
// Round trip
// ---------------------------------------------------------------------------
/// The record tags, character by character, so that proofs can compute with
/// them and tell them apart.
proof fn lemma_tag_chars()
    ensures
        "id"@ == seq!['i', 'd'],
        "name"@ == seq!['n', 'a', 'm', 'e'],
        "locale"@ == seq!['l', 'o', 'c', 'a', 'l', 'e'],
        "page"@ == seq!['p', 'a', 'g', 'e'],
        "xflow"@ == seq!['x', 'f', 'l', 'o', 'w'],
        "trans"@ == seq!['t', 'r', 'a', 'n', 's'],
        "entity"@ == seq!['e', 'n', 't', 'i', 't', 'y'],
        "attr"@ == seq!['a', 't', 't', 'r'],
        "entry"@ == seq!['e', 'n', 't', 'r', 'y'],
        " "@ == seq![' '],
        "\n"@ == seq!['\n'],
{
    reveal_strlit("id");
    reveal_strlit("name");
    reveal_strlit("locale");
    reveal_strlit("page");
    reveal_strlit("xflow");
    reveal_strlit("trans");
    reveal_strlit("entity");
    reveal_strlit("attr");
    reveal_strlit("entry");
    reveal_strlit(" ");
    reveal_strlit("\n");
    assert("id"@ =~= seq!['i', 'd']);
    assert("name"@ =~= seq!['n', 'a', 'm', 'e']);
    assert("locale"@ =~= seq!['l', 'o', 'c', 'a', 'l', 'e']);
    assert("page"@ =~= seq!['p', 'a', 'g', 'e']);
    assert("xflow"@ =~= seq!['x', 'f', 'l', 'o', 'w']);
    assert("trans"@ =~= seq!['t', 'r', 'a', 'n', 's']);
    assert("entity"@ =~= seq!['e', 'n', 't', 'i', 't', 'y']);
    assert("attr"@ =~= seq!['a', 't', 't', 'r']);
    assert("entry"@ =~= seq!['e', 'n', 't', 'r', 'y']);
    assert(" "@ =~= seq![' ']);
    assert("\n"@ =~= seq!['\n']);
}

/// The line body of one record: tag, space, argument — everything before the
/// newline.
spec fn line_of(tag: Seq<char>, arg: Seq<char>) -> Seq<char> {
    tag + " "@ + arg
}

/// Parsing one terminated line folds it and moves on.
proof fn lemma_parse_rest_line(b: DocV, line: Seq<char>, rest: Seq<char>)
    requires
        wf_text(line),
    ensures
        parse_rest(b, line + "\n"@ + rest) == (match apply_line(b, line) {
            Some(b2) => parse_rest(b2, rest),
            None => None::<DocV>,
        }),
{
    lemma_tag_chars();
    let s = line + "\n"@ + rest;
    assert(s =~= line + (seq!['\n'] + rest));
    assert((seq!['\n'] + rest)[0] == '\n');
    assert(find_char(seq!['\n'] + rest, '\n') == 0);
    lemma_find_char_append(line, seq!['\n'] + rest, '\n');
    assert(find_char(s, '\n') == line.len() as int);
    assert(s.len() > 0);
    assert(s.subrange(0, line.len() as int) =~= line);
    assert(s.subrange(line.len() as int + 1, s.len() as int) =~= rest);
}

/// Splitting a line body at its first space recovers tag and argument, for
/// any space-free tag.
proof fn lemma_split_line_of(tag: Seq<char>, arg: Seq<char>)
    requires
        forall|i: int| 0 <= i < tag.len() ==> #[trigger] tag[i] != ' ',
    ensures
        find_char(line_of(tag, arg), ' ') == tag.len() as int,
        line_of(tag, arg).subrange(0, tag.len() as int) == tag,
        line_of(tag, arg).subrange(tag.len() as int + 1, line_of(tag, arg).len() as int) == arg,
{
    lemma_tag_chars();
    let body = line_of(tag, arg);
    assert(body =~= tag + (seq![' '] + arg));
    assert((seq![' '] + arg)[0] == ' ');
    assert(find_char(seq![' '] + arg, ' ') == 0);
    lemma_find_char_append(tag, seq![' '] + arg, ' ');
    assert(body.subrange(0, tag.len() as int) =~= tag);
    assert(body.subrange(tag.len() as int + 1, body.len() as int) =~= arg);
}

/// A `page` section folds into appended pages.
proof fn lemma_parse_pages(b: DocV, names: Seq<Seq<char>>, rest: Seq<char>)
    requires
        wf_tokens(names),
    ensures
        parse_rest(b, ser_names("page"@, names) + rest) == parse_rest(
            DocV { pages: b.pages + names, ..b },
            rest,
        ),
    decreases names.len(),
{
    lemma_tag_chars();
    if names.len() == 0 {
        assert(ser_names("page"@, names) + rest =~= rest);
        assert(DocV { pages: b.pages + names, ..b } =~= b);
    } else {
        let x = names[0];
        assert(wf_token(x));
        let tail = ser_names("page"@, names.drop_first()) + rest;
        let line = line_of("page"@, x);
        assert(ser_names("page"@, names) + rest =~= line + "\n"@ + tail);
        assert(wf_text(line)) by {
            assert(forall|i: int| 0 <= i < line.len() ==> #[trigger] line[i] != '\n');
        }
        lemma_parse_rest_line(b, line, tail);
        lemma_split_line_of("page"@, x);
        let b2 = DocV { pages: b.pages.push(x), ..b };
        assert(apply_line(b, line) == Some(b2));
        lemma_parse_pages(b2, names.drop_first(), rest);
        assert(DocV { pages: b2.pages + names.drop_first(), ..b2 } =~= DocV {
            pages: b.pages + names,
            ..b
        });
    }
}

/// An `xflow` section folds into appended flows.
proof fn lemma_parse_xflows(b: DocV, names: Seq<Seq<char>>, rest: Seq<char>)
    requires
        wf_tokens(names),
    ensures
        parse_rest(b, ser_names("xflow"@, names) + rest) == parse_rest(
            DocV { xflows: b.xflows + names, ..b },
            rest,
        ),
    decreases names.len(),
{
    lemma_tag_chars();
    if names.len() == 0 {
        assert(ser_names("xflow"@, names) + rest =~= rest);
        assert(DocV { xflows: b.xflows + names, ..b } =~= b);
    } else {
        let x = names[0];
        assert(wf_token(x));
        let tail = ser_names("xflow"@, names.drop_first()) + rest;
        let line = line_of("xflow"@, x);
        assert(ser_names("xflow"@, names) + rest =~= line + "\n"@ + tail);
        assert(wf_text(line)) by {
            assert(forall|i: int| 0 <= i < line.len() ==> #[trigger] line[i] != '\n');
        }
        lemma_parse_rest_line(b, line, tail);
        lemma_split_line_of("xflow"@, x);
        let b2 = DocV { xflows: b.xflows.push(x), ..b };
        assert(apply_line(b, line) == Some(b2));
        lemma_parse_xflows(b2, names.drop_first(), rest);
        assert(DocV { xflows: b2.xflows + names.drop_first(), ..b2 } =~= DocV {
            xflows: b.xflows + names,
            ..b
        });
    }
}

/// `entry` records fold into the open translation section.
proof fn lemma_parse_entries(b: DocV, es: Seq<EntryV>, rest: Seq<char>)
    requires
        b.translations.len() > 0,
        forall|i: int| 0 <= i < es.len() ==> wf_token(#[trigger] es[i].key),
        forall|i: int| 0 <= i < es.len() ==> wf_text(#[trigger] es[i].value),
    ensures
        ({
            let last = b.translations.len() - 1;
            let t = b.translations[last];
            parse_rest(b, ser_entries(es) + rest) == parse_rest(
                DocV {
                    translations: b.translations.update(
                        last,
                        TranslationV { entries: t.entries + es, ..t },
                    ),
                    ..b
                },
                rest,
            )
        }),
    decreases es.len(),
{
    lemma_tag_chars();
    let last = b.translations.len() - 1;
    let t = b.translations[last];
    if es.len() == 0 {
        assert(ser_entries(es) + rest =~= rest);
        assert(DocV {
            translations: b.translations.update(
                last,
                TranslationV { entries: t.entries + es, ..t },
            ),
            ..b
        } =~~= b);
    } else {
        let e = es[0];
        let arg = e.key + " "@ + e.value;
        let line = line_of("entry"@, arg);
        let tail = ser_entries(es.drop_first()) + rest;
        assert(ser_entries(es) + rest =~= line + "\n"@ + tail);
        assert(wf_text(line)) by {
            assert(forall|i: int| 0 <= i < line.len() ==> #[trigger] line[i] != '\n');
        }
        lemma_parse_rest_line(b, line, tail);
        lemma_split_line_of("entry"@, arg);
        lemma_split_line_of(e.key, e.value);
        assert(parse_record(line) == Some(Record::TransEntry(e.key, e.value)));
        let b2 = DocV {
            translations: b.translations.update(
                last,
                TranslationV { entries: t.entries.push(e), ..t },
            ),
            ..b
        };
        assert(apply_line(b, line) is Some);
        assert(apply_line(b, line) == Some(b2)) by {
            assert(apply_line(b, line).unwrap() =~~= b2);
        }
        lemma_parse_entries(b2, es.drop_first(), rest);
        let last2 = b2.translations.len() - 1;
        let t2 = b2.translations[last2];
        assert(DocV {
            translations: b2.translations.update(
                last2,
                TranslationV { entries: t2.entries + es.drop_first(), ..t2 },
            ),
            ..b2
        } =~~= DocV {
            translations: b.translations.update(
                last,
                TranslationV { entries: t.entries + es, ..t },
            ),
            ..b
        });
    }
}

/// `attr` records fold into the open entity section.
proof fn lemma_parse_attrs(b: DocV, attrs: Seq<Seq<char>>, rest: Seq<char>)
    requires
        b.entities.len() > 0,
        wf_tokens(attrs),
    ensures
        ({
            let last = b.entities.len() - 1;
            let e = b.entities[last];
            parse_rest(b, ser_names("attr"@, attrs) + rest) == parse_rest(
                DocV {
                    entities: b.entities.update(
                        last,
                        EntityV { attributes: e.attributes + attrs, ..e },
                    ),
                    ..b
                },
                rest,
            )
        }),
    decreases attrs.len(),
{
    lemma_tag_chars();
    let last = b.entities.len() - 1;
    let e = b.entities[last];
    if attrs.len() == 0 {
        assert(ser_names("attr"@, attrs) + rest =~= rest);
        assert(DocV {
            entities: b.entities.update(last, EntityV { attributes: e.attributes + attrs, ..e }),
            ..b
        } =~~= b);
    } else {
        let x = attrs[0];
        assert(wf_token(x));
        let line = line_of("attr"@, x);
        let tail = ser_names("attr"@, attrs.drop_first()) + rest;
        assert(ser_names("attr"@, attrs) + rest =~= line + "\n"@ + tail);
        assert(wf_text(line)) by {
            assert(forall|i: int| 0 <= i < line.len() ==> #[trigger] line[i] != '\n');
        }
        lemma_parse_rest_line(b, line, tail);
        lemma_split_line_of("attr"@, x);
        let b2 = DocV {
            entities: b.entities.update(last, EntityV { attributes: e.attributes.push(x), ..e }),
            ..b
        };
        assert(apply_line(b, line) is Some);
        assert(apply_line(b, line) == Some(b2)) by {
            assert(apply_line(b, line).unwrap() =~~= b2);
        }
        lemma_parse_attrs(b2, attrs.drop_first(), rest);
        let last2 = b2.entities.len() - 1;
        let e2 = b2.entities[last2];
        assert(DocV {
            entities: b2.entities.update(
                last2,
                EntityV { attributes: e2.attributes + attrs.drop_first(), ..e2 },
            ),
            ..b2
        } =~~= DocV {
            entities: b.entities.update(last, EntityV { attributes: e.attributes + attrs, ..e }),
            ..b
        });
    }
}

/// Translation sections fold into appended translations.
proof fn lemma_parse_translations(b: DocV, ts: Seq<TranslationV>, rest: Seq<char>)
    requires
        forall|i: int| 0 <= i < ts.len() ==> wf_translation(#[trigger] ts[i]),
    ensures
        parse_rest(b, ser_translations(ts) + rest) == parse_rest(
            DocV { translations: b.translations + ts, ..b },
            rest,
        ),
    decreases ts.len(),
{
    lemma_tag_chars();
    if ts.len() == 0 {
        assert(ser_translations(ts) + rest =~= rest);
        assert(DocV { translations: b.translations + ts, ..b } =~= b);
    } else {
        let t = ts[0];
        assert(wf_translation(t));
        let line = line_of("trans"@, t.locale);
        let tail1 = ser_entries(t.entries) + (ser_translations(ts.drop_first()) + rest);
        assert(ser_translations(ts) + rest =~= line + "\n"@ + tail1);
        assert(wf_text(line)) by {
            assert(forall|i: int| 0 <= i < line.len() ==> #[trigger] line[i] != '\n');
        }
        lemma_parse_rest_line(b, line, tail1);
        lemma_split_line_of("trans"@, t.locale);
        let b2 = DocV {
            translations: b.translations.push(
                TranslationV { locale: t.locale, entries: Seq::empty() },
            ),
            ..b
        };
        assert(apply_line(b, line) is Some);
        assert(apply_line(b, line) == Some(b2)) by {
            assert(apply_line(b, line).unwrap() =~~= b2);
        }
        lemma_parse_entries(b2, t.entries, ser_translations(ts.drop_first()) + rest);
        let last2 = b2.translations.len() - 1;
        let t2 = b2.translations[last2];
        let b3 = DocV {
            translations: b2.translations.update(
                last2,
                TranslationV { entries: t2.entries + t.entries, ..t2 },
            ),
            ..b2
        };
        assert(b3 =~~= DocV { translations: b.translations.push(t), ..b });
        lemma_parse_translations(
            DocV { translations: b.translations.push(t), ..b },
            ts.drop_first(),
            rest,
        );
        assert(DocV {
            translations: b.translations.push(t) + ts.drop_first(),
            ..b
        } =~= DocV { translations: b.translations + ts, ..b });
    }
}

/// Entity sections fold into appended entities.
proof fn lemma_parse_entities(b: DocV, es: Seq<EntityV>, rest: Seq<char>)
    requires
        forall|i: int| 0 <= i < es.len() ==> wf_entity(#[trigger] es[i]),
    ensures
        parse_rest(b, ser_entities(es) + rest) == parse_rest(
            DocV { entities: b.entities + es, ..b },
            rest,
        ),
    decreases es.len(),
{
    lemma_tag_chars();
    if es.len() == 0 {
        assert(ser_entities(es) + rest =~= rest);
        assert(DocV { entities: b.entities + es, ..b } =~= b);
    } else {
        let e = es[0];
        assert(wf_entity(e));
        let line = line_of("entity"@, e.name);
        let tail1 = ser_names("attr"@, e.attributes) + (ser_entities(es.drop_first()) + rest);
        assert(ser_entities(es) + rest =~= line + "\n"@ + tail1);
        assert(wf_text(line)) by {
            assert(forall|i: int| 0 <= i < line.len() ==> #[trigger] line[i] != '\n');
        }
        lemma_parse_rest_line(b, line, tail1);
        lemma_split_line_of("entity"@, e.name);
        let b2 = DocV {
            entities: b.entities.push(EntityV { name: e.name, attributes: Seq::empty() }),
            ..b
        };
        assert(apply_line(b, line) is Some);
        assert(apply_line(b, line) == Some(b2)) by {
            assert(apply_line(b, line).unwrap() =~~= b2);
        }
        lemma_parse_attrs(b2, e.attributes, ser_entities(es.drop_first()) + rest);
        let last2 = b2.entities.len() - 1;
        let e2 = b2.entities[last2];
        let b3 = DocV {
            entities: b2.entities.update(
                last2,
                EntityV { attributes: e2.attributes + e.attributes, ..e2 },
            ),
            ..b2
        };
        assert(b3 =~~= DocV { entities: b.entities.push(e), ..b });
        lemma_parse_entities(DocV { entities: b.entities.push(e), ..b }, es.drop_first(), rest);
        assert(DocV { entities: b.entities.push(e) + es.drop_first(), ..b } =~= DocV {
            entities: b.entities + es,
            ..b
        });
    }
}

/// One header line (`id`, `name` or `locale`) folds into the empty field.
proof fn lemma_parse_header(b: DocV, d: DocV, rest: Seq<char>)
    requires
        wf_doc(d),
        b.id.len() == 0,
        b.name.len() == 0,
        b.locale.len() == 0,
    ensures
        parse_rest(b, ser_line("id"@, d.id) + (ser_line("name"@, d.name) + (ser_line(
            "locale"@,
            d.locale,
        ) + rest))) == parse_rest(DocV { id: d.id, name: d.name, locale: d.locale, ..b }, rest),
{
    lemma_tag_chars();
    let l1 = line_of("id"@, d.id);
    let t1 = ser_line("name"@, d.name) + (ser_line("locale"@, d.locale) + rest);
    assert(ser_line("id"@, d.id) + t1 =~= l1 + "\n"@ + t1);
    assert(wf_text(l1)) by {
        assert(forall|i: int| 0 <= i < l1.len() ==> #[trigger] l1[i] != '\n');
    }
    lemma_parse_rest_line(b, l1, t1);
    lemma_split_line_of("id"@, d.id);
    let b1 = DocV { id: d.id, ..b };
    assert(apply_line(b, l1) == Some(b1));

    let l2 = line_of("name"@, d.name);
    let t2 = ser_line("locale"@, d.locale) + rest;
    assert(t1 =~= l2 + "\n"@ + t2);
    assert(wf_text(l2)) by {
        assert(forall|i: int| 0 <= i < l2.len() ==> #[trigger] l2[i] != '\n');
    }
    lemma_parse_rest_line(b1, l2, t2);
    lemma_split_line_of("name"@, d.name);
    let b2 = DocV { name: d.name, ..b1 };
    assert(apply_line(b1, l2) == Some(b2));

    let l3 = line_of("locale"@, d.locale);
    assert(t2 =~= l3 + "\n"@ + rest);
    assert(wf_text(l3)) by {
        assert(forall|i: int| 0 <= i < l3.len() ==> #[trigger] l3[i] != '\n');
    }
    lemma_parse_rest_line(b2, l3, rest);
    lemma_split_line_of("locale"@, d.locale);
    let b3 = DocV { locale: d.locale, ..b2 };
    assert(apply_line(b2, l3) == Some(b3));
    assert(b3 =~= DocV { id: d.id, name: d.name, locale: d.locale, ..b });
}

/// The round trip: parsing a serialized well-formed document gives back
/// exactly that document.
pub proof fn lemma_round_trip(d: DocV)
    requires
        wf_doc(d),
    ensures
        parse_doc(ser_doc(d)) == Some(d),
{
    let b0 = empty_docv();
    let sp = ser_names("page"@, d.pages);
    let sx = ser_names("xflow"@, d.xflows);
    let st = ser_translations(d.translations);
    let se = ser_entities(d.entities);
    let tail_after_header = sp + (sx + (st + (se + Seq::<char>::empty())));
    assert(ser_doc(d) =~= ser_line("id"@, d.id) + (ser_line("name"@, d.name) + (ser_line(
        "locale"@,
        d.locale,
    ) + tail_after_header)));
    lemma_parse_header(b0, d, tail_after_header);
    let b3 = DocV { id: d.id, name: d.name, locale: d.locale, ..b0 };

    lemma_parse_pages(b3, d.pages, sx + (st + (se + Seq::<char>::empty())));
    let b4 = DocV { pages: b3.pages + d.pages, ..b3 };
    assert(b4.pages =~= d.pages);

    lemma_parse_xflows(b4, d.xflows, st + (se + Seq::<char>::empty()));
    let b5 = DocV { xflows: b4.xflows + d.xflows, ..b4 };
    assert(b5.xflows =~= d.xflows);

    lemma_parse_translations(b5, d.translations, se + Seq::<char>::empty());
    let b6 = DocV { translations: b5.translations + d.translations, ..b5 };
    assert(b6.translations =~= d.translations);

    lemma_parse_entities(b6, d.entities, Seq::<char>::empty());
    let b7 = DocV { entities: b6.entities + d.entities, ..b6 };
    assert(b7 =~= d);
    assert(parse_rest(d, Seq::<char>::empty()) == Some(d));
    assert(parse_rest(b0, ser_doc(d)) == Some(d));
}

} // verus!
