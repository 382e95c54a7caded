//! The document tree this crate stores and mutates: an identified, named root
//! with page and flow components, per-locale translation tables, and a small
//! domain of entities with attributes. The body's full schema belongs to an
//! external collaborator; what stands here is exactly the part the session
//! commands and the store contract read and write.

use vstd::prelude::*;

use crate::text::{is_token_char, wf_text, wf_token};

verus! {

/// One translated key/value pair.
#[derive(Clone, Debug)]
pub struct Entry {
    pub key: String,
    pub value: String,
}

/// Spec model of an `Entry`.
#[verifier::ext_equal]
pub struct EntryV {
    pub key: Seq<char>,
    pub value: Seq<char>,
}

impl View for Entry {
    type V = EntryV;

    open spec fn view(&self) -> EntryV {
        EntryV { key: self.key@, value: self.value@ }
    }
}

/// One locale's translation table.
#[derive(Clone, Debug)]
pub struct Translation {
    pub locale: String,
    pub entries: Vec<Entry>,
}

/// Spec model of a `Translation`.
#[verifier::ext_equal]
pub struct TranslationV {
    pub locale: Seq<char>,
    pub entries: Seq<EntryV>,
}

/// The views of a sequence of owned strings.
pub open spec fn strs(s: Seq<String>) -> Seq<Seq<char>> {
    s.map_values(|x: String| x@)
}

/// The views of a sequence of entries.
pub open spec fn entry_views(s: Seq<Entry>) -> Seq<EntryV> {
    s.map_values(|e: Entry| e@)
}

impl View for Translation {
    type V = TranslationV;

    open spec fn view(&self) -> TranslationV {
        TranslationV { locale: self.locale@, entries: entry_views(self.entries@) }
    }
}

/// One domain entity and its attribute names.
#[derive(Clone, Debug)]
pub struct Entity {
    pub name: String,
    pub attributes: Vec<String>,
}

/// Spec model of an `Entity`.
#[verifier::ext_equal]
pub struct EntityV {
    pub name: Seq<char>,
    pub attributes: Seq<Seq<char>>,
}

impl View for Entity {
    type V = EntityV;

    open spec fn view(&self) -> EntityV {
        EntityV { name: self.name@, attributes: strs(self.attributes@) }
    }
}

/// The views of a sequence of translations.
pub open spec fn translation_views(s: Seq<Translation>) -> Seq<TranslationV> {
    s.map_values(|t: Translation| t@)
}

/// The views of a sequence of entities.
pub open spec fn entity_views(s: Seq<Entity>) -> Seq<EntityV> {
    s.map_values(|e: Entity| e@)
}

/// The root artifact: identity, display name, active locale, and the
/// component lists the interactive commands operate on.
#[derive(Clone, Debug)]
pub struct Document {
    pub id: String,
    pub name: String,
    pub locale: String,
    pub pages: Vec<String>,
    pub xflows: Vec<String>,
    pub translations: Vec<Translation>,
    pub entities: Vec<Entity>,
}

/// Spec model of a `Document`.
#[verifier::ext_equal]
pub struct DocV {
    pub id: Seq<char>,
    pub name: Seq<char>,
    pub locale: Seq<char>,
    pub pages: Seq<Seq<char>>,
    pub xflows: Seq<Seq<char>>,
    pub translations: Seq<TranslationV>,
    pub entities: Seq<EntityV>,
}

impl View for Document {
    type V = DocV;

    open spec fn view(&self) -> DocV {
        DocV {
            id: self.id@,
            name: self.name@,
            locale: self.locale@,
            pages: strs(self.pages@),
            xflows: strs(self.xflows@),
            translations: translation_views(self.translations@),
            entities: entity_views(self.entities@),
        }
    }
}

/// The component kinds a session command can address.
#[derive(Clone, Copy, Debug, PartialEq, Eq, Structural)]
pub enum ComponentKind {
    Page,
    Xflow,
    Translation,
}

// ---------------------------------------------------------------------------
// Well-formedness
// ---------------------------------------------------------------------------
/// Every name in a sequence is a well-formed token.
pub open spec fn wf_tokens(s: Seq<Seq<char>>) -> bool {
    forall|i: int| 0 <= i < s.len() ==> wf_token(#[trigger] s[i])
}

/// Entries whose keys are tokens and whose values are newline-free text.
pub open spec fn wf_entries(es: Seq<EntryV>) -> bool {
    &&& forall|i: int| 0 <= i < es.len() ==> wf_token(#[trigger] es[i].key)
    &&& forall|i: int| 0 <= i < es.len() ==> wf_text(#[trigger] es[i].value)
}

/// A translation is well formed when its locale and keys are tokens and its
/// values are newline-free text.
pub open spec fn wf_translation(t: TranslationV) -> bool {
    &&& wf_token(t.locale)
    &&& wf_entries(t.entries)
}

/// An entity is well formed when its name and attributes are tokens.
pub open spec fn wf_entity(e: EntityV) -> bool {
    &&& wf_token(e.name)
    &&& wf_tokens(e.attributes)
}

/// Every translation of a sequence is well formed.
pub open spec fn wf_translations(ts: Seq<TranslationV>) -> bool {
    forall|i: int| 0 <= i < ts.len() ==> wf_translation(#[trigger] ts[i])
}

/// Every entity of a sequence is well formed.
pub open spec fn wf_entities(es: Seq<EntityV>) -> bool {
    forall|i: int| 0 <= i < es.len() ==> wf_entity(#[trigger] es[i])
}

/// A document the codec can persist: every stored string respects the token
/// and text grammar.
pub open spec fn wf_doc(d: DocV) -> bool {
    &&& wf_token(d.id)
    &&& wf_token(d.name)
    &&& wf_token(d.locale)
    &&& wf_tokens(d.pages)
    &&& wf_tokens(d.xflows)
    &&& wf_translations(d.translations)
    &&& wf_entities(d.entities)
}

/// No name occurs twice.
pub open spec fn distinct_names(s: Seq<Seq<char>>) -> bool {
    forall|i: int, j: int| 0 <= i < j < s.len() ==> #[trigger] s[i] != #[trigger] s[j]
}

/// The locales of a sequence of translations, in order.
pub open spec fn locales_of(ts: Seq<TranslationV>) -> Seq<Seq<char>> {
    ts.map_values(|t: TranslationV| t.locale)
}

/// The names of a sequence of entities, in order.
pub open spec fn entity_names_of(es: Seq<EntityV>) -> Seq<Seq<char>> {
    es.map_values(|e: EntityV| e.name)
}

/// Every translation's keys are free of duplicates.
pub open spec fn all_keys_distinct(ts: Seq<TranslationV>) -> bool {
    forall|i: int| 0 <= i < ts.len() ==> distinct_names(keys_of((#[trigger] ts[i]).entries))
}

/// Every entity's attributes are free of duplicates.
pub open spec fn all_attrs_distinct(es: Seq<EntityV>) -> bool {
    forall|i: int| 0 <= i < es.len() ==> distinct_names((#[trigger] es[i]).attributes)
}

/// A semantically valid document: well formed, with unique component names,
/// unique locales and keys, and unique entity and attribute names.
pub open spec fn valid_doc(d: DocV) -> bool {
    &&& wf_doc(d)
    &&& distinct_names(d.pages)
    &&& distinct_names(d.xflows)
    &&& distinct_names(locales_of(d.translations))
    &&& all_keys_distinct(d.translations)
    &&& distinct_names(entity_names_of(d.entities))
    &&& all_attrs_distinct(d.entities)
}

// ---------------------------------------------------------------------------
// Construction
// ---------------------------------------------------------------------------
/// The document a freshly initialized store root holds.
pub open spec fn spec_default_doc() -> DocV {
    DocV {
        id: "default"@,
        name: "default"@,
        locale: "en_US"@,
        pages: Seq::empty(),
        xflows: Seq::empty(),
        translations: Seq::empty(),
        entities: Seq::empty(),
    }
}

// ---------------------------------------------------------------------------
// Working-copy transformations, spec side
// ---------------------------------------------------------------------------
/// The keys of a translation's entries, in order.
pub open spec fn keys_of(es: Seq<EntryV>) -> Seq<Seq<char>> {
    es.map_values(|e: EntryV| e.key)
}

/// Folds the keys of `s` into `acc`, keeping first occurrences only.
pub open spec fn dedup_append(acc: Seq<Seq<char>>, s: Seq<Seq<char>>) -> Seq<Seq<char>>
    decreases s.len(),
{
    if s.len() == 0 {
        acc
    } else if acc.contains(s[0]) {
        dedup_append(acc, s.drop_first())
    } else {
        dedup_append(acc.push(s[0]), s.drop_first())
    }
}

/// Every key any locale mentions, first occurrences first.
pub open spec fn all_keys_rec(acc: Seq<Seq<char>>, ts: Seq<TranslationV>) -> Seq<Seq<char>>
    decreases ts.len(),
{
    if ts.len() == 0 {
        acc
    } else {
        all_keys_rec(dedup_append(acc, keys_of(ts[0].entries)), ts.drop_first())
    }
}

/// The union of all locales' keys, in order of first appearance.
pub open spec fn all_keys(ts: Seq<TranslationV>) -> Seq<Seq<char>> {
    all_keys_rec(Seq::empty(), ts)
}

/// Appends, onto `acc`, one empty-valued entry for each key of `ks` that
/// `present` lacks.
pub open spec fn pad_entries_rec(
    present: Seq<Seq<char>>,
    acc: Seq<EntryV>,
    ks: Seq<Seq<char>>,
) -> Seq<EntryV>
    decreases ks.len(),
{
    if ks.len() == 0 {
        acc
    } else if present.contains(ks[0]) {
        pad_entries_rec(present, acc, ks.drop_first())
    } else {
        pad_entries_rec(present, acc.push(EntryV { key: ks[0], value: Seq::empty() }), ks.drop_first())
    }
}

/// One translation padded to parity: its own entries, then an empty-valued
/// entry for each key it was missing.
pub open spec fn spec_pad_translation(t: TranslationV, ks: Seq<Seq<char>>) -> TranslationV {
    TranslationV { locale: t.locale, entries: pad_entries_rec(keys_of(t.entries), t.entries, ks) }
}

/// The parity pass: every locale receives every key any locale mentions.
pub open spec fn spec_pad(d: DocV) -> DocV {
    DocV {
        translations: d.translations.map_values(
            |t: TranslationV| spec_pad_translation(t, all_keys(d.translations)),
        ),
        ..d
    }
}

/// The document `generate` leaves: a new default component of the requested
/// kind, and for the translation kind the parity pass on top.
pub open spec fn spec_generate(d: DocV, kind: ComponentKind, name: Seq<char>) -> DocV {
    match kind {
        ComponentKind::Page => DocV { pages: d.pages.push(name), ..d },
        ComponentKind::Xflow => DocV { xflows: d.xflows.push(name), ..d },
        ComponentKind::Translation => spec_pad(
            DocV {
                translations: d.translations.push(
                    TranslationV { locale: name, entries: Seq::empty() },
                ),
                ..d
            },
        ),
    }
}

/// `s` without the elements equal to `name`, folded onto `acc`.
pub open spec fn drop_name_rec(
    acc: Seq<Seq<char>>,
    s: Seq<Seq<char>>,
    name: Seq<char>,
) -> Seq<Seq<char>>
    decreases s.len(),
{
    if s.len() == 0 {
        acc
    } else if s[0] == name {
        drop_name_rec(acc, s.drop_first(), name)
    } else {
        drop_name_rec(acc.push(s[0]), s.drop_first(), name)
    }
}

/// `ts` without the translations whose locale equals `name`.
pub open spec fn drop_trans_rec(
    acc: Seq<TranslationV>,
    ts: Seq<TranslationV>,
    name: Seq<char>,
) -> Seq<TranslationV>
    decreases ts.len(),
{
    if ts.len() == 0 {
        acc
    } else if ts[0].locale == name {
        drop_trans_rec(acc, ts.drop_first(), name)
    } else {
        drop_trans_rec(acc.push(ts[0]), ts.drop_first(), name)
    }
}

/// `es` without the entities whose name equals `name`.
pub open spec fn drop_entity_rec(
    acc: Seq<EntityV>,
    es: Seq<EntityV>,
    name: Seq<char>,
) -> Seq<EntityV>
    decreases es.len(),
{
    if es.len() == 0 {
        acc
    } else if es[0].name == name {
        drop_entity_rec(acc, es.drop_first(), name)
    } else {
        drop_entity_rec(acc.push(es[0]), es.drop_first(), name)
    }
}

/// The document `destroy` leaves: every component of the requested kind
/// bearing the requested name is removed.
pub open spec fn spec_destroy(d: DocV, kind: ComponentKind, name: Seq<char>) -> DocV {
    match kind {
        ComponentKind::Page => DocV { pages: drop_name_rec(Seq::empty(), d.pages, name), ..d },
        ComponentKind::Xflow => DocV { xflows: drop_name_rec(Seq::empty(), d.xflows, name), ..d },
        ComponentKind::Translation => DocV {
            translations: drop_trans_rec(Seq::empty(), d.translations, name),
            ..d
        },
    }
}

/// The index of the first entity named `name`, or `-1`.
pub open spec fn find_entity(es: Seq<EntityV>, name: Seq<char>) -> int
    decreases es.len(),
{
    if es.len() == 0 {
        -1
    } else if es[0].name == name {
        0
    } else {
        let r = find_entity(es.drop_first(), name);
        if r < 0 {
            -1
        } else {
            r + 1
        }
    }
}

/// The names of the components of one kind, in order: page names, flow
/// names, or the translations' locales.
pub open spec fn spec_component_names(d: DocV, kind: ComponentKind) -> Seq<Seq<char>> {
    match kind {
        ComponentKind::Page => d.pages,
        ComponentKind::Xflow => d.xflows,
        ComponentKind::Translation => locales_of(d.translations),
    }
}

// ---------------------------------------------------------------------------
// Small executable helpers
// ---------------------------------------------------------------------------
/// Copies a vector of strings.
pub fn clone_strings(v: &Vec<String>) -> (r: Vec<String>)
    ensures
        strs(r@) == strs(v@),
{
    let mut r: Vec<String> = Vec::new();
    let mut i: usize = 0;
    while i < v.len()
        invariant
            i <= v@.len(),
            r@.len() == i,
            forall|j: int| 0 <= j < i ==> #[trigger] r@[j]@ == v@[j]@,
        decreases v@.len() - i,
    {
        r.push(v[i].clone());
        i = i + 1;
    }
    proof {
        assert(strs(r@) =~= strs(v@));
    }
    r
}

/// Whether some string of `v` reads as `x`.
pub fn contains_string(v: &Vec<String>, x: &str) -> (r: bool)
    ensures
        r == strs(v@).contains(x@),
{
    let mut i: usize = 0;
    while i < v.len()
        invariant
            i <= v@.len(),
            forall|j: int| 0 <= j < i ==> #[trigger] v@[j]@ != x@,
        decreases v@.len() - i,
    {
        if crate::text::str_eq(v[i].as_str(), x) {
            assert(strs(v@)[i as int] == x@);
            return true;
        }
        i = i + 1;
    }
    proof {
        if strs(v@).contains(x@) {
            let j = choose|j: int| 0 <= j < strs(v@).len() && strs(v@)[j] == x@;
            assert(v@[j]@ != x@);
        }
    }
    false
}

/// Copies a translation's entries.
fn clone_entries(v: &Vec<Entry>) -> (r: Vec<Entry>)
    ensures
        entry_views(r@) == entry_views(v@),
{
    let mut r: Vec<Entry> = Vec::new();
    let mut i: usize = 0;
    while i < v.len()
        invariant
            i <= v@.len(),
            r@.len() == i,
            forall|j: int| 0 <= j < i ==> #[trigger] r@[j]@ == v@[j]@,
        decreases v@.len() - i,
    {
        let e = &v[i];
        r.push(Entry { key: e.key.clone(), value: e.value.clone() });
        i = i + 1;
    }
    proof {
        assert(entry_views(r@) =~= entry_views(v@));
    }
    r
}

impl Document {
    /// An owned copy of this document, field for field.
    pub fn duplicate(&self) -> (r: Document)
        ensures
            r@ == self@,
    {
        let mut translations: Vec<Translation> = Vec::new();
        let mut i: usize = 0;
        while i < self.translations.len()
            invariant
                i <= self.translations@.len(),
                translations@.len() == i,
                forall|j: int| 0 <= j < i ==> #[trigger] translations@[j]@
                    == self.translations@[j]@,
            decreases self.translations@.len() - i,
        {
            let t = &self.translations[i];
            translations.push(
                Translation { locale: t.locale.clone(), entries: clone_entries(&t.entries) },
            );
            i = i + 1;
        }
        let mut entities: Vec<Entity> = Vec::new();
        let mut i: usize = 0;
        while i < self.entities.len()
            invariant
                i <= self.entities@.len(),
                entities@.len() == i,
                forall|j: int| 0 <= j < i ==> #[trigger] entities@[j]@ == self.entities@[j]@,
            decreases self.entities@.len() - i,
        {
            let e = &self.entities[i];
            entities.push(
                Entity { name: e.name.clone(), attributes: clone_strings(&e.attributes) },
            );
            i = i + 1;
        }
        let r = Document {
            id: self.id.clone(),
            name: self.name.clone(),
            locale: self.locale.clone(),
            pages: clone_strings(&self.pages),
            xflows: clone_strings(&self.xflows),
            translations,
            entities,
        };
        proof {
            assert(r@ =~~= self@);
        }
        r
    }

    /// This document rendered under another active locale: the locale field
    /// changes, everything else — every translation included — is kept.
    pub fn as_locale(&self, locale: &str) -> (r: Document)
        ensures
            r@ == (DocV { locale: locale@, ..self@ }),
    {
        let mut r = self.duplicate();
        r.locale = locale.to_owned();
        proof {
            assert(r@ =~~= DocV { locale: locale@, ..self@ });
        }
        r
    }

    /// The component names of one kind, in order.
    pub fn component_names(&self, kind: ComponentKind) -> (r: Vec<String>)
        ensures
            strs(r@) == spec_component_names(self@, kind),
    {
        match kind {
            ComponentKind::Page => clone_strings(&self.pages),
            ComponentKind::Xflow => clone_strings(&self.xflows),
            ComponentKind::Translation => {
                let mut r: Vec<String> = Vec::new();
                let mut i: usize = 0;
                while i < self.translations.len()
                    invariant
                        i <= self.translations@.len(),
                        r@.len() == i,
                        forall|j: int| 0 <= j < i ==> #[trigger] r@[j]@
                            == self.translations@[j]@.locale,
                    decreases self.translations@.len() - i,
                {
                    r.push(self.translations[i].locale.clone());
                    i = i + 1;
                }
                proof {
                    assert(strs(r@) =~= spec_component_names(self@, ComponentKind::Translation));
                }
                r
            },
        }
    }

    /// The parity pass: collects every key any locale mentions, then pads
    /// every locale with an empty-valued entry for each key it lacks.
    pub fn pad_all_translations(&mut self)
        ensures
            final(self)@ == spec_pad(old(self)@),
    {
        let ghost ts0 = old(self)@.translations;
        // Collect the union of keys, first occurrences first.
        let mut ks: Vec<String> = Vec::new();
        proof {
            assert(strs(ks@) =~= Seq::<Seq<char>>::empty());
            assert(ts0.skip(0) =~= ts0);
        }
        let mut i: usize = 0;
        while i < self.translations.len()
            invariant
                i <= self.translations@.len(),
                self == old(self),
                ts0 == translation_views(self.translations@),
                all_keys(ts0) == all_keys_rec(strs(ks@), ts0.skip(i as int)),
            decreases self.translations@.len() - i,
        {
            let t = &self.translations[i];
            let ghost keys_i = keys_of(t@.entries);
            proof {
                assert(ts0.skip(i as int)[0] == ts0[i as int]);
                assert(ts0[i as int] == t@);
                assert(ts0.skip(i as int).drop_first() =~= ts0.skip(i as int + 1));
                assert(keys_i.skip(0) =~= keys_i);
            }
            let mut j: usize = 0;
            while j < t.entries.len()
                invariant
                    j <= t.entries@.len(),
                    t == &self.translations[i as int],
                    i < self.translations@.len(),
                    self == old(self),
                    keys_i == keys_of(t@.entries),
                    all_keys(ts0) == all_keys_rec(
                        dedup_append(strs(ks@), keys_i.skip(j as int)),
                        ts0.skip(i as int + 1),
                    ),
                decreases t.entries@.len() - j,
            {
                proof {
                    assert(keys_i.skip(j as int)[0] == keys_i[j as int]);
                    assert(keys_i[j as int] == t@.entries[j as int].key);
                    assert(keys_i.skip(j as int).drop_first() =~= keys_i.skip(j as int + 1));
                }
                if !contains_string(&ks, t.entries[j].key.as_str()) {
                    let ghost ks_pre = ks@;
                    ks.push(t.entries[j].key.clone());
                    proof {
                        assert(strs(ks@) =~= strs(ks_pre).push(t@.entries[j as int].key));
                    }
                }
                j = j + 1;
            }
            proof {
                assert(keys_i.skip(keys_i.len() as int) =~= Seq::<Seq<char>>::empty());
            }
            i = i + 1;
        }
        proof {
            assert(ts0.skip(ts0.len() as int) =~= Seq::<TranslationV>::empty());
            assert(all_keys(ts0) == strs(ks@));
        }
        // Pad each translation with the keys it lacks.
        let mut padded: Vec<Translation> = Vec::new();
        proof {
            assert(strs(ks@).skip(0) =~= strs(ks@));
        }
        let mut i: usize = 0;
        while i < self.translations.len()
            invariant
                i <= self.translations@.len(),
                self == old(self),
                strs(ks@) == all_keys(ts0),
                ts0 == translation_views(self.translations@),
                padded@.len() == i,
                forall|j: int| 0 <= j < i ==> #[trigger] padded@[j]@ == spec_pad_translation(
                    ts0[j],
                    all_keys(ts0),
                ),
            decreases self.translations@.len() - i,
        {
            let t = &self.translations[i];
            let ghost present = keys_of(t@.entries);
            let mut present_keys: Vec<String> = Vec::new();
            let mut j: usize = 0;
            while j < t.entries.len()
                invariant
                    j <= t.entries@.len(),
                    t == &self.translations[i as int],
                    i < self.translations@.len(),
                    present == keys_of(t@.entries),
                    present_keys@.len() == j,
                    forall|m: int| 0 <= m < j ==> #[trigger] present_keys@[m]@
                        == t@.entries[m].key,
                decreases t.entries@.len() - j,
            {
                present_keys.push(t.entries[j].key.clone());
                j = j + 1;
            }
            proof {
                assert(strs(present_keys@) =~= present);
            }
            let mut entries = clone_entries(&t.entries);
            proof {
                assert(strs(ks@).skip(0) =~= strs(ks@));
            }
            let mut m: usize = 0;
            while m < ks.len()
                invariant
                    m <= ks@.len(),
                    t == &self.translations[i as int],
                    i < self.translations@.len(),
                    present == keys_of(t@.entries),
                    strs(present_keys@) == present,
                    pad_entries_rec(present, t@.entries, strs(ks@)) == pad_entries_rec(
                        present,
                        entry_views(entries@),
                        strs(ks@).skip(m as int),
                    ),
                decreases ks@.len() - m,
            {
                proof {
                    assert(strs(ks@).skip(m as int)[0] == strs(ks@)[m as int]);
                    assert(strs(ks@)[m as int] == ks@[m as int]@);
                    assert(strs(ks@).skip(m as int).drop_first() =~= strs(ks@).skip(m as int + 1));
                }
                if !contains_string(&present_keys, ks[m].as_str()) {
                    let ghost entries_pre = entries@;
                    entries.push(Entry { key: ks[m].clone(), value: String::new() });
                    proof {
                        assert(entry_views(entries@) =~= entry_views(entries_pre).push(
                            EntryV { key: ks@[m as int]@, value: Seq::empty() },
                        ));
                    }
                }
                m = m + 1;
            }
            proof {
                assert(strs(ks@).skip(strs(ks@).len() as int) =~= Seq::<Seq<char>>::empty());
                assert(entry_views(entries@) == pad_entries_rec(present, t@.entries, strs(ks@)));
            }
            padded.push(Translation { locale: t.locale.clone(), entries });
            proof {
                assert(padded@[i as int]@ =~~= spec_pad_translation(ts0[i as int], all_keys(ts0)));
            }
            i = i + 1;
        }
        self.translations = padded;
        proof {
            assert(final(self)@ =~~= spec_pad(old(self)@));
        }
    }

    /// Appends a new default component of the requested kind; generating a
    /// translation additionally runs the parity pass, so every locale ends
    /// with parity keys.
    pub fn generate(&mut self, kind: ComponentKind, name: String)
        ensures
            final(self)@ == spec_generate(old(self)@, kind, name@),
    {
        match kind {
            ComponentKind::Page => {
                self.pages.push(name);
                proof {
                    assert(final(self)@ =~~= spec_generate(old(self)@, kind, name@));
                }
            },
            ComponentKind::Xflow => {
                self.xflows.push(name);
                proof {
                    assert(final(self)@ =~~= spec_generate(old(self)@, kind, name@));
                }
            },
            ComponentKind::Translation => {
                self.translations.push(Translation { locale: name, entries: Vec::new() });
                proof {
                    assert(self@ =~~= DocV {
                        translations: old(self)@.translations.push(
                            TranslationV { locale: name@, entries: Seq::empty() },
                        ),
                        ..old(self)@
                    });
                }
                self.pad_all_translations();
            },
        }
    }

    /// Removes every component of the requested kind bearing the requested
    /// name.
    pub fn destroy(&mut self, kind: ComponentKind, name: &str)
        ensures
            final(self)@ == spec_destroy(old(self)@, kind, name@),
    {
        match kind {
            ComponentKind::Page => {
                let ghost s0 = old(self)@.pages;
                let mut kept: Vec<String> = Vec::new();
                proof {
                    assert(strs(kept@) =~= Seq::<Seq<char>>::empty());
                    assert(s0.skip(0) =~= s0);
                }
                let mut i: usize = 0;
                while i < self.pages.len()
                    invariant
                        i <= self.pages@.len(),
                        self == old(self),
                        s0 == strs(self.pages@),
                        drop_name_rec(Seq::empty(), s0, name@) == drop_name_rec(
                            strs(kept@),
                            s0.skip(i as int),
                            name@,
                        ),
                    decreases self.pages@.len() - i,
                {
                    proof {
                        assert(s0.skip(i as int)[0] == s0[i as int]);
                        assert(s0[i as int] == self@.pages[i as int]);
                        assert(s0.skip(i as int).drop_first() =~= s0.skip(i as int + 1));
                    }
                    if !crate::text::str_eq(self.pages[i].as_str(), name) {
                        let ghost kept_pre = kept@;
                        kept.push(self.pages[i].clone());
                        proof {
                            assert(strs(kept@) =~= strs(kept_pre).push(self@.pages[i as int]));
                        }
                    }
                    i = i + 1;
                }
                proof {
                    assert(s0.skip(s0.len() as int) =~= Seq::<Seq<char>>::empty());
                }
                self.pages = kept;
                proof {
                    assert(final(self)@ =~~= spec_destroy(old(self)@, kind, name@));
                }
            },
            ComponentKind::Xflow => {
                let ghost s0 = old(self)@.xflows;
                let mut kept: Vec<String> = Vec::new();
                proof {
                    assert(strs(kept@) =~= Seq::<Seq<char>>::empty());
                    assert(s0.skip(0) =~= s0);
                }
                let mut i: usize = 0;
                while i < self.xflows.len()
                    invariant
                        i <= self.xflows@.len(),
                        self == old(self),
                        s0 == strs(self.xflows@),
                        drop_name_rec(Seq::empty(), s0, name@) == drop_name_rec(
                            strs(kept@),
                            s0.skip(i as int),
                            name@,
                        ),
                    decreases self.xflows@.len() - i,
                {
                    proof {
                        assert(s0.skip(i as int)[0] == s0[i as int]);
                        assert(s0[i as int] == self@.xflows[i as int]);
                        assert(s0.skip(i as int).drop_first() =~= s0.skip(i as int + 1));
                    }
                    if !crate::text::str_eq(self.xflows[i].as_str(), name) {
                        let ghost kept_pre = kept@;
                        kept.push(self.xflows[i].clone());
                        proof {
                            assert(strs(kept@) =~= strs(kept_pre).push(self@.xflows[i as int]));
                        }
                    }
                    i = i + 1;
                }
                proof {
                    assert(s0.skip(s0.len() as int) =~= Seq::<Seq<char>>::empty());
                }
                self.xflows = kept;
                proof {
                    assert(final(self)@ =~~= spec_destroy(old(self)@, kind, name@));
                }
            },
            ComponentKind::Translation => {
                let ghost s0 = old(self)@.translations;
                let mut kept: Vec<Translation> = Vec::new();
                proof {
                    assert(translation_views(kept@) =~= Seq::<TranslationV>::empty());
                    assert(s0.skip(0) =~= s0);
                }
                let mut i: usize = 0;
                while i < self.translations.len()
                    invariant
                        i <= self.translations@.len(),
                        self == old(self),
                        s0 == translation_views(self.translations@),
                        drop_trans_rec(Seq::empty(), s0, name@) == drop_trans_rec(
                            translation_views(kept@),
                            s0.skip(i as int),
                            name@,
                        ),
                    decreases self.translations@.len() - i,
                {
                    proof {
                        assert(s0.skip(i as int)[0] == s0[i as int]);
                        assert(s0[i as int] == self@.translations[i as int]);
                        assert(s0.skip(i as int).drop_first() =~= s0.skip(i as int + 1));
                    }
                    if !crate::text::str_eq(self.translations[i].locale.as_str(), name) {
                        let t = &self.translations[i];
                        let ghost kept_pre = kept@;
                        kept.push(
                            Translation {
                                locale: t.locale.clone(),
                                entries: clone_entries(&t.entries),
                            },
                        );
                        proof {
                            assert(translation_views(kept@) =~= translation_views(
                                kept_pre,
                            ).push(self@.translations[i as int]));
                        }
                    }
                    i = i + 1;
                }
                proof {
                    assert(s0.skip(s0.len() as int) =~= Seq::<TranslationV>::empty());
                }
                self.translations = kept;
                proof {
                    assert(final(self)@ =~~= spec_destroy(old(self)@, kind, name@));
                }
            },
        }
    }

    /// Appends a new entity with no attributes.
    pub fn add_entity(&mut self, name: String)
        ensures
            final(self)@ == (DocV {
                entities: old(self)@.entities.push(
                    EntityV { name: name@, attributes: Seq::empty() },
                ),
                ..old(self)@
            }),
    {
        self.entities.push(Entity { name, attributes: Vec::new() });
        proof {
            assert(final(self)@ =~~= DocV {
                entities: old(self)@.entities.push(
                    EntityV { name: name@, attributes: Seq::empty() },
                ),
                ..old(self)@
            });
        }
    }

    /// Removes every entity bearing the requested name.
    pub fn remove_entity(&mut self, name: &str)
        ensures
            final(self)@ == (DocV {
                entities: drop_entity_rec(Seq::empty(), old(self)@.entities, name@),
                ..old(self)@
            }),
    {
        let ghost s0 = old(self)@.entities;
        let mut kept: Vec<Entity> = Vec::new();
        proof {
            assert(entity_views(kept@) =~= Seq::<EntityV>::empty());
            assert(s0.skip(0) =~= s0);
        }
        let mut i: usize = 0;
        while i < self.entities.len()
            invariant
                i <= self.entities@.len(),
                self == old(self),
                s0 == entity_views(self.entities@),
                drop_entity_rec(Seq::empty(), s0, name@) == drop_entity_rec(
                    entity_views(kept@),
                    s0.skip(i as int),
                    name@,
                ),
            decreases self.entities@.len() - i,
        {
            proof {
                assert(s0.skip(i as int)[0] == s0[i as int]);
                assert(s0[i as int] == self@.entities[i as int]);
                assert(s0.skip(i as int).drop_first() =~= s0.skip(i as int + 1));
            }
            if !crate::text::str_eq(self.entities[i].name.as_str(), name) {
                let e = &self.entities[i];
                let ghost kept_pre = kept@;
                kept.push(Entity { name: e.name.clone(), attributes: clone_strings(&e.attributes) });
                proof {
                    assert(entity_views(kept@) =~= entity_views(kept_pre).push(
                        self@.entities[i as int],
                    ));
                }
            }
            i = i + 1;
        }
        proof {
            assert(s0.skip(s0.len() as int) =~= Seq::<EntityV>::empty());
        }
        self.entities = kept;
        proof {
            assert(final(self)@ =~~= DocV {
                entities: drop_entity_rec(Seq::empty(), old(self)@.entities, name@),
                ..old(self)@
            });
        }
    }

    /// Finds the first entity bearing `name`.
    fn find_entity_index(&self, name: &str) -> (r: Option<usize>)
        ensures
            match r {
                Some(i) => find_entity(self@.entities, name@) == i && i < self@.entities.len(),
                None => find_entity(self@.entities, name@) == -1,
            },
    {
        let mut i: usize = 0;
        while i < self.entities.len()
            invariant
                i <= self.entities@.len(),
                forall|j: int| 0 <= j < i ==> #[trigger] self@.entities[j].name != name@,
            decreases self.entities@.len() - i,
        {
            if crate::text::str_eq(self.entities[i].name.as_str(), name) {
                proof {
                    lemma_find_entity_first(self@.entities, name@, i as int);
                }
                return Some(i);
            }
            i = i + 1;
        }
        proof {
            lemma_find_entity_none(self@.entities, name@);
        }
        None
    }

    /// Appends an attribute to the first entity bearing `entity`; reports
    /// whether such an entity exists, changing nothing otherwise.
    pub fn add_attribute(&mut self, entity: &str, attr: String) -> (ok: bool)
        ensures
            ({
                let fi = find_entity(old(self)@.entities, entity@);
                if fi >= 0 {
                    ok && final(self)@ == DocV {
                        entities: old(self)@.entities.update(
                            fi,
                            EntityV {
                                attributes: old(self)@.entities[fi].attributes.push(attr@),
                                ..old(self)@.entities[fi]
                            },
                        ),
                        ..old(self)@
                    }
                } else {
                    !ok && final(self)@ == old(self)@
                }
            }),
    {
        match self.find_entity_index(entity) {
            None => false,
            Some(fi) => {
                let mut e = self.entities.remove(fi);
                e.attributes.push(attr);
                self.entities.insert(fi, e);
                proof {
                    let fii = fi as int;
                    assert(final(self)@.entities =~~= old(self)@.entities.update(
                        fii,
                        EntityV {
                            attributes: old(self)@.entities[fii].attributes.push(attr@),
                            ..old(self)@.entities[fii]
                        },
                    ));
                }
                true
            },
        }
    }

    /// Removes an attribute from the first entity bearing `entity`; reports
    /// whether such an entity exists, changing nothing otherwise.
    pub fn remove_attribute(&mut self, entity: &str, attr: &str) -> (ok: bool)
        ensures
            ({
                let fi = find_entity(old(self)@.entities, entity@);
                if fi >= 0 {
                    ok && final(self)@ == DocV {
                        entities: old(self)@.entities.update(
                            fi,
                            EntityV {
                                attributes: drop_name_rec(
                                    Seq::empty(),
                                    old(self)@.entities[fi].attributes,
                                    attr@,
                                ),
                                ..old(self)@.entities[fi]
                            },
                        ),
                        ..old(self)@
                    }
                } else {
                    !ok && final(self)@ == old(self)@
                }
            }),
    {
        match self.find_entity_index(entity) {
            None => false,
            Some(fi) => {
                let mut e = self.entities.remove(fi);
                let ghost a0 = e@.attributes;
                let mut kept: Vec<String> = Vec::new();
                proof {
                    assert(strs(kept@) =~= Seq::<Seq<char>>::empty());
                    assert(a0.skip(0) =~= a0);
                }
                let mut i: usize = 0;
                while i < e.attributes.len()
                    invariant
                        i <= e.attributes@.len(),
                        a0 == strs(e.attributes@),
                        drop_name_rec(Seq::empty(), a0, attr@) == drop_name_rec(
                            strs(kept@),
                            a0.skip(i as int),
                            attr@,
                        ),
                    decreases e.attributes@.len() - i,
                {
                    proof {
                        assert(a0.skip(i as int)[0] == a0[i as int]);
                        assert(a0[i as int] == e@.attributes[i as int]);
                        assert(a0.skip(i as int).drop_first() =~= a0.skip(i as int + 1));
                    }
                    if !crate::text::str_eq(e.attributes[i].as_str(), attr) {
                        let ghost kept_pre = kept@;
                        kept.push(e.attributes[i].clone());
                        proof {
                            assert(strs(kept@) =~= strs(kept_pre).push(e@.attributes[i as int]));
                        }
                    }
                    i = i + 1;
                }
                proof {
                    assert(a0.skip(a0.len() as int) =~= Seq::<Seq<char>>::empty());
                }
                e.attributes = kept;
                self.entities.insert(fi, e);
                proof {
                    let fii = fi as int;
                    assert(final(self)@.entities =~~= old(self)@.entities.update(
                        fii,
                        EntityV {
                            attributes: drop_name_rec(
                                Seq::empty(),
                                old(self)@.entities[fii].attributes,
                                attr@,
                            ),
                            ..old(self)@.entities[fii]
                        },
                    ));
                }
                true
            },
        }
    }
}

/// A position holding the name, with none before it, is what `find_entity`
/// returns.
proof fn lemma_find_entity_first(es: Seq<EntityV>, name: Seq<char>, k: int)
    requires
        0 <= k < es.len(),
        es[k].name == name,
        forall|j: int| 0 <= j < k ==> (#[trigger] es[j]).name != name,
    ensures
        find_entity(es, name) == k,
    decreases es.len(),
{
    if es.len() == 0 {
    } else if es[0].name == name {
        assert(k == 0);
    } else {
        assert(es.drop_first()[k - 1] == es[k]);
        assert forall|j: int| 0 <= j < k - 1 implies (#[trigger] es.drop_first()[j]).name
            != name by {
            assert(es.drop_first()[j] == es[j + 1]);
        }
        lemma_find_entity_first(es.drop_first(), name, k - 1);
    }
}

/// What `find_entity` returns is `-1` or a position in range.
pub proof fn lemma_find_entity_range(es: Seq<EntityV>, name: Seq<char>)
    ensures
        -1 <= find_entity(es, name) < es.len(),
        find_entity(es, name) >= 0 ==> es[find_entity(es, name)].name == name,
    decreases es.len(),
{
    if es.len() == 0 {
    } else if es[0].name == name {
    } else {
        lemma_find_entity_range(es.drop_first(), name);
        if find_entity(es.drop_first(), name) >= 0 {
            assert(es.drop_first()[find_entity(es.drop_first(), name)] == es[find_entity(
                es,
                name,
            )]);
        }
    }
}

/// Without an entity of that name there is nothing to find.
proof fn lemma_find_entity_none(es: Seq<EntityV>, name: Seq<char>)
    requires
        forall|j: int| 0 <= j < es.len() ==> (#[trigger] es[j]).name != name,
    ensures
        find_entity(es, name) == -1,
    decreases es.len(),
{
    if es.len() == 0 {
    } else {
        assert forall|j: int| 0 <= j < es.drop_first().len() implies (#[trigger] es.drop_first()[j]).name
            != name by {
            assert(es.drop_first()[j] == es[j + 1]);
        }
        lemma_find_entity_none(es.drop_first(), name);
    }
}

impl Document {
    /// The new, empty document that `initialize` persists.
    pub fn default_doc() -> (d: Document)
        ensures
            d@ == spec_default_doc(),
            wf_doc(d@),
            valid_doc(d@),
    {
        let d = Document {
            id: String::from_str("default"),
            name: String::from_str("default"),
            locale: String::from_str("en_US"),
            pages: Vec::new(),
            xflows: Vec::new(),
            translations: Vec::new(),
            entities: Vec::new(),
        };
        proof {
            reveal_strlit("default");
            reveal_strlit("en_US");
            assert(d@ =~= spec_default_doc());
            assert forall|i: int| 0 <= i < "default"@.len() implies is_token_char(
                #[trigger] "default"@[i],
            ) by {}
            assert forall|i: int| 0 <= i < "en_US"@.len() implies is_token_char(
                #[trigger] "en_US"@[i],
            ) by {}
        }
        d
    }
}

// ---------------------------------------------------------------------------
// Well-formedness is preserved by every working-copy transformation
// ---------------------------------------------------------------------------
/// Deduplicating well-formed keys into a well-formed accumulator keeps every
/// name a token.
proof fn lemma_dedup_append_wf(acc: Seq<Seq<char>>, s: Seq<Seq<char>>)
    requires
        wf_tokens(acc),
        wf_tokens(s),
    ensures
        wf_tokens(dedup_append(acc, s)),
    decreases s.len(),
{
    if s.len() == 0 {
    } else {
        assert(wf_tokens(s.drop_first())) by {
            assert forall|i: int| 0 <= i < s.drop_first().len() implies wf_token(
                #[trigger] s.drop_first()[i],
            ) by {
                assert(s.drop_first()[i] == s[i + 1]);
            }
        }
        if acc.contains(s[0]) {
            lemma_dedup_append_wf(acc, s.drop_first());
        } else {
            assert(wf_tokens(acc.push(s[0])));
            lemma_dedup_append_wf(acc.push(s[0]), s.drop_first());
        }
    }
}

/// The union of well-formed locales' keys is made of tokens.
proof fn lemma_all_keys_rec_wf(acc: Seq<Seq<char>>, ts: Seq<TranslationV>)
    requires
        wf_tokens(acc),
        wf_translations(ts),
    ensures
        wf_tokens(all_keys_rec(acc, ts)),
    decreases ts.len(),
{
    if ts.len() == 0 {
    } else {
        assert(wf_translation(ts[0]));
        assert(wf_tokens(keys_of(ts[0].entries))) by {
            assert forall|i: int| 0 <= i < keys_of(ts[0].entries).len() implies wf_token(
                #[trigger] keys_of(ts[0].entries)[i],
            ) by {
                assert(keys_of(ts[0].entries)[i] == ts[0].entries[i].key);
            }
        }
        lemma_dedup_append_wf(acc, keys_of(ts[0].entries));
        assert(wf_translations(ts.drop_first())) by {
            assert forall|i: int| 0 <= i < ts.drop_first().len() implies wf_translation(
                #[trigger] ts.drop_first()[i],
            ) by {
                assert(ts.drop_first()[i] == ts[i + 1]);
            }
        }
        lemma_all_keys_rec_wf(dedup_append(acc, keys_of(ts[0].entries)), ts.drop_first());
    }
}

/// Padding well-formed entries with token keys and empty values keeps them
/// well formed.
proof fn lemma_pad_entries_wf(present: Seq<Seq<char>>, acc: Seq<EntryV>, ks: Seq<Seq<char>>)
    requires
        wf_entries(acc),
        wf_tokens(ks),
    ensures
        wf_entries(pad_entries_rec(present, acc, ks)),
    decreases ks.len(),
{
    if ks.len() == 0 {
    } else {
        assert(wf_tokens(ks.drop_first())) by {
            assert forall|i: int| 0 <= i < ks.drop_first().len() implies wf_token(
                #[trigger] ks.drop_first()[i],
            ) by {
                assert(ks.drop_first()[i] == ks[i + 1]);
            }
        }
        if present.contains(ks[0]) {
            lemma_pad_entries_wf(present, acc, ks.drop_first());
        } else {
            let e = EntryV { key: ks[0], value: Seq::empty() };
            assert(wf_entries(acc.push(e))) by {
                assert forall|i: int| 0 <= i < acc.push(e).len() implies wf_token(
                    #[trigger] acc.push(e)[i].key,
                ) && wf_text(acc.push(e)[i].value) by {
                    if i < acc.len() {
                        assert(acc.push(e)[i] == acc[i]);
                    } else {
                        assert(acc.push(e)[i] == e);
                    }
                }
            }
            lemma_pad_entries_wf(present, acc.push(e), ks.drop_first());
        }
    }
}

/// The parity pass preserves well-formedness.
pub proof fn lemma_pad_wf(d: DocV)
    requires
        wf_doc(d),
    ensures
        wf_doc(spec_pad(d)),
{
    lemma_all_keys_rec_wf(Seq::empty(), d.translations);
    let ks = all_keys(d.translations);
    let p = spec_pad(d);
    assert forall|i: int| 0 <= i < p.translations.len() implies wf_translation(
        #[trigger] p.translations[i],
    ) by {
        assert(p.translations[i] == spec_pad_translation(d.translations[i], ks));
        assert(wf_translation(d.translations[i]));
        lemma_pad_entries_wf(keys_of(d.translations[i].entries), d.translations[i].entries, ks);
    }
}

/// Generating a component with a token name preserves well-formedness.
pub proof fn lemma_generate_wf(d: DocV, kind: ComponentKind, name: Seq<char>)
    requires
        wf_doc(d),
        wf_token(name),
    ensures
        wf_doc(spec_generate(d, kind, name)),
{
    match kind {
        ComponentKind::Page => {
            assert(wf_tokens(d.pages.push(name)));
        },
        ComponentKind::Xflow => {
            assert(wf_tokens(d.xflows.push(name)));
        },
        ComponentKind::Translation => {
            let d2 = DocV {
                translations: d.translations.push(
                    TranslationV { locale: name, entries: Seq::empty() },
                ),
                ..d
            };
            assert(wf_doc(d2)) by {
                assert forall|i: int| 0 <= i < d2.translations.len() implies wf_translation(
                    #[trigger] d2.translations[i],
                ) by {
                    if i < d.translations.len() {
                        assert(d2.translations[i] == d.translations[i]);
                    } else {
                        assert(d2.translations[i] == TranslationV {
                            locale: name,
                            entries: Seq::empty(),
                        });
                    }
                }
            }
            lemma_pad_wf(d2);
        },
    }
}

/// Keeping a subset of well-formed names keeps them well formed.
pub proof fn lemma_drop_name_wf(acc: Seq<Seq<char>>, s: Seq<Seq<char>>, name: Seq<char>)
    requires
        wf_tokens(acc),
        wf_tokens(s),
    ensures
        wf_tokens(drop_name_rec(acc, s, name)),
    decreases s.len(),
{
    if s.len() == 0 {
    } else {
        assert(wf_tokens(s.drop_first())) by {
            assert forall|i: int| 0 <= i < s.drop_first().len() implies wf_token(
                #[trigger] s.drop_first()[i],
            ) by {
                assert(s.drop_first()[i] == s[i + 1]);
            }
        }
        if s[0] == name {
            lemma_drop_name_wf(acc, s.drop_first(), name);
        } else {
            assert(wf_tokens(acc.push(s[0])));
            lemma_drop_name_wf(acc.push(s[0]), s.drop_first(), name);
        }
    }
}

/// Keeping a subset of well-formed translations keeps them well formed.
proof fn lemma_drop_trans_wf(acc: Seq<TranslationV>, s: Seq<TranslationV>, name: Seq<char>)
    requires
        wf_translations(acc),
        wf_translations(s),
    ensures
        wf_translations(drop_trans_rec(acc, s, name)),
    decreases s.len(),
{
    if s.len() == 0 {
    } else {
        assert(wf_translations(s.drop_first())) by {
            assert forall|i: int| 0 <= i < s.drop_first().len() implies wf_translation(
                #[trigger] s.drop_first()[i],
            ) by {
                assert(s.drop_first()[i] == s[i + 1]);
            }
        }
        if s[0].locale == name {
            lemma_drop_trans_wf(acc, s.drop_first(), name);
        } else {
            assert(wf_translations(acc.push(s[0]))) by {
                assert forall|i: int| 0 <= i < acc.push(s[0]).len() implies wf_translation(
                    #[trigger] acc.push(s[0])[i],
                ) by {
                    if i < acc.len() {
                        assert(acc.push(s[0])[i] == acc[i]);
                    } else {
                        assert(acc.push(s[0])[i] == s[0]);
                    }
                }
            }
            lemma_drop_trans_wf(acc.push(s[0]), s.drop_first(), name);
        }
    }
}

/// Keeping a subset of well-formed entities keeps them well formed.
proof fn lemma_drop_entity_wf(acc: Seq<EntityV>, s: Seq<EntityV>, name: Seq<char>)
    requires
        wf_entities(acc),
        wf_entities(s),
    ensures
        wf_entities(drop_entity_rec(acc, s, name)),
    decreases s.len(),
{
    if s.len() == 0 {
    } else {
        assert(wf_entities(s.drop_first())) by {
            assert forall|i: int| 0 <= i < s.drop_first().len() implies wf_entity(
                #[trigger] s.drop_first()[i],
            ) by {
                assert(s.drop_first()[i] == s[i + 1]);
            }
        }
        if s[0].name == name {
            lemma_drop_entity_wf(acc, s.drop_first(), name);
        } else {
            assert(wf_entities(acc.push(s[0]))) by {
                assert forall|i: int| 0 <= i < acc.push(s[0]).len() implies wf_entity(
                    #[trigger] acc.push(s[0])[i],
                ) by {
                    if i < acc.len() {
                        assert(acc.push(s[0])[i] == acc[i]);
                    } else {
                        assert(acc.push(s[0])[i] == s[0]);
                    }
                }
            }
            lemma_drop_entity_wf(acc.push(s[0]), s.drop_first(), name);
        }
    }
}

/// Destroying components preserves well-formedness.
pub proof fn lemma_destroy_wf(d: DocV, kind: ComponentKind, name: Seq<char>)
    requires
        wf_doc(d),
    ensures
        wf_doc(spec_destroy(d, kind, name)),
{
    match kind {
        ComponentKind::Page => {
            lemma_drop_name_wf(Seq::empty(), d.pages, name);
        },
        ComponentKind::Xflow => {
            lemma_drop_name_wf(Seq::empty(), d.xflows, name);
        },
        ComponentKind::Translation => {
            lemma_drop_trans_wf(Seq::empty(), d.translations, name);
        },
    }
}

/// Removing entities preserves well-formedness.
pub proof fn lemma_remove_entity_wf(d: DocV, name: Seq<char>)
    requires
        wf_doc(d),
    ensures
        wf_doc(DocV { entities: drop_entity_rec(Seq::empty(), d.entities, name), ..d }),
{
    lemma_drop_entity_wf(Seq::empty(), d.entities, name);
}

/// Adding an entity with a token name preserves well-formedness.
pub proof fn lemma_add_entity_wf(d: DocV, name: Seq<char>)
    requires
        wf_doc(d),
        wf_token(name),
    ensures
        wf_doc(
            DocV {
                entities: d.entities.push(EntityV { name: name, attributes: Seq::empty() }),
                ..d
            },
        ),
{
    let e = EntityV { name: name, attributes: Seq::empty() };
    assert forall|i: int| 0 <= i < d.entities.push(e).len() implies wf_entity(
        #[trigger] d.entities.push(e)[i],
    ) by {
        if i < d.entities.len() {
            assert(d.entities.push(e)[i] == d.entities[i]);
        } else {
            assert(d.entities.push(e)[i] == e);
        }
    }
}

/// Updating one entity's attributes with a well-formed list preserves
/// well-formedness.
pub proof fn lemma_update_entity_wf(d: DocV, fi: int, e2: EntityV)
    requires
        wf_doc(d),
        0 <= fi < d.entities.len(),
        wf_entity(e2),
    ensures
        wf_doc(DocV { entities: d.entities.update(fi, e2), ..d }),
{
    assert forall|i: int| 0 <= i < d.entities.update(fi, e2).len() implies wf_entity(
        #[trigger] d.entities.update(fi, e2)[i],
    ) by {
        if i == fi {
            assert(d.entities.update(fi, e2)[i] == e2);
        } else {
            assert(d.entities.update(fi, e2)[i] == d.entities[i]);
        }
    }
}

} // verus!
