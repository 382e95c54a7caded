//! The storage backend: one persisted document root behind a locator, with
//! the capability set `initialize`, `list`, `get`, `create`, `update`,
//! `delete`.
//!
//! The persisted medium is a value of [`StoreMedium`]; the thin unverified
//! shell reads it from and writes it back to the real file tree or database.
//! Every mutating operation is a whole read-modify-write of that value:
//! parse the payload, serialize it anew, replace the root, and re-read, so
//! the caller always sees the backend's own normalized re-read.

use vstd::prelude::*;

use crate::codec::{parse_doc, parse_document, ser_doc, serialize_document, lemma_round_trip};
use crate::document::{spec_default_doc, wf_doc, DocV, Document};
use crate::errors::LoadError;

verus! {

// ---------------------------------------------------------------------------
// The persisted medium
// ---------------------------------------------------------------------------
/// What occupies one locator in the persisted world.
#[derive(Clone, Debug)]
pub enum StoreMedium {
    /// Nothing exists at the locator yet.
    Vacant,
    /// Something occupies the locator in an incompatible shape.
    Foreign,
    /// A document root holding one persisted payload.
    Root(String),
}

/// Spec model of a `StoreMedium`.
pub enum MediumV {
    Vacant,
    Foreign,
    Root(Seq<char>),
}

impl View for StoreMedium {
    type V = MediumV;

    open spec fn view(&self) -> MediumV {
        match self {
            StoreMedium::Vacant => MediumV::Vacant,
            StoreMedium::Foreign => MediumV::Foreign,
            StoreMedium::Root(p) => MediumV::Root(p@),
        }
    }
}

/// Whether a read of the medium yields a document.
pub open spec fn load_ok(m: MediumV) -> bool {
    m is Root && parse_doc(m->Root_0) is Some
}

/// The document a successful read yields.
pub open spec fn load_doc(m: MediumV) -> DocV {
    parse_doc(m->Root_0).unwrap()
}

/// The error variant a failed read reports: a vacant locator is an I/O
/// failure, a foreign occupant is a structural failure, and an unparseable
/// payload is a format failure.
pub open spec fn load_err_matches(m: MediumV, e: LoadError) -> bool {
    match m {
        MediumV::Vacant => e is IOError,
        MediumV::Foreign => e is BadStructure,
        MediumV::Root(p) => e is BadFormat && parse_doc(p) is None,
    }
}

/// The medium after a successful mutation that persisted `d`: the whole
/// root replaced by `d`'s one serialized payload.
pub open spec fn written(d: DocV) -> MediumV {
    MediumV::Root(ser_doc(d))
}

// ---------------------------------------------------------------------------
// Locators
// ---------------------------------------------------------------------------
/// Whether a locator selects the relational variant: it starts with the
/// fixed scheme prefix. Parsing is total; every other string is a
/// filesystem path.
pub open spec fn locator_is_relational(l: Seq<char>) -> bool {
    l.len() >= 7 && l.subrange(0, 7) == "sqlite:"@
}

/// Decides the backend variant from a locator's shape.
pub fn check_locator_relational(l: &str) -> (r: bool)
    ensures
        r == locator_is_relational(l@),
{
    let n = l.unicode_len();
    if n < 7 {
        return false;
    }
    crate::text::range_eq_str(l, 0, 7, "sqlite:")
}

// ---------------------------------------------------------------------------
// Filesystem variant
// ---------------------------------------------------------------------------
/// The filesystem-rooted backend: one document per root directory.
#[derive(Clone, Debug)]
pub struct FileSystemModelStore {
    pub root: String,
}

impl FileSystemModelStore {
    /// Binds a store to a root, accepting it only when the medium already
    /// yields a document; any other shape is reported as a structural
    /// failure, as when a directory is not a model root.
    pub fn new(path: &str, medium: &StoreMedium) -> (r: Result<FileSystemModelStore, LoadError>)
        ensures
            match r {
                Ok(s) => load_ok(medium@) && s.root@ == path@,
                Err(e) => !load_ok(medium@) && e is BadStructure,
            },
    {
        let probe = Self::load_medium(medium);
        match probe {
            Ok(_) => Ok(FileSystemModelStore { root: path.to_owned() }),
            Err(_) => Err(
                LoadError::BadStructure(String::from_str("unable to read a document root here")),
            ),
        }
    }

    /// One read of the medium: the document, or why there is none.
    fn load_medium(medium: &StoreMedium) -> (r: Result<Document, LoadError>)
        ensures
            match r {
                Ok(d) => load_ok(medium@) && d@ == load_doc(medium@) && wf_doc(d@),
                Err(e) => !load_ok(medium@) && load_err_matches(medium@, e),
            },
    {
        match medium {
            StoreMedium::Vacant => Err(LoadError::IOError),
            StoreMedium::Foreign => Err(
                LoadError::BadStructure(String::from_str("locator is not a document root")),
            ),
            StoreMedium::Root(p) => parse_document(p.as_str()),
        }
    }

    /// Lists the root's documents: the filesystem variant holds exactly one
    /// document per root, so a successful list has exactly one element.
    pub fn list(&self, medium: &StoreMedium) -> (r: Result<Vec<Document>, LoadError>)
        ensures
            match r {
                Ok(ds) => load_ok(medium@) && ds@.len() == 1 && ds@[0]@ == load_doc(medium@),
                Err(e) => !load_ok(medium@) && load_err_matches(medium@, e),
            },
    {
        match Self::load_medium(medium) {
            Ok(d) => {
                let mut ds: Vec<Document> = Vec::new();
                ds.push(d);
                Ok(ds)
            },
            Err(e) => Err(e),
        }
    }

    /// Reads the root's one document. The id is advisory for this variant:
    /// there is exactly one document per root, so it is ignored, and the
    /// result does not depend on it.
    pub fn get(&self, medium: &StoreMedium, _id: &str) -> (r: Result<Document, LoadError>)
        ensures
            match r {
                Ok(d) => load_ok(medium@) && d@ == load_doc(medium@) && wf_doc(d@),
                Err(e) => !load_ok(medium@) && load_err_matches(medium@, e),
            },
    {
        Self::load_medium(medium)
    }

    /// Creates the minimal structure for a new, empty document, unless
    /// something already occupies the locator: a foreign occupant is a
    /// structural failure, and an existing root is kept as it stands.
    pub fn initialize(&self, medium: &mut StoreMedium) -> (r: Result<Document, LoadError>)
        ensures
            match r {
                Ok(d) => {
                    &&& (old(medium)@ is Vacant ==> final(medium)@ == written(spec_default_doc())
                        && d@ == spec_default_doc())
                    &&& (old(medium)@ is Root ==> final(medium)@ == old(medium)@ && load_ok(
                        old(medium)@,
                    ) && d@ == load_doc(old(medium)@))
                    &&& !(old(medium)@ is Foreign)
                    &&& load_ok(final(medium)@)
                    &&& d@ == load_doc(final(medium)@)
                },
                Err(e) => {
                    &&& final(medium)@ == old(medium)@
                    &&& (old(medium)@ is Foreign ==> e is BadStructure)
                    &&& (old(medium)@ is Root ==> e is BadFormat && !load_ok(old(medium)@))
                    &&& !(old(medium)@ is Vacant)
                },
            },
    {
        match medium {
            StoreMedium::Foreign => Err(
                LoadError::BadStructure(String::from_str("locator is occupied")),
            ),
            StoreMedium::Vacant => {
                let d = Document::default_doc();
                let payload = serialize_document(&d);
                *medium = StoreMedium::Root(payload);
                proof {
                    lemma_round_trip(spec_default_doc());
                }
                Ok(d)
            },
            StoreMedium::Root(p) => parse_document(p.as_str()),
        }
    }

    /// Persists a payload as the root's whole new content: parse, then
    /// replace, then re-read, so the caller sees the backend's own re-read.
    /// A payload that does not parse changes nothing.
    fn write_payload(&self, medium: &mut StoreMedium, payload: &str) -> (r: Result<
        Document,
        LoadError,
    >)
        ensures
            match r {
                Ok(d) => {
                    &&& parse_doc(payload@) == Some(d@)
                    &&& !(old(medium)@ is Foreign)
                    &&& final(medium)@ == written(d@)
                    &&& load_ok(final(medium)@)
                    &&& load_doc(final(medium)@) == d@
                },
                Err(e) => {
                    &&& final(medium)@ == old(medium)@
                    &&& (parse_doc(payload@) is None <==> e is BadFormat)
                    &&& (parse_doc(payload@) is Some <==> old(medium)@ is Foreign && e
                        is BadStructure)
                },
            },
    {
        let parsed = parse_document(payload);
        match parsed {
            Err(e) => Err(e),
            Ok(d) => {
                if let StoreMedium::Foreign = medium {
                    return Err(LoadError::BadStructure(String::from_str("locator is occupied")));
                }
                let new_payload = serialize_document(&d);
                *medium = StoreMedium::Root(new_payload);
                proof {
                    lemma_round_trip(d@);
                }
                Self::load_medium(medium)
            },
        }
    }

    /// Parses `payload` as a document and persists it as the new root
    /// content; returns the freshly re-read document.
    pub fn create(&self, medium: &mut StoreMedium, payload: &str) -> (r: Result<
        Document,
        LoadError,
    >)
        ensures
            match r {
                Ok(d) => {
                    &&& parse_doc(payload@) == Some(d@)
                    &&& !(old(medium)@ is Foreign)
                    &&& final(medium)@ == written(d@)
                    &&& load_ok(final(medium)@)
                    &&& load_doc(final(medium)@) == d@
                },
                Err(e) => {
                    &&& final(medium)@ == old(medium)@
                    &&& (parse_doc(payload@) is None <==> e is BadFormat)
                    &&& (parse_doc(payload@) is Some <==> old(medium)@ is Foreign && e
                        is BadStructure)
                },
            },
    {
        self.write_payload(medium, payload)
    }

    /// Replaces the persisted document wholesale: the same contract as
    /// `create`; there is no merge, the caller supplies the full document.
    pub fn update(&self, medium: &mut StoreMedium, payload: &str) -> (r: Result<
        Document,
        LoadError,
    >)
        ensures
            match r {
                Ok(d) => {
                    &&& parse_doc(payload@) == Some(d@)
                    &&& !(old(medium)@ is Foreign)
                    &&& final(medium)@ == written(d@)
                    &&& load_ok(final(medium)@)
                    &&& load_doc(final(medium)@) == d@
                },
                Err(e) => {
                    &&& final(medium)@ == old(medium)@
                    &&& (parse_doc(payload@) is None <==> e is BadFormat)
                    &&& (parse_doc(payload@) is Some <==> old(medium)@ is Foreign && e
                        is BadStructure)
                },
            },
    {
        self.write_payload(medium, payload)
    }

    /// Deleting is not implemented by this variant; it fails distinctly
    /// rather than silently succeeding. This is a deliberate scope gap.
    pub fn delete(&self, medium: &mut StoreMedium, _id: &str) -> (r: Result<(), LoadError>)
        ensures
            r matches Err(e) && e is Unsupported,
            final(medium)@ == old(medium)@,
    {
        Err(LoadError::Unsupported)
    }
}

// ---------------------------------------------------------------------------
// Relational variant
// ---------------------------------------------------------------------------
/// The relational backend. Its operations are not implemented in this
/// system; each fails distinctly with `Unsupported` rather than panicking,
/// a deliberate scope gap kept visible in the contract.
#[derive(Clone, Debug)]
pub struct SQLliteModelStore {
    pub root: String,
}

impl SQLliteModelStore {
    /// Binds the relational store to its connection string. Opening the
    /// connection itself is unimplemented, so this always fails distinctly.
    pub fn new(path: &str) -> (r: Result<SQLliteModelStore, LoadError>)
        ensures
            r matches Err(e) && e is Unsupported,
    {
        let _ = path;
        Err(LoadError::Unsupported)
    }

    /// Not implemented: fails distinctly.
    pub fn list(&self, medium: &StoreMedium) -> (r: Result<Vec<Document>, LoadError>)
        ensures
            r matches Err(e) && e is Unsupported,
    {
        let _ = medium;
        Err(LoadError::Unsupported)
    }

    /// Not implemented: fails distinctly.
    pub fn get(&self, medium: &StoreMedium, _id: &str) -> (r: Result<Document, LoadError>)
        ensures
            r matches Err(e) && e is Unsupported,
    {
        let _ = medium;
        Err(LoadError::Unsupported)
    }

    /// Not implemented: fails distinctly.
    pub fn initialize(&self, medium: &mut StoreMedium) -> (r: Result<Document, LoadError>)
        ensures
            r matches Err(e) && e is Unsupported,
            final(medium)@ == old(medium)@,
    {
        Err(LoadError::Unsupported)
    }

    /// Not implemented: fails distinctly.
    pub fn create(&self, medium: &mut StoreMedium, _payload: &str) -> (r: Result<
        Document,
        LoadError,
    >)
        ensures
            r matches Err(e) && e is Unsupported,
            final(medium)@ == old(medium)@,
    {
        Err(LoadError::Unsupported)
    }

    /// Not implemented: fails distinctly.
    pub fn update(&self, medium: &mut StoreMedium, _payload: &str) -> (r: Result<
        Document,
        LoadError,
    >)
        ensures
            r matches Err(e) && e is Unsupported,
            final(medium)@ == old(medium)@,
    {
        Err(LoadError::Unsupported)
    }

    /// Not implemented: fails distinctly.
    pub fn delete(&self, medium: &mut StoreMedium, _id: &str) -> (r: Result<(), LoadError>)
        ensures
            r matches Err(e) && e is Unsupported,
            final(medium)@ == old(medium)@,
    {
        Err(LoadError::Unsupported)
    }
}

// ---------------------------------------------------------------------------
// The handle: variant decided once, at construction
// ---------------------------------------------------------------------------
/// The backend variant behind a handle.
#[derive(Clone, Debug)]
pub enum Backend {
    Filesystem(FileSystemModelStore),
    Relational(SQLliteModelStore),
}

/// A bound store: its locator, fixed for the handle's lifetime, and the
/// variant chosen once from the locator's shape, never re-derived per call.
#[derive(Clone, Debug)]
pub struct StoreHandle {
    pub locator: String,
    pub backend: Backend,
}

impl StoreHandle {
    /// The variant a handle wraps agrees with its locator's shape.
    pub open spec fn wf(&self) -> bool {
        match self.backend {
            Backend::Filesystem(_) => !locator_is_relational(self.locator@),
            Backend::Relational(_) => locator_is_relational(self.locator@),
        }
    }

    /// Whether this handle wraps the filesystem variant.
    pub open spec fn is_filesystem(&self) -> bool {
        self.backend is Filesystem
    }

    /// Binds a handle to a locator: a `sqlite:` prefix selects the
    /// relational variant, any other string is a filesystem path.
    pub fn open(locator: &str) -> (h: StoreHandle)
        ensures
            h.wf(),
            h.locator@ == locator@,
            h.is_filesystem() == !locator_is_relational(locator@),
    {
        if check_locator_relational(locator) {
            StoreHandle {
                locator: locator.to_owned(),
                backend: Backend::Relational(SQLliteModelStore { root: locator.to_owned() }),
            }
        } else {
            StoreHandle {
                locator: locator.to_owned(),
                backend: Backend::Filesystem(FileSystemModelStore { root: locator.to_owned() }),
            }
        }
    }
}

impl StoreHandle {
    /// Reads one document through whichever variant this handle wraps.
    pub fn get(&self, medium: &StoreMedium, id: &str) -> (r: Result<Document, LoadError>)
        ensures
            match r {
                Ok(d) => self.is_filesystem() && load_ok(medium@) && d@ == load_doc(medium@)
                    && wf_doc(d@),
                Err(e) => if self.is_filesystem() {
                    !load_ok(medium@) && load_err_matches(medium@, e)
                } else {
                    e is Unsupported
                },
            },
    {
        match &self.backend {
            Backend::Filesystem(s) => s.get(medium, id),
            Backend::Relational(s) => s.get(medium, id),
        }
    }

    /// Replaces the persisted document through whichever variant this handle
    /// wraps.
    pub fn update(&self, medium: &mut StoreMedium, payload: &str) -> (r: Result<
        Document,
        LoadError,
    >)
        ensures
            match r {
                Ok(d) => {
                    &&& self.is_filesystem()
                    &&& parse_doc(payload@) == Some(d@)
                    &&& !(old(medium)@ is Foreign)
                    &&& final(medium)@ == written(d@)
                },
                Err(e) => {
                    &&& final(medium)@ == old(medium)@
                    &&& if self.is_filesystem() {
                        (parse_doc(payload@) is None <==> e is BadFormat) && (parse_doc(payload@)
                            is Some <==> old(medium)@ is Foreign && e is BadStructure)
                    } else {
                        e is Unsupported
                    }
                },
            },
    {
        match &self.backend {
            Backend::Filesystem(s) => s.update(medium, payload),
            Backend::Relational(s) => s.update(medium, payload),
        }
    }
}

// ---------------------------------------------------------------------------
// Store-level laws
// ---------------------------------------------------------------------------
/// After any successful `initialize`, every `get` on the unchanged medium
/// yields the same document: its identifier is stable across repeated reads.
pub proof fn lemma_get_id_stable(m: MediumV, d1: DocV, d2: DocV)
    requires
        load_ok(m),
        d1 == load_doc(m),
        d2 == load_doc(m),
    ensures
        d1.id == d2.id,
{
}

/// A payload that parses becomes visible: the medium `create` leaves behind
/// loads successfully and yields exactly the parsed document, so a `get`
/// after a successful `create` returns it.
pub proof fn lemma_create_then_get(p: Seq<char>)
    requires
        parse_doc(p) is Some,
    ensures
        load_ok(written(parse_doc(p).unwrap())),
        load_doc(written(parse_doc(p).unwrap())) == parse_doc(p).unwrap(),
{
    lemma_round_trip(parse_doc(p).unwrap());
}

/// The no-semantic-change round trip: re-submitting a loaded document's own
/// serialization cannot fail, and persists a document with the same
/// identifier (indeed the same document).
pub proof fn lemma_update_round_trip(m: MediumV)
    requires
        load_ok(m),
    ensures
        parse_doc(ser_doc(load_doc(m))) == Some(load_doc(m)),
        load_ok(written(load_doc(m))),
        load_doc(written(load_doc(m))) == load_doc(m),
        load_doc(written(load_doc(m))).id == load_doc(m).id,
{
    lemma_round_trip(load_doc(m));
}

} // verus!
