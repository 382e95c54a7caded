//! The interactive session: a working copy of one document held in memory,
//! mutated by parsed commands, and persisted only by an explicit `sync`.
//!
//! The session is a state machine: it is constructed only when a working
//! copy can be loaded from the store (its loading state), then applies one
//! command per input line (its ready state); dropping it discards unsynced
//! mutations, an explicit data-loss boundary. A line the grammar rejects
//! reports a diagnostic and changes nothing; a failed sync reports the load
//! error and keeps the working copy intact for retry.

use vstd::prelude::*;

use crate::codec::{serialize_document, lemma_round_trip};
use crate::document::{
    drop_entity_rec, find_entity, lemma_add_entity_wf, lemma_destroy_wf, lemma_generate_wf,
    lemma_remove_entity_wf, lemma_update_entity_wf, spec_component_names, spec_destroy,
    spec_generate, strs, wf_doc, wf_entity, ComponentKind, DocV, Document, Entry, EntryV, EntityV,
};
use crate::errors::LoadError;
use crate::store::{load_doc, load_err_matches, load_ok, written, MediumV, StoreHandle, StoreMedium};
use crate::text::{find_char, find_char_range, lemma_find_char_range, copy_range, str_eq, wf_text, wf_token};

verus! {

// ---------------------------------------------------------------------------
// Commands
// ---------------------------------------------------------------------------
/// One parsed session command.
#[derive(Clone, Debug)]
pub enum Command {
    /// Do nothing.
    Nop,
    /// Print usage.
    Help,
    /// Persist the working copy, narrowed to the active locale.
    Sync,
    /// Session-local key/value assignment; does not touch the document.
    SetValue(String, String),
    /// Enumerate the components of one kind.
    List(ComponentKind),
    /// Append a new default component of one kind.
    Generate(ComponentKind, String),
    /// Remove the components of one kind bearing a name.
    Destroy(ComponentKind, String),
    /// Append a domain entity.
    AddEntity(String),
    /// Remove the domain entities bearing a name.
    RemoveEntity(String),
    /// Append an attribute to an entity.
    AddAttribute(String, String),
    /// Remove an attribute from an entity.
    RemoveAttribute(String, String),
    /// Alter an entity: recognized, deliberately unimplemented.
    AlterEntity(String),
    /// Rename an entity: recognized, deliberately unimplemented.
    RenameEntity(String, String),
}

/// Spec model of a `Command`.
pub enum CommandV {
    Nop,
    Help,
    Sync,
    SetValue(Seq<char>, Seq<char>),
    List(ComponentKind),
    Generate(ComponentKind, Seq<char>),
    Destroy(ComponentKind, Seq<char>),
    AddEntity(Seq<char>),
    RemoveEntity(Seq<char>),
    AddAttribute(Seq<char>, Seq<char>),
    RemoveAttribute(Seq<char>, Seq<char>),
    AlterEntity(Seq<char>),
    RenameEntity(Seq<char>, Seq<char>),
}

impl View for Command {
    type V = CommandV;

    open spec fn view(&self) -> CommandV {
        match self {
            Command::Nop => CommandV::Nop,
            Command::Help => CommandV::Help,
            Command::Sync => CommandV::Sync,
            Command::SetValue(k, v) => CommandV::SetValue(k@, v@),
            Command::List(k) => CommandV::List(*k),
            Command::Generate(k, n) => CommandV::Generate(*k, n@),
            Command::Destroy(k, n) => CommandV::Destroy(*k, n@),
            Command::AddEntity(n) => CommandV::AddEntity(n@),
            Command::RemoveEntity(n) => CommandV::RemoveEntity(n@),
            Command::AddAttribute(e, a) => CommandV::AddAttribute(e@, a@),
            Command::RemoveAttribute(e, a) => CommandV::RemoveAttribute(e@, a@),
            Command::AlterEntity(n) => CommandV::AlterEntity(n@),
            Command::RenameEntity(a, b) => CommandV::RenameEntity(a@, b@),
        }
    }
}

// ---------------------------------------------------------------------------
// The command grammar
// ---------------------------------------------------------------------------
/// The space-separated words of a line, empties included.
pub open spec fn words(s: Seq<char>) -> Seq<Seq<char>>
    decreases s.len(),
{
    let k = find_char(s, ' ');
    if !(0 <= k < s.len()) {
        seq![s]
    } else {
        seq![s.subrange(0, k)] + words(s.subrange(k + 1, s.len() as int))
    }
}

/// The component kind a word names.
pub open spec fn kind_of(w: Seq<char>) -> Option<ComponentKind> {
    if w == "page"@ {
        Some(ComponentKind::Page)
    } else if w == "xflow"@ {
        Some(ComponentKind::Xflow)
    } else if w == "translation"@ {
        Some(ComponentKind::Translation)
    } else {
        None
    }
}

/// The whole grammar: one line, split on spaces, read as a command. Every
/// argument must be a nonempty token, so an accepted command can never push
/// a malformed name into the working copy. Anything else — the empty line
/// included — is rejected.
pub open spec fn parse_command_spec(s: Seq<char>) -> Option<CommandV> {
    if !wf_text(s) {
        None
    } else {
        let ws = words(s);
        if ws.len() == 1 {
            if ws[0] == "help"@ {
                Some(CommandV::Help)
            } else if ws[0] == "sync"@ {
                Some(CommandV::Sync)
            } else if ws[0] == "nop"@ {
                Some(CommandV::Nop)
            } else {
                None
            }
        } else if ws.len() == 2 {
            if ws[0] == "list"@ {
                match kind_of(ws[1]) {
                    Some(k) => Some(CommandV::List(k)),
                    None => None,
                }
            } else {
                None
            }
        } else if ws.len() == 3 {
            if ws[0] == "set"@ {
                if wf_token(ws[1]) && wf_token(ws[2]) {
                    Some(CommandV::SetValue(ws[1], ws[2]))
                } else {
                    None
                }
            } else if ws[0] == "generate"@ {
                match kind_of(ws[1]) {
                    Some(k) => if wf_token(ws[2]) {
                        Some(CommandV::Generate(k, ws[2]))
                    } else {
                        None
                    },
                    None => None,
                }
            } else if ws[0] == "destroy"@ {
                match kind_of(ws[1]) {
                    Some(k) => if wf_token(ws[2]) {
                        Some(CommandV::Destroy(k, ws[2]))
                    } else {
                        None
                    },
                    None => None,
                }
            } else if ws[0] == "add"@ && ws[1] == "entity"@ {
                if wf_token(ws[2]) {
                    Some(CommandV::AddEntity(ws[2]))
                } else {
                    None
                }
            } else if ws[0] == "remove"@ && ws[1] == "entity"@ {
                if wf_token(ws[2]) {
                    Some(CommandV::RemoveEntity(ws[2]))
                } else {
                    None
                }
            } else if ws[0] == "alter"@ && ws[1] == "entity"@ {
                if wf_token(ws[2]) {
                    Some(CommandV::AlterEntity(ws[2]))
                } else {
                    None
                }
            } else {
                None
            }
        } else if ws.len() == 4 {
            if ws[0] == "add"@ && ws[1] == "attribute"@ {
                if wf_token(ws[2]) && wf_token(ws[3]) {
                    Some(CommandV::AddAttribute(ws[2], ws[3]))
                } else {
                    None
                }
            } else if ws[0] == "remove"@ && ws[1] == "attribute"@ {
                if wf_token(ws[2]) && wf_token(ws[3]) {
                    Some(CommandV::RemoveAttribute(ws[2], ws[3]))
                } else {
                    None
                }
            } else if ws[0] == "rename"@ && ws[1] == "entity"@ {
                if wf_token(ws[2]) && wf_token(ws[3]) {
                    Some(CommandV::RenameEntity(ws[2], ws[3]))
                } else {
                    None
                }
            } else {
                None
            }
        } else {
            None
        }
    }
}

/// Splits a line into its space-separated words.
fn split_words(line: &str) -> (ws: Vec<String>)
    ensures
        strs(ws@) == words(line@),
        ws@.len() >= 1,
{
    let n = line.unicode_len();
    let mut ws: Vec<String> = Vec::new();
    let mut pos: usize = 0;
    proof {
        assert(strs(ws@) =~= Seq::<Seq<char>>::empty());
        assert(line@.subrange(0, n as int) =~= line@);
    }
    loop
        invariant_except_break
            words(line@) == strs(ws@) + words(line@.subrange(pos as int, n as int)),
        invariant
            pos <= n,
            n == line@.len(),
        ensures
            strs(ws@) == words(line@),
            ws@.len() >= 1,
        decreases n - pos,
    {
        let ghost suffix = line@.subrange(pos as int, n as int);
        let r = find_char_range(line, ' ', pos, n);
        proof {
            lemma_find_char_range(line@, ' ', pos as int, n as int, r);
        }
        match r {
            None => {
                let ghost ws_pre = ws@;
                ws.push(copy_range(line, pos, n));
                proof {
                    assert(words(suffix) =~= seq![suffix]);
                    assert(strs(ws@) =~= strs(ws_pre).push(suffix));
                    assert(strs(ws_pre) + words(suffix) =~= strs(ws@));
                }
                break;
            },
            Some(k) => {
                let ghost word = suffix.subrange(0, k - pos);
                let ghost rest = suffix.subrange(k - pos + 1, suffix.len() as int);
                proof {
                    assert(word =~= line@.subrange(pos as int, k as int));
                    assert(rest =~= line@.subrange(k + 1, n as int));
                    assert(words(suffix) == seq![word] + words(rest));
                }
                let ghost ws_pre = ws@;
                ws.push(copy_range(line, pos, k));
                proof {
                    assert(strs(ws@) =~= strs(ws_pre).push(word));
                    assert(strs(ws@) + words(rest) =~= strs(ws_pre) + (seq![word] + words(rest)));
                }
                pos = k + 1;
            },
        }
    }
    ws
}

/// The component kind a word names, if any.
fn kind_of_word(w: &str) -> (r: Option<ComponentKind>)
    ensures
        r == kind_of(w@),
{
    if str_eq(w, "page") {
        Some(ComponentKind::Page)
    } else if str_eq(w, "xflow") {
        Some(ComponentKind::Xflow)
    } else if str_eq(w, "translation") {
        Some(ComponentKind::Translation)
    } else {
        None
    }
}

/// Parses one input line into a command, or reports the grammar's
/// diagnostic.
pub fn parse_command(line: &str) -> (r: Result<Command, String>)
    ensures
        match r {
            Ok(c) => parse_command_spec(line@) == Some(c@),
            Err(_) => parse_command_spec(line@) is None,
        },
{
    if !crate::codec::check_text_str(line) {
        return Err(String::from_str("a command is a single line"));
    }
    let ws = split_words(line);
    let nw = ws.len();
    proof {
        assert(forall|i: int| 0 <= i < ws@.len() ==> #[trigger] words(line@)[i] == ws@[i]@);
    }
    if nw == 1 {
        let w0 = ws[0].as_str();
        if str_eq(w0, "help") {
            Ok(Command::Help)
        } else if str_eq(w0, "sync") {
            Ok(Command::Sync)
        } else if str_eq(w0, "nop") {
            Ok(Command::Nop)
        } else {
            Err(String::from_str("expected a command word"))
        }
    } else if nw == 2 {
        let w0 = ws[0].as_str();
        if str_eq(w0, "list") {
            match kind_of_word(ws[1].as_str()) {
                Some(k) => Ok(Command::List(k)),
                None => Err(String::from_str("expected a component kind")),
            }
        } else {
            Err(String::from_str("expected a command word"))
        }
    } else if nw == 3 {
        let w0 = ws[0].as_str();
        if str_eq(w0, "set") {
            if crate::codec::check_token_str(ws[1].as_str()) && crate::codec::check_token_str(
                ws[2].as_str(),
            ) {
                Ok(Command::SetValue(ws[1].clone(), ws[2].clone()))
            } else {
                Err(String::from_str("expected a key and a value"))
            }
        } else if str_eq(w0, "generate") {
            match kind_of_word(ws[1].as_str()) {
                Some(k) => if crate::codec::check_token_str(ws[2].as_str()) {
                    Ok(Command::Generate(k, ws[2].clone()))
                } else {
                    Err(String::from_str("expected a component name"))
                },
                None => Err(String::from_str("expected a component kind")),
            }
        } else if str_eq(w0, "destroy") {
            match kind_of_word(ws[1].as_str()) {
                Some(k) => if crate::codec::check_token_str(ws[2].as_str()) {
                    Ok(Command::Destroy(k, ws[2].clone()))
                } else {
                    Err(String::from_str("expected a component name"))
                },
                None => Err(String::from_str("expected a component kind")),
            }
        } else if str_eq(w0, "add") && str_eq(ws[1].as_str(), "entity") {
            if crate::codec::check_token_str(ws[2].as_str()) {
                Ok(Command::AddEntity(ws[2].clone()))
            } else {
                Err(String::from_str("expected an entity name"))
            }
        } else if str_eq(w0, "remove") && str_eq(ws[1].as_str(), "entity") {
            if crate::codec::check_token_str(ws[2].as_str()) {
                Ok(Command::RemoveEntity(ws[2].clone()))
            } else {
                Err(String::from_str("expected an entity name"))
            }
        } else if str_eq(w0, "alter") && str_eq(ws[1].as_str(), "entity") {
            if crate::codec::check_token_str(ws[2].as_str()) {
                Ok(Command::AlterEntity(ws[2].clone()))
            } else {
                Err(String::from_str("expected an entity name"))
            }
        } else {
            Err(String::from_str("expected a command word"))
        }
    } else if nw == 4 {
        let w0 = ws[0].as_str();
        if str_eq(w0, "add") && str_eq(ws[1].as_str(), "attribute") {
            if crate::codec::check_token_str(ws[2].as_str()) && crate::codec::check_token_str(
                ws[3].as_str(),
            ) {
                Ok(Command::AddAttribute(ws[2].clone(), ws[3].clone()))
            } else {
                Err(String::from_str("expected an entity and an attribute"))
            }
        } else if str_eq(w0, "remove") && str_eq(ws[1].as_str(), "attribute") {
            if crate::codec::check_token_str(ws[2].as_str()) && crate::codec::check_token_str(
                ws[3].as_str(),
            ) {
                Ok(Command::RemoveAttribute(ws[2].clone(), ws[3].clone()))
            } else {
                Err(String::from_str("expected an entity and an attribute"))
            }
        } else if str_eq(w0, "rename") && str_eq(ws[1].as_str(), "entity") {
            if crate::codec::check_token_str(ws[2].as_str()) && crate::codec::check_token_str(
                ws[3].as_str(),
            ) {
                Ok(Command::RenameEntity(ws[2].clone(), ws[3].clone()))
            } else {
                Err(String::from_str("expected two entity names"))
            }
        } else {
            Err(String::from_str("expected a command word"))
        }
    } else {
        Err(String::from_str("expected at most four words"))
    }
}

// ---------------------------------------------------------------------------
// The session
// ---------------------------------------------------------------------------
/// The ready-state session: the active locale, the session-local settings,
/// and the in-memory working copy.
#[derive(Debug)]
pub struct ShellSession {
    /// The active locale, which `sync` narrows the working copy to.
    pub locale: String,
    /// Session-local key/value assignments.
    pub settings: Vec<Entry>,
    /// The working copy: mutated in memory, persisted only by `sync`.
    pub model: Document,
}

/// Spec model of a `ShellSession`.
#[verifier::ext_equal]
pub struct SessionV {
    pub locale: Seq<char>,
    pub settings: Seq<EntryV>,
    pub model: DocV,
}

impl View for ShellSession {
    type V = SessionV;

    open spec fn view(&self) -> SessionV {
        SessionV {
            locale: self.locale@,
            settings: crate::document::entry_views(self.settings@),
            model: self.model@,
        }
    }
}

/// The index of the first setting with key `k`, or `-1`.
pub open spec fn find_setting(s: Seq<EntryV>, k: Seq<char>) -> int
    decreases s.len(),
{
    if s.len() == 0 {
        -1
    } else if s[0].key == k {
        0
    } else {
        let r = find_setting(s.drop_first(), k);
        if r < 0 {
            -1
        } else {
            r + 1
        }
    }
}

/// Settings after assigning `v` to `k`: the first entry with key `k` is
/// replaced, or a new entry is appended.
pub open spec fn spec_set(s: Seq<EntryV>, k: Seq<char>, v: Seq<char>) -> Seq<EntryV> {
    let fi = find_setting(s, k);
    if fi >= 0 {
        s.update(fi, EntryV { key: k, value: v })
    } else {
        s.push(EntryV { key: k, value: v })
    }
}

/// A position holding the key, with none before it, is what `find_setting`
/// returns.
proof fn lemma_find_setting_first(s: Seq<EntryV>, k: Seq<char>, i: int)
    requires
        0 <= i < s.len(),
        s[i].key == k,
        forall|j: int| 0 <= j < i ==> (#[trigger] s[j]).key != k,
    ensures
        find_setting(s, k) == i,
    decreases s.len(),
{
    if s.len() == 0 {
    } else if s[0].key == k {
        assert(i == 0);
    } else {
        assert(s.drop_first()[i - 1] == s[i]);
        assert forall|j: int| 0 <= j < i - 1 implies (#[trigger] s.drop_first()[j]).key != k by {
            assert(s.drop_first()[j] == s[j + 1]);
        }
        lemma_find_setting_first(s.drop_first(), k, i - 1);
    }
}

/// Without an entry of that key there is nothing to find.
proof fn lemma_find_setting_none(s: Seq<EntryV>, k: Seq<char>)
    requires
        forall|j: int| 0 <= j < s.len() ==> (#[trigger] s[j]).key != k,
    ensures
        find_setting(s, k) == -1,
    decreases s.len(),
{
    if s.len() == 0 {
    } else {
        assert forall|j: int| 0 <= j < s.drop_first().len() implies (#[trigger] s.drop_first()[j]).key
            != k by {
            assert(s.drop_first()[j] == s[j + 1]);
        }
        lemma_find_setting_none(s.drop_first(), k);
    }
}

/// The whole effect of one command on the session and the medium: how the
/// working copy, the settings, the active locale and the persisted medium
/// move, and whether the command succeeds. `out` is what a successful
/// `list` reports.
pub open spec fn command_post(
    s0: SessionV,
    fs: bool,
    m0: MediumV,
    c: CommandV,
    s1: SessionV,
    m1: MediumV,
    r_ok: bool,
    out: Seq<Seq<char>>,
) -> bool {
    match c {
        CommandV::Nop => r_ok && s1 == s0 && m1 == m0,
        CommandV::Help => r_ok && s1 == s0 && m1 == m0,
        CommandV::Sync => if fs && !(m0 is Foreign) {
            r_ok && s1 == s0 && m1 == written(DocV { locale: s0.locale, ..s0.model })
        } else {
            !r_ok && s1 == s0 && m1 == m0
        },
        CommandV::SetValue(k, v) => m1 == m0 && (if k == "locale"@ && !wf_token(v) {
            !r_ok && s1 == s0
        } else {
            r_ok && s1 == (SessionV {
                locale: if k == "locale"@ {
                    v
                } else {
                    s0.locale
                },
                settings: spec_set(s0.settings, k, v),
                model: s0.model,
            })
        }),
        CommandV::List(kind) => r_ok && s1 == s0 && m1 == m0 && out == spec_component_names(
            s0.model,
            kind,
        ),
        CommandV::Generate(kind, name) => m1 == m0 && (if wf_token(name) {
            r_ok && s1 == (SessionV { model: spec_generate(s0.model, kind, name), ..s0 })
        } else {
            !r_ok && s1 == s0
        }),
        CommandV::Destroy(kind, name) => r_ok && m1 == m0 && s1 == (SessionV {
            model: spec_destroy(s0.model, kind, name),
            ..s0
        }),
        CommandV::AddEntity(n) => m1 == m0 && (if wf_token(n) {
            r_ok && s1 == (SessionV {
                model: DocV {
                    entities: s0.model.entities.push(
                        EntityV { name: n, attributes: Seq::empty() },
                    ),
                    ..s0.model
                },
                ..s0
            })
        } else {
            !r_ok && s1 == s0
        }),
        CommandV::RemoveEntity(n) => r_ok && m1 == m0 && s1 == (SessionV {
            model: DocV {
                entities: drop_entity_rec(Seq::empty(), s0.model.entities, n),
                ..s0.model
            },
            ..s0
        }),
        CommandV::AddAttribute(e, a) => m1 == m0 && (if wf_token(a) && find_entity(
            s0.model.entities,
            e,
        ) >= 0 {
            let fi = find_entity(s0.model.entities, e);
            r_ok && s1 == (SessionV {
                model: DocV {
                    entities: s0.model.entities.update(
                        fi,
                        EntityV {
                            attributes: s0.model.entities[fi].attributes.push(a),
                            ..s0.model.entities[fi]
                        },
                    ),
                    ..s0.model
                },
                ..s0
            })
        } else {
            !r_ok && s1 == s0
        }),
        CommandV::RemoveAttribute(e, a) => m1 == m0 && (if find_entity(s0.model.entities, e)
            >= 0 {
            let fi = find_entity(s0.model.entities, e);
            r_ok && s1 == (SessionV {
                model: DocV {
                    entities: s0.model.entities.update(
                        fi,
                        EntityV {
                            attributes: crate::document::drop_name_rec(
                                Seq::empty(),
                                s0.model.entities[fi].attributes,
                                a,
                            ),
                            ..s0.model.entities[fi]
                        },
                    ),
                    ..s0.model
                },
                ..s0
            })
        } else {
            !r_ok && s1 == s0
        }),
        CommandV::AlterEntity(_) => !r_ok && s1 == s0 && m1 == m0,
        CommandV::RenameEntity(_, _) => !r_ok && s1 == s0 && m1 == m0,
    }
}

impl ShellSession {
    /// A session is well formed while its working copy can be persisted and
    /// its active locale is a token.
    pub open spec fn wf(&self) -> bool {
        &&& wf_doc(self.model@)
        &&& wf_token(self.locale@)
    }

    /// The loading state: obtains a working copy from the store, entering
    /// the ready state only when the store yields a document; on failure the
    /// session never becomes ready and the load error is reported.
    pub fn start(locale: &str, handle: &StoreHandle, medium: &StoreMedium) -> (r: Result<
        ShellSession,
        LoadError,
    >)
        requires
            wf_token(locale@),
        ensures
            match r {
                Ok(s) => {
                    &&& handle.is_filesystem()
                    &&& load_ok(medium@)
                    &&& s@ == (SessionV {
                        locale: locale@,
                        settings: Seq::empty(),
                        model: load_doc(medium@),
                    })
                    &&& s.wf()
                },
                Err(e) => if handle.is_filesystem() {
                    !load_ok(medium@) && load_err_matches(medium@, e)
                } else {
                    e is Unsupported
                },
            },
    {
        match handle.get(medium, "") {
            Ok(model) => {
                let s = ShellSession { locale: locale.to_owned(), settings: Vec::new(), model };
                proof {
                    assert(crate::document::entry_views(s.settings@) =~= Seq::<EntryV>::empty());
                    assert(s@ =~= SessionV {
                        locale: locale@,
                        settings: Seq::empty(),
                        model: load_doc(medium@),
                    });
                }
                Ok(s)
            },
            Err(e) => Err(e),
        }
    }

    /// The fixed usage text.
    pub fn run_command_help(&self) -> (out: Vec<String>)
        ensures
            out@.len() == 5,
            out@[0]@ == "<< Help"@,
            out@[1]@ == "<< Use Ctrl-D or Ctrl-C to exit"@,
            out@[2]@ == "<< All changes are in-memory until a sync command is issued"@,
            out@[3]@ == "<< Read commands are help, list"@,
            out@[4]@ == "<< Write commands are generate, destroy, sync"@,
    {
        let mut out: Vec<String> = Vec::new();
        out.push(String::from_str("<< Help"));
        out.push(String::from_str("<< Use Ctrl-D or Ctrl-C to exit"));
        out.push(String::from_str("<< All changes are in-memory until a sync command is issued"));
        out.push(String::from_str("<< Read commands are help, list"));
        out.push(String::from_str("<< Write commands are generate, destroy, sync"));
        out
    }

    /// The explicit flush: submits the working copy, narrowed to the active
    /// locale, to the store as a whole-document replacement. On failure the
    /// working copy is untouched, so the operator can retry.
    pub fn run_command_sync(&self, handle: &StoreHandle, medium: &mut StoreMedium) -> (r: Result<
        (),
        String,
    >)
        requires
            self.wf(),
        ensures
            match r {
                Ok(_) => {
                    &&& handle.is_filesystem()
                    &&& !(old(medium)@ is Foreign)
                    &&& final(medium)@ == written(DocV { locale: self@.locale, ..self@.model })
                },
                Err(_) => {
                    &&& final(medium)@ == old(medium)@
                    &&& (handle.is_filesystem() ==> old(medium)@ is Foreign)
                },
            },
    {
        let narrowed = self.model.as_locale(self.locale.as_str());
        proof {
            assert(wf_doc(narrowed@));
            lemma_round_trip(narrowed@);
        }
        let payload = serialize_document(&narrowed);
        match handle.update(medium, payload.as_str()) {
            Ok(_) => Ok(()),
            Err(e) => {
                let mut msg = String::from_str("<< sync ERROR : ");
                msg.append(e.describe().as_str());
                Err(msg)
            },
        }
    }

    /// Applies one parsed command. Every failure is reported inline and
    /// leaves the session and the medium unchanged; the loop never dies.
    pub fn run_command(&mut self, cmd: &Command, handle: &StoreHandle, medium: &mut StoreMedium)
        -> (r: Result<Vec<String>, String>)
        requires
            old(self).wf(),
        ensures
            final(self).wf(),
            command_post(
                old(self)@,
                handle.is_filesystem(),
                old(medium)@,
                cmd@,
                final(self)@,
                final(medium)@,
                r is Ok,
                match r {
                    Ok(out) => strs(out@),
                    Err(_) => Seq::empty(),
                },
            ),
    {
        match cmd {
            Command::Nop => Ok(Vec::new()),
            Command::Help => Ok(self.run_command_help()),
            Command::Sync => {
                match self.run_command_sync(handle, medium) {
                    Ok(_) => {
                        let mut out: Vec<String> = Vec::new();
                        out.push(String::from_str("<< sync OK"));
                        Ok(out)
                    },
                    Err(e) => Err(e),
                }
            },
            Command::SetValue(k, v) => {
                if str_eq(k.as_str(), "locale") && !crate::codec::check_token_str(v.as_str()) {
                    return Err(String::from_str("<< a locale must be a single token"));
                }
                let ghost s0 = old(self)@.settings;
                let fi = self.find_setting_index(k.as_str());
                match fi {
                    Some(i) => {
                        let mut e = self.settings.remove(i);
                        e.key = k.clone();
                        e.value = v.clone();
                        self.settings.insert(i, e);
                        proof {
                            assert(crate::document::entry_views(self.settings@) =~~= spec_set(
                                s0,
                                k@,
                                v@,
                            ));
                        }
                    },
                    None => {
                        self.settings.push(Entry { key: k.clone(), value: v.clone() });
                        proof {
                            assert(crate::document::entry_views(self.settings@) =~~= spec_set(
                                s0,
                                k@,
                                v@,
                            ));
                        }
                    },
                }
                if str_eq(k.as_str(), "locale") {
                    self.locale = v.clone();
                }
                let mut out: Vec<String> = Vec::new();
                out.push(String::from_str("<< set"));
                proof {
                    assert(final(self)@ =~= SessionV {
                        locale: if k@ == "locale"@ {
                            v@
                        } else {
                            old(self)@.locale
                        },
                        settings: spec_set(old(self)@.settings, k@, v@),
                        model: old(self)@.model,
                    });
                }
                Ok(out)
            },
            Command::List(kind) => Ok(self.model.component_names(*kind)),
            Command::Generate(kind, name) => {
                if !crate::codec::check_token_str(name.as_str()) {
                    return Err(String::from_str("<< a component name must be a single token"));
                }
                proof {
                    lemma_generate_wf(self@.model, *kind, name@);
                }
                self.model.generate(*kind, name.clone());
                let mut out: Vec<String> = Vec::new();
                out.push(String::from_str("<< generated"));
                Ok(out)
            },
            Command::Destroy(kind, name) => {
                proof {
                    lemma_destroy_wf(self@.model, *kind, name@);
                }
                self.model.destroy(*kind, name.as_str());
                let mut out: Vec<String> = Vec::new();
                out.push(String::from_str("<< destroyed"));
                Ok(out)
            },
            Command::AddEntity(n) => {
                if !crate::codec::check_token_str(n.as_str()) {
                    return Err(String::from_str("<< an entity name must be a single token"));
                }
                proof {
                    lemma_add_entity_wf(self@.model, n@);
                }
                self.model.add_entity(n.clone());
                let mut out: Vec<String> = Vec::new();
                out.push(String::from_str("<< entity added"));
                Ok(out)
            },
            Command::RemoveEntity(n) => {
                proof {
                    lemma_remove_entity_wf(self@.model, n@);
                }
                self.model.remove_entity(n.as_str());
                let mut out: Vec<String> = Vec::new();
                out.push(String::from_str("<< entity removed"));
                Ok(out)
            },
            Command::AddAttribute(e, a) => {
                if !crate::codec::check_token_str(a.as_str()) {
                    return Err(String::from_str("<< an attribute must be a single token"));
                }
                let ghost d0 = self@.model;
                let ok = self.model.add_attribute(e.as_str(), a.clone());
                if ok {
                    proof {
                        let fi = find_entity(d0.entities, e@);
                        crate::document::lemma_find_entity_range(d0.entities, e@);
                        let old_attrs = d0.entities[fi].attributes;
                        assert(wf_entity(d0.entities[fi]));
                        assert(crate::document::wf_tokens(old_attrs.push(a@))) by {
                            assert forall|i: int| 0 <= i < old_attrs.push(a@).len() implies
                                crate::text::wf_token(#[trigger] old_attrs.push(a@)[i]) by {
                                if i < old_attrs.len() {
                                    assert(old_attrs.push(a@)[i] == old_attrs[i]);
                                } else {
                                    assert(old_attrs.push(a@)[i] == a@);
                                }
                            }
                        }
                        lemma_update_entity_wf(
                            d0,
                            fi,
                            EntityV { attributes: old_attrs.push(a@), ..d0.entities[fi] },
                        );
                    }
                    let mut out: Vec<String> = Vec::new();
                    out.push(String::from_str("<< attribute added"));
                    Ok(out)
                } else {
                    Err(String::from_str("<< no such entity"))
                }
            },
            Command::RemoveAttribute(e, a) => {
                let ghost d0 = self@.model;
                let ok = self.model.remove_attribute(e.as_str(), a.as_str());
                if ok {
                    proof {
                        let fi = find_entity(d0.entities, e@);
                        crate::document::lemma_find_entity_range(d0.entities, e@);
                        let e2 = EntityV {
                            attributes: crate::document::drop_name_rec(
                                Seq::empty(),
                                d0.entities[fi].attributes,
                                a@,
                            ),
                            ..d0.entities[fi]
                        };
                        assert(wf_entity(d0.entities[fi]));
                        crate::document::lemma_drop_name_wf(
                            Seq::empty(),
                            d0.entities[fi].attributes,
                            a@,
                        );
                        lemma_update_entity_wf(d0, fi, e2);
                    }
                    let mut out: Vec<String> = Vec::new();
                    out.push(String::from_str("<< attribute removed"));
                    Ok(out)
                } else {
                    Err(String::from_str("<< no such entity"))
                }
            },
            Command::AlterEntity(_) => Err(
                String::from_str("<< alter entity is not implemented"),
            ),
            Command::RenameEntity(_, _) => Err(
                String::from_str("<< rename entity is not implemented"),
            ),
        }
    }

    /// Finds the first setting with key `k`.
    fn find_setting_index(&self, k: &str) -> (r: Option<usize>)
        ensures
            match r {
                Some(i) => find_setting(self@.settings, k@) == i && i < self@.settings.len(),
                None => find_setting(self@.settings, k@) == -1,
            },
    {
        let mut i: usize = 0;
        while i < self.settings.len()
            invariant
                i <= self.settings@.len(),
                forall|j: int| 0 <= j < i ==> (#[trigger] self@.settings[j]).key != k@,
            decreases self.settings@.len() - i,
        {
            if str_eq(self.settings[i].key.as_str(), k) {
                proof {
                    lemma_find_setting_first(self@.settings, k@, i as int);
                }
                return Some(i);
            }
            i = i + 1;
        }
        proof {
            lemma_find_setting_none(self@.settings, k@);
        }
        None
    }

    /// One line of operator input: parsed by the grammar, then applied. An
    /// unparseable line — the empty line included — reports the diagnostic
    /// and changes neither the session nor the medium; the next valid
    /// command still applies.
    pub fn run_line(&mut self, line: &str, handle: &StoreHandle, medium: &mut StoreMedium) -> (r:
        Result<Vec<String>, String>)
        requires
            old(self).wf(),
        ensures
            final(self).wf(),
            parse_command_spec(line@) is None ==> r is Err && final(self)@ == old(self)@
                && final(medium)@ == old(medium)@,
            parse_command_spec(line@) matches Some(c) ==> command_post(
                old(self)@,
                handle.is_filesystem(),
                old(medium)@,
                c,
                final(self)@,
                final(medium)@,
                r is Ok,
                match r {
                    Ok(out) => strs(out@),
                    Err(_) => Seq::empty(),
                },
            ),
    {
        match parse_command(line) {
            Ok(cmd) => self.run_command(&cmd, handle, medium),
            Err(e) => {
                let mut msg = String::from_str("<< Parsing error (shell) : ");
                msg.append(e.as_str());
                Err(msg)
            },
        }
    }
}

} // verus!
