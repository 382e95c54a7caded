//! The batch tool's cores: structural validation with rendered diagnostics,
//! the stdin-to-stdout transform, import and export through the persisted
//! medium, the pre-build normalization, and the support files a fresh
//! project directory receives. Reading stdin, files and arguments stays
//! outside; everything here is a function from plain values to plain
//! values.

use vstd::prelude::*;

use crate::codec::{parse_doc, parse_document, ser_doc, serialize_document, check_wf_document};
use crate::config::Format;
use crate::document::{
    all_attrs_distinct, all_keys_distinct, distinct_names, entity_names_of, keys_of, locales_of,
    spec_pad, strs, valid_doc, wf_doc, ComponentKind, DocV, Document,
};
use crate::errors::LoadError;
use crate::store::{load_doc, load_err_matches, load_ok, MediumV, StoreMedium};
use crate::text::str_eq;

verus! {

// ---------------------------------------------------------------------------
// Validation
// ---------------------------------------------------------------------------
/// One validation finding: a message, and the paths it concerns.
#[derive(Clone, Debug)]
pub struct ValidationError {
    pub message: String,
    pub paths: Vec<String>,
}

/// The messages `validate_model` reports, in order: one per violated
/// condition.
pub open spec fn spec_violations(d: DocV) -> Seq<Seq<char>> {
    (if !wf_doc(d) {
        seq!["document contains malformed text"@]
    } else {
        Seq::empty()
    }) + (if !distinct_names(d.pages) {
        seq!["duplicate page name"@]
    } else {
        Seq::empty()
    }) + (if !distinct_names(d.xflows) {
        seq!["duplicate xflow name"@]
    } else {
        Seq::empty()
    }) + (if !distinct_names(locales_of(d.translations)) {
        seq!["duplicate locale"@]
    } else {
        Seq::empty()
    }) + (if !all_keys_distinct(d.translations) {
        seq!["duplicate translation key"@]
    } else {
        Seq::empty()
    }) + (if !distinct_names(entity_names_of(d.entities)) {
        seq!["duplicate entity name"@]
    } else {
        Seq::empty()
    }) + (if !all_attrs_distinct(d.entities) {
        seq!["duplicate attribute name"@]
    } else {
        Seq::empty()
    })
}

/// Whether no string of `v` repeats.
pub fn distinct_strings(v: &Vec<String>) -> (r: bool)
    ensures
        r == distinct_names(strs(v@)),
{
    let n = v.len();
    let mut i: usize = 0;
    while i < n
        invariant
            i <= n,
            n == v@.len(),
            forall|a: int, b: int| 0 <= a < b < i ==> #[trigger] strs(v@)[a] != #[trigger] strs(
                v@,
            )[b],
        decreases n - i,
    {
        let mut j: usize = 0;
        while j < i
            invariant
                j <= i < n,
                n == v@.len(),
                forall|a: int| 0 <= a < j ==> #[trigger] strs(v@)[a] != strs(v@)[i as int],
            decreases i - j,
        {
            if str_eq(v[j].as_str(), v[i].as_str()) {
                assert(strs(v@)[j as int] == strs(v@)[i as int]);
                assert(!distinct_names(strs(v@)));
                return false;
            }
            j = j + 1;
        }
        i = i + 1;
    }
    true
}

/// Structural validation: reports one finding per violated condition, in a
/// fixed order, and nothing on a valid document.
#[verifier::rlimit(60)]
pub fn validate_model(d: &Document) -> (r: Vec<ValidationError>)
    ensures
        r@.len() == spec_violations(d@).len(),
        forall|i: int| 0 <= i < r@.len() ==> #[trigger] r@[i].message@ == spec_violations(d@)[i]
            && r@[i].paths@.len() == 0,
        r@.len() == 0 <==> valid_doc(d@),
{
    let ghost dv = d@;
    let mut out: Vec<ValidationError> = Vec::new();

    let ok_wf = check_wf_document(d);
    if !ok_wf {
        out.push(
            ValidationError {
                message: String::from_str("document contains malformed text"),
                paths: Vec::new(),
            },
        );
    }
    let ghost seg1: Seq<Seq<char>> = if !wf_doc(dv) {
        seq!["document contains malformed text"@]
    } else {
        Seq::empty()
    };

    let ok_pages = distinct_strings(&d.pages);
    if !ok_pages {
        out.push(
            ValidationError { message: String::from_str("duplicate page name"), paths: Vec::new() },
        );
    }
    let ghost seg2: Seq<Seq<char>> = if !distinct_names(dv.pages) {
        seq!["duplicate page name"@]
    } else {
        Seq::empty()
    };

    let ok_xflows = distinct_strings(&d.xflows);
    if !ok_xflows {
        out.push(
            ValidationError {
                message: String::from_str("duplicate xflow name"),
                paths: Vec::new(),
            },
        );
    }
    let ghost seg3: Seq<Seq<char>> = if !distinct_names(dv.xflows) {
        seq!["duplicate xflow name"@]
    } else {
        Seq::empty()
    };

    let locales = d.component_names(ComponentKind::Translation);
    let ok_locales = distinct_strings(&locales);
    if !ok_locales {
        out.push(
            ValidationError { message: String::from_str("duplicate locale"), paths: Vec::new() },
        );
    }
    let ghost seg4: Seq<Seq<char>> = if !distinct_names(locales_of(dv.translations)) {
        seq!["duplicate locale"@]
    } else {
        Seq::empty()
    };

    let mut ok_keys = true;
    let mut i: usize = 0;
    while i < d.translations.len()
        invariant
            i <= d.translations@.len(),
            dv == d@,
            ok_keys == (forall|j: int| 0 <= j < i ==> distinct_names(
                keys_of((#[trigger] dv.translations[j]).entries),
            )),
        decreases d.translations@.len() - i,
    {
        let t = &d.translations[i];
        let mut keys: Vec<String> = Vec::new();
        let mut j: usize = 0;
        while j < t.entries.len()
            invariant
                j <= t.entries@.len(),
                t == &d.translations[i as int],
                i < d.translations@.len(),
                dv == d@,
                keys@.len() == j,
                forall|m: int| 0 <= m < j ==> #[trigger] keys@[m]@ == t@.entries[m].key,
            decreases t.entries@.len() - j,
        {
            keys.push(t.entries[j].key.clone());
            j = j + 1;
        }
        proof {
            assert(strs(keys@) =~= keys_of(t@.entries));
        }
        if !distinct_strings(&keys) {
            assert(!distinct_names(keys_of(dv.translations[i as int].entries)));
            ok_keys = false;
        }
        i = i + 1;
    }
    if !ok_keys {
        out.push(
            ValidationError {
                message: String::from_str("duplicate translation key"),
                paths: Vec::new(),
            },
        );
    }
    proof {
        assert(ok_keys == all_keys_distinct(dv.translations));
    }
    let ghost seg5: Seq<Seq<char>> = if !all_keys_distinct(dv.translations) {
        seq!["duplicate translation key"@]
    } else {
        Seq::empty()
    };

    let mut names: Vec<String> = Vec::new();
    let mut i: usize = 0;
    while i < d.entities.len()
        invariant
            i <= d.entities@.len(),
            dv == d@,
            names@.len() == i,
            forall|m: int| 0 <= m < i ==> #[trigger] names@[m]@ == dv.entities[m].name,
        decreases d.entities@.len() - i,
    {
        names.push(d.entities[i].name.clone());
        i = i + 1;
    }
    proof {
        assert(strs(names@) =~= entity_names_of(dv.entities));
    }
    let ok_names = distinct_strings(&names);
    if !ok_names {
        out.push(
            ValidationError {
                message: String::from_str("duplicate entity name"),
                paths: Vec::new(),
            },
        );
    }
    let ghost seg6: Seq<Seq<char>> = if !distinct_names(entity_names_of(dv.entities)) {
        seq!["duplicate entity name"@]
    } else {
        Seq::empty()
    };

    let mut ok_attrs = true;
    let mut i: usize = 0;
    while i < d.entities.len()
        invariant
            i <= d.entities@.len(),
            dv == d@,
            ok_attrs == (forall|j: int| 0 <= j < i ==> distinct_names(
                (#[trigger] dv.entities[j]).attributes,
            )),
        decreases d.entities@.len() - i,
    {
        if !distinct_strings(&d.entities[i].attributes) {
            assert(!distinct_names(dv.entities[i as int].attributes));
            ok_attrs = false;
        }
        i = i + 1;
    }
    if !ok_attrs {
        out.push(
            ValidationError {
                message: String::from_str("duplicate attribute name"),
                paths: Vec::new(),
            },
        );
    }
    proof {
        assert(ok_attrs == all_attrs_distinct(dv.entities));
    }
    let ghost seg7: Seq<Seq<char>> = if !all_attrs_distinct(dv.entities) {
        seq!["duplicate attribute name"@]
    } else {
        Seq::empty()
    };

    proof {
        let expect = seg1 + seg2 + seg3 + seg4 + seg5 + seg6 + seg7;
        assert(expect =~= spec_violations(dv));
        assert(out@.len() == expect.len());
        assert forall|i: int| 0 <= i < out@.len() implies #[trigger] out@[i].message@ == expect[i]
            && out@[i].paths@.len() == 0 by {}
        assert(spec_violations(dv).len() == 0 <==> valid_doc(dv)) by {
            if valid_doc(dv) {
                assert(spec_violations(dv).len() == 0);
            }
            if spec_violations(dv).len() == 0 {
                assert(seg1.len() == 0 && seg2.len() == 0 && seg3.len() == 0 && seg4.len() == 0
                    && seg5.len() == 0 && seg6.len() == 0 && seg7.len() == 0);
            }
        }
    }
    out
}

/// The joined path list of one finding, separated by semicolons.
pub open spec fn spec_join_paths(paths: Seq<Seq<char>>) -> Seq<char>
    decreases paths.len(),
{
    if paths.len() == 0 {
        Seq::empty()
    } else if paths.len() == 1 {
        paths[0]
    } else {
        paths[0] + ";"@ + spec_join_paths(paths.drop_first())
    }
}

/// One rendered finding line.
pub open spec fn spec_error_line(message: Seq<char>, paths: Seq<Seq<char>>) -> Seq<char> {
    "Error '"@ + message + "' - Path '"@ + spec_join_paths(paths) + "'"@
}

/// Joining one more path appends a separator and the path.
proof fn lemma_join_snoc(s: Seq<Seq<char>>, x: Seq<char>)
    ensures
        spec_join_paths(s.push(x)) == (if s.len() == 0 {
            x
        } else {
            spec_join_paths(s) + ";"@ + x
        }),
    decreases s.len(),
{
    reveal_with_fuel(spec_join_paths, 3);
    if s.len() == 0 {
        assert(s.push(x) =~= seq![x]);
    } else {
        assert(s.push(x).drop_first() =~= s.drop_first().push(x));
        lemma_join_snoc(s.drop_first(), x);
        if s.len() == 1 {
            assert(s.push(x)[0] == s[0]);
            assert(spec_join_paths(s) == s[0]);
            assert(s.push(x)[0] + ";"@ + spec_join_paths(s.drop_first().push(x)) =~= s[0] + ";"@
                + x);
        } else {
            assert(s.push(x)[0] + ";"@ + (spec_join_paths(s.drop_first()) + ";"@ + x) =~= (s[0]
                + ";"@ + spec_join_paths(s.drop_first())) + ";"@ + x);
        }
    }
}

/// Joins paths with semicolons.
fn join_paths(paths: &Vec<String>) -> (r: String)
    ensures
        r@ == spec_join_paths(strs(paths@)),
{
    let mut r = String::new();
    let mut j: usize = 0;
    proof {
        assert(strs(paths@).take(0) =~= Seq::<Seq<char>>::empty());
    }
    while j < paths.len()
        invariant
            j <= paths@.len(),
            r@ == spec_join_paths(strs(paths@).take(j as int)),
        decreases paths@.len() - j,
    {
        if j > 0 {
            r.append(";");
        }
        r.append(paths[j].as_str());
        proof {
            reveal_strlit(";");
            assert(strs(paths@).take(j as int + 1) =~= strs(paths@).take(j as int).push(
                strs(paths@)[j as int],
            ));
            lemma_join_snoc(strs(paths@).take(j as int), strs(paths@)[j as int]);
            assert(r@ =~= spec_join_paths(strs(paths@).take(j as int + 1)));
        }
        j = j + 1;
    }
    proof {
        assert(strs(paths@).take(paths@.len() as int) =~= strs(paths@));
    }
    r
}

/// Renders findings as the operator sees them, one line each.
pub fn render_validation_errors(errors: &Vec<ValidationError>) -> (r: Vec<String>)
    ensures
        r@.len() == errors@.len(),
        forall|i: int| 0 <= i < r@.len() ==> #[trigger] r@[i]@ == spec_error_line(
            errors@[i].message@,
            strs(errors@[i].paths@),
        ),
{
    let mut r: Vec<String> = Vec::new();
    let mut i: usize = 0;
    while i < errors.len()
        invariant
            i <= errors@.len(),
            r@.len() == i,
            forall|j: int| 0 <= j < i ==> #[trigger] r@[j]@ == spec_error_line(
                errors@[j].message@,
                strs(errors@[j].paths@),
            ),
        decreases errors@.len() - i,
    {
        let e = &errors[i];
        let mut line = String::from_str("Error '");
        line.append(e.message.as_str());
        line.append("' - Path '");
        let joined = join_paths(&e.paths);
        line.append(joined.as_str());
        line.append("'");
        proof {
            assert(line@ =~= spec_error_line(e.message@, strs(e.paths@)));
        }
        r.push(line);
        i = i + 1;
    }
    r
}

/// The confirmation line a valid model earns.
pub fn validate_ok_message(d: &Document) -> (r: String)
    ensures
        r@ == "Model '"@ + d.id@ + "' validates OK"@,
{
    let mut r = String::from_str("Model '");
    r.append(d.id.as_str());
    r.append("' validates OK");
    proof {
        assert(r@ =~= "Model '"@ + d.id@ + "' validates OK"@);
    }
    r
}

// ---------------------------------------------------------------------------
// Transform, import, export, build
// ---------------------------------------------------------------------------
/// The stdin-to-stdout transform: parse the input as a document, emit it
/// anew — a normalization. Both configured formats share the document
/// grammar, so the format choices select nothing further.
pub fn transform(input: &str, format_in: &Format, format_out: &Format) -> (r: Result<
    String,
    LoadError,
>)
    ensures
        match r {
            Ok(out) => parse_doc(input@) is Some && out@ == ser_doc(parse_doc(input@).unwrap()),
            Err(e) => parse_doc(input@) is None && e is BadFormat,
        },
{
    let _ = format_in;
    let _ = format_out;
    match parse_document(input) {
        Ok(d) => Ok(serialize_document(&d)),
        Err(e) => Err(e),
    }
}

/// The import core: parse the payload, narrow it to the active locale, and
/// persist it as the root's whole new content. A payload that does not
/// parse changes nothing.
pub fn import_model(input: &str, locale: &str, medium: &mut StoreMedium) -> (r: Result<
    Document,
    LoadError,
>)
    ensures
        match r {
            Ok(d) => {
                &&& parse_doc(input@) is Some
                &&& d@ == (DocV { locale: locale@, ..parse_doc(input@).unwrap() })
                &&& final(medium)@ == MediumV::Root(ser_doc(d@))
            },
            Err(e) => {
                &&& parse_doc(input@) is None
                &&& e is BadFormat
                &&& final(medium)@ == old(medium)@
            },
        },
{
    match parse_document(input) {
        Ok(d) => {
            let narrowed = d.as_locale(locale);
            let payload = serialize_document(&narrowed);
            *medium = StoreMedium::Root(payload);
            Ok(narrowed)
        },
        Err(e) => Err(e),
    }
}

/// The export core: load the persisted document and emit it under the
/// requested locale.
pub fn export_model(medium: &StoreMedium, locale: &str, format_out: &Format) -> (r: Result<
    String,
    LoadError,
>)
    ensures
        match r {
            Ok(out) => load_ok(medium@) && out@ == ser_doc(
                DocV { locale: locale@, ..load_doc(medium@) },
            ),
            Err(e) => !load_ok(medium@) && load_err_matches(medium@, e),
        },
{
    let _ = format_out;
    match medium {
        StoreMedium::Vacant => Err(LoadError::IOError),
        StoreMedium::Foreign => Err(
            LoadError::BadStructure(String::from_str("locator is not a document root")),
        ),
        StoreMedium::Root(p) => {
            match parse_document(p.as_str()) {
                Ok(d) => Ok(serialize_document(&d.as_locale(locale))),
                Err(e) => Err(e),
            }
        },
    }
}

/// The pre-build normalization: pad every locale to key parity, then render
/// the document under the build's locale; what the external code generator
/// receives.
pub fn build_prepare(d: &Document, locale: &str) -> (r: Document)
    ensures
        r@ == (DocV { locale: locale@, ..spec_pad(d@) }),
{
    let mut padded = d.duplicate();
    padded.pad_all_translations();
    padded.as_locale(locale)
}

// ---------------------------------------------------------------------------
// Project scaffolding
// ---------------------------------------------------------------------------
/// One support file a fresh project directory receives.
#[derive(Clone, Debug)]
pub struct ProjectFile {
    pub path: String,
    pub content: String,
}

/// The support files of a fresh project: its ignore patterns and its
/// orientation notes, each under the project root.
pub fn project_support_files(root: &str) -> (r: Vec<ProjectFile>)
    ensures
        r@.len() == 2,
        r@[0].path@ == root@ + "/.gitignore"@,
        r@[1].path@ == root@ + "/README.md"@,
        r@[0].content@.len() > 0,
        r@[1].content@.len() > 0,
{
    let mut gitignore_path = root.to_owned();
    gitignore_path.append("/.gitignore");
    let mut readme_path = root.to_owned();
    readme_path.append("/README.md");
    let gitignore = String::from_str(
        "**/*tmp\n**/*log\n**/*.bk\n**/*.swp\n**/*.swo\nhistory.gears-shell\nlocal.json\nout/\n",
    );
    let readme = String::from_str(
        "# gears project\n\nThis project is suitable for version control.\n\nBuild with the build subcommand; run the interactive shell with the shell subcommand, and issue sync to persist changes.\n",
    );
    proof {
        reveal_strlit(
            "**/*tmp\n**/*log\n**/*.bk\n**/*.swp\n**/*.swo\nhistory.gears-shell\nlocal.json\nout/\n",
        );
        reveal_strlit(
            "# gears project\n\nThis project is suitable for version control.\n\nBuild with the build subcommand; run the interactive shell with the shell subcommand, and issue sync to persist changes.\n",
        );
    }
    let mut r: Vec<ProjectFile> = Vec::new();
    r.push(ProjectFile { path: gitignore_path, content: gitignore });
    r.push(ProjectFile { path: readme_path, content: readme });
    r
}

} // verus!
