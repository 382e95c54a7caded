//! Application-level configuration: the wire formats the batch tool accepts,
//! the per-invocation state it carries, and the server's policy-guard settings.

use vstd::prelude::*;

verus! {

/// The document text encodings the batch tool can be asked for. Both names
/// select the crate's one canonical document grammar; the enum is kept so a
/// caller's choice survives into `AppState` unchanged.
#[derive(Clone, Debug, PartialEq, Eq, Structural)]
pub enum Format {
    JSON,
    YAML,
}

/// Chooses a `Format` from a command-line argument: `"yaml"` selects
/// `Format::YAML`, anything else falls back to `Format::JSON`.
pub fn format_from_arg(arg: &str) -> (f: Format)
    ensures
        f == (if arg@ == "yaml"@ {
            Format::YAML
        } else {
            Format::JSON
        }),
{
    let yaml = "yaml";
    if crate::text::str_eq(arg, yaml) {
        Format::YAML
    } else {
        Format::JSON
    }
}

/// Everything one invocation of the batch tool needs to know: the active
/// locale, where configuration and the project live, where output goes, and
/// the formats to read and write.
#[derive(Clone, Debug)]
pub struct AppState {
    pub locale: String,
    pub path_config: String,
    pub path_in: String,
    pub path_out: String,
    pub format_in: Format,
    pub format_out: Format,
}

/// The HTTP server's policy-guard configuration: whether the guard is enabled,
/// and the decision service's address when one is configured.
#[derive(Clone, Debug)]
pub struct ServerConfig {
    pub enable_opa: bool,
    pub opa_url: Option<String>,
}

impl ServerConfig {
    /// A configuration is usable only when enabling the guard comes with an
    /// address for the decision service.
    pub open spec fn wf(&self) -> bool {
        self.enable_opa ==> self.opa_url is Some
    }

    /// The startup check: enabling the guard without a decision-service
    /// address is a configuration error, and the server must not start.
    pub fn check(&self) -> (ok: bool)
        ensures
            ok == self.wf(),
    {
        !self.enable_opa || self.opa_url.is_some()
    }
}

} // verus!
