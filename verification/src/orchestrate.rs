//! The decisions of a whole bump run: which string settings are usable,
//! whether the version is asked for, and the success lines it prints.

use vstd::prelude::*;
use crate::progress::{green, painted};
use crate::release::{provider_display, Provider};
use crate::text::{owned, push_str, str_eq};

verus! {

/// What can go wrong in a bump run, by stage.
#[derive(Debug)]
pub enum OrchestrateError {
    Config { message: String },
    Git { message: String },
    Info { message: String },
    Changelog { message: String },
    Bump { message: String },
    Release { message: String },
}

impl OrchestrateError {
    pub open spec fn message_view(&self) -> Seq<char> {
        match self {
            OrchestrateError::Config { message } => message@,
            OrchestrateError::Git { message } => message@,
            OrchestrateError::Info { message } => message@,
            OrchestrateError::Changelog { message } => message@,
            OrchestrateError::Bump { message } => message@,
            OrchestrateError::Release { message } => message@,
        }
    }

    /// The user-facing text of the error.
    pub fn message(&self) -> (r: &String)
        ensures
            r@ == self.message_view(),
    {
        match self {
            OrchestrateError::Config { message } => message,
            OrchestrateError::Git { message } => message,
            OrchestrateError::Info { message } => message,
            OrchestrateError::Changelog { message } => message,
            OrchestrateError::Bump { message } => message,
            OrchestrateError::Release { message } => message,
        }
    }
}

/// The message for a string setting that is empty.
pub open spec fn empty_setting_message(key: Seq<char>) -> Seq<char> {
    "config key \""@ + key + "\" must be a non-empty string — fix the value or remove the key"@
}

/// A string setting: absent stays absent, a non-empty one is kept, an empty
/// one is a configuration error.
pub fn config_str(value: Option<&str>, key: &str) -> (r: Result<Option<String>, OrchestrateError>)
    ensures
        match value {
            None => r matches Ok(None),
            Some(s) => if s@.len() > 0 {
                r matches Ok(Some(t)) && t@ == s@
            } else {
                r matches Err(OrchestrateError::Config { message }) && message@ == empty_setting_message(key@)
            },
        },
{
    match value {
        None => Ok(None),
        Some(s) => {
            if s.unicode_len() > 0 {
                Ok(Some(owned(s)))
            } else {
                let mut m = owned("config key \"");
                push_str(&mut m, key);
                push_str(&mut m, "\" must be a non-empty string — fix the value or remove the key");
                Err(OrchestrateError::Config { message: m })
            }
        },
    }
}

/// The version is chosen interactively when no `release` is set or it is
/// `prompt`; then no second confirmation is asked.
pub fn is_interactive(release: Option<&str>) -> (r: bool)
    ensures
        r == match release {
            None => true,
            Some(x) => x@ == "prompt"@,
        },
{
    match release {
        None => true,
        Some(x) => str_eq(x, "prompt"),
    }
}

/// The line printed once the changelog file was written.
pub fn changelog_success_line(output: &str) -> (r: String)
    ensures
        exists|sym: Seq<char>| painted("✔"@, "32"@, sym) && r@ == sym + " Update "@ + output@ + " success"@,
{
    let mut r = green("✔");
    let ghost sym = r@;
    push_str(&mut r, " Update ");
    push_str(&mut r, output);
    push_str(&mut r, " success");
    assert(r@ == sym + " Update "@ + output@ + " success"@);
    r
}

/// The line printed once the platform release was created.
pub fn release_success_line(provider: Provider, version: &str) -> (r: String)
    ensures
        exists|sym: Seq<char>| painted("✔"@, "32"@, sym) && r@ == sym + " ["@ + provider_display(provider)
            + "] add release v"@ + version@ + " success"@,
{
    let mut r = green("✔");
    let ghost sym = r@;
    push_str(&mut r, " [");
    push_str(&mut r, provider.display());
    push_str(&mut r, "] add release v");
    push_str(&mut r, version);
    push_str(&mut r, " success");
    assert(r@ == sym + " ["@ + provider_display(provider) + "] add release v"@ + version@ + " success"@);
    r
}

} // verus!
