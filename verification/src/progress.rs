//! Progress events of a bump and the console line each one prints
//! (`✔` in green for success, `ℹ` in blue for information; plain text when
//! the terminal takes no colors).

use vstd::prelude::*;
use crate::text::{extend_str, lit, string_of};

verus! {

/// The progress events of a bump.
#[derive(Debug, Clone, Copy, PartialEq, Eq, Structural)]
pub enum ProgressEvent {
    FileUpdated,
    FileSkipped,
    GitCommit,
    GitTag,
    GitPush,
    Script,
}

pub open spec fn event_name(e: ProgressEvent) -> Seq<char> {
    match e {
        ProgressEvent::FileUpdated => "file updated"@,
        ProgressEvent::FileSkipped => "file skipped"@,
        ProgressEvent::GitCommit => "git commit"@,
        ProgressEvent::GitTag => "git tag"@,
        ProgressEvent::GitPush => "git push"@,
        ProgressEvent::Script => "script"@,
    }
}

impl ProgressEvent {
    /// The event's name.
    pub fn as_str(self) -> (r: &'static str)
        ensures
            r@ == event_name(self),
    {
        match self {
            ProgressEvent::FileUpdated => "file updated",
            ProgressEvent::FileSkipped => "file skipped",
            ProgressEvent::GitCommit => "git commit",
            ProgressEvent::GitTag => "git tag",
            ProgressEvent::GitPush => "git push",
            ProgressEvent::Script => "script",
        }
    }
}

/// A terminal color's escape sequence.
pub open spec fn ansi(code: Seq<char>) -> Seq<char> {
    "\u{1b}["@ + code + "m"@
}

/// `text` as console shows it in a color: as is, or between the color's
/// escape and the reset escape.
pub open spec fn painted(text: Seq<char>, code: Seq<char>, r: Seq<char>) -> bool {
    r == text || r == ansi(code) + text + "\u{1b}[0m"@
}

/// `console::style(text).green()` rendered (console 0.16): colored only when
/// the terminal takes colors.
#[verifier::external_body]
pub(crate) fn green(text: &str) -> (r: String)
    ensures
        painted(text@, "32"@, r@),
{
    dialoguer::console::style(text).green().to_string()
}

/// `console::style(text).blue()` rendered (console 0.16).
#[verifier::external_body]
pub(crate) fn blue(text: &str) -> (r: String)
    ensures
        painted(text@, "34"@, r@),
{
    dialoguer::console::style(text).blue().to_string()
}

/// `console::style(text).yellow()` rendered (console 0.16).
#[verifier::external_body]
pub(crate) fn yellow(text: &str) -> (r: String)
    ensures
        painted(text@, "33"@, r@),
{
    dialoguer::console::style(text).yellow().to_string()
}

/// `console::style(text).red()` rendered (console 0.16).
#[verifier::external_body]
pub(crate) fn red(text: &str) -> (r: String)
    ensures
        painted(text@, "31"@, r@),
{
    dialoguer::console::style(text).red().to_string()
}

/// The line of an event, after its colored symbol `sym`: what changed.
pub open spec fn line_body(
    e: ProgressEvent,
    script: Option<Seq<char>>,
    new_version: Seq<char>,
    file: Option<Seq<char>>,
) -> Seq<char> {
    let f = match file {
        Some(x) => x,
        None => Seq::empty(),
    };
    match e {
        ProgressEvent::FileUpdated => " Updated "@ + f + " to "@ + new_version,
        ProgressEvent::FileSkipped => " "@ + f + " did not need to be updated"@,
        ProgressEvent::GitCommit => " Git commit"@,
        ProgressEvent::GitTag => " Git tag"@,
        ProgressEvent::GitPush => " Git push"@,
        ProgressEvent::Script => " Run "@ + match script {
            Some(s) => s,
            None => Seq::empty(),
        },
    }
}

/// Whether an event prints the green check (else the blue information sign).
pub open spec fn is_success(e: ProgressEvent) -> bool {
    e == ProgressEvent::FileUpdated || e == ProgressEvent::GitPush || e == ProgressEvent::Script
}

/// The console line of a progress event: the symbol, then what happened;
/// the file (the event's last file) shown as a display path from `cwd`.
pub fn format_line(
    event: ProgressEvent,
    script: Option<&str>,
    new_version: &str,
    file: Option<&str>,
    cwd: &str,
) -> (r: String)
    ensures
        exists|sym: Seq<char>|
            #![trigger painted("✔"@, "32"@, sym)]
            #![trigger painted("ℹ"@, "34"@, sym)]
            (if is_success(event) {
                painted("✔"@, "32"@, sym)
            } else {
                painted("ℹ"@, "34"@, sym)
            }) && r@ == sym + line_body(
                event,
                match script {
                    Some(s) => Some(s@),
                    None => None,
                },
                new_version@,
                match file {
                    Some(f) => Some(crate::display::display_path(cwd@, f@)),
                    None => None,
                },
            ),
{
    let shown: Option<String> = match file {
        Some(f) => Some(crate::display::path(cwd, f)),
        None => None,
    };
    let f: &str = match &shown {
        Some(s) => s.as_str(),
        None => "",
    };
    let sym = match event {
        ProgressEvent::FileUpdated | ProgressEvent::GitPush | ProgressEvent::Script => green("✔"),
        _ => blue("ℹ"),
    };
    let mut m = crate::text::chars_of(sym.as_str());
    match event {
        ProgressEvent::FileUpdated => {
            extend_str(&mut m, " Updated ");
            extend_str(&mut m, f);
            extend_str(&mut m, " to ");
            extend_str(&mut m, new_version);
        },
        ProgressEvent::FileSkipped => {
            extend_str(&mut m, " ");
            extend_str(&mut m, f);
            extend_str(&mut m, " did not need to be updated");
        },
        ProgressEvent::GitCommit => extend_str(&mut m, " Git commit"),
        ProgressEvent::GitTag => extend_str(&mut m, " Git tag"),
        ProgressEvent::GitPush => extend_str(&mut m, " Git push"),
        ProgressEvent::Script => {
            extend_str(&mut m, " Run ");
            match script {
                Some(s) => extend_str(&mut m, s),
                None => {},
            }
        },
    }
    proof {
        reveal_strlit("");
        if file is None {
            assert(f@ == Seq::<char>::empty());
        }
    }
    string_of(&m)
}

} // verus!
