//! Interpreting one deletion attempt and rendering its report line.
//!
//! The host file-manager automation gives back no structured status:
//! only whether its process launched, whether it exited successfully,
//! and a diagnostic text. A failure whose diagnostic carries the
//! automation layer's "resource not found" signature means the file was
//! already gone, which is benign; anything else needs attention.

use crate::text::{
    contains_seq, contains_substring, fold_line_breaks, line_breaks_folded, trim_spaces, trimmed,
};
use vstd::prelude::*;

verus! {

/// What one deletion attempt came to.
pub enum Outcome {
    /// The automation launched and exited successfully.
    Deleted,
    /// The automation failed and its diagnostic carries the signature of
    /// a missing file: the file was already gone.
    NotFound,
    /// Anything else: the automation could not be launched, or failed
    /// for another reason. Carries the diagnostic text.
    OtherFailure(String),
}

/// The spec-level shape of an `Outcome`.
pub enum OutcomeView {
    Deleted,
    NotFound,
    OtherFailure(Seq<char>),
}

impl View for Outcome {
    type V = OutcomeView;

    open spec fn view(&self) -> OutcomeView {
        match self {
            Outcome::Deleted => OutcomeView::Deleted,
            Outcome::NotFound => OutcomeView::NotFound,
            Outcome::OtherFailure(m) => OutcomeView::OtherFailure(m@),
        }
    }
}

/// The fragment the host automation prints in its diagnostic when it
/// cannot find the file it was asked to delete.
pub open spec fn not_found_signature() -> Seq<char> {
    "29:106"@
}

/// The fixed diagnostic reported when the automation process could not
/// be launched at all.
pub open spec fn launch_failure_note() -> Seq<char> {
    "could not launch the deletion automation"@
}

/// How one deletion attempt is classified. A launch failure gets the
/// fixed note; a successful exit means the file was deleted; a failed
/// exit whose diagnostic carries the "not found" signature means the
/// file was already absent; any other failed exit keeps its raw
/// diagnostic.
pub open spec fn classified(launched: bool, exit_success: bool, diagnostic: Seq<char>) -> OutcomeView {
    if !launched {
        OutcomeView::OtherFailure(launch_failure_note())
    } else if exit_success {
        OutcomeView::Deleted
    } else if contains_seq(diagnostic, not_found_signature()) {
        OutcomeView::NotFound
    } else {
        OutcomeView::OtherFailure(diagnostic)
    }
}

/// Classifies one deletion attempt from what the caller observed of the
/// automation process: whether it launched, whether it exited
/// successfully, and the diagnostic text it printed.
pub fn classify_deletion(launched: bool, exit_success: bool, diagnostic: String) -> (o: Outcome)
    ensures
        o@ == classified(launched, exit_success, diagnostic@),
{
    if !launched {
        Outcome::OtherFailure(String::from_str("could not launch the deletion automation"))
    } else if exit_success {
        Outcome::Deleted
    } else if contains_substring(diagnostic.as_str(), "29:106") {
        Outcome::NotFound
    } else {
        Outcome::OtherFailure(diagnostic)
    }
}

/// The report line for one outcome. An attempt reports exactly one
/// line: the diagnostic of an `OtherFailure` is embedded with its
/// surrounding whitespace removed and every inner line break replaced
/// by a space.
pub open spec fn report_line(o: OutcomeView, file: Seq<char>) -> Seq<char> {
    match o {
        OutcomeView::Deleted => "👍 Deleted "@ + file,
        OutcomeView::NotFound => "❌ Could not delete file cause couldn't find the file \""@
            + file + "\""@,
        OutcomeView::OtherFailure(m) => "❌ "@ + line_breaks_folded(trimmed(m)),
    }
}

/// Renders the one line reported for `file`'s deletion attempt.
pub fn render_outcome(outcome: &Outcome, file: &str) -> (line: String)
    ensures
        line@ == report_line(outcome@, file@),
{
    match outcome {
        Outcome::Deleted => String::from_str("👍 Deleted ").concat(file),
        Outcome::NotFound => String::from_str(
            "❌ Could not delete file cause couldn't find the file \"",
        ).concat(file).concat("\""),
        Outcome::OtherFailure(m) => {
            let cleaned = fold_line_breaks(trim_spaces(m.as_str()).as_str());
            String::from_str("❌ ").concat(cleaned.as_str())
        },
    }
}

} // verus!
