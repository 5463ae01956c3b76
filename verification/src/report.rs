//! What is said of an outcome.
//!
//! No outcome stops a run. A failure and an answer with a status other than
//! success are always shown, with the description of the action; an answer
//! of success is shown only where the run is verbose.

use crate::executor::{is_success, ActionResult, FailureKind};
use crate::store::QuayXmlConfig;
use vstd::prelude::*;

verus! {

/// The verbosity from which on every answer is shown.
pub const VERBOSE: u8 = 5;

/// How an action ended.
#[derive(Debug, Clone, Copy, PartialEq, Eq, Structural)]
pub enum Verdict {
    /// The registry answered with a status of success.
    Succeeded,
    /// The registry answered with another status.
    Refused(u16),
    /// The request got no usable answer.
    Failed(FailureKind),
}

/// How `outcome` ended.
pub open spec fn verdict_of(outcome: ActionResult) -> Verdict {
    match outcome {
        Ok(response) => if is_success(response.status_code) {
            Verdict::Succeeded
        } else {
            Verdict::Refused(response.status_code)
        },
        Err(error) => Verdict::Failed(error.kind),
    }
}

/// The description under which `outcome` is reported: that of the action,
/// but for an answer without content, which has a description of its own.
pub open spec fn reported_description(outcome: ActionResult) -> Seq<char> {
    match outcome {
        Ok(response) => if response.status_code == 204 {
            "No Content success"@
        } else {
            response.description@
        },
        Err(error) => error.description@,
    }
}

/// Whether `outcome` is shown at the verbosity `log_verbosity`.
pub open spec fn is_shown(log_verbosity: u8, outcome: ActionResult) -> bool {
    verdict_of(outcome) != Verdict::Succeeded || log_verbosity >= VERBOSE
}

/// What is said of one outcome.
#[derive(Debug, Clone, PartialEq, Eq)]
pub struct Report {
    pub verdict: Verdict,
    pub description: String,
    /// Whether the outcome is shown.
    pub shown: bool,
}

impl QuayXmlConfig {
    /// What is said of the outcome of an action.
    pub fn print_result(&self, result: &ActionResult) -> (report: Report)
        ensures
            report.verdict == verdict_of(*result),
            report.description@ == reported_description(*result),
            report.shown == is_shown(self.log_verbosity, *result),
    {
        match result {
            Ok(response) => {
                let description = if response.status_code == 204 {
                    String::from_str("No Content success")
                } else {
                    response.description.clone()
                };
                if response.succeeded() {
                    Report {
                        verdict: Verdict::Succeeded,
                        description,
                        shown: self.log_verbosity >= VERBOSE,
                    }
                } else {
                    Report {
                        verdict: Verdict::Refused(response.status_code),
                        description,
                        shown: true,
                    }
                }
            },
            Err(error) => Report {
                verdict: Verdict::Failed(error.kind),
                description: error.description.clone(),
                shown: true,
            },
        }
    }

    /// The line to write for a message of the run itself: the message where
    /// the run is verbose, and nothing where it is not.
    pub fn write_log(log_verbosity: u8, message: &str) -> (line: Option<String>)
        ensures
            log_verbosity >= VERBOSE ==> line is Some && line->Some_0@ == message@,
            log_verbosity < VERBOSE ==> line is None,
    {
        if log_verbosity >= VERBOSE {
            Some(String::from_str(message))
        } else {
            None
        }
    }
}

} // verus!
