//! How the process ends.

use vstd::prelude::*;
use vstd::string::StringExecFns;

verus! {

/// The exit status of a process whose token was rejected or has expired. It
/// differs from that of any other failure, so that a service manager can tell
/// "log in again" from a failure that may pass.
pub const EXIT_AUTH: i32 = 77;

/// How a run ended.
#[derive(Debug)]
pub enum Outcome {
    /// Everything was done.
    Done,
    /// The server rejected the token.
    Rejected,
    /// Something else failed, for the reason given.
    Failed(String),
}

/// Why something that the program does outside itself failed. A rejected token
/// is kept apart from everything else.
#[derive(Debug)]
pub enum Failure {
    /// The server rejected the token.
    Rejected,
    /// Something else failed, for the reason given.
    Other(String),
}

/// The exit status that stands for an outcome.
pub open spec fn status_of(outcome: Outcome) -> i32 {
    match outcome {
        Outcome::Done => 0,
        Outcome::Rejected => EXIT_AUTH,
        Outcome::Failed(_) => 1,
    }
}

impl Outcome {
    /// The exit status of the process.
    pub fn exit_code(&self) -> (code: i32)
        ensures
            code == status_of(*self),
    {
        match self {
            Outcome::Done => 0,
            Outcome::Rejected => EXIT_AUTH,
            Outcome::Failed(_) => 1,
        }
    }

    /// What the user is told at the end, if anything.
    pub fn report(&self) -> (r: Option<String>)
        ensures
            match *self {
                Outcome::Done => r is None,
                Outcome::Rejected => r matches Some(line) && line@
                    == "Token expired or rejected. Run `floppa-cli login` again."@,
                Outcome::Failed(reason) => r matches Some(line) && line@ == "Error: "@ + reason@,
            },
    {
        match self {
            Outcome::Done => None,
            Outcome::Rejected => Some(
                "Token expired or rejected. Run `floppa-cli login` again.".to_owned(),
            ),
            Outcome::Failed(reason) => {
                let mut line = String::new();
                line.append("Error: ");
                assert(line@ =~= "Error: "@);
                line.append(reason.as_str());
                Some(line)
            },
        }
    }
}

/// The exit status of a rejected token stands for nothing else.
pub proof fn law_only_a_rejected_token_exits_with_auth(outcome: Outcome)
    ensures
        status_of(outcome) == EXIT_AUTH <==> outcome is Rejected,
        status_of(outcome) == 0 <==> outcome is Done,
{
}

/// Any other failure exits with the one status that says no more than that,
/// whatever the reason.
pub proof fn law_other_failures_exit_alike(reason: String)
    ensures
        status_of(Outcome::Failed(reason)) == 1,
        status_of(Outcome::Rejected) == 77,
        status_of(Outcome::Done) == 0,
{
}

}
