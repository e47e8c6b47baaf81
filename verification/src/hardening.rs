//! Hardening of the process against local inspection.
//!
//! The daemon makes itself not dumpable at start-up: a process of the same user
//! can no longer trace it or read its memory, and the kernel writes no core dump
//! of it. This raises the cost of a local attack; the real boundary of trust
//! stays the account of the operating system.

use vstd::prelude::*;
use vstd::string::StringExecFns;
use rustix::process::{set_dumpable_behavior, DumpableBehavior};
use crate::error::{NuxError, Result};

verus! {

/// Whether the kernel may dump the process.
#[derive(Debug, Clone, Copy, PartialEq, Eq, Structural)]
pub enum Dumpable {
    /// No core dump, no tracing by another process of the same user.
    No,
    /// The default of the system.
    Yes,
}

/// `rustix::process::set_dumpable_behavior`, with the text of its error. Nothing is
/// claimed of the outcome: the kernel decides.
#[verifier::external_body]
fn set_dumpable(dumpable: Dumpable) -> (r: core::result::Result<(), String>) {
    let behavior = match dumpable {
        Dumpable::No => DumpableBehavior::NotDumpable,
        Dumpable::Yes => DumpableBehavior::Dumpable,
    };
    set_dumpable_behavior(behavior).map_err(|e| e.to_string())
}

/// The outcome of the hardening, from that of the system call.
pub fn hardening_outcome(call: core::result::Result<(), String>) -> (r: Result<()>)
    ensures
        match call {
            Ok(()) => r is Ok,
            Err(why) => r matches Err(NuxError::Io(m)) && m@
                == "prctl(PR_SET_DUMPABLE) a échoué: "@ + why@,
        },
{
    match call {
        Ok(()) => Ok(()),
        Err(why) => Err(
            NuxError::Io("prctl(PR_SET_DUMPABLE) a échoué: ".to_owned().concat(why.as_str())),
        ),
    }
}

/// What the hardening asks of the kernel: no dump of the process.
pub fn hardening_request() -> (r: Dumpable)
    ensures
        r == Dumpable::No,
{
    Dumpable::No
}

/// Makes the process not dumpable: hands [`hardening_request`] to the kernel. Can be
/// called again; to be called before any use of the key. The outcome is that of the
/// system call, as [`hardening_outcome`] says it.
pub fn harden_process() -> (r: Result<()>)
    ensures
        r matches Err(e) ==> exists|why: Seq<char>|
            e matches NuxError::Io(m) && m@ == #[trigger] ("prctl(PR_SET_DUMPABLE) a échoué: "@
                + why),
{
    hardening_outcome(set_dumpable(hardening_request()))
}

} // verus!
