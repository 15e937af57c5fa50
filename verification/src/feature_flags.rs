//! Features that are switched by the environment.

use vstd::prelude::*;

use crate::env::{evaluate_disable_flag, evaluate_enable_flag, truthy};

verus! {

/// Switches the hand-over between the terminal and the application on.
pub const CLI_HANDOVER_ENV: &'static str = "ENABLE_CLI_HANDOVER";

/// Switches the import of transcripts off.
pub const CLI_TRANSCRIPT_INGEST_DISABLE_ENV: &'static str = "DISABLE_CLI_TRANSCRIPT_INGEST";

/// Switches the routing of messages to terminals off.
pub const CLI_COLLAB_ROUTING_DISABLE_ENV: &'static str = "DISABLE_CLI_COLLAB_ROUTING";

/// Whether the hand-over between the terminal and the application is on, given
/// the values of the three variables. It is off unless it is switched on, and
/// either of the others keeps it off.
pub fn cli_handover_enabled(
    ingest_disabled: Option<String>,
    routing_disabled: Option<String>,
    handover: Option<String>,
) -> (r: bool)
    ensures
        r == (ingest_disabled is None && routing_disabled is None && handover is Some && truthy(
            handover->0@,
        )),
{
    if evaluate_disable_flag(CLI_TRANSCRIPT_INGEST_DISABLE_ENV, ingest_disabled)
        || evaluate_disable_flag(CLI_COLLAB_ROUTING_DISABLE_ENV, routing_disabled) {
        return false;
    }
    evaluate_enable_flag(CLI_HANDOVER_ENV, handover)
}

} // verus!
