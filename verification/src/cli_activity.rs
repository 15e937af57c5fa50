//! Reports from an agent's hooks.

use vstd::prelude::*;

use crate::text::{parse_i64, parsed_i64, trim, trimmed};

verus! {

/// The status that every report is answered with, whatever became of it: an
/// agent never waits for a display.
pub const REPORT_STATUS: u16 = 204;

/// What a hook sends with its report.
#[derive(Debug)]
pub struct HookReportQuery {
    /// When the hook fired, in nanoseconds, as it was sent.
    pub seq: Option<String>,
}

/// What a report is ordered by: when its hook fired, where that can be read,
/// else when it arrived, in nanoseconds where they can be stored and in
/// milliseconds otherwise.
pub fn report_seq(query: &HookReportQuery, now_nanos: Option<i64>, now_millis: i64) -> (seq: i64)
    ensures
        seq == ({
            let sent = match query.seq {
                Some(s) => parsed_i64(trimmed(s@)),
                None => None,
            };
            if sent is Some {
                sent->0
            } else if now_nanos is Some {
                now_nanos->0
            } else {
                now_millis
            }
        }),
{
    let sent: Option<i64> = match &query.seq {
        Some(s) => {
            let clean = trim(s.as_str());
            parse_i64(clean.as_str())
        },
        None => None,
    };
    match sent {
        Some(s) => s,
        None => match now_nanos {
            Some(n) => n,
            None => now_millis,
        },
    }
}

} // verus!
