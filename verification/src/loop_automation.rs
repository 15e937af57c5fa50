//! The policy that keeps an agent going, and wake-ups by hand.

use vstd::prelude::*;
use vstd::string::*;

use crate::text::{is_blank, trimmed};

verus! {

/// The shortest pause between two attempts, in seconds.
pub const MIN_RETRY_INTERVAL_SECS: i64 = 60;

pub const DEFAULT_RETRY_INTERVAL_SECS: i64 = 600;

pub const DEFAULT_MAX_ATTEMPTS: i64 = 50;

/// A request to change a workspace's policy. What is absent has its default.
#[derive(Debug)]
pub struct UpsertLoopAutomationRequest {
    pub enabled: bool,
    pub retry_interval_secs: Option<i64>,
    pub continuation_prompt: Option<String>,
    pub max_attempts: Option<i64>,
}

/// A workspace's policy.
#[derive(Debug)]
pub struct LoopPolicy {
    pub enabled: bool,
    pub retry_interval_secs: i64,
    pub continuation_prompt: String,
    pub max_attempts: i64,
    /// Whether what is still scheduled goes away.
    pub clears_pending: bool,
}

/// A prompt that says something.
pub open spec fn spoken(prompt: Option<String>) -> Option<String> {
    if prompt is Some && trimmed(prompt->0@).len() > 0 {
        prompt
    } else {
        None
    }
}

/// The prompt, where it says something.
pub fn spoken_prompt(prompt: Option<String>) -> (p: Option<String>)
    ensures
        p == spoken(prompt),
{
    match prompt {
        Some(text) => {
            if is_blank(text.as_str()) {
                None
            } else {
                Some(text)
            }
        },
        None => None,
    }
}

/// The policy that a request amounts to. The pause between two attempts is
/// never shorter than the minimum, and switching the policy off clears what is
/// still scheduled.
pub fn upsert_policy(request: UpsertLoopAutomationRequest) -> (p: LoopPolicy)
    ensures
        p.enabled == request.enabled,
        p.retry_interval_secs == ({
            let wanted = if request.retry_interval_secs is Some {
                request.retry_interval_secs->0
            } else {
                DEFAULT_RETRY_INTERVAL_SECS
            };
            if wanted < MIN_RETRY_INTERVAL_SECS {
                MIN_RETRY_INTERVAL_SECS
            } else {
                wanted
            }
        }),
        p.continuation_prompt@ == (if spoken(request.continuation_prompt) is Some {
            spoken(request.continuation_prompt)->0@
        } else {
            "Continue."@
        }),
        p.max_attempts == ({
            let wanted = if request.max_attempts is Some {
                request.max_attempts->0
            } else {
                DEFAULT_MAX_ATTEMPTS
            };
            if wanted < 0 {
                0i64
            } else {
                wanted
            }
        }),
        p.clears_pending == !request.enabled,
{
    let wanted: i64 = match request.retry_interval_secs {
        Some(s) => s,
        None => DEFAULT_RETRY_INTERVAL_SECS,
    };
    let retry_interval_secs: i64 = if wanted < MIN_RETRY_INTERVAL_SECS {
        MIN_RETRY_INTERVAL_SECS
    } else {
        wanted
    };
    let attempts: i64 = match request.max_attempts {
        Some(a) => a,
        None => DEFAULT_MAX_ATTEMPTS,
    };
    let max_attempts: i64 = if attempts < 0 {
        0
    } else {
        attempts
    };
    let continuation_prompt = match spoken_prompt(request.continuation_prompt) {
        Some(text) => text,
        None => "Continue.".to_owned(),
    };
    LoopPolicy {
        enabled: request.enabled,
        retry_interval_secs,
        continuation_prompt,
        max_attempts,
        clears_pending: !request.enabled,
    }
}

/// A wake-up by hand.
#[derive(Debug)]
pub struct ManualWakeup {
    /// When it fires, in nanoseconds since the epoch.
    pub fire_at: i128,
    /// What is delivered; absent where the policy's prompt is.
    pub prompt: Option<String>,
    pub attempt: i64,
}

/// The wake-up that a request amounts to.
pub fn create_wakeup(fire_at: i128, prompt: Option<String>) -> (w: ManualWakeup)
    ensures
        w.fire_at == fire_at,
        w.prompt == spoken(prompt),
        w.attempt == 1,
{
    ManualWakeup { fire_at, prompt: spoken_prompt(prompt), attempt: 1 }
}

/// A prompt says something where more than white space is in it, and is then kept
/// as it was written.
pub proof fn law_blank_prompt_says_nothing(prompt: Option<String>)
    ensures
        prompt is None ==> spoken(prompt) is None,
        prompt matches Some(text) ==> (trimmed(text@).len() == 0 ==> spoken(prompt) is None) && (
        trimmed(text@).len() > 0 ==> spoken(prompt) == Some(text)),
{
}

} // verus!
