//! Why a pause was not confirmed.

use crate::text::{same, Text};
use vstd::prelude::*;
use vstd::string::*;

verus! {

pub const MSG_ARM_FAILED: &'static str = "owned child generation changed before pause arm";

pub const MSG_POST_RELEASE_REVALIDATION_INCOMPLETE: &'static str =
    "post-release loader revalidation did not close required discovery";

pub const MSG_PAUSE_HELPER_REJECTED: &'static str = "pause helper rejected SIGSTOP";

pub const MSG_NESTED_DEADLINE_BEFORE: &'static str =
    "deadline crossed before nested discovery dequeue";

pub const MSG_NESTED_DEADLINE_AFTER: &'static str =
    "deadline crossed after nested discovery dequeue";

pub const MSG_DEADLINE_BEFORE_DEQUEUE: &'static str = "deadline crossed before discovery dequeue";

pub const MSG_DEADLINE_AFTER_DEQUEUE: &'static str = "deadline crossed after discovery dequeue";

pub const MSG_PAUSE_CONFIRMATION_DEADLINE: &'static str = "pause confirmation deadline crossed";

pub const MSG_PAUSE_RESUME_DEADLINE: &'static str = "pause resume observation deadline crossed";

pub const MSG_PAUSE_CAUSAL_DEADLINE: &'static str = "pause causal deadline crossed";

pub const MSG_COALESCED_RECORD_DEADLINE: &'static str = "coalesced record crossed winner deadline";

/// The reason that is reported for a pause that was not confirmed.
#[derive(Clone, Copy, Debug, PartialEq, Eq, Structural)]
pub enum PauseDiagnostic {
    ArmFailedBeforeEpoch,
    PostReleaseRevalidationIncomplete,
    PauseHelperRejected,
    DeadlineBeforeEngineApply,
    DeadlineDuringEngineApply,
    EngineIncompleteWithinDeadline,
    NestedCollectorDeadline,
    LaterPauseBoundary,
    OtherAutoNonconfirmed,
}

/// The token that names a reason.
pub open spec fn token_text(diagnostic: PauseDiagnostic) -> Text {
    match diagnostic {
        PauseDiagnostic::ArmFailedBeforeEpoch => "arm_failed_before_epoch"@,
        PauseDiagnostic::PostReleaseRevalidationIncomplete =>
            "post_release_revalidation_incomplete"@,
        PauseDiagnostic::PauseHelperRejected => "pause_helper_rejected"@,
        PauseDiagnostic::DeadlineBeforeEngineApply => "deadline_before_engine_apply"@,
        PauseDiagnostic::DeadlineDuringEngineApply => "deadline_during_engine_apply"@,
        PauseDiagnostic::EngineIncompleteWithinDeadline => "engine_incomplete_within_deadline"@,
        PauseDiagnostic::NestedCollectorDeadline => "nested_collector_deadline"@,
        PauseDiagnostic::LaterPauseBoundary => "later_pause_boundary"@,
        PauseDiagnostic::OtherAutoNonconfirmed => "other_auto_nonconfirmed"@,
    }
}

impl PauseDiagnostic {
    /// The token that names the reason.
    pub fn token(self) -> (token: &'static str)
        ensures
            token@ == token_text(self),
    {
        match self {
            Self::ArmFailedBeforeEpoch => "arm_failed_before_epoch",
            Self::PostReleaseRevalidationIncomplete => "post_release_revalidation_incomplete",
            Self::PauseHelperRejected => "pause_helper_rejected",
            Self::DeadlineBeforeEngineApply => "deadline_before_engine_apply",
            Self::DeadlineDuringEngineApply => "deadline_during_engine_apply",
            Self::EngineIncompleteWithinDeadline => "engine_incomplete_within_deadline",
            Self::NestedCollectorDeadline => "nested_collector_deadline",
            Self::LaterPauseBoundary => "later_pause_boundary",
            Self::OtherAutoNonconfirmed => "other_auto_nonconfirmed",
        }
    }
}

/// The one line that reports a partial pause.
pub open spec fn diagnostic_line(diagnostic: PauseDiagnostic) -> Text {
    "p11scope: pause: partial [pause_diag="@ + token_text(diagnostic) + "]"@
}

/// Renders the one line that reports a partial pause.
pub fn render_pause_diagnostic(diagnostic: PauseDiagnostic) -> (line: String)
    ensures
        line@ == diagnostic_line(diagnostic),
{
    let mut line = "p11scope: pause: partial [pause_diag=".to_owned();
    line.append(diagnostic.token());
    line.append("]");
    line
}

/// The reason that a failure message stands for, where it stands for one.
pub open spec fn message_diagnostic(message: Text) -> Option<PauseDiagnostic> {
    if message == MSG_ARM_FAILED@ {
        Some(PauseDiagnostic::ArmFailedBeforeEpoch)
    } else if message == MSG_POST_RELEASE_REVALIDATION_INCOMPLETE@ {
        Some(PauseDiagnostic::PostReleaseRevalidationIncomplete)
    } else if message == MSG_PAUSE_HELPER_REJECTED@ {
        Some(PauseDiagnostic::PauseHelperRejected)
    } else if message == MSG_NESTED_DEADLINE_BEFORE@ || message == MSG_NESTED_DEADLINE_AFTER@ {
        Some(PauseDiagnostic::NestedCollectorDeadline)
    } else if message == MSG_DEADLINE_BEFORE_DEQUEUE@ || message == MSG_DEADLINE_AFTER_DEQUEUE@
        || message == MSG_PAUSE_CONFIRMATION_DEADLINE@ || message == MSG_PAUSE_RESUME_DEADLINE@
        || message == MSG_PAUSE_CAUSAL_DEADLINE@ || message == MSG_COALESCED_RECORD_DEADLINE@ {
        Some(PauseDiagnostic::LaterPauseBoundary)
    } else {
        None
    }
}

/// Finds the reason that a failure message stands for.
pub fn diagnostic_for_message(message: &str) -> (r: Option<PauseDiagnostic>)
    ensures
        r == message_diagnostic(message@),
{
    if same(message, MSG_ARM_FAILED) {
        Some(PauseDiagnostic::ArmFailedBeforeEpoch)
    } else if same(message, MSG_POST_RELEASE_REVALIDATION_INCOMPLETE) {
        Some(PauseDiagnostic::PostReleaseRevalidationIncomplete)
    } else if same(message, MSG_PAUSE_HELPER_REJECTED) {
        Some(PauseDiagnostic::PauseHelperRejected)
    } else if same(message, MSG_NESTED_DEADLINE_BEFORE) || same(
        message,
        MSG_NESTED_DEADLINE_AFTER,
    ) {
        Some(PauseDiagnostic::NestedCollectorDeadline)
    } else if same(message, MSG_DEADLINE_BEFORE_DEQUEUE) || same(
        message,
        MSG_DEADLINE_AFTER_DEQUEUE,
    ) || same(message, MSG_PAUSE_CONFIRMATION_DEADLINE) || same(message, MSG_PAUSE_RESUME_DEADLINE)
        || same(message, MSG_PAUSE_CAUSAL_DEADLINE) || same(
        message,
        MSG_COALESCED_RECORD_DEADLINE,
    ) {
        Some(PauseDiagnostic::LaterPauseBoundary)
    } else {
        None
    }
}

/// The reason that an application of records gives, from the clocks round it.
///
/// A nested deadline comes first. Without a deadline there is no other reason. A start past the
/// deadline comes before an end past it, and only an end within the deadline can leave a required
/// part incomplete. A clock that could not be read supports none of them.
pub open spec fn apply_diagnostic(
    before_ns: Option<u64>,
    after_ns: Option<u64>,
    deadline: Option<u64>,
    required_complete: bool,
    nested_deadline: bool,
) -> Option<PauseDiagnostic> {
    if nested_deadline {
        Some(PauseDiagnostic::NestedCollectorDeadline)
    } else {
        match deadline {
            None => None,
            Some(limit) => if before_ns matches Some(before) && before > limit {
                Some(PauseDiagnostic::DeadlineBeforeEngineApply)
            } else if before_ns is Some && (after_ns matches Some(after) && after > limit) {
                Some(PauseDiagnostic::DeadlineDuringEngineApply)
            } else if !required_complete && (after_ns matches Some(after) && after <= limit) {
                Some(PauseDiagnostic::EngineIncompleteWithinDeadline)
            } else {
                None
            },
        }
    }
}

/// Classifies an application of records by the clocks round it.
pub fn classify_apply_diagnostic(
    before_ns: Option<u64>,
    after_ns: Option<u64>,
    deadline: Option<u64>,
    required_complete: bool,
    nested_deadline: bool,
) -> (r: Option<PauseDiagnostic>)
    ensures
        r == apply_diagnostic(before_ns, after_ns, deadline, required_complete, nested_deadline),
{
    if nested_deadline {
        return Some(PauseDiagnostic::NestedCollectorDeadline);
    }
    let limit: u64 = match deadline {
        Some(limit) => limit,
        None => return None,
    };
    if let Some(before) = before_ns {
        if before > limit {
            return Some(PauseDiagnostic::DeadlineBeforeEngineApply);
        }
        if let Some(after) = after_ns {
            if after > limit {
                return Some(PauseDiagnostic::DeadlineDuringEngineApply);
            }
        }
    }
    if let Some(after) = after_ns {
        if !required_complete && after <= limit {
            return Some(PauseDiagnostic::EngineIncompleteWithinDeadline);
        }
    }
    None
}

} // verus!
