//! The `/updates` lifecycle of one component: how its status body maps to the
//! viewer's display state, and which lifecycle fields of an ECU follow.

use vstd::prelude::*;
use crate::text::{clone_opt, lowercase, opt_text, owned, to_lowercase};

verus! {

/// The fields of an `/updates` status body that the viewer reads.
pub struct UpdateStatus {
    /// `prepare`, `execute`, or another phase token.
    pub phase: String,
    /// `inProgress`, `completed`, `failed`, or another status token.
    pub status: String,
    /// Whether the entry is a banked trial paused awaiting a commit/rollback verdict.
    pub awaiting_verdict: bool,
    /// The progress figure, as the bit pattern of an `f64`.
    pub progress_bits: Option<u64>,
    /// The message of the body's error, if it carries one.
    pub error_message: Option<String>,
}

/// The display state of a status body, keyed on phase, status and the
/// awaiting-verdict flag:
///   `* + failed` → `failed`; `prepare` → `preparing`;
///   `execute` awaiting a verdict → `awaiting-verdict`;
///   `execute + completed` → `committed`; other `execute` → `executing`;
///   any other phase → the status token, lowercased.
pub open spec fn display_state(phase: Seq<char>, status: Seq<char>, awaiting_verdict: bool) -> Seq<char> {
    if status == "failed"@ {
        "failed"@
    } else if phase == "prepare"@ {
        "preparing"@
    } else if phase == "execute"@ {
        if awaiting_verdict {
            "awaiting-verdict"@
        } else if status == "completed"@ {
            "committed"@
        } else {
            "executing"@
        }
    } else {
        lowercase(status)
    }
}

/// Maps a status body to the viewer's lowercase display state.
pub fn map_update_status(body: &UpdateStatus) -> (r: String)
    ensures
        r@ == display_state(body.phase@, body.status@, body.awaiting_verdict),
{
    if body.status == owned("failed") {
        return owned("failed");
    }
    if body.phase == owned("prepare") {
        owned("preparing")
    } else if body.phase == owned("execute") {
        if body.awaiting_verdict {
            owned("awaiting-verdict")
        } else if body.status == owned("completed") {
            owned("committed")
        } else {
            owned("executing")
        }
    } else {
        to_lowercase(body.status.as_str())
    }
}

/// The lifecycle fields of an ECU's status.
pub struct Lifecycle {
    pub transfer_state: Option<String>,
    pub activation_state: Option<String>,
    pub progress_bits: Option<u64>,
    pub error: Option<String>,
    pub supports_rollback: bool,
}

/// The content of a [`Lifecycle`].
pub struct LifecycleView {
    pub transfer_state: Option<Seq<char>>,
    pub activation_state: Option<Seq<char>>,
    pub progress_bits: Option<u64>,
    pub error: Option<Seq<char>>,
    pub supports_rollback: bool,
}

impl View for Lifecycle {
    type V = LifecycleView;

    open spec fn view(&self) -> LifecycleView {
        LifecycleView {
            transfer_state: opt_text(self.transfer_state),
            activation_state: opt_text(self.activation_state),
            progress_bits: self.progress_bits,
            error: opt_text(self.error),
            supports_rollback: self.supports_rollback,
        }
    }
}

/// The lifecycle fields that follow from the latest status body, or from
/// there being none (`None`: the component has no updates, or reading it failed).
pub open spec fn lifecycle_view(body: Option<UpdateStatus>) -> LifecycleView {
    match body {
        None => LifecycleView {
            transfer_state: Some("idle"@),
            activation_state: None,
            progress_bits: None,
            error: None,
            supports_rollback: false,
        },
        Some(b) => {
            let d = display_state(b.phase@, b.status@, b.awaiting_verdict);
            LifecycleView {
                transfer_state: Some(d),
                activation_state: if b.phase@ == "execute"@ { Some(d) } else { None },
                progress_bits: b.progress_bits,
                error: opt_text(b.error_message),
                supports_rollback: b.awaiting_verdict,
            }
        },
    }
}

/// The body an optional reference points to.
pub open spec fn deref_body(body: Option<&UpdateStatus>) -> Option<UpdateStatus> {
    match body {
        Some(b) => Some(*b),
        None => None,
    }
}

/// The lifecycle fields of an ECU from its latest status body.  The
/// activation state mirrors the display state once the execute phase has
/// begun; rollback is offered only while a trial awaits its verdict.
pub fn lifecycle_of(body: Option<&UpdateStatus>) -> (r: Lifecycle)
    ensures
        r@ == lifecycle_view(deref_body(body)),
{
    match body {
        Some(b) => {
            let display = map_update_status(b);
            let activation_state = if b.phase == owned("execute") {
                Some(display.clone())
            } else {
                None
            };
            Lifecycle {
                transfer_state: Some(display),
                activation_state,
                progress_bits: b.progress_bits,
                error: clone_opt(&b.error_message),
                supports_rollback: b.awaiting_verdict,
            }
        },
        None => Lifecycle {
            transfer_state: Some(owned("idle")),
            activation_state: None,
            progress_bits: None,
            error: None,
            supports_rollback: false,
        },
    }
}

/// A failed status is shown as `failed`, whatever the phase and whether a
/// verdict is awaited.
pub proof fn lemma_failed_wins(phase: Seq<char>, awaiting_verdict: bool)
    ensures
        display_state(phase, "failed"@, awaiting_verdict) == "failed"@,
{
}

/// The display states of the lifecycle table, for a status that is not
/// `failed`: the prepare phase is `preparing`; in the execute phase a trial
/// awaiting its verdict is `awaiting-verdict`, a completed one `committed`,
/// any other `executing`; in an unknown phase the status token, lowercased.
pub proof fn lemma_display_table(phase: Seq<char>, status: Seq<char>, awaiting_verdict: bool)
    requires
        status != "failed"@,
    ensures
        phase == "prepare"@ ==> display_state(phase, status, awaiting_verdict) == "preparing"@,
        phase == "execute"@ && awaiting_verdict ==> display_state(phase, status, awaiting_verdict)
            == "awaiting-verdict"@,
        phase == "execute"@ && !awaiting_verdict && status == "completed"@ ==> display_state(phase, status,
            awaiting_verdict) == "committed"@,
        phase == "execute"@ && !awaiting_verdict && status != "completed"@ ==> display_state(phase, status,
            awaiting_verdict) == "executing"@,
        phase != "prepare"@ && phase != "execute"@ ==> display_state(phase, status, awaiting_verdict)
            == lowercase(status),
{
    reveal_strlit("prepare");
    reveal_strlit("execute");
    assert("prepare"@ != "execute"@) by {
        assert("prepare"@[0] != "execute"@[0]);
    }
}

/// The lifecycle of an ECU follows its latest status body field by field:
/// the transfer state is the body's display state; the activation state is
/// that same state in the execute phase and absent in any other; progress
/// and the error message are the body's, in every phase; rollback is offered
/// exactly while a verdict is awaited.
pub proof fn lemma_lifecycle_follows_body(b: UpdateStatus)
    ensures
        lifecycle_view(Some(b)).transfer_state == Some(display_state(b.phase@, b.status@, b.awaiting_verdict)),
        b.phase@ == "execute"@ ==> lifecycle_view(Some(b)).activation_state
            == lifecycle_view(Some(b)).transfer_state,
        b.phase@ != "execute"@ ==> lifecycle_view(Some(b)).activation_state is None,
        lifecycle_view(Some(b)).progress_bits == b.progress_bits,
        lifecycle_view(Some(b)).error == opt_text(b.error_message),
        lifecycle_view(Some(b)).supports_rollback == b.awaiting_verdict,
{
}

/// With no status body, the ECU is idle: transfer state `idle`, nothing
/// else known, no rollback.
pub proof fn lemma_no_body_is_idle()
    ensures
        lifecycle_view(None).transfer_state == Some("idle"@),
        lifecycle_view(None).activation_state is None,
        lifecycle_view(None).progress_bits is None,
        lifecycle_view(None).error is None,
        !lifecycle_view(None).supports_rollback,
{
}

} // verus!
