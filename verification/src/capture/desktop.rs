//! Attachment of a thread to the desktop that receives the input.
//!
//! That desktop changes without notice: the usual one, the one of the lock screen,
//! a fleeting one at each elevation. A thread stays on the desktop where it was
//! made, and the duplication fails at the first switch unless the thread is moved.

use crate::capture::{CaptureError, CaptureErrorModel};
use crate::text;
use vstd::prelude::*;

verus! {

/// How far the attachment of the current thread has come.
#[derive(Debug, Clone, Copy, PartialEq, Eq, Structural)]
pub enum AttachStage {
    /// Read the thread's current desktop.
    ReadCurrent,
    /// Open the desktop that receives the input.
    OpenInput,
    /// Move the thread to it.
    Switch,
    /// The thread is attached.
    Attached,
}

/// What to do when a stage has failed.
#[derive(Debug, PartialEq, Eq)]
pub struct AttachFailure {
    /// The desktop that was opened has to be closed again.
    pub close_opened: bool,
    /// The error to hand out.
    pub error: CaptureError,
}

/// The stage after one that succeeded.
pub open spec fn stage_after(s: AttachStage) -> AttachStage {
    match s {
        AttachStage::ReadCurrent => AttachStage::OpenInput,
        AttachStage::OpenInput => AttachStage::Switch,
        _ => AttachStage::Attached,
    }
}

/// The error of a stage that failed. That the desktop cannot be opened is the usual
/// case of an unprivileged agent before a locked screen.
pub open spec fn stage_error(s: AttachStage, detail: Seq<char>) -> CaptureErrorModel {
    match s {
        AttachStage::ReadCurrent => CaptureErrorModel::System(
            "bureau courant illisible: "@ + detail,
        ),
        AttachStage::OpenInput => CaptureErrorModel::DesktopUnavailable,
        _ => CaptureErrorModel::System("rattachement au bureau impossible: "@ + detail),
    }
}

/// Whether a result is what a stage comes to.
pub open spec fn attaches(
    stage: AttachStage,
    failure: Option<Seq<char>>,
    r: Result<AttachStage, AttachFailure>,
) -> bool {
    match failure {
        None => r matches Ok(next) && next == stage_after(stage),
        Some(detail) => r matches Err(f) && f.error@ == stage_error(stage, detail)
            && f.close_opened == (stage == AttachStage::Switch),
    }
}

/// The stage after `stage`, given what came of it: nothing, or what the system said.
///
/// Only a desktop that was opened and could not be switched to is closed again.
pub fn attach_step(stage: AttachStage, failure: Option<&str>) -> (r: Result<
    AttachStage,
    AttachFailure,
>)
    ensures
        attaches(
            stage,
            match failure {
                Some(detail) => Some(detail@),
                None => None,
            },
            r,
        ),
{
    match failure {
        None => Ok(
            match stage {
                AttachStage::ReadCurrent => AttachStage::OpenInput,
                AttachStage::OpenInput => AttachStage::Switch,
                _ => AttachStage::Attached,
            },
        ),
        Some(detail) => {
            let error = match stage {
                AttachStage::ReadCurrent => {
                    let mut s = "bureau courant illisible: ".to_owned();
                    text::push_text(&mut s, detail);
                    CaptureError::System(s)
                },
                AttachStage::OpenInput => CaptureError::DesktopUnavailable,
                _ => {
                    let mut s = "rattachement au bureau impossible: ".to_owned();
                    text::push_text(&mut s, detail);
                    CaptureError::System(s)
                },
            };
            Err(AttachFailure { close_opened: matches!(stage, AttachStage::Switch), error })
        },
    }
}

/// A thread is attached in three stages, one after the other: its desktop is read, the one
/// that receives the input is opened, and the thread is moved. A desktop that cannot be opened
/// is out of reach; any other failure is the system's, in its words. What was opened is closed
/// again exactly when the thread could not be moved.
pub proof fn law_an_attachment_takes_three_stages(
    stage: AttachStage,
    failure: Option<Seq<char>>,
    r: Result<AttachStage, AttachFailure>,
)
    requires
        attaches(stage, failure, r),
    ensures
        r is Ok <==> failure is None,
        failure is None && stage is ReadCurrent ==> r == Ok::<AttachStage, AttachFailure>(
            AttachStage::OpenInput,
        ),
        failure is None && stage is OpenInput ==> r == Ok::<AttachStage, AttachFailure>(
            AttachStage::Switch,
        ),
        failure is None && stage is Switch ==> r == Ok::<AttachStage, AttachFailure>(
            AttachStage::Attached,
        ),
        r matches Err(f) ==> (f.close_opened <==> stage is Switch),
        r matches Err(f) ==> (f.error@ is DesktopUnavailable <==> stage is OpenInput),
        failure matches Some(detail) ==> (stage is ReadCurrent ==> (r matches Err(f) && f.error@
            == CaptureErrorModel::System("bureau courant illisible: "@ + detail))),
        failure matches Some(detail) ==> (stage is Switch ==> (r matches Err(f) && f.error@
            == CaptureErrorModel::System("rattachement au bureau impossible: "@ + detail))),
{
}

} // verus!
