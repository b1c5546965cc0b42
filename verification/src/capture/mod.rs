//! Acquisition of the desktop.

pub mod desktop;
pub mod dxgi;

use crate::text;
use vstd::prelude::*;

verus! {

/// Geometry of the captured source.
#[derive(Debug, Clone, Copy, PartialEq, Eq, Structural)]
pub struct DesktopInfo {
    /// Width in pixels.
    pub width: u32,
    /// Height in pixels.
    pub height: u32,
    /// Index of the duplicated video output.
    pub output_index: u32,
}

/// Outcome of an acquisition.
#[derive(Debug, Clone, Copy, PartialEq, Eq, Structural)]
pub enum FrameStatus {
    /// A new image is in the target texture.
    Ready {
        /// Images presented since the last acquisition.
        accumulated: u32,
    },
    /// The time went by without a new image: the desktop is still. Nothing is
    /// encoded and nothing is sent.
    Idle,
}

/// Why an acquisition failed.
#[derive(Debug, Clone, PartialEq, Eq)]
pub enum CaptureError {
    /// The duplication is no longer valid: another resolution, the secure desktop,
    /// exclusive full screen, a driver update. It has to be opened again.
    Lost,
    /// There is no video output at this index.
    OutputNotFound(u32),
    /// The current desktop is out of the process's reach: locked session, secure
    /// desktop. It comes back by itself.
    DesktopUnavailable,
    /// The system's interface reported an error.
    System(String),
}

/// A capture error as a mathematical value.
pub enum CaptureErrorModel {
    /// The duplication is no longer valid.
    Lost,
    /// There is no video output at this index.
    OutputNotFound(u32),
    /// The current desktop is out of reach.
    DesktopUnavailable,
    /// The system's interface reported an error.
    System(Seq<char>),
}

impl View for CaptureError {
    type V = CaptureErrorModel;

    open spec fn view(&self) -> CaptureErrorModel {
        match self {
            CaptureError::Lost => CaptureErrorModel::Lost,
            CaptureError::OutputNotFound(i) => CaptureErrorModel::OutputNotFound(*i),
            CaptureError::DesktopUnavailable => CaptureErrorModel::DesktopUnavailable,
            CaptureError::System(s) => CaptureErrorModel::System(s@),
        }
    }
}

/// A capture error in words.
pub open spec fn error_text(e: CaptureErrorModel) -> Seq<char> {
    match e {
        CaptureErrorModel::Lost => "duplication perdue, recréation nécessaire"@,
        CaptureErrorModel::OutputNotFound(i) => "sortie vidéo "@ + text::decimal(i as nat)
            + " introuvable"@,
        CaptureErrorModel::DesktopUnavailable => {
            "bureau inaccessible : session verrouillée ou bureau sécurisé actif"@
        },
        CaptureErrorModel::System(detail) => "erreur système: "@ + detail,
    }
}

impl CaptureError {
    /// The error in words.
    pub fn message(&self) -> (s: String)
        ensures
            s@ == error_text(self@),
    {
        let mut s = String::new();
        match self {
            CaptureError::Lost => {
                text::push_text(&mut s, "duplication perdue, recréation nécessaire");
            },
            CaptureError::OutputNotFound(i) => {
                text::push_text(&mut s, "sortie vidéo ");
                text::push_decimal(&mut s, *i as u64);
                text::push_text(&mut s, " introuvable");
            },
            CaptureError::DesktopUnavailable => {
                text::push_text(
                    &mut s,
                    "bureau inaccessible : session verrouillée ou bureau sécurisé actif",
                );
            },
            CaptureError::System(detail) => {
                text::push_text(&mut s, "erreur système: ");
                text::push_text(&mut s, detail.as_str());
            },
        }
        assert(s@ =~= error_text(self@));
        s
    }
}

/// Source of images of the desktop.
pub trait FrameSource {
    /// Current geometry of the source.
    fn desktop(&self) -> DesktopInfo;

    /// Waits for a new image, no longer than `timeout`. Hands back
    /// [`FrameStatus::Idle`] if nothing changed.
    fn acquire(&mut self, timeout: std::time::Duration) -> Result<FrameStatus, CaptureError>;
}

/// An error shows what it is about: the number of an output that is not there, the detail that
/// the system gave, the duplication that was lost, the desktop that cannot be reached.
pub proof fn law_errors_show_what_they_are_about(e: CaptureErrorModel)
    ensures
        e matches CaptureErrorModel::OutputNotFound(i) ==> text::shows(
            error_text(e),
            text::decimal(i as nat),
        ),
        e matches CaptureErrorModel::System(detail) ==> text::shows(error_text(e), detail),
        e is Lost ==> text::shows(error_text(e), "duplication"@),
        e is DesktopUnavailable ==> text::shows(error_text(e), "bureau"@),
{
    match e {
        CaptureErrorModel::OutputNotFound(i) => text::lemma_shows(
            "sortie vidéo "@,
            text::decimal(i as nat),
            " introuvable"@,
        ),
        CaptureErrorModel::System(detail) => text::lemma_shows(
            "erreur système: "@,
            detail,
            Seq::empty(),
        ),
        CaptureErrorModel::Lost => {
            reveal_strlit("duplication");
            reveal_strlit("duplication perdue, recréation nécessaire");
            assert(error_text(e).subrange(0, 0int + "duplication"@.len()) =~= "duplication"@);
        },
        CaptureErrorModel::DesktopUnavailable => {
            reveal_strlit("bureau");
            reveal_strlit("bureau inaccessible : session verrouillée ou bureau sécurisé actif");
            assert(error_text(e).subrange(0, 0int + "bureau"@.len()) =~= "bureau"@);
        },
    }
}

} // verus!
