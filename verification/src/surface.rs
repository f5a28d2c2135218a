use vstd::prelude::*;

verus! {

/// What the window surface answered when asked for the texture to draw into.
#[derive(Debug, Clone, Copy, PartialEq, Eq, Structural)]
pub enum SurfaceStatus {
    /// A texture is ready.
    Success,
    /// A texture is ready, though the surface no longer matches the window
    /// exactly.
    Suboptimal,
    /// No texture came in time.
    Timeout,
    /// The window cannot be seen.
    Occluded,
    /// The surface no longer fits the window.
    Outdated,
    /// The surface was lost.
    Lost,
    /// The request failed validation.
    Validation,
}

/// What drawing a frame does with the surface's answer.
#[derive(Debug, Clone, Copy, PartialEq, Eq, Structural)]
pub enum SurfaceAction {
    /// Draw into the texture.
    Draw,
    /// Skip this frame.
    Skip,
    /// Configure the surface again and skip this frame.
    ReconfigureAndSkip,
}

/// A ready texture, suboptimal or not, is drawn into; an outdated or lost
/// surface is configured again; any other answer skips the frame.
pub fn surface_action(status: &SurfaceStatus) -> (a: SurfaceAction)
    ensures
        a == match *status {
            SurfaceStatus::Success | SurfaceStatus::Suboptimal => SurfaceAction::Draw,
            SurfaceStatus::Outdated | SurfaceStatus::Lost => SurfaceAction::ReconfigureAndSkip,
            SurfaceStatus::Timeout | SurfaceStatus::Occluded | SurfaceStatus::Validation => SurfaceAction::Skip,
        },
{
    match status {
        SurfaceStatus::Success => SurfaceAction::Draw,
        SurfaceStatus::Suboptimal => SurfaceAction::Draw,
        SurfaceStatus::Timeout => SurfaceAction::Skip,
        SurfaceStatus::Occluded => SurfaceAction::Skip,
        SurfaceStatus::Outdated => SurfaceAction::ReconfigureAndSkip,
        SurfaceStatus::Lost => SurfaceAction::ReconfigureAndSkip,
        SurfaceStatus::Validation => SurfaceAction::Skip,
    }
}

} // verus!
