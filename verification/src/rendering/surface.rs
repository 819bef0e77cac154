//! Decisions of the renderer about the surface it presents to.

use vstd::prelude::*;

verus! {

/// What asking the surface for its next texture answered, as
/// `wgpu::CurrentSurfaceTexture` tells it.
#[derive(Clone, Copy, PartialEq, Eq, Debug, Structural)]
pub enum SurfaceStatus {
    Success,
    Suboptimal,
    Timeout,
    Occluded,
    Outdated,
    Lost,
    Validation,
}

/// Why a frame cannot be rendered at all.
#[derive(Clone, Copy, PartialEq, Eq, Debug, Structural)]
pub enum SurfaceFailure {
    DeviceLost,
    ValidationError,
}

impl SurfaceFailure {
    /// The message of the failure.
    pub fn message(&self) -> (res: &'static str)
        ensures
            res@ == match self {
                SurfaceFailure::DeviceLost => "Device is lost!"@,
                SurfaceFailure::ValidationError => "Validation error occured!"@,
            },
    {
        match self {
            SurfaceFailure::DeviceLost => "Device is lost!",
            SurfaceFailure::ValidationError => "Validation error occured!",
        }
    }
}

/// What the renderer does with the answer.
#[derive(Clone, Copy, PartialEq, Eq, Debug, Structural)]
pub enum SurfaceAction {
    /// Render into the texture; reconfigure the surface before the next frame
    /// when `reconfigure_next`.
    Render { reconfigure_next: bool },
    /// Reconfigure the surface now and skip this frame.
    ReconfigureAndSkip,
    /// Skip this frame.
    Skip,
    /// Fail the frame.
    Fail(SurfaceFailure),
}

/// What the renderer does with each answer of the surface.
pub open spec fn surface_action_spec(status: SurfaceStatus) -> SurfaceAction {
    match status {
        SurfaceStatus::Success => SurfaceAction::Render { reconfigure_next: false },
        SurfaceStatus::Suboptimal => SurfaceAction::Render { reconfigure_next: true },
        SurfaceStatus::Outdated => SurfaceAction::ReconfigureAndSkip,
        SurfaceStatus::Timeout | SurfaceStatus::Occluded => SurfaceAction::Skip,
        SurfaceStatus::Lost => SurfaceAction::Fail(SurfaceFailure::DeviceLost),
        SurfaceStatus::Validation => SurfaceAction::Fail(SurfaceFailure::ValidationError),
    }
}

/// What the renderer does with the surface's answer.
pub fn surface_action(status: SurfaceStatus) -> (res: SurfaceAction)
    ensures
        res == surface_action_spec(status),
{
    match status {
        SurfaceStatus::Success => SurfaceAction::Render { reconfigure_next: false },
        SurfaceStatus::Suboptimal => SurfaceAction::Render { reconfigure_next: true },
        SurfaceStatus::Outdated => SurfaceAction::ReconfigureAndSkip,
        SurfaceStatus::Timeout | SurfaceStatus::Occluded => SurfaceAction::Skip,
        SurfaceStatus::Lost => SurfaceAction::Fail(SurfaceFailure::DeviceLost),
        SurfaceStatus::Validation => SurfaceAction::Fail(SurfaceFailure::ValidationError),
    }
}

/// Which of the surface's formats the renderer picks, given which of them
/// are sRGB: the first sRGB one, or the first one when none is. `None` when
/// the surface offers no format.
pub fn choose_format(is_srgb: &Vec<bool>) -> (res: Option<usize>)
    ensures
        is_srgb@.len() == 0 <==> res is None,
        res matches Some(i) ==> i < is_srgb@.len(),
        res matches Some(i) ==> (is_srgb@[i as int] && forall|j: int|
            0 <= j < i ==> !#[trigger] is_srgb@[j]) || (i == 0 && forall|j: int|
            0 <= j < is_srgb@.len() ==> !#[trigger] is_srgb@[j]),
{
    if is_srgb.len() == 0 {
        return None;
    }
    match crate::rendering::gpu_lookup::first_supported(is_srgb) {
        Some(i) => Some(i),
        None => Some(0),
    }
}

} // verus!
