//! Frame timing and the per-frame decisions of the game loop.
use std::time::Instant;

use vstd::prelude::*;

verus! {

/// Points in time are taken from the system's monotonic clock.
#[verifier::external_type_specification]
#[verifier::external_body]
pub struct ExInstant(Instant);

/// Reads the clock: calls `std::time::Instant::now`. What it returns depends
/// on when it is called, so nothing is stated of it.
#[verifier::external_body]
fn now() -> Instant {
    Instant::now()
}

/// When the game world, the current scene and the last frame started.
pub struct Timings {
    pub world_start: Instant,
    pub scene_start: Instant,
    pub last_frame: Instant,
}

impl Timings {
    /// Timings that start the world, the scene and the frame at one instant.
    pub fn new() -> (t: Self)
        ensures
            t.world_start == t.scene_start,
            t.scene_start == t.last_frame,
    {
        let now = now();
        Timings { world_start: now, scene_start: now, last_frame: now }
    }

    /// Start a new scene now; the world and frame starts stay. The new scene
    /// start is whatever the clock reads during the call, which depends on
    /// the time of the call; [Timings::start_scene_at] stores that reading.
    pub fn reset_scene(&mut self)
        ensures
            final(self).world_start == old(self).world_start,
            final(self).last_frame == old(self).last_frame,
    {
        self.start_scene_at(now());
    }

    /// Start a new scene at `at`; the world and frame starts stay.
    pub fn start_scene_at(&mut self, at: Instant)
        ensures
            final(self).scene_start == at,
            final(self).world_start == old(self).world_start,
            final(self).last_frame == old(self).last_frame,
    {
        self.scene_start = at;
    }

    /// Start a new frame now; the world and scene starts stay. The new frame
    /// start is whatever the clock reads during the call, which depends on
    /// the time of the call; [Timings::tick_at] stores that reading.
    pub fn tick(&mut self)
        ensures
            final(self).world_start == old(self).world_start,
            final(self).scene_start == old(self).scene_start,
    {
        self.tick_at(now());
    }

    /// Start a new frame at `at`; the world and scene starts stay.
    pub fn tick_at(&mut self, at: Instant)
        ensures
            final(self).last_frame == at,
            final(self).world_start == old(self).world_start,
            final(self).scene_start == old(self).scene_start,
    {
        self.last_frame = at;
    }
}

/// What the render surface answered when asked for the next frame's texture.
#[derive(Debug, Clone, Copy, PartialEq, Eq)]
pub enum SurfaceStatus {
    /// A texture that matches the surface.
    Success,
    /// A texture, but the surface should be configured again.
    Suboptimal,
    /// No texture: the surface no longer matches its window.
    Outdated,
    /// No texture, for any other reason (timeout, occlusion, loss, ...).
    Other,
}

/// Which attempt at getting the frame's texture an answer belongs to.
#[derive(Debug, Clone, Copy, PartialEq, Eq)]
pub enum Attempt {
    First,
    Retry,
}

/// What the game loop does with the answer of the render surface.
#[derive(Debug, Clone, Copy, PartialEq, Eq)]
pub enum FrameAction {
    /// Render the scene into the texture and present it.
    Render,
    /// Drop the texture, configure the surface again and ask once more.
    ReconfigureAndRetry,
    /// Configure the surface again and give up this frame.
    ReconfigureAndSkip,
    /// Give up this frame; try again next tick.
    Skip,
    /// Report the answer and let go of the render context.
    DropContext,
}

/// The action for `status` on the given attempt.
pub open spec fn frame_action_spec(status: SurfaceStatus, attempt: Attempt) -> FrameAction {
    match attempt {
        Attempt::First => match status {
            SurfaceStatus::Success => FrameAction::Render,
            SurfaceStatus::Suboptimal => FrameAction::ReconfigureAndRetry,
            SurfaceStatus::Outdated => FrameAction::ReconfigureAndSkip,
            SurfaceStatus::Other => FrameAction::DropContext,
        },
        Attempt::Retry => match status {
            SurfaceStatus::Success => FrameAction::Render,
            _ => FrameAction::Skip,
        },
    }
}

/// Decide what to do with the surface's answer: render a good texture,
/// reconfigure and retry once on a suboptimal one, reconfigure and skip on
/// an outdated surface, and drop the context on anything else; a retry
/// that does not bring a good texture skips the frame.
pub fn frame_action(status: SurfaceStatus, attempt: Attempt) -> (action: FrameAction)
    ensures
        action == frame_action_spec(status, attempt),
{
    match attempt {
        Attempt::First => match status {
            SurfaceStatus::Success => FrameAction::Render,
            SurfaceStatus::Suboptimal => FrameAction::ReconfigureAndRetry,
            SurfaceStatus::Outdated => FrameAction::ReconfigureAndSkip,
            SurfaceStatus::Other => FrameAction::DropContext,
        },
        Attempt::Retry => match status {
            SurfaceStatus::Success => FrameAction::Render,
            _ => FrameAction::Skip,
        },
    }
}

/// A frame asks the surface at most twice: a retry never asks for another
/// retry, and only a good texture is ever rendered.
pub proof fn lemma_frame_action_bounded(status: SurfaceStatus, attempt: Attempt)
    ensures
        attempt == Attempt::Retry ==> frame_action_spec(status, attempt) != FrameAction::ReconfigureAndRetry,
        frame_action_spec(status, attempt) == FrameAction::Render <==> status == SurfaceStatus::Success,
{
}

/// The extent a surface is configured with for a window of the given size:
/// each side at least 1.
pub fn surface_extent(width: u32, height: u32) -> (extent: (u32, u32))
    ensures
        extent.0 == if width == 0 { 1 } else { width },
        extent.1 == if height == 0 { 1 } else { height },
{
    let w = if width < 1 {
        1
    } else {
        width
    };
    let h = if height < 1 {
        1
    } else {
        height
    };
    (w, h)
}

} // verus!
