//! One turn of the frame loop: from an event of the window to what is to be
//! drawn.  Waiting for events and drawing are the caller's part.
use crate::arcball::{ArcballController, ArcballKernel, Vec3};
use crate::transform::{identity_matrix, Homo4, Rot3};
use crate::window_state::{InputEvent, Pointer, Scroll, WindowState};
use vstd::prelude::*;

verus! {

/// What the caller is to do after an event.
#[derive(Clone, Copy, Debug, PartialEq, Eq)]
pub enum FrameAction {
    /// The window was closed: leave the loop.
    Stop,
    /// Draw the scene under this camera transform.
    Render(Homo4),
}

/// The state that lasts from frame to frame: the window's state now and one
/// event ago, and the camera.
#[derive(Clone, Copy, Debug, PartialEq, Eq)]
pub struct FrameLoop {
    previous: WindowState,
    current: WindowState,
    controller: ArcballController,
}

impl FrameLoop {
    pub closed spec fn previous_state(&self) -> WindowState {
        self.previous
    }

    pub closed spec fn current_state(&self) -> WindowState {
        self.current
    }

    pub closed spec fn camera_controller(&self) -> ArcballController {
        self.controller
    }

    /// The loop before its first event.
    pub fn new(sensitivity: u32) -> (frame_loop: FrameLoop)
        ensures
            frame_loop.previous() == WindowState::start(),
            frame_loop.current() == WindowState::start(),
            frame_loop.controller().cumulative() == identity_matrix(),
            frame_loop.controller().sensitivity() == sensitivity,
    {
        FrameLoop {
            previous: WindowState::initial(),
            current: WindowState::initial(),
            controller: ArcballController::new(sensitivity),
        }
    }

    /// The window's state one event ago.
    #[verifier::when_used_as_spec(previous_state)]
    pub fn previous(&self) -> (state: WindowState)
        ensures
            state == self.previous(),
    {
        self.previous
    }

    /// The window's state now.
    #[verifier::when_used_as_spec(current_state)]
    pub fn current(&self) -> (state: WindowState)
        ensures
            state == self.current(),
    {
        self.current
    }

    /// The camera.
    #[verifier::when_used_as_spec(camera_controller)]
    pub fn controller(&self) -> (controller: ArcballController)
        ensures
            controller == self.controller(),
    {
        self.controller
    }

    /// Handles one event.  A close request stops the loop and changes
    /// nothing.  Any other event replaces the window's state, moving the
    /// present one to `previous`, lets the camera take in the frame, and
    /// asks for the scene to be drawn.
    pub fn step<N, H, C, D, A, X, T, O, P>(
        &mut self,
        event: &InputEvent,
        kernel: &ArcballKernel<N, H, C, D, A, X, T, O, P>,
    ) -> (action: FrameAction) where
        N: Fn(Pointer) -> u32,
        H: Fn(u32) -> u32,
        C: Fn(Pointer) -> Pointer,
        D: Fn(Vec3, Vec3) -> u32,
        A: Fn(u32) -> u32,
        X: Fn(Vec3, Vec3) -> Vec3,
        T: Fn(Vec3, u32, u32) -> Rot3,
        O: Fn(Scroll) -> Vec3,
        P: Fn(Homo4, Homo4) -> Homo4,

        requires
            kernel.usable(),
        ensures
            *event is CloseRequested ==> action is Stop && *final(self) == *old(self),
            !(*event is CloseRequested) ==> {
                &&& final(self).previous() == old(self).current()
                &&& final(self).current() == old(self).current().after(*event)
                &&& kernel.turns(
                    old(self).controller(),
                    final(self).controller(),
                    final(self).previous(),
                    final(self).current(),
                )
                &&& action matches FrameAction::Render(camera) && kernel.frames(
                    final(self).controller(),
                    final(self).current(),
                    camera,
                )
            },
    {
        match event {
            InputEvent::CloseRequested => FrameAction::Stop,
            _ => {
                self.previous = self.current;
                self.current = self.current.updated(event);
                self.controller.rotate(&self.previous, &self.current, kernel);
                FrameAction::Render(self.controller.camera(&self.current, kernel))
            },
        }
    }
}

} // verus!
