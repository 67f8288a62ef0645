//! The interaction input of one instant, and how an event changes it.
use crate::scalar::ZERO;
use vstd::prelude::*;

verus! {

/// A pointer position in normalized device coordinates: both axes run from
/// about `-1.0` to `1.0`, and `y` points up.
#[derive(Clone, Copy, Debug, PartialEq, Eq)]
pub struct Pointer {
    pub x: u32,
    pub y: u32,
}

/// A wheel movement along the two scroll axes.
#[derive(Clone, Copy, Debug, PartialEq, Eq)]
pub struct Scroll {
    pub dx: u32,
    pub dy: u32,
}

/// What the window reported last: where the pointer is, whether the primary
/// button is held, and how far the wheel was turned.
#[derive(Clone, Copy, Debug, PartialEq, Eq)]
pub struct WindowState {
    pub pointer: Pointer,
    pub is_dragging: bool,
    pub scroll: Scroll,
}

/// An event of the window, with positions already normalized.
#[derive(Clone, Copy, Debug, PartialEq, Eq)]
pub enum InputEvent {
    PointerMoved(Pointer),
    ButtonPressed,
    ButtonReleased,
    Scrolled(Scroll),
    CloseRequested,
}

/// The two states of a drag gesture.
#[derive(Clone, Copy, Debug, PartialEq, Eq)]
pub enum DragState {
    Idle,
    Dragging,
}

impl WindowState {
    /// The state before any event: the pointer in the middle of the window,
    /// the button up, the wheel at rest.
    pub open spec fn start() -> WindowState {
        WindowState {
            pointer: Pointer { x: ZERO, y: ZERO },
            is_dragging: false,
            scroll: Scroll { dx: ZERO, dy: ZERO },
        }
    }

    /// The state after `event`: the field that the event is about is
    /// replaced, every other field is carried over.
    pub open spec fn after(self, event: InputEvent) -> WindowState {
        match event {
            InputEvent::PointerMoved(pointer) => WindowState { pointer, ..self },
            InputEvent::ButtonPressed => WindowState { is_dragging: true, ..self },
            InputEvent::ButtonReleased => WindowState { is_dragging: false, ..self },
            InputEvent::Scrolled(scroll) => WindowState { scroll, ..self },
            InputEvent::CloseRequested => self,
        }
    }

    /// The state of the drag gesture.
    pub open spec fn drag(self) -> DragState {
        if self.is_dragging {
            DragState::Dragging
        } else {
            DragState::Idle
        }
    }

    pub fn initial() -> (state: WindowState)
        ensures
            state == WindowState::start(),
    {
        WindowState {
            pointer: Pointer { x: ZERO, y: ZERO },
            is_dragging: false,
            scroll: Scroll { dx: ZERO, dy: ZERO },
        }
    }

    /// Applies one event.
    pub fn updated(&self, event: &InputEvent) -> (next: WindowState)
        ensures
            next == self.after(*event),
    {
        let mut next = *self;
        match event {
            InputEvent::PointerMoved(pointer) => {
                next.pointer = *pointer;
            },
            InputEvent::ButtonPressed => {
                next.is_dragging = true;
            },
            InputEvent::ButtonReleased => {
                next.is_dragging = false;
            },
            InputEvent::Scrolled(scroll) => {
                next.scroll = *scroll;
            },
            InputEvent::CloseRequested => {},
        }
        next
    }

    pub fn drag_state(&self) -> (state: DragState)
        ensures
            state == self.drag(),
    {
        if self.is_dragging {
            DragState::Dragging
        } else {
            DragState::Idle
        }
    }
}

/// The gesture starts on a press and on nothing else, and ends on a release
/// and on nothing else.  A press or release moves no pointer: the frame
/// right after it sees the same position twice.
pub proof fn lemma_drag_transitions(state: WindowState, event: InputEvent)
    ensures
        state.after(event).drag() == (match event {
            InputEvent::ButtonPressed => DragState::Dragging,
            InputEvent::ButtonReleased => DragState::Idle,
            _ => state.drag(),
        }),
        !(event is PointerMoved) ==> state.after(event).pointer == state.pointer,
        !(event is Scrolled) ==> state.after(event).scroll == state.scroll,
{
}

} // verus!
