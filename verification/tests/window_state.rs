use rust_mesh::window_state::{DragState, InputEvent, Pointer, Scroll, WindowState};

fn pointer(x: f32, y: f32) -> Pointer {
    Pointer { x: x.to_bits(), y: y.to_bits() }
}

fn scroll(dx: f32, dy: f32) -> Scroll {
    Scroll { dx: dx.to_bits(), dy: dy.to_bits() }
}

fn busy_state() -> WindowState {
    WindowState { pointer: pointer(0.25, -0.5), is_dragging: true, scroll: scroll(1.0, -3.0) }
}

#[test]
fn initial_state_is_at_rest() {
    let s = WindowState::initial();
    assert_eq!(s.pointer, pointer(0.0, 0.0));
    assert!(!s.is_dragging);
    assert_eq!(s.scroll, scroll(0.0, 0.0));
    assert_eq!(s.drag_state(), DragState::Idle);
}

#[test]
fn pointer_move_replaces_the_pointer_only() {
    let s = busy_state();
    let next = s.updated(&InputEvent::PointerMoved(pointer(-0.75, 0.125)));
    assert_eq!(next, WindowState { pointer: pointer(-0.75, 0.125), ..s });
}

#[test]
fn button_press_sets_the_flag_only() {
    let s = WindowState { is_dragging: false, ..busy_state() };
    let next = s.updated(&InputEvent::ButtonPressed);
    assert_eq!(next, WindowState { is_dragging: true, ..s });
    assert_eq!(next.updated(&InputEvent::ButtonPressed), next);
}

#[test]
fn button_release_clears_the_flag_only() {
    let s = busy_state();
    let next = s.updated(&InputEvent::ButtonReleased);
    assert_eq!(next, WindowState { is_dragging: false, ..s });
    assert_eq!(next.updated(&InputEvent::ButtonReleased), next);
}

#[test]
fn scroll_replaces_the_scroll_only() {
    let s = busy_state();
    let next = s.updated(&InputEvent::Scrolled(scroll(0.0, 2.0)));
    assert_eq!(next, WindowState { scroll: scroll(0.0, 2.0), ..s });
}

#[test]
fn scroll_is_not_summed_up() {
    let s = WindowState::initial()
        .updated(&InputEvent::Scrolled(scroll(0.0, 2.0)))
        .updated(&InputEvent::Scrolled(scroll(0.0, 2.0)));
    assert_eq!(s.scroll, scroll(0.0, 2.0));
}

#[test]
fn close_request_changes_nothing() {
    let s = busy_state();
    assert_eq!(s.updated(&InputEvent::CloseRequested), s);
}

#[test]
fn events_do_not_start_from_a_fresh_state() {
    let s = WindowState::initial()
        .updated(&InputEvent::PointerMoved(pointer(0.5, 0.5)))
        .updated(&InputEvent::ButtonPressed)
        .updated(&InputEvent::Scrolled(scroll(1.0, 1.0)))
        .updated(&InputEvent::PointerMoved(pointer(0.75, 0.5)));
    assert_eq!(
        s,
        WindowState { pointer: pointer(0.75, 0.5), is_dragging: true, scroll: scroll(1.0, 1.0) }
    );
}

#[test]
fn drag_state_follows_the_button() {
    let idle = WindowState::initial();
    assert_eq!(idle.drag_state(), DragState::Idle);
    let dragging = idle.updated(&InputEvent::ButtonPressed);
    assert_eq!(dragging.drag_state(), DragState::Dragging);
    assert_eq!(
        dragging.updated(&InputEvent::PointerMoved(pointer(0.1, 0.1))).drag_state(),
        DragState::Dragging
    );
    assert_eq!(
        dragging.updated(&InputEvent::Scrolled(scroll(0.0, 1.0))).drag_state(),
        DragState::Dragging
    );
    assert_eq!(dragging.updated(&InputEvent::ButtonReleased).drag_state(), DragState::Idle);
    assert_eq!(
        idle.updated(&InputEvent::PointerMoved(pointer(0.1, 0.1))).drag_state(),
        DragState::Idle
    );
}
