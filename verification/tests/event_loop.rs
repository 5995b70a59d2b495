use diffuser::event_loop::{handle_event, InputEvent, LoopAction};

fn quiet() -> InputEvent {
    InputEvent {
        render_failed: false,
        input_updated: false,
        quit_requested: false,
        left_pressed: false,
        left_released: false,
        right_pressed: false,
        right_released: false,
    }
}

#[test]
fn failed_render_exits_and_keeps_buttons() {
    let e = InputEvent { render_failed: true, input_updated: true, left_pressed: true, ..quiet() };
    assert_eq!(handle_event(false, true, e), (false, true, LoopAction::Exit));
}

#[test]
fn quit_among_new_input_exits() {
    let e = InputEvent { input_updated: true, quit_requested: true, right_released: true, ..quiet() };
    assert_eq!(handle_event(true, true, e), (true, true, LoopAction::Exit));
}

#[test]
fn quit_without_new_input_goes_on() {
    let e = InputEvent { quit_requested: true, left_pressed: true, ..quiet() };
    assert_eq!(
        handle_event(false, false, e),
        (false, false, LoopAction::Continue { update_model: false })
    );
}

#[test]
fn presses_and_releases_set_the_buttons() {
    let e = InputEvent { input_updated: true, left_pressed: true, right_released: true, ..quiet() };
    assert_eq!(
        handle_event(false, true, e),
        (true, false, LoopAction::Continue { update_model: true })
    );
    let e = InputEvent {
        input_updated: true,
        left_pressed: true,
        left_released: true,
        ..quiet()
    };
    assert_eq!(
        handle_event(false, false, e),
        (true, false, LoopAction::Continue { update_model: true })
    );
    let e = InputEvent { input_updated: true, ..quiet() };
    assert_eq!(
        handle_event(true, false, e),
        (true, false, LoopAction::Continue { update_model: true })
    );
}
