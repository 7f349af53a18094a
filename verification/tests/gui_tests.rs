use pongi::gui::{FadeState, GuiAction, GuiContext, SliderOutcome, WidgetLook};
use pongi::input::GameInput;

fn ui_input() -> GameInput {
    let mut input = GameInput::new();
    input.register_input_action("ui_next");
    input.register_input_action("ui_previous");
    input.register_input_action("ui_accept");
    input
}

#[test]
fn click_and_release_presses_button() {
    let mut gui = GuiContext::new();
    let mut input = ui_input();
    input.mouse_button_left.set_state(true);
    gui.start(&input);
    let (pressed, look) = gui.button(0, true);
    assert!(!pressed);
    assert_eq!(look, WidgetLook::Active);
    gui.finish();
    assert_eq!(gui.active_item, Some(0));

    input.prepare_for_next_frame();
    input.mouse_button_left.set_state(false);
    gui.start(&input);
    let (pressed, _) = gui.button(0, true);
    assert!(pressed);
    gui.finish();
    assert_eq!(gui.active_item, None);
}

#[test]
fn dragging_onto_button_does_not_activate_it() {
    let mut gui = GuiContext::new();
    let mut input = ui_input();
    input.mouse_button_left.set_state(true);
    gui.start(&input);
    let (_, look) = gui.button(0, false);
    assert_eq!(look, WidgetLook::Highlighted); // keyboard focus only
    gui.finish();
    assert_eq!(gui.active_item, Some(usize::MAX));
    gui.start(&input);
    let (pressed, _) = gui.button(0, true);
    assert!(!pressed);
    assert_eq!(gui.active_item, Some(usize::MAX));
}

#[test]
fn keyboard_navigation_and_accept() {
    let mut gui = GuiContext::new();
    let mut input = ui_input();
    gui.start(&input);
    assert_eq!(gui.button(0, false), (false, WidgetLook::Highlighted));
    assert_eq!(gui.button(1, false), (false, WidgetLook::Idle));
    gui.finish();
    assert_eq!(gui.keyboard_highlight, Some(0));

    input.process_button_event("ui_next", true);
    gui.start(&input);
    assert_eq!(gui.key_entered, Some(GuiAction::Next));
    gui.button(0, false);
    assert_eq!(gui.keyboard_highlight, None);
    gui.button(1, false);
    assert_eq!(gui.keyboard_highlight, Some(1));
    gui.finish();

    input.prepare_for_next_frame();
    input.process_button_event("ui_accept", true);
    gui.start(&input);
    assert_eq!(gui.button(0, false).0, false);
    assert_eq!(gui.button(1, false).0, true);
}

#[test]
fn slider_steps_with_keys() {
    let mut gui = GuiContext::new();
    gui.key_entered = Some(GuiAction::Increase);
    let (outcome, focused, _) = gui.horizontal_slider(4, false);
    assert_eq!(outcome, SliderOutcome::Increase);
    assert!(focused);
    gui.key_entered = Some(GuiAction::Decrease);
    assert_eq!(gui.horizontal_slider(4, false).0, SliderOutcome::Decrease);
    gui.key_entered = None;
    gui.mouse_is_down = true;
    let (outcome, _, look) = gui.horizontal_slider(4, true);
    assert_eq!(outcome, SliderOutcome::FollowMouse);
    assert_eq!(look, WidgetLook::Active);
}

#[test]
fn fade_states() {
    assert_eq!(FadeState::FadingOut.finished(), FadeState::FadedOut);
    assert_eq!(FadeState::FadingIn.finished(), FadeState::FadedIn);
    assert_eq!(FadeState::FadedIn.finished().finished(), FadeState::FadedIn);
    assert!(FadeState::FadingIn.is_fading());
    assert!(!FadeState::FadedOut.is_fading());
    assert!(FadeState::FadedOut.has_finished_fading_out());
    assert!(FadeState::FadedIn.has_finished_fading_in());
    assert!(!FadeState::FadingIn.has_finished_fading_in());
}
