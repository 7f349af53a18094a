use pongi::input::{GameButton, GameInput};

#[test]
fn game_button_counts_transitions() {
    let mut button = GameButton::new();
    button.set_state(true);
    button.set_state(true);
    assert!(button.is_pressed);
    assert_eq!(button.num_state_transitions, 1);
    button.set_state(false);
    assert_eq!(button.num_state_transitions, 2);
    button.clear_transitions();
    assert_eq!(button.num_state_transitions, 0);
    assert!(!button.is_pressed);
}

#[test]
fn oneshot_released_after_frame() {
    let mut input = GameInput::new();
    input.register_input_action("fire_oneshot");
    input.process_button_event("fire_oneshot", true);
    assert!(input.had_press_event("fire_oneshot"));
    input.prepare_for_next_frame();
    assert!(!input.is_pressed("fire_oneshot"));
    assert!(!input.had_transition_event("fire_oneshot"));
}

#[test]
fn toggle_flips_state() {
    let mut button = GameButton::new();
    button.toggle();
    assert!(button.is_pressed);
    button.toggle();
    assert!(!button.is_pressed);
    assert_eq!(button.num_state_transitions, 2);
}

#[test]
fn actions_go_to_the_group_their_name_selects() {
    let mut input = GameInput::new();
    input.register_input_action("jump");
    input.register_input_action("pause_toggle");
    input.register_input_action("reload_oneshot");
    assert!(input.buttons.get("jump").is_some());
    assert!(input.buttons_toggle.get("pause_toggle").is_some());
    assert!(input.buttons_oneshot.get("reload_oneshot").is_some());
    assert!(input.buttons.get("pause_toggle").is_none());
    assert!(input.buttons_toggle.get("jump").is_none());
}

#[test]
fn regular_button_follows_key() {
    let mut input = GameInput::new();
    input.register_input_action("jump");
    input.process_button_event("jump", true);
    assert!(input.is_pressed("jump"));
    assert!(input.had_press_event("jump"));
    input.process_button_event("jump", false);
    assert!(!input.is_pressed("jump"));
    assert!(input.had_release_event("jump"));
    assert!(!input.had_press_event("jump"));
    assert_eq!(input.get_button("jump").num_state_transitions, 2);
}

#[test]
fn toggle_button_flips_on_press_only() {
    let mut input = GameInput::new();
    input.register_input_action("debug_pause_game_toggle");
    input.process_button_event("debug_pause_game_toggle", true);
    input.process_button_event("debug_pause_game_toggle", false);
    assert!(input.is_pressed("debug_pause_game_toggle"));
    input.prepare_for_next_frame();
    assert!(input.is_pressed("debug_pause_game_toggle"));
    assert!(!input.had_transition_event("debug_pause_game_toggle"));
    input.process_button_event("debug_pause_game_toggle", true);
    assert!(!input.is_pressed("debug_pause_game_toggle"));
}

#[test]
fn oneshot_ignores_release() {
    let mut input = GameInput::new();
    input.register_input_action("shoot_oneshot");
    input.process_button_event("shoot_oneshot", true);
    input.process_button_event("shoot_oneshot", false);
    assert!(input.is_pressed("shoot_oneshot"));
}

#[test]
fn registering_again_resets_button() {
    let mut input = GameInput::new();
    input.register_input_action("jump");
    input.process_button_event("jump", true);
    input.register_input_action("jump");
    assert!(!input.is_pressed("jump"));
    assert_eq!(input.get_button("jump").num_state_transitions, 0);
}

#[test]
fn frame_end_clears_mouse_transitions_and_wheel() {
    let mut input = GameInput::new();
    input.mouse_button_left.set_state(true);
    input.mouse_wheel_delta = 3;
    input.prepare_for_next_frame();
    assert!(input.mouse_button_left.is_pressed);
    assert_eq!(input.mouse_button_left.num_state_transitions, 0);
    assert_eq!(input.mouse_wheel_delta, 0);
}
