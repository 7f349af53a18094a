use pongi::game::{frame_setup, gameplay_is_frozen, take_restart_request, time_factor_ratio, update_debug_globals, MatchSetup};
use pongi::input::GameInput;
use pongi::menu::{GameDifficulty, Globals};

fn frame_input() -> GameInput {
    let mut input = GameInput::new();
    for action in [
        "debug_hotreload_code_oneshot",
        "debug_reset_gamestate_oneshot",
        "debug_hotreload_assets_oneshot",
        "debug_highres_drawing_toggle",
        "debug_time_speedup",
        "debug_time_slowdown",
        "debug_pause_game_toggle",
    ] {
        input.register_input_action(action);
    }
    input
}

#[test]
fn first_frame_sets_up_everything() {
    let input = frame_input();
    let setup = frame_setup(false, &input);
    assert!(setup.reinit_logger && setup.reset_gamestate && setup.reinit_drawing);
    assert!(!setup.highres_drawing);
    let setup = frame_setup(true, &input);
    assert!(!setup.reinit_logger && !setup.reset_gamestate && !setup.reinit_drawing);
}

#[test]
fn highres_toggle_reloads_drawing() {
    let mut input = frame_input();
    input.process_button_event("debug_highres_drawing_toggle", true);
    let setup = frame_setup(true, &input);
    assert!(setup.reinit_drawing);
    assert!(setup.highres_drawing);
    assert!(!setup.reset_gamestate);
}

#[test]
fn debug_time_keys() {
    let mut input = frame_input();
    let mut globals = Globals::new();
    input.process_button_event("debug_time_speedup", true);
    update_debug_globals(&mut globals, &input);
    assert_eq!(globals.debug_time_factor_increment, 1);
    input.prepare_for_next_frame();
    input.process_button_event("debug_time_slowdown", true);
    input.process_button_event("debug_pause_game_toggle", true);
    update_debug_globals(&mut globals, &input);
    assert_eq!(globals.debug_time_factor_increment, 0);
    assert!(globals.debug_game_paused);
}

#[test]
fn restart_request_is_taken_once() {
    let mut globals = Globals::new();
    assert_eq!(take_restart_request(&mut globals), None);
    globals.restart_game = true;
    globals.game_difficulty = GameDifficulty::Easy;
    globals.left_player_is_human = true;
    let setup = take_restart_request(&mut globals);
    assert_eq!(
        setup,
        Some(MatchSetup { game_difficulty: GameDifficulty::Easy, left_player_is_human: true, right_player_is_human: false })
    );
    assert!(!globals.restart_game);
    assert_eq!(take_restart_request(&mut globals), None);
}

#[test]
fn frozen_gameplay() {
    let mut globals = Globals::new();
    assert!(!gameplay_is_frozen(false, &globals));
    assert!(gameplay_is_frozen(true, &globals));
    globals.error_happened = Some(String::from("boom"));
    assert!(gameplay_is_frozen(false, &globals));
}

#[test]
fn time_factor_follows_the_debug_increment() {
    assert_eq!(time_factor_ratio(0), (1, 1));
    assert_eq!(time_factor_ratio(2), (3, 1));
    assert_eq!(time_factor_ratio(-3), (1, 4));
    assert_eq!(time_factor_ratio(i32::MAX - 1), (i32::MAX as u32, 1));
    assert_eq!(time_factor_ratio(-i32::MAX), (1, 1u32 << 31));
}

#[test]
fn debug_time_keys_at_the_ends_of_the_range() {
    let mut input = frame_input();
    let mut globals = Globals::new();
    globals.debug_time_factor_increment = i32::MAX;
    input.process_button_event("debug_time_slowdown", true);
    update_debug_globals(&mut globals, &input);
    assert_eq!(globals.debug_time_factor_increment, i32::MAX - 1);

    input.prepare_for_next_frame();
    globals.debug_time_factor_increment = i32::MIN;
    input.process_button_event("debug_time_speedup", true);
    update_debug_globals(&mut globals, &input);
    assert_eq!(globals.debug_time_factor_increment, i32::MIN + 1);
}
