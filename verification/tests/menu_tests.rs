use pongi::gui::FadeState;
use pongi::input::GameInput;
use pongi::menu::{
    evaluate_menu_item, item_with_escape, menu_items, mode_after_fade_out, start_menu_frame,
    DebugScene, GameDifficulty, Globals, MenuFrameStart, MenuItem, MenuMode, SystemCommand,
    TimeLabel, create_button_menu, apply_system_commands, PlatformState,
};
use pongi::gui::{GuiContext, WidgetLook};
use pongi::audio::{AudioContext, SoundStartTime};

#[test]
fn menu_item_labels() {
    assert_eq!(MenuItem::MainStartSinglePlayer.as_str(), "Play with computer");
    assert_eq!(MenuItem::MainStartTwoPlayers.as_str(), "Play with human");
    assert_eq!(MenuItem::MainQuit.as_str(), "Quit game");
    assert_eq!(MenuItem::DifficultyEasy.as_str(), "Easy");
    assert_eq!(MenuItem::DifficultyMedium.as_str(), "Medium");
    assert_eq!(MenuItem::DifficultyHard.as_str(), "Hard");
    assert_eq!(MenuItem::DifficultyBack.as_str(), "Back");
    assert_eq!(MenuItem::PauseResume.as_str(), "Resume");
    assert_eq!(MenuItem::PauseQuitMenu.as_str(), "Quit to menu");
}

#[test]
fn menus_list_their_items() {
    assert!(menu_items(MenuMode::Ingame).is_empty());
    assert_eq!(menu_items(MenuMode::Main).len(), 3);
    assert_eq!(menu_items(MenuMode::Difficulty)[3], MenuItem::DifficultyBack);
    assert_eq!(menu_items(MenuMode::Pause), vec![MenuItem::PauseResume, MenuItem::PauseQuitMenu]);
}

#[test]
fn escape_overrides_click() {
    assert_eq!(item_with_escape(MenuMode::Pause, None, true), Some(MenuItem::PauseQuitMenu));
    assert_eq!(item_with_escape(MenuMode::Main, Some(MenuItem::MainStartTwoPlayers), true), Some(MenuItem::MainQuit));
    assert_eq!(item_with_escape(MenuMode::Difficulty, Some(MenuItem::DifficultyEasy), true), Some(MenuItem::DifficultyEasy));
    assert_eq!(item_with_escape(MenuMode::Main, None, false), None);
}

#[test]
fn choosing_difficulty_starts_game_against_computer() {
    let mut mode = MenuMode::Difficulty;
    let mut globals = Globals::new();
    let mut commands = Vec::new();
    assert!(evaluate_menu_item(MenuItem::DifficultyHard, &mut mode, &mut globals, &mut commands));
    assert!(globals.input_disabled);
    assert_eq!(globals.game_difficulty, GameDifficulty::Hard);
    assert!(globals.left_player_is_human);
    assert!(!globals.right_player_is_human);
    assert_eq!(mode, MenuMode::Difficulty);
    // while input is disabled nothing more happens
    assert!(!evaluate_menu_item(MenuItem::DifficultyBack, &mut mode, &mut globals, &mut commands));
    assert_eq!(mode, MenuMode::Difficulty);
}

#[test]
fn quitting_and_navigating() {
    let mut mode = MenuMode::Main;
    let mut globals = Globals::new();
    let mut commands = Vec::new();
    assert!(!evaluate_menu_item(MenuItem::MainQuit, &mut mode, &mut globals, &mut commands));
    assert_eq!(commands, vec![SystemCommand::ShutdownGame]);
    evaluate_menu_item(MenuItem::MainStartSinglePlayer, &mut mode, &mut globals, &mut commands);
    assert_eq!(mode, MenuMode::Difficulty);
    evaluate_menu_item(MenuItem::DifficultyBack, &mut mode, &mut globals, &mut commands);
    assert_eq!(mode, MenuMode::Main);
    mode = MenuMode::Pause;
    evaluate_menu_item(MenuItem::PauseResume, &mut mode, &mut globals, &mut commands);
    assert_eq!(mode, MenuMode::Ingame);
}

#[test]
fn fade_out_leads_into_game_or_main_menu() {
    assert_eq!(mode_after_fade_out(MenuMode::Main), MenuMode::Ingame);
    assert_eq!(mode_after_fade_out(MenuMode::Difficulty), MenuMode::Ingame);
    assert_eq!(mode_after_fade_out(MenuMode::Pause), MenuMode::Main);
    assert_eq!(mode_after_fade_out(MenuMode::Ingame), MenuMode::Ingame);
}

#[test]
fn ingame_frame_pauses_on_escape() {
    let mut input = GameInput::new();
    input.register_input_action("ui_escape");
    let mut fade = FadeState::FadedIn;
    let mut mode = MenuMode::Ingame;
    let mut globals = Globals::new();
    globals.input_disabled = true;
    let mut commands = Vec::new();
    assert_eq!(start_menu_frame(&mut fade, &mut mode, &mut globals, &input, &mut commands), MenuFrameStart::Ingame);
    assert_eq!(commands, vec![SystemCommand::EnableRelativeMouseMovementCapture(true)]);
    assert!(!globals.input_disabled);
    input.process_button_event("ui_escape", true);
    commands.clear();
    start_menu_frame(&mut fade, &mut mode, &mut globals, &input, &mut commands);
    assert_eq!(mode, MenuMode::Pause);
    assert_eq!(commands, vec![SystemCommand::EnableRelativeMouseMovementCapture(false)]);
}

#[test]
fn finished_fade_out_restarts_game() {
    let mut input = GameInput::new();
    input.register_input_action("ui_escape");
    let mut fade = FadeState::FadedOut;
    let mut mode = MenuMode::Pause;
    let mut globals = Globals::new();
    globals.input_disabled = true;
    let mut commands = Vec::new();
    assert_eq!(start_menu_frame(&mut fade, &mut mode, &mut globals, &input, &mut commands), MenuFrameStart::ShowMenu);
    assert_eq!(mode, MenuMode::Main);
    assert_eq!(fade, FadeState::FadingIn);
    assert!(globals.restart_game);
    assert!(globals.input_disabled);
    assert!(commands.is_empty());
}

#[test]
fn debug_scene_reinitialize_issues_nothing() {
    let mut scene = DebugScene;
    let mut commands = vec![SystemCommand::ShutdownGame];
    scene.reinitialize(&mut commands);
    assert_eq!(commands, vec![SystemCommand::ShutdownGame]);
    assert_eq!(GameDifficulty::default(), GameDifficulty::Medium);
    assert_eq!(MenuMode::default(), MenuMode::Main);
}

#[test]
fn debug_overlay_reports_controls_and_plays_sound() {
    let mut input = GameInput::new();
    input.register_input_action("debug_play_sound");
    input.process_button_event("debug_play_sound", true);
    input.mouse_button_middle.set_state(true);
    let mut globals = Globals::new();
    globals.debug_time_factor_increment = -2;
    globals.game_paused = true;
    globals.error_happened = Some(String::from("ball left the field"));
    let mut audio = AudioContext::new(2, 48000);
    let mut scene = DebugScene;

    let overlay = scene.update_and_draw(&input, &globals, &mut audio);
    assert_eq!(audio.sounds.len(), 1);
    assert_eq!(audio.sounds[0].start_time, SoundStartTime::OnNextBeat);
    assert!(!overlay.cursor_red && overlay.cursor_green && !overlay.cursor_blue);
    assert_eq!(overlay.time_label, Some(TimeLabel::Slowdown(3)));
    assert!(overlay.show_paused);
    assert_eq!(overlay.crash_message.as_deref(), Some("ball left the field"));

    // Without a key press no sound starts; speed-ups are labelled as such.
    input.prepare_for_next_frame();
    globals.debug_time_factor_increment = 3;
    let overlay = scene.update_and_draw(&input, &globals, &mut audio);
    assert_eq!(audio.sounds.len(), 1);
    assert_eq!(overlay.time_label, Some(TimeLabel::Speedup(4)));

    globals.debug_time_factor_increment = 0;
    let overlay = scene.update_and_draw(&input, &globals, &mut audio);
    assert_eq!(overlay.time_label, None);
}

fn ui_input() -> GameInput {
    let mut input = GameInput::new();
    for action in ["ui_next", "ui_previous", "ui_accept"] {
        input.register_input_action(action);
    }
    input
}

#[test]
fn button_menu_click_needs_press_and_release_over_the_button() {
    let mut gui = GuiContext::new();
    let mut input = ui_input();
    let over_second = vec![false, true, false];

    input.mouse_button_left.set_state(true);
    let (clicked, looks) = create_button_menu(&mut gui, &input, &over_second);
    assert_eq!(clicked, None);
    assert_eq!(looks, vec![WidgetLook::Highlighted, WidgetLook::Active, WidgetLook::Idle]);

    input.prepare_for_next_frame();
    input.mouse_button_left.set_state(false);
    let (clicked, _) = create_button_menu(&mut gui, &input, &over_second);
    assert_eq!(clicked, Some(1));
}

#[test]
fn button_menu_accept_key_presses_focused_button() {
    let mut gui = GuiContext::new();
    let mut input = ui_input();
    input.process_button_event("ui_accept", true);
    let (clicked, _) = create_button_menu(&mut gui, &input, &vec![false, false]);
    assert_eq!(clicked, Some(0));
}

#[test]
fn empty_button_menu_clicks_nothing() {
    let mut gui = GuiContext::new();
    let input = ui_input();
    let (clicked, looks) = create_button_menu(&mut gui, &input, &Vec::new());
    assert_eq!(clicked, None);
    assert!(looks.is_empty());
    // without any input no button fires
    let (clicked, _) = create_button_menu(&mut gui, &input, &vec![false, false, false]);
    assert_eq!(clicked, None);
}

#[test]
fn system_commands_set_capture_and_shutdown() {
    let mut state = PlatformState { is_running: true, relative_mouse_mode_enabled: false };
    apply_system_commands(
        &mut state,
        &vec![
            SystemCommand::EnableRelativeMouseMovementCapture(true),
            SystemCommand::EnableRelativeMouseMovementCapture(false),
            SystemCommand::EnableRelativeMouseMovementCapture(true),
        ],
    );
    assert_eq!(state, PlatformState { is_running: true, relative_mouse_mode_enabled: true });

    apply_system_commands(&mut state, &vec![SystemCommand::ShutdownGame]);
    assert_eq!(state, PlatformState { is_running: false, relative_mouse_mode_enabled: true });

    let mut idle = PlatformState { is_running: true, relative_mouse_mode_enabled: false };
    apply_system_commands(&mut idle, &Vec::new());
    assert_eq!(idle, PlatformState { is_running: true, relative_mouse_mode_enabled: false });
}
