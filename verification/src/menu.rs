//! The game's menus: which items each menu shows, what choosing an item
//! does, and how the menu mode moves between in-game, main menu, difficulty
//! selection and pause menu.
use vstd::prelude::*;

use crate::audio::{AudioContext, Sound, SoundStartTime};
use crate::gui::{ui_actions_registered, FadeState, GuiContext, WidgetLook};
use crate::input::{had_press, GameInput};

verus! {

/// A request from the game to the platform layer.
#[derive(Debug, Clone, Copy, PartialEq, Eq)]
pub enum SystemCommand {
    EnableRelativeMouseMovementCapture(bool),
    ShutdownGame,
}

#[derive(Debug, Clone, Copy, PartialEq, Eq)]
pub enum GameDifficulty {
    Easy,
    Medium,
    Hard,
}

impl Default for GameDifficulty {
    fn default() -> (r: GameDifficulty)
        ensures
            r == GameDifficulty::Medium,
    {
        GameDifficulty::Medium
    }
}

#[derive(Debug, Clone, Copy, PartialEq, Eq)]
pub enum MenuMode {
    Ingame,
    Main,
    Difficulty,
    Pause,
}

impl Default for MenuMode {
    fn default() -> (r: MenuMode)
        ensures
            r == MenuMode::Main,
    {
        MenuMode::Main
    }
}

#[derive(Debug, Clone, Copy, PartialEq, Eq)]
pub enum MenuItem {
    MainStartSinglePlayer,
    MainStartTwoPlayers,
    MainQuit,
    DifficultyEasy,
    DifficultyMedium,
    DifficultyHard,
    DifficultyBack,
    PauseResume,
    PauseQuitMenu,
}

impl MenuItem {
    /// The label shown for the item.
    pub fn as_str(&self) -> (r: &'static str)
        ensures
            r@ == match *self {
                MenuItem::MainStartSinglePlayer => "Play with computer"@,
                MenuItem::MainStartTwoPlayers => "Play with human"@,
                MenuItem::MainQuit => "Quit game"@,
                MenuItem::DifficultyEasy => "Easy"@,
                MenuItem::DifficultyMedium => "Medium"@,
                MenuItem::DifficultyHard => "Hard"@,
                MenuItem::DifficultyBack => "Back"@,
                MenuItem::PauseResume => "Resume"@,
                MenuItem::PauseQuitMenu => "Quit to menu"@,
            },
    {
        match self {
            MenuItem::MainStartSinglePlayer => "Play with computer",
            MenuItem::MainStartTwoPlayers => "Play with human",
            MenuItem::MainQuit => "Quit game",
            MenuItem::DifficultyEasy => "Easy",
            MenuItem::DifficultyMedium => "Medium",
            MenuItem::DifficultyHard => "Hard",
            MenuItem::DifficultyBack => "Back",
            MenuItem::PauseResume => "Resume",
            MenuItem::PauseQuitMenu => "Quit to menu",
        }
    }
}

/// The items of the menu shown in each mode, top to bottom.
pub open spec fn menu_items_spec(mode: MenuMode) -> Seq<MenuItem> {
    match mode {
        MenuMode::Ingame => seq![],
        MenuMode::Main => seq![
            MenuItem::MainStartSinglePlayer,
            MenuItem::MainStartTwoPlayers,
            MenuItem::MainQuit,
        ],
        MenuMode::Difficulty => seq![
            MenuItem::DifficultyEasy,
            MenuItem::DifficultyMedium,
            MenuItem::DifficultyHard,
            MenuItem::DifficultyBack,
        ],
        MenuMode::Pause => seq![MenuItem::PauseResume, MenuItem::PauseQuitMenu],
    }
}

/// The menu an item belongs to, as its name says: `Main..`, `Difficulty..`
/// or `Pause..`.
pub open spec fn menu_of(item: MenuItem) -> MenuMode {
    match item {
        MenuItem::MainStartSinglePlayer | MenuItem::MainStartTwoPlayers | MenuItem::MainQuit => MenuMode::Main,
        MenuItem::DifficultyEasy | MenuItem::DifficultyMedium | MenuItem::DifficultyHard
        | MenuItem::DifficultyBack => MenuMode::Difficulty,
        MenuItem::PauseResume | MenuItem::PauseQuitMenu => MenuMode::Pause,
    }
}

/// Every menu lists each item of its own kind exactly once and no other
/// item; the in-game mode shows no menu.
pub proof fn law_menus_list_their_items_once(mode: MenuMode, item: MenuItem)
    ensures
        menu_items_spec(mode).contains(item) <==> menu_of(item) == mode,
        forall|i: int, j: int|
            0 <= i < j < menu_items_spec(mode).len() ==> menu_items_spec(mode)[i]
                != menu_items_spec(mode)[j],
{
    let s = menu_items_spec(mode);
    if menu_of(item) == mode {
        match item {
            MenuItem::MainStartSinglePlayer => assert(s[0] == item),
            MenuItem::MainStartTwoPlayers => assert(s[1] == item),
            MenuItem::MainQuit => assert(s[2] == item),
            MenuItem::DifficultyEasy => assert(s[0] == item),
            MenuItem::DifficultyMedium => assert(s[1] == item),
            MenuItem::DifficultyHard => assert(s[2] == item),
            MenuItem::DifficultyBack => assert(s[3] == item),
            MenuItem::PauseResume => assert(s[0] == item),
            MenuItem::PauseQuitMenu => assert(s[1] == item),
        }
    }
    if s.contains(item) {
        let k = choose|k: int| 0 <= k < s.len() && s[k] == item;
        assert(menu_of(s[k]) == mode);
    }
}

pub fn menu_items(mode: MenuMode) -> (r: Vec<MenuItem>)
    ensures
        r@ == menu_items_spec(mode),
        mode == MenuMode::Ingame ==> r@.len() == 0,
        mode == MenuMode::Main ==> r@ == seq![
            MenuItem::MainStartSinglePlayer,
            MenuItem::MainStartTwoPlayers,
            MenuItem::MainQuit,
        ],
        mode == MenuMode::Difficulty ==> r@ == seq![
            MenuItem::DifficultyEasy,
            MenuItem::DifficultyMedium,
            MenuItem::DifficultyHard,
            MenuItem::DifficultyBack,
        ],
        mode == MenuMode::Pause ==> r@ == seq![MenuItem::PauseResume, MenuItem::PauseQuitMenu],
        forall|i: int, j: int| 0 <= i < j < r@.len() ==> r@[i] != r@[j],
{
    let r = match mode {
        MenuMode::Ingame => vec![],
        MenuMode::Main => vec![
            MenuItem::MainStartSinglePlayer,
            MenuItem::MainStartTwoPlayers,
            MenuItem::MainQuit,
        ],
        MenuMode::Difficulty => vec![
            MenuItem::DifficultyEasy,
            MenuItem::DifficultyMedium,
            MenuItem::DifficultyHard,
            MenuItem::DifficultyBack,
        ],
        MenuMode::Pause => vec![MenuItem::PauseResume, MenuItem::PauseQuitMenu],
    };
    assert(r@ =~= menu_items_spec(mode));
    r
}

/// The game state that the menus read and change.
#[derive(Debug)]
pub struct Globals {
    pub restart_game: bool,
    pub input_disabled: bool,
    pub debug_time_factor_increment: i32,
    pub debug_game_paused: bool,
    pub game_paused: bool,
    pub game_difficulty: GameDifficulty,
    pub right_player_is_human: bool,
    pub left_player_is_human: bool,
    pub error_happened: Option<String>,
}

impl Globals {
    pub fn new() -> (r: Globals)
        ensures
            !r.restart_game,
            !r.input_disabled,
            r.debug_time_factor_increment == 0,
            !r.debug_game_paused,
            !r.game_paused,
            r.game_difficulty == GameDifficulty::Medium,
            !r.right_player_is_human,
            !r.left_player_is_human,
            r.error_happened is None,
    {
        Globals {
            restart_game: false,
            input_disabled: false,
            debug_time_factor_increment: 0,
            debug_game_paused: false,
            game_paused: false,
            game_difficulty: GameDifficulty::Medium,
            right_player_is_human: false,
            left_player_is_human: false,
            error_happened: None,
        }
    }
}

/// The menu mode after the screen has faded out: starting or quitting a
/// game leads into the game, quitting from the pause menu to the main menu.
pub fn mode_after_fade_out(mode: MenuMode) -> (r: MenuMode)
    ensures
        r == match mode {
            MenuMode::Pause => MenuMode::Main,
            _ => MenuMode::Ingame,
        },
{
    match mode {
        MenuMode::Ingame => MenuMode::Ingame,
        MenuMode::Main => MenuMode::Ingame,
        MenuMode::Difficulty => MenuMode::Ingame,
        MenuMode::Pause => MenuMode::Main,
    }
}

/// The item that counts as chosen: pressing escape chooses "quit to menu" in
/// the pause menu and "quit game" in the main menu, whatever was clicked.
pub fn item_with_escape(mode: MenuMode, clicked: Option<MenuItem>, escape_pressed: bool) -> (r: Option<MenuItem>)
    ensures
        r == if escape_pressed && mode == MenuMode::Pause {
            Some(MenuItem::PauseQuitMenu)
        } else if escape_pressed && mode == MenuMode::Main {
            Some(MenuItem::MainQuit)
        } else {
            clicked
        },
{
    if escape_pressed {
        match mode {
            MenuMode::Pause => return Some(MenuItem::PauseQuitMenu),
            MenuMode::Main => return Some(MenuItem::MainQuit),
            _ => {},
        }
    }
    clicked
}

/// The players and difficulty that choosing `item` sets up, for the items
/// that start a fade out: (difficulty, left player human, right player human).
pub open spec fn game_setup_of(item: MenuItem) -> Option<(GameDifficulty, bool, bool)> {
    match item {
        MenuItem::MainStartTwoPlayers => Some((GameDifficulty::Medium, true, true)),
        MenuItem::DifficultyEasy => Some((GameDifficulty::Easy, true, false)),
        MenuItem::DifficultyMedium => Some((GameDifficulty::Medium, true, false)),
        MenuItem::DifficultyHard => Some((GameDifficulty::Hard, true, false)),
        MenuItem::PauseQuitMenu => Some((GameDifficulty::Medium, false, false)),
        _ => None,
    }
}

/// Each difficulty item sets up a game against the computer at the
/// difficulty it names; the two player item and quitting to the menu set up
/// games at medium difficulty; the other items start no game.
pub proof fn law_items_set_up_the_game_they_name(item: MenuItem)
    ensures
        item == MenuItem::DifficultyEasy ==> game_setup_of(item) == Some(
            (GameDifficulty::Easy, true, false),
        ),
        item == MenuItem::DifficultyMedium ==> game_setup_of(item) == Some(
            (GameDifficulty::Medium, true, false),
        ),
        item == MenuItem::DifficultyHard ==> game_setup_of(item) == Some(
            (GameDifficulty::Hard, true, false),
        ),
        item == MenuItem::MainStartTwoPlayers ==> game_setup_of(item) == Some(
            (GameDifficulty::Medium, true, true),
        ),
        item == MenuItem::PauseQuitMenu ==> game_setup_of(item) == Some(
            (GameDifficulty::Medium, false, false),
        ),
        game_setup_of(item) is Some <==> (menu_of(item) == MenuMode::Difficulty && item
            != MenuItem::DifficultyBack) || item == MenuItem::MainStartTwoPlayers || item
            == MenuItem::PauseQuitMenu,
{
}

/// Carries out the choice of `item` unless input is disabled. Returns whether
/// the screen starts fading out.
pub fn evaluate_menu_item(
    item: MenuItem,
    menu_mode: &mut MenuMode,
    globals: &mut Globals,
    system_commands: &mut Vec<SystemCommand>,
) -> (start_fading_out: bool)
    ensures
        old(globals).input_disabled ==> {
            &&& !start_fading_out
            &&& *final(menu_mode) == *old(menu_mode)
            &&& *final(globals) == *old(globals)
            &&& final(system_commands)@ == old(system_commands)@
        },
        !old(globals).input_disabled ==> {
            &&& start_fading_out == (game_setup_of(item) is Some)
            &&& *final(menu_mode) == match item {
                MenuItem::MainStartSinglePlayer => MenuMode::Difficulty,
                MenuItem::DifficultyBack => MenuMode::Main,
                MenuItem::PauseResume => MenuMode::Ingame,
                _ => *old(menu_mode),
            }
            &&& final(system_commands)@ == if item == MenuItem::MainQuit {
                old(system_commands)@.push(SystemCommand::ShutdownGame)
            } else {
                old(system_commands)@
            }
            &&& item == MenuItem::DifficultyEasy ==> start_fading_out && final(globals).game_difficulty
                == GameDifficulty::Easy && final(globals).left_player_is_human
                && !final(globals).right_player_is_human
            &&& item == MenuItem::DifficultyMedium ==> start_fading_out
                && final(globals).game_difficulty == GameDifficulty::Medium
                && final(globals).left_player_is_human && !final(globals).right_player_is_human
            &&& item == MenuItem::DifficultyHard ==> start_fading_out && final(globals).game_difficulty
                == GameDifficulty::Hard && final(globals).left_player_is_human
                && !final(globals).right_player_is_human
            &&& item == MenuItem::MainStartTwoPlayers ==> start_fading_out
                && final(globals).game_difficulty == GameDifficulty::Medium
                && final(globals).left_player_is_human && final(globals).right_player_is_human
            &&& item == MenuItem::PauseQuitMenu ==> start_fading_out
                && final(globals).game_difficulty == GameDifficulty::Medium
                && !final(globals).left_player_is_human && !final(globals).right_player_is_human
            &&& match game_setup_of(item) {
                Some((difficulty, left, right)) => *final(globals) == Globals {
                    input_disabled: true,
                    game_difficulty: difficulty,
                    left_player_is_human: left,
                    right_player_is_human: right,
                    ..*old(globals)
                },
                None => *final(globals) == *old(globals),
            }
        },
{
    if globals.input_disabled {
        return false;
    }
    match item {
        MenuItem::MainStartSinglePlayer => {
            *menu_mode = MenuMode::Difficulty;
            false
        },
        MenuItem::MainStartTwoPlayers => {
            globals.input_disabled = true;
            globals.game_difficulty = GameDifficulty::Medium;
            globals.left_player_is_human = true;
            globals.right_player_is_human = true;
            true
        },
        MenuItem::MainQuit => {
            system_commands.push(SystemCommand::ShutdownGame);
            false
        },
        MenuItem::DifficultyEasy => {
            globals.input_disabled = true;
            globals.game_difficulty = GameDifficulty::Easy;
            globals.left_player_is_human = true;
            globals.right_player_is_human = false;
            true
        },
        MenuItem::DifficultyMedium => {
            globals.input_disabled = true;
            globals.game_difficulty = GameDifficulty::Medium;
            globals.left_player_is_human = true;
            globals.right_player_is_human = false;
            true
        },
        MenuItem::DifficultyHard => {
            globals.input_disabled = true;
            globals.game_difficulty = GameDifficulty::Hard;
            globals.left_player_is_human = true;
            globals.right_player_is_human = false;
            true
        },
        MenuItem::DifficultyBack => {
            *menu_mode = MenuMode::Main;
            false
        },
        MenuItem::PauseResume => {
            *menu_mode = MenuMode::Ingame;
            false
        },
        MenuItem::PauseQuitMenu => {
            globals.input_disabled = true;
            globals.game_difficulty = GameDifficulty::Medium;
            globals.left_player_is_human = false;
            globals.right_player_is_human = false;
            true
        },
    }
}

/// The scene that overlays debug information; it keeps no state.
#[derive(Debug, Default)]
pub struct DebugScene;

impl DebugScene {
    /// Resetting the debug scene leaves it as it is and issues no command.
    pub fn reinitialize(&mut self, system_commands: &mut Vec<SystemCommand>)
        ensures
            final(system_commands)@ == old(system_commands)@,
    {
    }

    /// Plays the test sound when its key went down, and decides what the
    /// debug overlay shows this frame; the caller draws it.
    pub fn update_and_draw(&mut self, input: &GameInput, globals: &Globals, audio: &mut AudioContext) -> (r: DebugOverlay)
        requires
            input.wf(),
            input.button_spec("debug_play_sound"@) is Some,
            old(audio).wf(),
            i32::MIN < globals.debug_time_factor_increment < i32::MAX,
        ensures
            final(audio).wf(),
            had_press(input.button_spec("debug_play_sound"@)->0) ==> final(audio).sounds@ == old(
                audio,
            ).sounds@.push(
                Sound {
                    start_time: SoundStartTime::OnNextBeat,
                    start_frame_index: None,
                    end_frame_index: None,
                },
            ),
            !had_press(input.button_spec("debug_play_sound"@)->0) ==> final(audio).sounds@ == old(
                audio,
            ).sounds@,
            final(audio).next_uncommitted_frame_index == old(audio).next_uncommitted_frame_index,
            final(audio).test_sound_len == old(audio).test_sound_len,
            final(audio).num_channels == old(audio).num_channels,
            final(audio).sample_rate_hz == old(audio).sample_rate_hz,
            r.cursor_red == input.mouse_button_left.is_pressed,
            r.cursor_green == input.mouse_button_middle.is_pressed,
            r.cursor_blue == input.mouse_button_right.is_pressed,
            r.time_label == time_label_spec(globals.debug_time_factor_increment as int),
            r.show_paused == globals.game_paused,
            r.crash_message == globals.error_happened,
    {
        if input.had_press_event("debug_play_sound") {
            audio.play_debug_sound(SoundStartTime::OnNextBeat);
        }
        let increment = globals.debug_time_factor_increment;
        let time_label = if increment > 0 {
            Some(TimeLabel::Speedup((increment + 1) as u32))
        } else if increment < 0 {
            Some(TimeLabel::Slowdown(((-(increment + 1)) as u32) + 2))
        } else {
            None
        };
        DebugOverlay {
            cursor_red: input.mouse_button_left.is_pressed,
            cursor_green: input.mouse_button_middle.is_pressed,
            cursor_blue: input.mouse_button_right.is_pressed,
            time_label,
            show_paused: globals.game_paused,
            crash_message: globals.error_happened.clone(),
        }
    }
}

/// The debug time control in effect, with the factor by which time runs
/// faster or slower.
#[derive(Debug, Clone, Copy, PartialEq, Eq)]
pub enum TimeLabel {
    Speedup(u32),
    Slowdown(u32),
}

/// No label at normal speed; `n + 1` times faster for an increment `n` above
/// zero, `|n| + 1` times slower below zero.
pub open spec fn time_label_spec(increment: int) -> Option<TimeLabel> {
    if increment > 0 {
        Some(TimeLabel::Speedup((increment + 1) as u32))
    } else if increment < 0 {
        Some(TimeLabel::Slowdown((-increment + 1) as u32))
    } else {
        None
    }
}

/// What the debug overlay shows in a frame: which colour channels of the
/// cursor are lit (one per held mouse button), the time control label,
/// whether the game is paused, and the message of a crash.
#[derive(Debug)]
pub struct DebugOverlay {
    pub cursor_red: bool,
    pub cursor_green: bool,
    pub cursor_blue: bool,
    pub time_label: Option<TimeLabel>,
    pub show_paused: bool,
    pub crash_message: Option<String>,
}

/// Runs the buttons `0 .. n` of a menu in order, starting from `g`: the GUI
/// state after them, the last button that was pressed, and how each button
/// is drawn.
pub open spec fn run_buttons(g: GuiContext, mouse_over: Seq<bool>, n: nat) -> (GuiContext, Option<usize>, Seq<WidgetLook>)
    decreases n,
{
    if n == 0 {
        (g, None, Seq::empty())
    } else {
        let (g1, clicked, looks) = run_buttons(g, mouse_over, (n - 1) as nat);
        let (pressed, look, g2) = g1.button_step((n - 1) as usize, mouse_over[n - 1]);
        (g2, if pressed {
            Some((n - 1) as usize)
        } else {
            clicked
        }, looks.push(look))
    }
}

/// Runs a vertical menu of buttons, one per entry of `mouse_over`, which
/// tells whether the mouse is over that button (the caller lays the buttons
/// out and draws them). Returns the index of the pressed button, the last one
/// if several were, and how to draw each button. An empty menu leaves the
/// GUI alone.
pub fn create_button_menu(gui: &mut GuiContext, input: &GameInput, mouse_over: &Vec<bool>) -> (r: (Option<usize>, Vec<WidgetLook>))
    requires
        input.wf(),
        ui_actions_registered(input),
    ensures
        mouse_over@.len() == 0 ==> r.0 is None && r.1@.len() == 0 && *final(gui) == *old(gui),
        mouse_over@.len() > 0 ==> ({
            let (g, clicked, looks) = run_buttons(
                old(gui).start_spec(input),
                mouse_over@,
                mouse_over@.len(),
            );
            &&& *final(gui) == g.finished_spec()
            &&& r.0 == clicked
            &&& r.1@ == looks
        }),
{
    if mouse_over.len() == 0 {
        return (None, Vec::new());
    }
    gui.start(input);
    let ghost started = *gui;
    let mut clicked: Option<usize> = None;
    let mut looks: Vec<WidgetLook> = Vec::new();
    let mut index: usize = 0;
    while index < mouse_over.len()
        invariant
            index <= mouse_over@.len(),
            (*gui, clicked, looks@) == run_buttons(started, mouse_over@, index as nat),
        decreases mouse_over@.len() - index,
    {
        let (pressed, look) = gui.button(index, mouse_over[index]);
        if pressed {
            clicked = Some(index);
        }
        looks.push(look);
        index = index + 1;
    }
    gui.finish();
    (clicked, looks)
}

/// Without a navigation key and with the mouse over none of the buttons, a
/// menu reports no pressed button.
pub proof fn law_menu_without_input_presses_nothing(g: GuiContext, mouse_over: Seq<bool>, n: nat)
    requires
        g.key_entered is None,
        g.highlighted_item is None,
        n <= mouse_over.len(),
        forall|i: int| 0 <= i < n ==> !#[trigger] mouse_over[i],
    ensures
        run_buttons(g, mouse_over, n).1 is None,
        run_buttons(g, mouse_over, n).0.key_entered is None,
        run_buttons(g, mouse_over, n).0.highlighted_item is None,
    decreases n,
{
    if n > 0 {
        law_menu_without_input_presses_nothing(g, mouse_over, (n - 1) as nat);
        assert(!mouse_over[n - 1]);
    }
}

/// What the platform layer keeps between frames that system commands change.
#[derive(Debug, Clone, Copy, PartialEq, Eq)]
pub struct PlatformState {
    pub is_running: bool,
    pub relative_mouse_mode_enabled: bool,
}

/// The platform state after the commands `commands[..n]`, in order.
pub open spec fn after_commands(state: PlatformState, commands: Seq<SystemCommand>, n: nat) -> PlatformState
    decreases n,
{
    if n == 0 {
        state
    } else {
        let before = after_commands(state, commands, (n - 1) as nat);
        match commands[n - 1] {
            SystemCommand::EnableRelativeMouseMovementCapture(enable) => PlatformState {
                relative_mouse_mode_enabled: enable,
                ..before
            },
            SystemCommand::ShutdownGame => PlatformState { is_running: false, ..before },
        }
    }
}

/// Carries out the system commands the game issued in a frame: the last
/// capture request decides whether relative mouse movement is captured, and
/// a shutdown request ends the main loop.
pub fn apply_system_commands(state: &mut PlatformState, commands: &Vec<SystemCommand>)
    ensures
        *final(state) == after_commands(*old(state), commands@, commands@.len()),
        final(state).is_running == (old(state).is_running && !commands@.contains(
            SystemCommand::ShutdownGame,
        )),
{
    let mut i: usize = 0;
    while i < commands.len()
        invariant
            i <= commands@.len(),
            *state == after_commands(*old(state), commands@, i as nat),
            state.is_running == (old(state).is_running && !commands@.subrange(0, i as int).contains(
                SystemCommand::ShutdownGame,
            )),
        decreases commands@.len() - i,
    {
        let ghost before = commands@.subrange(0, i as int);
        match commands[i] {
            SystemCommand::EnableRelativeMouseMovementCapture(enable) => {
                state.relative_mouse_mode_enabled = enable;
            },
            SystemCommand::ShutdownGame => {
                state.is_running = false;
            },
        }
        proof {
            let after = commands@.subrange(0, i + 1);
            assert(after =~= before.push(commands@[i as int]));
            if commands@[i as int] != SystemCommand::ShutdownGame {
                assert forall|k: int| 0 <= k < after.len() && after[k] == SystemCommand::ShutdownGame implies before.contains(
                    SystemCommand::ShutdownGame,
                ) by {
                    assert(k < before.len());
                    assert(before[k] == after[k]);
                }
            } else {
                assert(after[i as int] == SystemCommand::ShutdownGame);
            }
        }
        i = i + 1;
    }
    assert(commands@.subrange(0, commands@.len() as int) =~= commands@);
}

/// What the menu does in a frame before any menu is drawn.
#[derive(Debug, Clone, Copy, PartialEq, Eq)]
pub enum MenuFrameStart {
    /// The game is running: nothing more to do this frame.
    Ingame,
    /// A menu is to be shown.
    ShowMenu,
}

/// The first part of a menu frame, once the fader has been advanced: react
/// to a finished fade, and while in game either pause on escape or keep the
/// mouse captured.
pub fn start_menu_frame(
    fade_state: &mut FadeState,
    menu_mode: &mut MenuMode,
    globals: &mut Globals,
    input: &GameInput,
    system_commands: &mut Vec<SystemCommand>,
) -> (r: MenuFrameStart)
    requires
        input.wf(),
        input.button_spec("ui_escape"@) is Some,
    ensures
        ({
            let faded_out = *old(fade_state) == FadeState::FadedOut;
            let mode = if faded_out {
                match *old(menu_mode) {
                    MenuMode::Pause => MenuMode::Main,
                    _ => MenuMode::Ingame,
                }
            } else {
                *old(menu_mode)
            };
            let fade = if faded_out {
                FadeState::FadingIn
            } else {
                *old(fade_state)
            };
            let escape = had_press(input.button_spec("ui_escape"@)->0);
            &&& *final(fade_state) == fade
            &&& final(globals).restart_game == (old(globals).restart_game || faded_out)
            &&& final(globals).input_disabled == (old(globals).input_disabled && fade
                != FadeState::FadedIn)
            &&& *final(globals) == Globals {
                restart_game: final(globals).restart_game,
                input_disabled: final(globals).input_disabled,
                ..*old(globals)
            }
            &&& if mode == MenuMode::Ingame {
                &&& r == MenuFrameStart::Ingame
                &&& *final(menu_mode) == if escape {
                    MenuMode::Pause
                } else {
                    MenuMode::Ingame
                }
                &&& final(system_commands)@ == old(system_commands)@.push(
                    SystemCommand::EnableRelativeMouseMovementCapture(!escape),
                )
            } else {
                &&& r == MenuFrameStart::ShowMenu
                &&& *final(menu_mode) == mode
                &&& final(system_commands)@ == old(system_commands)@
            }
        }),
{
    if fade_state.has_finished_fading_out() {
        *menu_mode = mode_after_fade_out(*menu_mode);
        globals.restart_game = true;
        *fade_state = FadeState::FadingIn;
    }
    if fade_state.has_finished_fading_in() {
        globals.input_disabled = false;
    }
    if let MenuMode::Ingame = *menu_mode {
        if input.had_press_event("ui_escape") {
            system_commands.push(SystemCommand::EnableRelativeMouseMovementCapture(false));
            *menu_mode = MenuMode::Pause;
        } else {
            system_commands.push(SystemCommand::EnableRelativeMouseMovementCapture(true));
        }
        return MenuFrameStart::Ingame;
    }
    MenuFrameStart::ShowMenu
}

} // verus!
