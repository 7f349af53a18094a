//! Per-frame game decisions that do not depend on geometry: what has to be
//! (re)initialised this frame, the debug time controls, and starting a new
//! match after the menu asked for one.
use vstd::prelude::*;

use crate::input::{had_press, GameInput};
use crate::menu::{GameDifficulty, Globals};

verus! {

/// What a frame has to set up before updating the scenes.
#[derive(Debug, Clone, Copy, PartialEq, Eq)]
pub struct FrameSetup {
    /// Set up logging again (first frame, or after the game code was reloaded).
    pub reinit_logger: bool,
    /// Reset camera, error state and all scenes.
    pub reset_gamestate: bool,
    /// Load the assets and create the canvas again.
    pub reinit_drawing: bool,
    /// Draw at screen resolution instead of canvas resolution.
    pub highres_drawing: bool,
}

/// The input actions a frame reads.
pub open spec fn frame_actions_registered(input: &GameInput) -> bool {
    &&& input.button_spec("debug_hotreload_code_oneshot"@) is Some
    &&& input.button_spec("debug_reset_gamestate_oneshot"@) is Some
    &&& input.button_spec("debug_hotreload_assets_oneshot"@) is Some
    &&& input.button_spec("debug_highres_drawing_toggle"@) is Some
    &&& input.button_spec("debug_time_speedup"@) is Some
    &&& input.button_spec("debug_time_slowdown"@) is Some
    &&& input.button_spec("debug_pause_game_toggle"@) is Some
}

/// The button of `action` went down this frame.
pub open spec fn press_event(input: &GameInput, action: Seq<char>) -> bool {
    had_press(input.button_spec(action)->0)
}

/// The button of `action` changed state this frame.
pub open spec fn transition_event(input: &GameInput, action: Seq<char>) -> bool {
    input.button_spec(action)->0.num_state_transitions > 0
}

/// The button of `action` is pressed.
pub open spec fn held(input: &GameInput, action: Seq<char>) -> bool {
    input.button_spec(action)->0.is_pressed
}

pub open spec fn one_if(b: bool) -> int {
    if b {
        1
    } else {
        0
    }
}

/// Decides what the frame sets up: everything on the first frame, and on
/// later frames whatever the debug keys ask for.
pub fn frame_setup(is_initialized: bool, input: &GameInput) -> (r: FrameSetup)
    requires
        input.wf(),
        frame_actions_registered(input),
    ensures
        r.reinit_logger == (!is_initialized || press_event(input, "debug_hotreload_code_oneshot"@)),
        r.reset_gamestate == (!is_initialized || press_event(
            input,
            "debug_reset_gamestate_oneshot"@,
        )),
        r.reinit_drawing == (!is_initialized || press_event(
            input,
            "debug_hotreload_assets_oneshot"@,
        ) || transition_event(input, "debug_highres_drawing_toggle"@)),
        r.highres_drawing == held(input, "debug_highres_drawing_toggle"@),
{
    let reinit_logger = !is_initialized || input.had_press_event("debug_hotreload_code_oneshot");
    let reset_gamestate = !is_initialized || input.had_press_event(
        "debug_reset_gamestate_oneshot",
    );
    let reinit_drawing = !is_initialized || input.had_press_event("debug_hotreload_assets_oneshot")
        || input.had_transition_event("debug_highres_drawing_toggle");
    let highres_drawing = input.is_pressed("debug_highres_drawing_toggle");
    FrameSetup { reinit_logger, reset_gamestate, reinit_drawing, highres_drawing }
}

/// Applies the debug time keys: speed up, slow down and pause.
pub fn update_debug_globals(globals: &mut Globals, input: &GameInput)
    requires
        input.wf(),
        frame_actions_registered(input),
        press_event(input, "debug_time_speedup"@) ==> old(globals).debug_time_factor_increment
            < i32::MAX,
        press_event(input, "debug_time_slowdown"@) ==> old(globals).debug_time_factor_increment
            + one_if(press_event(input, "debug_time_speedup"@)) > i32::MIN,
    ensures
        final(globals).debug_time_factor_increment == old(globals).debug_time_factor_increment
            + one_if(press_event(input, "debug_time_speedup"@)) - one_if(
            press_event(input, "debug_time_slowdown"@),
        ),
        final(globals).debug_game_paused == held(input, "debug_pause_game_toggle"@),
        *final(globals) == (Globals {
            debug_time_factor_increment: final(globals).debug_time_factor_increment,
            debug_game_paused: final(globals).debug_game_paused,
            ..*old(globals)
        }),
{
    if input.had_press_event("debug_time_speedup") {
        globals.debug_time_factor_increment = globals.debug_time_factor_increment + 1;
    }
    if input.had_press_event("debug_time_slowdown") {
        globals.debug_time_factor_increment = globals.debug_time_factor_increment - 1;
    }
    globals.debug_game_paused = input.is_pressed("debug_pause_game_toggle");
}

/// The factor by which the debug time controls scale the frame time, as a
/// fraction `(numerator, denominator)`: one for no increment, `n + 1` for an
/// increment `n` above zero, and `1 / (|n| + 1)` below zero.
pub open spec fn time_factor_spec(increment: int) -> (int, int) {
    if increment == 0 {
        (1, 1)
    } else if increment > 0 {
        (increment + 1, 1)
    } else {
        (1, -increment + 1)
    }
}

pub fn time_factor_ratio(increment: i32) -> (r: (u32, u32))
    requires
        i32::MIN < increment < i32::MAX,
    ensures
        (r.0 as int, r.1 as int) == time_factor_spec(increment as int),
{
    if increment == 0 {
        (1, 1)
    } else if increment > 0 {
        ((increment + 1) as u32, 1)
    } else {
        (1, ((-(increment + 1)) as u32) + 2)
    }
}

/// Each speed-up step makes the game run faster: the time factor grows
/// strictly with the increment.
pub proof fn law_time_factor_grows(a: int, b: int)
    requires
        a < b,
    ensures
        time_factor_spec(a).0 * time_factor_spec(b).1 < time_factor_spec(b).0 * time_factor_spec(
            a,
        ).1,
        time_factor_spec(a).0 > 0 && time_factor_spec(a).1 > 0,
{
    let (na, da) = time_factor_spec(a);
    let (nb, db) = time_factor_spec(b);
    if b <= 0 {
        assert(na == 1 && nb == 1 && db < da);
    } else if a >= 0 {
        assert(da == 1 && db == 1 && na < nb);
    } else {
        assert(na == 1 && db == 1 && nb == b + 1 && da == -a + 1);
    }
    assert(na * db < nb * da) by (nonlinear_arith)
        requires
            (na == 1 && nb == 1 && db < da) || (da == 1 && db == 1 && na < nb) || (na == 1 && db
                == 1 && nb == b + 1 && da == -a + 1 && a < 0 && b > 0),
    ;
}

/// Who plays a match and how hard the computer plays.
#[derive(Debug, Clone, Copy, PartialEq, Eq)]
pub struct MatchSetup {
    pub game_difficulty: GameDifficulty,
    pub left_player_is_human: bool,
    pub right_player_is_human: bool,
}

/// When the menu has asked for a restart, clears the request and returns the
/// match it set up.
pub fn take_restart_request(globals: &mut Globals) -> (r: Option<MatchSetup>)
    ensures
        old(globals).restart_game ==> r == Some(
            (MatchSetup {
                game_difficulty: old(globals).game_difficulty,
                left_player_is_human: old(globals).left_player_is_human,
                right_player_is_human: old(globals).right_player_is_human,
            }),
        ),
        !old(globals).restart_game ==> (r is None),
        *final(globals) == (Globals { restart_game: false, ..*old(globals) }),
{
    if globals.restart_game {
        globals.restart_game = false;
        Some(
            MatchSetup {
                game_difficulty: globals.game_difficulty,
                left_player_is_human: globals.left_player_is_human,
                right_player_is_human: globals.right_player_is_human,
            },
        )
    } else {
        None
    }
}

/// The gameplay clock stands still while the game is paused, the debug pause
/// is on, or an error happened.
pub fn gameplay_is_frozen(scene_paused: bool, globals: &Globals) -> (r: bool)
    ensures
        r == (scene_paused || globals.debug_game_paused || globals.error_happened is Some),
{
    scene_paused || globals.debug_game_paused || globals.error_happened.is_some()
}

} // verus!
