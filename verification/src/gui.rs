//! Immediate-mode GUI decisions: which widget is hot (under the mouse),
//! active (being clicked) or keyboard-focused, what a widget looks like, and
//! when a button counts as pressed; and the states of the screen fader.
use vstd::prelude::*;

use crate::input::{had_press, GameInput};

verus! {

/// A navigation or editing key that the GUI reacts to.
#[derive(Debug, Clone, Copy, PartialEq, Eq)]
pub enum GuiAction {
    Next,
    Previous,
    Accept,
    Increase,
    Decrease,
}

/// How a widget is drawn.
#[derive(Debug, Clone, Copy, PartialEq, Eq)]
pub enum WidgetLook {
    /// Neither hovered nor focused.
    Idle,
    /// Hovered or focused.
    Highlighted,
    /// Hovered or focused, and being clicked.
    Active,
}

/// What a slider does in this frame.
#[derive(Debug, Clone, Copy, PartialEq, Eq)]
pub enum SliderOutcome {
    /// The value stays.
    Unchanged,
    /// The value goes down by one step.
    Decrease,
    /// The value goes up by one step.
    Increase,
    /// The value follows the mouse.
    FollowMouse,
}

/// The identifier that marks the active item as taken by a click that
/// started outside every widget.
pub open spec fn no_widget() -> usize {
    usize::MAX
}

/// The GUI state carried from frame to frame (the mouse position is kept by
/// the caller).
#[derive(Debug, Default)]
pub struct GuiContext {
    pub mouse_is_down: bool,
    pub keyboard_highlight: Option<usize>,
    pub key_entered: Option<GuiAction>,
    pub last_widget: Option<usize>,
    pub highlighted_item: Option<usize>,
    pub active_item: Option<usize>,
}

/// Names of the input actions the GUI reads.
pub open spec fn ui_actions_registered(input: &GameInput) -> bool {
    &&& input.button_spec("ui_next"@) is Some
    &&& input.button_spec("ui_previous"@) is Some
    &&& input.button_spec("ui_accept"@) is Some
}

impl GuiContext {
    pub fn new() -> (r: GuiContext)
        ensures
            r == (GuiContext {
                mouse_is_down: false,
                keyboard_highlight: None,
                key_entered: None,
                last_widget: None,
                highlighted_item: None,
                active_item: None,
            }),
    {
        GuiContext {
            mouse_is_down: false,
            keyboard_highlight: None,
            key_entered: None,
            last_widget: None,
            highlighted_item: None,
            active_item: None,
        }
    }

    /// The GUI state once a frame of widgets has begun.
    pub open spec fn start_spec(self, input: &GameInput) -> GuiContext {
        GuiContext {
            mouse_is_down: input.mouse_button_left.is_pressed,
            highlighted_item: None,
            key_entered: if had_press(input.button_spec("ui_next"@)->0) {
                Some(GuiAction::Next)
            } else if had_press(input.button_spec("ui_previous"@)->0) {
                Some(GuiAction::Previous)
            } else if had_press(input.button_spec("ui_accept"@)->0) {
                Some(GuiAction::Accept)
            } else {
                None
            },
            ..self
        }
    }

    /// Begins a frame of widgets: takes the mouse button and the navigation
    /// key pressed this frame (next before previous before accept).
    pub fn start(&mut self, input: &GameInput)
        requires
            input.wf(),
            ui_actions_registered(input),
        ensures
            *final(self) == old(self).start_spec(input),
            final(self).mouse_is_down == input.mouse_button_left.is_pressed,
            final(self).highlighted_item is None,
            final(self).key_entered == if had_press(input.button_spec("ui_next"@)->0) {
                Some(GuiAction::Next)
            } else if had_press(input.button_spec("ui_previous"@)->0) {
                Some(GuiAction::Previous)
            } else if had_press(input.button_spec("ui_accept"@)->0) {
                Some(GuiAction::Accept)
            } else {
                None
            },
            final(self).keyboard_highlight == old(self).keyboard_highlight,
            final(self).last_widget == old(self).last_widget,
            final(self).active_item == old(self).active_item,
    {
        self.mouse_is_down = input.mouse_button_left.is_pressed;
        self.highlighted_item = None;
        self.key_entered = if input.had_press_event("ui_next") {
            Some(GuiAction::Next)
        } else if input.had_press_event("ui_previous") {
            Some(GuiAction::Previous)
        } else if input.had_press_event("ui_accept") {
            Some(GuiAction::Accept)
        } else {
            None
        };
    }

    /// Ends a frame of widgets. A click that no widget took makes the active
    /// item unavailable until the mouse button is released, so that dragging
    /// onto a widget does not activate it.
    pub open spec fn finished_spec(self) -> GuiContext {
        GuiContext {
            active_item: if self.mouse_is_down {
                if self.active_item is None {
                    Some(no_widget())
                } else {
                    self.active_item
                }
            } else {
                None
            },
            keyboard_highlight: if self.key_entered == Some(GuiAction::Next) {
                None
            } else {
                self.keyboard_highlight
            },
            key_entered: None,
            ..self
        }
    }

    pub fn finish(&mut self)
        ensures
            *final(self) == old(self).finished_spec(),
            final(self).active_item == if old(self).mouse_is_down {
                if old(self).active_item is None {
                    Some(no_widget())
                } else {
                    old(self).active_item
                }
            } else {
                None
            },
            final(self).keyboard_highlight == if old(self).key_entered == Some(GuiAction::Next) {
                None
            } else {
                old(self).keyboard_highlight
            },
            final(self).key_entered is None,
            final(self).mouse_is_down == old(self).mouse_is_down,
            final(self).last_widget == old(self).last_widget,
            final(self).highlighted_item == old(self).highlighted_item,
    {
        if self.mouse_is_down {
            if self.active_item.is_none() {
                self.active_item = Some(usize::MAX);
            }
        } else {
            self.active_item = None;
        }
        if let Some(GuiAction::Next) = self.key_entered {
            self.keyboard_highlight = None;
        }
        self.key_entered = None;
    }

    /// Marks widget `id` hot when the mouse is over it, active when it is
    /// also clicked while nothing else is active, and focused when no widget
    /// has the keyboard focus yet.
    fn hover_and_focus(&mut self, id: usize, mouse_over: bool)
        ensures
            final(self).highlighted_item == if mouse_over {
                Some(id)
            } else {
                old(self).highlighted_item
            },
            final(self).active_item == if mouse_over && old(self).active_item is None
                && old(self).mouse_is_down {
                Some(id)
            } else {
                old(self).active_item
            },
            final(self).keyboard_highlight == if old(self).keyboard_highlight is None {
                Some(id)
            } else {
                old(self).keyboard_highlight
            },
            final(self).mouse_is_down == old(self).mouse_is_down,
            final(self).key_entered == old(self).key_entered,
            final(self).last_widget == old(self).last_widget,
    {
        if mouse_over {
            self.highlighted_item = Some(id);
            if self.active_item.is_none() && self.mouse_is_down {
                self.active_item = Some(id);
            }
        }
        if self.keyboard_highlight.is_none() {
            self.keyboard_highlight = Some(id);
        }
    }

    /// The look of a button or slider knob after `hover_and_focus`.
    pub open spec fn look_spec(&self, id: usize, include_focus: bool) -> WidgetLook {
        if self.highlighted_item == Some(id) || (include_focus && self.keyboard_highlight == Some(
            id,
        )) {
            if self.active_item == Some(id) {
                WidgetLook::Active
            } else {
                WidgetLook::Highlighted
            }
        } else {
            WidgetLook::Idle
        }
    }

    fn look(&self, id: usize, include_focus: bool) -> (r: WidgetLook)
        ensures
            r == self.look_spec(id, include_focus),
    {
        let focused = include_focus && self.keyboard_highlight == Some(id);
        if self.highlighted_item == Some(id) || focused {
            if self.active_item == Some(id) {
                WidgetLook::Active
            } else {
                WidgetLook::Highlighted
            }
        } else {
            WidgetLook::Idle
        }
    }

    /// The GUI state after widget `id` has had its hover and focus updated,
    /// without keyboard handling.
    pub open spec fn hovered(self, id: usize, mouse_over: bool) -> GuiContext {
        GuiContext {
            highlighted_item: if mouse_over {
                Some(id)
            } else {
                self.highlighted_item
            },
            active_item: if mouse_over && self.active_item is None && self.mouse_is_down {
                Some(id)
            } else {
                self.active_item
            },
            keyboard_highlight: if self.keyboard_highlight is None {
                Some(id)
            } else {
                self.keyboard_highlight
            },
            ..self
        }
    }

    /// Whether button `id` is pressed, its look, and the GUI state after it.
    pub open spec fn button_step(self, id: usize, mouse_over: bool) -> (bool, WidgetLook, GuiContext) {
        let h = self.hovered(id, mouse_over);
        let look = h.look_spec(id, true);
        if h.keyboard_highlight == Some(id) && h.key_entered == Some(GuiAction::Accept) {
            (true, look, h)
        } else {
            let k = if h.keyboard_highlight == Some(id) && h.key_entered is Some {
                GuiContext {
                    keyboard_highlight: match h.key_entered {
                        Some(GuiAction::Previous) => h.last_widget,
                        Some(GuiAction::Next) => None,
                        _ => h.keyboard_highlight,
                    },
                    key_entered: None,
                    ..h
                }
            } else {
                h
            };
            (
                h.highlighted_item == Some(id) && h.active_item == Some(id) && !h.mouse_is_down,
                look,
                GuiContext { last_widget: Some(id), ..k },
            )
        }
    }

    /// Runs button `id`, with `mouse_over` telling whether the mouse is over
    /// it. Returns whether the button was pressed (the focused button got the
    /// accept key, or the mouse was released over the active button) and how
    /// to draw it.
    pub fn button(&mut self, id: usize, mouse_over: bool) -> (r: (bool, WidgetLook))
        ensures
            (r.0, r.1, *final(self)) == old(self).button_step(id, mouse_over),
            ({
                let h = old(self).hovered(id, mouse_over);
                &&& r.1 == h.look_spec(id, true)
                &&& if h.keyboard_highlight == Some(id) && h.key_entered == Some(GuiAction::Accept) {
                    &&& r.0
                    &&& *final(self) == h
                } else {
                    let k = if h.keyboard_highlight == Some(id) && h.key_entered is Some {
                        GuiContext {
                            keyboard_highlight: match h.key_entered {
                                Some(GuiAction::Previous) => h.last_widget,
                                Some(GuiAction::Next) => None,
                                _ => h.keyboard_highlight,
                            },
                            key_entered: None,
                            ..h
                        }
                    } else {
                        h
                    };
                    &&& *final(self) == (GuiContext { last_widget: Some(id), ..k })
                    &&& r.0 == (h.highlighted_item == Some(id) && h.active_item == Some(id)
                        && !h.mouse_is_down)
                }
            }),
    {
        self.hover_and_focus(id, mouse_over);
        let look = self.look(id, true);

        // Keyboard input
        if self.keyboard_highlight == Some(id) {
            if let Some(key) = self.key_entered {
                match key {
                    GuiAction::Accept => return (true, look),
                    GuiAction::Previous => self.keyboard_highlight = self.last_widget,
                    GuiAction::Next => self.keyboard_highlight = None,
                    _ => {},
                }
                self.key_entered = None;
            }
        }
        self.last_widget = Some(id);

        let button_pressed = self.highlighted_item == Some(id) && self.active_item == Some(id)
            && !self.mouse_is_down;
        (button_pressed, look)
    }

    /// Runs slider `id`, with `mouse_over` telling whether the mouse is over
    /// it. Returns what happens to the slider's value, whether it has the
    /// keyboard focus, and how to draw its knob.
    pub fn horizontal_slider(&mut self, id: usize, mouse_over: bool) -> (r: (SliderOutcome, bool, WidgetLook))
        ensures
            ({
                let h = old(self).hovered(id, mouse_over);
                let focused = h.keyboard_highlight == Some(id);
                &&& r.1 == focused
                &&& r.2 == h.look_spec(id, false)
                &&& if focused && h.key_entered == Some(GuiAction::Decrease) {
                    r.0 == SliderOutcome::Decrease && *final(self) == h
                } else if focused && h.key_entered == Some(GuiAction::Increase) {
                    r.0 == SliderOutcome::Increase && *final(self) == h
                } else {
                    let k = if focused && h.key_entered is Some {
                        GuiContext {
                            keyboard_highlight: match h.key_entered {
                                Some(GuiAction::Previous) => h.last_widget,
                                Some(GuiAction::Next) => None,
                                _ => h.keyboard_highlight,
                            },
                            key_entered: None,
                            ..h
                        }
                    } else {
                        h
                    };
                    &&& *final(self) == (GuiContext { last_widget: Some(id), ..k })
                    &&& r.0 == if h.active_item == Some(id) {
                        SliderOutcome::FollowMouse
                    } else {
                        SliderOutcome::Unchanged
                    }
                }
            }),
    {
        self.hover_and_focus(id, mouse_over);
        let focused = self.keyboard_highlight == Some(id);
        let look = self.look(id, false);

        if self.keyboard_highlight == Some(id) {
            if let Some(key) = self.key_entered {
                match key {
                    GuiAction::Previous => self.keyboard_highlight = self.last_widget,
                    GuiAction::Next => self.keyboard_highlight = None,
                    GuiAction::Decrease => return (SliderOutcome::Decrease, focused, look),
                    GuiAction::Increase => return (SliderOutcome::Increase, focused, look),
                    _ => {},
                }
                self.key_entered = None;
            }
        }
        self.last_widget = Some(id);

        if self.active_item == Some(id) {
            (SliderOutcome::FollowMouse, focused, look)
        } else {
            (SliderOutcome::Unchanged, focused, look)
        }
    }
}

// -------------------------------------------------------------------------------------------------
// Screen fader states
//

/// Where a fade to white and back stands.
#[derive(Debug, Clone, Copy, PartialEq, Eq)]
pub enum FadeState {
    FadingOut,
    FadingIn,
    FadedOut,
    FadedIn,
}

impl FadeState {
    pub open spec fn finished_spec(self) -> FadeState {
        match self {
            FadeState::FadingIn => FadeState::FadedIn,
            FadeState::FadingOut => FadeState::FadedOut,
            other => other,
        }
    }

    /// The state once the fade timer has run out.
    pub fn finished(self) -> (r: FadeState)
        ensures
            r == self.finished_spec(),
            r == match self {
                FadeState::FadingIn => FadeState::FadedIn,
                FadeState::FadingOut => FadeState::FadedOut,
                other => other,
            },
    {
        match self {
            FadeState::FadedIn => FadeState::FadedIn,
            FadeState::FadedOut => FadeState::FadedOut,
            FadeState::FadingIn => FadeState::FadedIn,
            FadeState::FadingOut => FadeState::FadedOut,
        }
    }

    pub fn is_fading(self) -> (r: bool)
        ensures
            r == (self == FadeState::FadingIn || self == FadeState::FadingOut),
    {
        match self {
            FadeState::FadingIn | FadeState::FadingOut => true,
            _ => false,
        }
    }

    pub fn has_finished_fading_out(self) -> (r: bool)
        ensures
            r == (self == FadeState::FadedOut),
    {
        match self {
            FadeState::FadedOut => true,
            _ => false,
        }
    }

    pub fn has_finished_fading_in(self) -> (r: bool)
        ensures
            r == (self == FadeState::FadedIn),
    {
        match self {
            FadeState::FadedIn => true,
            _ => false,
        }
    }
}

/// A fade that has finished stays finished: running out the timer again
/// changes nothing, and the result is never a fading state.
pub proof fn law_fade_finished_is_final(state: FadeState)
    ensures
        state.finished_spec().finished_spec() == state.finished_spec(),
        state.finished_spec() == FadeState::FadedIn || state.finished_spec() == FadeState::FadedOut,
{
}

/// A click that started outside every widget does not activate a widget the
/// mouse is then dragged onto: after the frame ends with the button held and
/// no widget active, hovering any widget while the button stays down leaves
/// it inactive.
pub proof fn law_drag_does_not_activate(g: GuiContext, id: usize)
    requires
        g.mouse_is_down,
        g.active_item is None,
        id != no_widget(),
    ensures
        g.finished_spec().active_item == Some(no_widget()),
        g.finished_spec().hovered(id, true).active_item != Some(id),
{
}

/// Without a click, the end of a frame leaves no widget active.
pub proof fn law_release_clears_active(g: GuiContext)
    requires
        !g.mouse_is_down,
    ensures
        g.finished_spec().active_item is None,
{
}

} // verus!
