//! Game input: buttons that count their state transitions within a frame,
//! and the named input actions (regular, toggling and one-shot buttons) that
//! key presses are mapped onto.
use vstd::prelude::*;
use vstd::string::StringExecFns;

use crate::text::{chars_of, ends_with, ends_with_spec, law_ends_with_means_suffix};

verus! {

/// A button that remembers whether it is pressed and how often its state
/// changed during the current frame.
#[derive(Default, Debug, Clone, Copy, PartialEq, Eq)]
pub struct GameButton {
    pub num_state_transitions: u32,
    pub is_pressed: bool,
}

impl GameButton {
    /// A released button without transitions.
    pub fn new() -> (r: GameButton)
        ensures
            r == (GameButton { num_state_transitions: 0, is_pressed: false }),
    {
        GameButton { num_state_transitions: 0, is_pressed: false }
    }

    /// The button after an event that leaves it pressed or released.
    pub open spec fn with_state(self, is_pressed: bool) -> GameButton {
        if self.is_pressed != is_pressed {
            GameButton { num_state_transitions: (self.num_state_transitions + 1) as u32, is_pressed }
        } else {
            self
        }
    }

    /// Moves the button into the given state, counting a transition if the
    /// state changes.
    pub fn set_state(&mut self, is_pressed: bool)
        requires
            old(self).num_state_transitions < u32::MAX,
        ensures
            *final(self) == old(self).with_state(is_pressed),
    {
        if self.is_pressed != is_pressed {
            self.num_state_transitions = self.num_state_transitions + 1;
            self.is_pressed = is_pressed;
        }
    }

    pub fn clear_transitions(&mut self)
        ensures
            *final(self) == (GameButton {
                num_state_transitions: 0,
                is_pressed: old(self).is_pressed,
            }),
    {
        self.num_state_transitions = 0;
    }

    /// Flips the button between pressed and released.
    pub fn toggle(&mut self)
        requires
            old(self).num_state_transitions < u32::MAX,
        ensures
            *final(self) == (GameButton {
                num_state_transitions: (old(self).num_state_transitions + 1) as u32,
                is_pressed: !old(self).is_pressed,
            }),
    {
        if self.is_pressed {
            self.set_state(false);
        } else {
            self.set_state(true);
        }
    }
}

/// A button that has changed state at least once this frame and now is pressed.
pub open spec fn had_press(b: GameButton) -> bool {
    b.is_pressed && b.num_state_transitions > 0
}

/// A button that has changed state at least once this frame and now is released.
pub open spec fn had_release(b: GameButton) -> bool {
    !b.is_pressed && b.num_state_transitions > 0
}

// -------------------------------------------------------------------------------------------------
// Buttons by name
//

/// The button stored under `name` in `entries`, looking from the back.
pub open spec fn lookup(entries: Seq<(String, GameButton)>, name: Seq<char>) -> Option<GameButton>
    decreases entries.len(),
{
    if entries.len() == 0 {
        None
    } else if entries.last().0@ == name {
        Some(entries.last().1)
    } else {
        lookup(entries.drop_last(), name)
    }
}

pub open spec fn names_unique(entries: Seq<(String, GameButton)>) -> bool {
    forall|i: int, j: int|
        0 <= i < j < entries.len() ==> #[trigger] entries[i].0@ != #[trigger] entries[j].0@
}

proof fn lemma_lookup_at(entries: Seq<(String, GameButton)>, i: int)
    requires
        names_unique(entries),
        0 <= i < entries.len(),
    ensures
        lookup(entries, entries[i].0@) == Some(entries[i].1),
    decreases entries.len(),
{
    if i < entries.len() - 1 {
        assert(entries[i].0@ != entries[entries.len() - 1].0@);
        assert(entries.drop_last()[i] == entries[i]);
        lemma_lookup_at(entries.drop_last(), i);
    }
}

proof fn lemma_lookup_absent(entries: Seq<(String, GameButton)>, name: Seq<char>)
    requires
        forall|i: int| 0 <= i < entries.len() ==> #[trigger] entries[i].0@ != name,
    ensures
        lookup(entries, name) is None,
    decreases entries.len(),
{
    if entries.len() > 0 {
        assert(entries[entries.len() - 1].0@ != name);
        assert forall|i: int| 0 <= i < entries.drop_last().len() implies #[trigger] entries.drop_last()[i].0@
            != name by {
            assert(entries.drop_last()[i] == entries[i]);
        }
        lemma_lookup_absent(entries.drop_last(), name);
    }
}

/// Named buttons; every name occurs at most once.
#[derive(Debug)]
pub struct ButtonMap {
    entries: Vec<(String, GameButton)>,
}

impl ButtonMap {
    pub closed spec fn wf(&self) -> bool {
        names_unique(self.entries@)
    }

    /// The button stored under `name`, if any.
    pub closed spec fn get_spec(&self, name: Seq<char>) -> Option<GameButton> {
        lookup(self.entries@, name)
    }

    pub fn new() -> (r: ButtonMap)
        ensures
            r.wf(),
            forall|n: Seq<char>| #[trigger] r.get_spec(n) is None,
    {
        ButtonMap { entries: Vec::new() }
    }

    /// Position of the entry named `name`.
    fn position(&self, name: &String) -> (r: Option<usize>)
        requires
            self.wf(),
        ensures
            match r {
                Some(i) => i < self.entries@.len() && self.entries@[i as int].0@ == name@,
                None => forall|i: int|
                    0 <= i < self.entries@.len() ==> #[trigger] self.entries@[i].0@ != name@,
            },
    {
        let mut i: usize = 0;
        while i < self.entries.len()
            invariant
                i <= self.entries@.len(),
                forall|k: int| 0 <= k < i ==> #[trigger] self.entries@[k].0@ != name@,
            decreases self.entries@.len() - i,
        {
            if self.entries[i].0 == *name {
                return Some(i);
            }
            i = i + 1;
        }
        None
    }

    /// The button stored under `name`, if any.
    pub fn get(&self, name: &str) -> (r: Option<GameButton>)
        requires
            self.wf(),
        ensures
            r == self.get_spec(name@),
    {
        let key = String::from_str(name);
        match self.position(&key) {
            Some(i) => {
                proof {
                    lemma_lookup_at(self.entries@, i as int);
                }
                Some(self.entries[i].1)
            },
            None => {
                proof {
                    lemma_lookup_absent(self.entries@, name@);
                }
                None
            },
        }
    }

    /// Stores `button` under `name`, replacing any button stored there before.
    pub fn insert(&mut self, name: String, button: GameButton)
        requires
            old(self).wf(),
        ensures
            final(self).wf(),
            forall|n: Seq<char>| #[trigger]
                final(self).get_spec(n) == if n == name@ {
                    Some(button)
                } else {
                    old(self).get_spec(n)
                },
    {
        match self.position(&name) {
            Some(i) => {
                let ghost before = self.entries@;
                self.entries.set(i, (name, button));
                proof {
                    assert forall|n: Seq<char>| #[trigger]
                        self.get_spec(n) == if n == name@ {
                            Some(button)
                        } else {
                            old(self).get_spec(n)
                        } by {
                        if n == name@ {
                            lemma_lookup_at(self.entries@, i as int);
                        } else {
                            lookup_unchanged_except(before, self.entries@, i as int, n);
                        }
                    }
                }
            },
            None => {
                let ghost before = self.entries@;
                self.entries.push((name, button));
                proof {
                    assert(self.entries@.drop_last() =~= before);
                }
            },
        }
    }

    /// Applies `set_state(is_pressed)` to the button stored under `name`.
    pub fn set_state_of(&mut self, name: &str, is_pressed: bool)
        requires
            old(self).wf(),
            old(self).get_spec(name@) matches Some(b) && b.num_state_transitions < u32::MAX,
        ensures
            final(self).wf(),
            forall|n: Seq<char>| #[trigger]
                final(self).get_spec(n) == if n == name@ {
                    Some(old(self).get_spec(n)->0.with_state(is_pressed))
                } else {
                    old(self).get_spec(n)
                },
    {
        let key = String::from_str(name);
        match self.position(&key) {
            Some(i) => {
                proof {
                    lemma_lookup_at(self.entries@, i as int);
                }
                let ghost before = self.entries@;
                let mut entry_button = self.entries[i].1;
                entry_button.set_state(is_pressed);
                let entry_name = self.entries[i].0.clone();
                self.entries.set(i, (entry_name, entry_button));
                proof {
                    assert forall|n: Seq<char>| #[trigger]
                        self.get_spec(n) == if n == name@ {
                            Some(old(self).get_spec(n)->0.with_state(is_pressed))
                        } else {
                            old(self).get_spec(n)
                        } by {
                        if n == name@ {
                            lemma_lookup_at(self.entries@, i as int);
                        } else {
                            lookup_unchanged_except(before, self.entries@, i as int, n);
                        }
                    }
                }
            },
            None => {
                proof {
                    lemma_lookup_absent(self.entries@, name@);
                }
            },
        }
    }

    /// Clears the transitions of every stored button and, when `release` is
    /// set, releases it as well.
    pub fn reset_all(&mut self, release: bool)
        requires
            old(self).wf(),
        ensures
            final(self).wf(),
            forall|n: Seq<char>| #[trigger]
                final(self).get_spec(n) == match old(self).get_spec(n) {
                    Some(b) => Some(
                        GameButton {
                            num_state_transitions: 0,
                            is_pressed: if release {
                                false
                            } else {
                                b.is_pressed
                            },
                        },
                    ),
                    None => None,
                },
    {
        let ghost old_entries = self.entries@;
        let mut i: usize = 0;
        while i < self.entries.len()
            invariant
                i <= self.entries@.len(),
                self.entries@.len() == old_entries.len(),
                names_unique(old_entries),
                forall|k: int|
                    0 <= k < self.entries@.len() ==> #[trigger] self.entries@[k].0@ == old_entries[k].0@,
                forall|k: int|
                    0 <= k < self.entries@.len() ==> #[trigger] self.entries@[k].1 == if k < i {
                        GameButton {
                            num_state_transitions: 0,
                            is_pressed: if release {
                                false
                            } else {
                                old_entries[k].1.is_pressed
                            },
                        }
                    } else {
                        old_entries[k].1
                    },
            decreases self.entries@.len() - i,
        {
            let mut button = self.entries[i].1;
            if release {
                button.is_pressed = false;
            }
            button.clear_transitions();
            let name = self.entries[i].0.clone();
            let ghost before = self.entries@;
            self.entries.set(i, (name, button));
            proof {
                assert(name == before[i as int].0);
                assert forall|k: int| 0 <= k < self.entries@.len() implies #[trigger] self.entries@[k].0@
                    == old_entries[k].0@ by {
                    if k != i {
                        assert(self.entries@[k] == before[k]);
                    } else {
                        assert(self.entries@[k].0 == name);
                        assert(before[k].0@ == old_entries[k].0@);
                    }
                }
            }
            i = i + 1;
        }
        proof {
            assert(names_unique(self.entries@));
            assert forall|n: Seq<char>| #[trigger]
                self.get_spec(n) == match old(self).get_spec(n) {
                    Some(b) => Some(
                        GameButton {
                            num_state_transitions: 0,
                            is_pressed: if release {
                                false
                            } else {
                                b.is_pressed
                            },
                        },
                    ),
                    None => None,
                } by {
                if exists|k: int| 0 <= k < old_entries.len() && old_entries[k].0@ == n {
                    let k = choose|k: int| 0 <= k < old_entries.len() && old_entries[k].0@ == n;
                    lemma_lookup_at(old_entries, k);
                    lemma_lookup_at(self.entries@, k);
                } else {
                    lemma_lookup_absent(old_entries, n);
                    assert forall|k: int| 0 <= k < self.entries@.len() implies #[trigger] self.entries@[k].0@
                        != n by {
                        assert(self.entries@[k].0@ == old_entries[k].0@);
                    }
                    lemma_lookup_absent(self.entries@, n);
                }
            }
        }
    }
}

/// Replacing entry `i` by one of the same name leaves every other name's
/// button unchanged.
proof fn lookup_unchanged_except(
    before: Seq<(String, GameButton)>,
    after: Seq<(String, GameButton)>,
    i: int,
    n: Seq<char>,
)
    requires
        names_unique(before),
        before.len() == after.len(),
        0 <= i < before.len(),
        after[i].0@ == before[i].0@,
        forall|k: int| 0 <= k < before.len() && k != i ==> #[trigger] after[k] == before[k],
        n != before[i].0@,
    ensures
        lookup(after, n) == lookup(before, n),
{
    if exists|k: int| 0 <= k < before.len() && before[k].0@ == n {
        let k = choose|k: int| 0 <= k < before.len() && before[k].0@ == n;
        assert(k != i);
        assert(after[k] == before[k]);
        assert(names_unique(after)) by {
            assert forall|a: int, b: int| 0 <= a < b < after.len() implies #[trigger] after[a].0@
                != #[trigger] after[b].0@ by {
                assert(after[a].0@ == before[a].0@);
                assert(after[b].0@ == before[b].0@);
            }
        }
        lemma_lookup_at(before, k);
        lemma_lookup_at(after, k);
    } else {
        lemma_lookup_absent(before, n);
        assert forall|k: int| 0 <= k < after.len() implies #[trigger] after[k].0@ != n by {
            if k != i {
                assert(after[k] == before[k]);
            }
        }
        lemma_lookup_absent(after, n);
    }
}

// -------------------------------------------------------------------------------------------------
// GameInput
//

pub open spec fn toggle_suffix() -> Seq<char> {
    seq!['t', 'o', 'g', 'g', 'l', 'e']
}

pub open spec fn oneshot_suffix() -> Seq<char> {
    seq!['o', 'n', 'e', 's', 'h', 'o', 't']
}

/// The button input of a frame: named input actions and the mouse.
///
/// Regular buttons follow their key; toggle buttons (names ending in
/// `toggle`) flip on every key press; one-shot buttons (names ending in
/// `oneshot`) are pressed by a key press and released when the frame ends.
#[derive(Debug)]
pub struct GameInput {
    pub current_audio_sample_index: usize,
    pub buttons: ButtonMap,
    pub buttons_toggle: ButtonMap,
    pub buttons_oneshot: ButtonMap,
    pub mouse_button_left: GameButton,
    pub mouse_button_middle: GameButton,
    pub mouse_button_right: GameButton,
    /// Positive when the wheel moves away from the user, negative towards.
    pub mouse_wheel_delta: i32,
}

impl GameInput {
    pub open spec fn wf(&self) -> bool {
        &&& self.buttons.wf()
        &&& self.buttons_toggle.wf()
        &&& self.buttons_oneshot.wf()
    }

    /// The button of an input action: a regular button takes precedence over
    /// a toggle button, which takes precedence over a one-shot button.
    pub open spec fn button_spec(&self, action: Seq<char>) -> Option<GameButton> {
        match self.buttons.get_spec(action) {
            Some(b) => Some(b),
            None => match self.buttons_toggle.get_spec(action) {
                Some(b) => Some(b),
                None => self.buttons_oneshot.get_spec(action),
            },
        }
    }

    pub fn new() -> (r: GameInput)
        ensures
            r.wf(),
            forall|a: Seq<char>| #[trigger] r.button_spec(a) is None,
            r.mouse_button_left == GameButton::new_spec(),
            r.mouse_button_middle == GameButton::new_spec(),
            r.mouse_button_right == GameButton::new_spec(),
            r.mouse_wheel_delta == 0,
            r.current_audio_sample_index == 0,
    {
        let r = GameInput {
            current_audio_sample_index: 0,
            buttons: ButtonMap::new(),
            buttons_toggle: ButtonMap::new(),
            buttons_oneshot: ButtonMap::new(),
            mouse_button_left: GameButton::new(),
            mouse_button_middle: GameButton::new(),
            mouse_button_right: GameButton::new(),
            mouse_wheel_delta: 0,
        };
        assert forall|a: Seq<char>| #[trigger] r.button_spec(a) is None by {
            assert(r.buttons.get_spec(a) is None);
            assert(r.buttons_toggle.get_spec(a) is None);
            assert(r.buttons_oneshot.get_spec(a) is None);
        }
        r
    }

    /// Creates a released button for `action`, in the group its name's
    /// ending selects; an existing button of that group and name is reset.
    pub fn register_input_action(&mut self, action: &str)
        requires
            old(self).wf(),
        ensures
            final(self).wf(),
            final(self).mouse_button_left == old(self).mouse_button_left,
            final(self).mouse_button_middle == old(self).mouse_button_middle,
            final(self).mouse_button_right == old(self).mouse_button_right,
            final(self).mouse_wheel_delta == old(self).mouse_wheel_delta,
            final(self).current_audio_sample_index == old(self).current_audio_sample_index,
            forall|n: Seq<char>| #[trigger]
                final(self).buttons.get_spec(n) == if n == action@ && !ends_with_spec(
                    action@,
                    toggle_suffix(),
                ) && !ends_with_spec(action@, oneshot_suffix()) {
                    Some(GameButton::new_spec())
                } else {
                    old(self).buttons.get_spec(n)
                },
            forall|n: Seq<char>| #[trigger]
                final(self).buttons_toggle.get_spec(n) == if n == action@ && ends_with_spec(
                    action@,
                    toggle_suffix(),
                ) {
                    Some(GameButton::new_spec())
                } else {
                    old(self).buttons_toggle.get_spec(n)
                },
            forall|n: Seq<char>| #[trigger]
                final(self).buttons_oneshot.get_spec(n) == if n == action@ && !ends_with_spec(
                    action@,
                    toggle_suffix(),
                ) && ends_with_spec(action@, oneshot_suffix()) {
                    Some(GameButton::new_spec())
                } else {
                    old(self).buttons_oneshot.get_spec(n)
                },
            (forall|p: Seq<char>| action@ != p + toggle_suffix()) && (forall|p: Seq<char>|
                action@ != p + oneshot_suffix()) ==> final(self).buttons.get_spec(action@) == Some(
                GameButton::new_spec(),
            ),
            (exists|p: Seq<char>| action@ == p + toggle_suffix()) ==> final(self).buttons_toggle.get_spec(
                action@,
            ) == Some(GameButton::new_spec()),
            (forall|p: Seq<char>| action@ != p + toggle_suffix()) && (exists|p: Seq<char>|
                action@ == p + oneshot_suffix()) ==> final(self).buttons_oneshot.get_spec(action@)
                == Some(GameButton::new_spec()),
    {
        proof {
            law_ends_with_means_suffix(action@, toggle_suffix());
            law_ends_with_means_suffix(action@, oneshot_suffix());
        }
        let chars = chars_of(action);
        let toggle: [char; 6] = ['t', 'o', 'g', 'g', 'l', 'e'];
        let oneshot: [char; 7] = ['o', 'n', 'e', 's', 'h', 'o', 't'];
        proof {
            assert(toggle@ =~= toggle_suffix());
            assert(oneshot@ =~= oneshot_suffix());
        }
        if ends_with(&chars, &toggle) {
            self.buttons_toggle.insert(String::from_str(action), GameButton::new());
        } else if ends_with(&chars, &oneshot) {
            self.buttons_oneshot.insert(String::from_str(action), GameButton::new());
        } else {
            self.buttons.insert(String::from_str(action), GameButton::new());
        }
    }

    /// The button of `action`.
    pub fn get_button(&self, action: &str) -> (r: GameButton)
        requires
            self.wf(),
            self.button_spec(action@) is Some,
        ensures
            Some(r) == self.button_spec(action@),
    {
        if let Some(button) = self.buttons.get(action) {
            button
        } else if let Some(button) = self.buttons_toggle.get(action) {
            button
        } else {
            match self.buttons_oneshot.get(action) {
                Some(button) => button,
                None => GameButton::new(),
            }
        }
    }

    /// The button of `action` went down during this frame and is pressed.
    pub fn had_press_event(&self, action: &str) -> (r: bool)
        requires
            self.wf(),
            self.button_spec(action@) is Some,
        ensures
            r == had_press(self.button_spec(action@)->0),
    {
        let button = self.get_button(action);
        button.is_pressed && button.num_state_transitions > 0
    }

    /// The button of `action` went up during this frame and is released.
    pub fn had_release_event(&self, action: &str) -> (r: bool)
        requires
            self.wf(),
            self.button_spec(action@) is Some,
        ensures
            r == had_release(self.button_spec(action@)->0),
    {
        let button = self.get_button(action);
        !button.is_pressed && button.num_state_transitions > 0
    }

    /// The button of `action` changed state during this frame.
    pub fn had_transition_event(&self, action: &str) -> (r: bool)
        requires
            self.wf(),
            self.button_spec(action@) is Some,
        ensures
            r == (self.button_spec(action@)->0.num_state_transitions > 0),
    {
        let button = self.get_button(action);
        button.num_state_transitions > 0
    }

    pub fn is_pressed(&self, action: &str) -> (r: bool)
        requires
            self.wf(),
            self.button_spec(action@) is Some,
        ensures
            r == self.button_spec(action@)->0.is_pressed,
    {
        self.get_button(action).is_pressed
    }

    /// Feeds a key going down (`is_pressed`) or up to the button of `action`.
    /// A regular button follows the key; a toggle button flips on a key press;
    /// a one-shot button is pressed by a key press; key releases leave toggle
    /// and one-shot buttons alone.
    pub fn process_button_event(&mut self, action: &str, is_pressed: bool)
        requires
            old(self).wf(),
            old(self).button_spec(action@) matches Some(b) && b.num_state_transitions < u32::MAX,
        ensures
            final(self).wf(),
            final(self).mouse_button_left == old(self).mouse_button_left,
            final(self).mouse_button_middle == old(self).mouse_button_middle,
            final(self).mouse_button_right == old(self).mouse_button_right,
            final(self).mouse_wheel_delta == old(self).mouse_wheel_delta,
            final(self).current_audio_sample_index == old(self).current_audio_sample_index,
            old(self).buttons.get_spec(action@) matches Some(b) ==> {
                &&& forall|n: Seq<char>| #[trigger]
                    final(self).buttons.get_spec(n) == if n == action@ {
                        Some(b.with_state(is_pressed))
                    } else {
                        old(self).buttons.get_spec(n)
                    }
                &&& final(self).buttons_toggle == old(self).buttons_toggle
                &&& final(self).buttons_oneshot == old(self).buttons_oneshot
            },
            old(self).buttons.get_spec(action@) is None ==> (old(self).buttons_toggle.get_spec(
                action@,
            ) matches Some(b) ==> {
                &&& final(self).buttons == old(self).buttons
                &&& forall|n: Seq<char>| #[trigger]
                    final(self).buttons_toggle.get_spec(n) == if n == action@ && is_pressed {
                        Some(b.with_state(!b.is_pressed))
                    } else {
                        old(self).buttons_toggle.get_spec(n)
                    }
                &&& final(self).buttons_oneshot == old(self).buttons_oneshot
            }),
            old(self).buttons.get_spec(action@) is None && old(self).buttons_toggle.get_spec(
                action@,
            ) is None ==> {
                &&& final(self).buttons == old(self).buttons
                &&& final(self).buttons_toggle == old(self).buttons_toggle
                &&& forall|n: Seq<char>| #[trigger]
                    final(self).buttons_oneshot.get_spec(n) == if n == action@ && is_pressed {
                        Some(old(self).buttons_oneshot.get_spec(n)->0.with_state(true))
                    } else {
                        old(self).buttons_oneshot.get_spec(n)
                    }
            },
    {
        if let Some(_) = self.buttons.get(action) {
            self.buttons.set_state_of(action, is_pressed);
            return;
        }
        if let Some(button) = self.buttons_toggle.get(action) {
            // Toggles activate only on a press event
            if is_pressed {
                let previous_state = button.is_pressed;
                self.buttons_toggle.set_state_of(action, !previous_state);
            }
            return;
        }
        // One-shots activate only on a press event
        if is_pressed {
            self.buttons_oneshot.set_state_of(action, is_pressed);
        }
    }

    /// Ends a frame: all transitions are forgotten, the mouse wheel is at
    /// rest and one-shot buttons are released.
    pub fn prepare_for_next_frame(&mut self)
        requires
            old(self).wf(),
        ensures
            final(self).wf(),
            final(self).mouse_button_left == (GameButton {
                num_state_transitions: 0,
                is_pressed: old(self).mouse_button_left.is_pressed,
            }),
            final(self).mouse_button_middle == (GameButton {
                num_state_transitions: 0,
                is_pressed: old(self).mouse_button_middle.is_pressed,
            }),
            final(self).mouse_button_right == (GameButton {
                num_state_transitions: 0,
                is_pressed: old(self).mouse_button_right.is_pressed,
            }),
            final(self).mouse_wheel_delta == 0,
            final(self).current_audio_sample_index == old(self).current_audio_sample_index,
            forall|n: Seq<char>| #[trigger]
                final(self).buttons.get_spec(n) == match old(self).buttons.get_spec(n) {
                    Some(b) => Some(GameButton { num_state_transitions: 0, is_pressed: b.is_pressed }),
                    None => None,
                },
            forall|n: Seq<char>| #[trigger]
                final(self).buttons_toggle.get_spec(n) == match old(self).buttons_toggle.get_spec(n) {
                    Some(b) => Some(GameButton { num_state_transitions: 0, is_pressed: b.is_pressed }),
                    None => None,
                },
            forall|n: Seq<char>| #[trigger]
                final(self).buttons_oneshot.get_spec(n) == match old(self).buttons_oneshot.get_spec(
                    n,
                ) {
                    Some(_) => Some(GameButton { num_state_transitions: 0, is_pressed: false }),
                    None => None,
                },
    {
        self.mouse_button_left.clear_transitions();
        self.mouse_button_middle.clear_transitions();
        self.mouse_button_right.clear_transitions();
        self.mouse_wheel_delta = 0;

        self.buttons.reset_all(false);
        self.buttons_toggle.reset_all(false);
        // One-shot buttons are also released
        self.buttons_oneshot.reset_all(true);
    }
}

impl GameButton {
    pub open spec fn new_spec() -> GameButton {
        GameButton { num_state_transitions: 0, is_pressed: false }
    }
}

/// Moving a button into the state it is already in changes nothing, so a
/// repeated key event counts as a single transition.
pub proof fn law_set_state_repeated_counts_once(b: GameButton, is_pressed: bool)
    ensures
        b.with_state(is_pressed).with_state(is_pressed) == b.with_state(is_pressed),
        b.with_state(b.is_pressed) == b,
{
}

/// Toggling a button twice brings it back to its state, with two transitions
/// counted.
pub proof fn law_toggle_twice_restores(b: GameButton)
    requires
        b.num_state_transitions + 2 <= u32::MAX,
    ensures
        b.with_state(!b.is_pressed).with_state(b.is_pressed).is_pressed == b.is_pressed,
        b.with_state(!b.is_pressed).with_state(b.is_pressed).num_state_transitions
            == b.num_state_transitions + 2,
{
}

} // verus!
