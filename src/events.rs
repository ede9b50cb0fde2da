use vstd::prelude::*;
use crate::state::{State, next_highlight, prev_highlight};

verus! {

/// What the session loop does after an event.
#[derive(Debug, PartialEq, Eq, Structural)]
pub enum Signal {
    Exit,
    Tick,
}

impl Signal {
    pub fn should_exit(self) -> (r: bool)
        ensures
            r == (self == Signal::Exit),
    {
        self == Signal::Exit
    }
}

/// A key press, as far as the session reads it.
#[derive(Debug, Clone, Copy, PartialEq, Eq, Structural)]
pub enum Key {
    Esc,
    Up,
    Down,
    Char(char),
    Other,
}

/// What a key press asks of the session loop.
#[derive(Debug, PartialEq, Eq, Structural)]
pub enum Step {
    /// Keep polling.
    Continue,
    /// Leave without removing anything.
    Exit,
    /// Remove the selected formulae, then leave.
    Remove,
}

pub open spec fn is_quit(k: Key) -> bool {
    k == Key::Esc || k == Key::Char('q') || k == Key::Char('Q')
}

pub open spec fn is_remove(k: Key) -> bool {
    k == Key::Char('d') || k == Key::Char('D')
}

pub open spec fn is_toggle(k: Key) -> bool {
    k == Key::Char(' ') || k == Key::Char('s') || k == Key::Char('S')
}

pub open spec fn is_filter(k: Key) -> bool {
    k == Key::Char('f') || k == Key::Char('F')
}

pub open spec fn is_prev(k: Key) -> bool {
    k == Key::Up || k == Key::Char('k')
}

pub open spec fn is_next(k: Key) -> bool {
    k == Key::Down || k == Key::Char('j')
}

/// Applies a key press to the state and says what the loop does next: quit
/// keys leave, the delete key asks for the removal, the toggle, filter and
/// arrow keys change the state, and any other key is ignored.
pub fn handle_key(state: &mut State, key: Key) -> (r: Step)
    requires
        old(state).wf(),
    ensures
        final(state).wf(),
        final(state).stored() == old(state).stored(),
        final(state).graph_view() == old(state).graph_view(),
        r == if is_quit(key) {
            Step::Exit
        } else if is_remove(key) {
            Step::Remove
        } else {
            Step::Continue
        },
        is_toggle(key) ==> old(state).toggles_to(final(state)),
        is_filter(key) ==> old(state).filters_to(final(state)),
        !is_filter(key) ==> final(state).filtering() == old(state).filtering(),
        is_prev(key) ==> final(state).highlight() == prev_highlight(
            old(state).highlight(),
            old(state).displayed().len() as int,
        ),
        is_next(key) ==> final(state).highlight() == next_highlight(
            old(state).highlight(),
            old(state).displayed().len() as int,
        ),
        !is_toggle(key) && !is_filter(key) ==> final(state).selection() == old(state).selection()
            && final(state).displayed() == old(state).displayed(),
        !is_prev(key) && !is_next(key) && !is_toggle(key) && !is_filter(key) ==> final(state).highlight()
            == old(state).highlight(),
{
    match key {
        Key::Esc => Step::Exit,
        Key::Up => {
            state.select_prev_formula();
            Step::Continue
        },
        Key::Down => {
            state.select_next_formula();
            Step::Continue
        },
        Key::Char(c) => {
            if c == 'q' || c == 'Q' {
                Step::Exit
            } else if c == 'd' || c == 'D' {
                Step::Remove
            } else if c == ' ' || c == 's' || c == 'S' {
                state.select_formulae_to_delete();
                Step::Continue
            } else if c == 'f' || c == 'F' {
                state.filter_selected();
                Step::Continue
            } else if c == 'k' {
                state.select_prev_formula();
                Step::Continue
            } else if c == 'j' {
                state.select_next_formula();
                Step::Continue
            } else {
                Step::Continue
            }
        },
        Key::Other => Step::Continue,
    }
}

} // verus!
