//! The traffic light: green, yellow and red lamps lit in turn, then all put out.
use vstd::prelude::*;

verus! {

/// How long the light stays in each phase, in milliseconds.
pub const PHASE_MS: u64 = 1000;

/// The phases of the light.
#[derive(Clone, Copy, Debug, PartialEq, Eq, Structural)]
pub enum State {
    Green,
    Yellow,
    Red,
    Reset,
}

/// What a phase does to the lamps.
#[derive(Clone, Copy, Debug, PartialEq, Eq, Structural)]
pub enum LampAction {
    /// Light the green lamp.
    GreenOn,
    /// Light the yellow lamp.
    YellowOn,
    /// Light the red lamp.
    RedOn,
    /// Put out every lamp.
    AllOff,
}

/// Which lamps are lit.
#[derive(Clone, Copy, Debug, PartialEq, Eq, Structural)]
pub struct Lamps {
    pub green: bool,
    pub yellow: bool,
    pub red: bool,
}

/// The phase that follows `s`.
pub open spec fn next_state(s: State) -> State {
    match s {
        State::Green => State::Yellow,
        State::Yellow => State::Red,
        State::Red => State::Reset,
        State::Reset => State::Green,
    }
}

/// What phase `s` does to the lamps.
pub open spec fn action_of(s: State) -> LampAction {
    match s {
        State::Green => LampAction::GreenOn,
        State::Yellow => LampAction::YellowOn,
        State::Red => LampAction::RedOn,
        State::Reset => LampAction::AllOff,
    }
}

/// The lamps after `a` is done to `l`.
pub open spec fn apply(l: Lamps, a: LampAction) -> Lamps {
    match a {
        LampAction::GreenOn => Lamps { green: true, ..l },
        LampAction::YellowOn => Lamps { yellow: true, ..l },
        LampAction::RedOn => Lamps { red: true, ..l },
        LampAction::AllOff => Lamps { green: false, yellow: false, red: false },
    }
}

/// The lamps that are lit when phase `s` begins: those of the phases before it
/// since the last reset. The light starts in `State::Green` with every lamp out.
pub open spec fn lamps_entering(s: State) -> Lamps {
    match s {
        State::Green => Lamps { green: false, yellow: false, red: false },
        State::Yellow => Lamps { green: true, yellow: false, red: false },
        State::Red => Lamps { green: true, yellow: true, red: false },
        State::Reset => Lamps { green: true, yellow: true, red: true },
    }
}

/// One phase of the light: what it does to the lamps, and the phase after it.
pub fn step(s: State) -> (r: (LampAction, State))
    ensures
        r.0 == action_of(s),
        r.1 == next_state(s),
{
    match s {
        State::Green => (LampAction::GreenOn, State::Yellow),
        State::Yellow => (LampAction::YellowOn, State::Red),
        State::Red => (LampAction::RedOn, State::Reset),
        State::Reset => (LampAction::AllOff, State::Green),
    }
}

/// The light goes through its four phases and comes back to where it was.
pub proof fn law_cycle_of_four(s: State)
    ensures
        next_state(next_state(next_state(next_state(s)))) == s,
        next_state(s) != s,
        next_state(next_state(s)) != s,
        next_state(next_state(next_state(s))) != s,
{
}

/// Each phase leaves the lamps as the next phase finds them: starting dark,
/// green, yellow and red are lit one after the other and then all put out.
pub proof fn law_lamps_follow_phases(s: State)
    ensures
        apply(lamps_entering(s), action_of(s)) == lamps_entering(next_state(s)),
{
}

} // verus!
