//! Whether the player is alive or dead, and how far the fade between the
//! two has come.

use crate::frame::Transition;
use vstd::prelude::*;

verus! {

/// The player's life. Each state carries the fade into it: the state is
/// entered at `Start` and settled at `End`.
#[derive(Debug, Clone, Copy, PartialEq, Eq, Structural)]
pub enum LifeState {
    Alive(Transition),
    Dead(Transition),
}

impl LifeState {
    /// The fade of the state, whichever it is.
    pub open spec fn spec_transition(self) -> Transition {
        match self {
            LifeState::Alive(t) => t,
            LifeState::Dead(t) => t,
        }
    }

    #[verifier::when_used_as_spec(spec_transition)]
    pub fn transition(self) -> (t: Transition)
        ensures
            t == self.spec_transition(),
    {
        match self {
            LifeState::Alive(t) => t,
            LifeState::Dead(t) => t,
        }
    }

    /// The same state with another fade.
    pub open spec fn spec_with_transition(self, t: Transition) -> LifeState {
        match self {
            LifeState::Alive(_) => LifeState::Alive(t),
            LifeState::Dead(_) => LifeState::Dead(t),
        }
    }

    #[verifier::when_used_as_spec(spec_with_transition)]
    pub fn with_transition(self, t: Transition) -> (state: LifeState)
        ensures
            state == self.spec_with_transition(t),
    {
        match self {
            LifeState::Alive(_) => LifeState::Alive(t),
            LifeState::Dead(_) => LifeState::Dead(t),
        }
    }

    /// Alive and settled: the only state in which the player is played.
    pub open spec fn spec_settled_alive(self) -> bool {
        self == LifeState::Alive(Transition::End)
    }

    #[verifier::when_used_as_spec(spec_settled_alive)]
    pub fn settled_alive(self) -> (settled: bool)
        ensures
            settled == self.spec_settled_alive(),
    {
        match self {
            LifeState::Alive(Transition::End) => true,
            _ => false,
        }
    }

    /// How dark the screen is over the scene, in millionths: the fade's
    /// progress while alive, what is left of it while dead.
    pub open spec fn spec_darkness(self) -> int {
        match self {
            LifeState::Alive(t) => t.progress() as int,
            LifeState::Dead(t) => crate::fixed::ONE - t.progress(),
        }
    }

    pub fn darkness(self) -> (dark: i64)
        ensures
            dark == crate::fixed::clamp64(self.spec_darkness()),
    {
        match self {
            LifeState::Alive(t) => t.get(),
            LifeState::Dead(t) => crate::fixed::sat_sub(crate::fixed::ONE, t.get()),
        }
    }
}

} // verus!
