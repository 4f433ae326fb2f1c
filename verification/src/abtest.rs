//! The A/B test mode's own state: it only ever explores the map. Event
//! handling and drawing live with the windowing shell; the mode itself
//! carries just this state machine.

use vstd::prelude::*;

verus! {

/// What the A/B test mode is doing.
#[derive(Clone, Copy, PartialEq, Eq, Structural, Debug)]
enum ExploreState {
    Exploring,
}

/// The A/B test game mode.
#[derive(Clone, Copy, Debug)]
pub struct ABTestMode {
    state: ExploreState,
}

impl ABTestMode {
    /// The mode starts out (and stays) exploring.
    pub closed spec fn is_exploring(self) -> bool {
        self.state == ExploreState::Exploring
    }

    /// A fresh A/B test mode.
    pub fn new() -> (m: ABTestMode)
        ensures
            m.is_exploring(),
    {
        ABTestMode { state: ExploreState::Exploring }
    }
}

} // verus!
