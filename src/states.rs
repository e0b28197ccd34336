use vstd::prelude::*;

verus! {

/// The phases of a run, in the order they are passed through.
#[derive(Clone, Copy, Debug, Default, PartialEq, Eq, Structural, Hash)]
pub enum AppState {
    /// Waiting for the presentation camera to exist.
    #[default]
    InitialisingCamera,
    /// Waiting for the viewport size, from which the grid is sized.
    InitialisingResources,
    /// The grid is sized and is seeded next.
    InitialisingWorld,
    /// Generations advance once per tick; this phase is never left.
    Playing,
}

/// The phase that follows `s`; `Playing` follows itself.
pub open spec fn next_state(s: AppState) -> AppState {
    match s {
        AppState::InitialisingCamera => AppState::InitialisingResources,
        AppState::InitialisingResources => AppState::InitialisingWorld,
        AppState::InitialisingWorld => AppState::Playing,
        AppState::Playing => AppState::Playing,
    }
}

impl AppState {
    pub fn next(&self) -> (r: Self)
        ensures
            r == next_state(*self),
    {
        match self {
            AppState::InitialisingCamera => AppState::InitialisingResources,
            AppState::InitialisingResources => AppState::InitialisingWorld,
            AppState::InitialisingWorld => AppState::Playing,
            AppState::Playing => AppState::Playing,
        }
    }
}

} // verus!
