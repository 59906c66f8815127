//! Whether the interface is built (`Stable`) or being torn down to be
//! built again (`Unstable`).
use vstd::prelude::*;

verus! {

#[derive(Clone, Copy, Debug, PartialEq, Eq, Structural)]
pub enum ViewState {
    /// Remaining structures are cleared in this state.
    Unstable,
    /// Entities live within this state.
    Stable,
}

impl Default for ViewState {
    fn default() -> (r: ViewState)
        ensures
            r == ViewState::Unstable,
    {
        ViewState::Unstable
    }
}

/// The state to move on to on entering `entered`: from `Unstable` straight
/// back to `Stable`.
pub fn view_state_plugin(entered: ViewState) -> (r: Option<ViewState>)
    ensures
        r == (if entered == ViewState::Unstable {
            Some(ViewState::Stable)
        } else {
            None
        }),
{
    match entered {
        ViewState::Unstable => Some(ViewState::Stable),
        ViewState::Stable => None,
    }
}

} // verus!
