//! What the engine takes from the compositor protocol definitions.

use vstd::prelude::*;
use wayland_protocols_wlr::foreign_toplevel::v1::client::zwlr_foreign_toplevel_handle_v1;

verus! {

/// The value that stands for "activated" among the states of a toplevel.
pub open spec fn activated_state() -> u8 {
    2
}

/// The `activated` entry of the protocol's toplevel state enumeration
/// (`zwlr_foreign_toplevel_handle_v1::State::Activated`), as a byte. The
/// protocol definition gives this entry the value 2; that is taken on trust.
#[verifier::external_body]
pub(crate) fn activated_state_code() -> (code: u8)
    ensures
        code == activated_state(),
{
    zwlr_foreign_toplevel_handle_v1::State::Activated as u8
}

/// Whether a toplevel state array reports the toplevel as activated: whether
/// the activated value occurs among its bytes.
pub open spec fn is_activated(state: Seq<u8>) -> bool {
    state.contains(activated_state())
}

/// Decides whether a toplevel state array reports the toplevel as activated.
pub fn state_is_activated(state: &[u8]) -> (activated: bool)
    ensures
        activated == is_activated(state@),
{
    let code: u8 = activated_state_code();
    let mut i: usize = 0;
    while i < state.len()
        invariant
            i <= state.len(),
            code == activated_state(),
            forall|k: int| 0 <= k < i ==> state@[k] != code,
        decreases state.len() - i,
    {
        if state[i] == code {
            return true;
        }
        i += 1;
    }
    false
}

} // verus!
