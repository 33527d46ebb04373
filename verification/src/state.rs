use vstd::prelude::*;
use crate::keys::{make_swap_states_key, swap_states_key};
use crate::plan::{Effect, EffectView};
use crate::types::{States, SwapError};

verus! {

/// The state that a stored code stands for.
pub open spec fn state_of_code(n: u8) -> Option<States> {
    if n == 0 {
        Some(States::NONE)
    } else if n == 1 {
        Some(States::OPEN)
    } else if n == 2 {
        Some(States::CLOSED)
    } else if n == 3 {
        Some(States::CANCELED)
    } else {
        None
    }
}

/// The code under which a state is stored.
pub open spec fn code_of_state(state: States) -> u8 {
    match state {
        States::NONE => 0,
        States::OPEN => 1,
        States::CLOSED => 2,
        States::CANCELED => 3,
    }
}

/// What the host read under a key, as a mathematical value.
pub open spec fn stored_view(stored: Option<&Vec<u8>>) -> Option<Seq<u8>> {
    match stored {
        Some(bytes) => Some(bytes@),
        None => None,
    }
}

/// The state that the stored flag stands for. An identifier without a flag is
/// in state `NONE`; otherwise the first stored byte is the code.
pub open spec fn status_of(stored: Option<Seq<u8>>) -> Result<States, SwapError> {
    match stored {
        None => Ok(States::NONE),
        Some(bytes) => if bytes.len() > 0 && state_of_code(bytes[0]) is Some {
            Ok(state_of_code(bytes[0])->Some_0)
        } else {
            Err(SwapError::DecodeFailed)
        },
    }
}

/// What the query for the state answers: the code of the state.
pub open spec fn status_code_of(stored: Option<Seq<u8>>) -> Result<u8, SwapError> {
    match status_of(stored) {
        Ok(state) => Ok(code_of_state(state)),
        Err(error) => Err(error),
    }
}

/// The write that sets the flag of `swap_id` to `state`.
pub open spec fn flag_write(swap_id: Seq<u8>, state: States) -> EffectView {
    EffectView::Write { key: swap_states_key(swap_id), value: seq![code_of_state(state)] }
}

/// Whether the swap may be closed or canceled: `Ok` in state `OPEN`, the
/// state that was found in every other state.
pub open spec fn open_check(stored: Option<Seq<u8>>) -> Result<(), SwapError> {
    match status_of(stored) {
        Ok(States::OPEN) => Ok(()),
        Ok(actual) => Err(SwapError::InvalidState { expected: States::OPEN, actual }),
        Err(error) => Err(error),
    }
}

/// Decodes a state code.
pub fn state_from_u8(n: u8) -> (state: Option<States>)
    ensures
        state == state_of_code(n),
{
    match n {
        0 => Some(States::NONE),
        1 => Some(States::OPEN),
        2 => Some(States::CLOSED),
        3 => Some(States::CANCELED),
        _ => None,
    }
}

/// Encodes a state.
pub fn state_to_u8(state: States) -> (n: u8)
    ensures
        n == code_of_state(state),
{
    match state {
        States::NONE => 0,
        States::OPEN => 1,
        States::CLOSED => 2,
        States::CANCELED => 3,
    }
}

/// The effect that stores `state` as the flag of `swap_id`.
pub fn set_swap_states(swap_id: &[u8], state: States) -> (effect: Effect)
    ensures
        effect@ == flag_write(swap_id@, state),
{
    let key = make_swap_states_key(swap_id);
    let value = vec![state_to_u8(state)];
    assert(value@ == seq![code_of_state(state)]);
    Effect::Write { key, value }
}

/// The state of a swap, from what is stored under its flag key.
pub fn get_swap_states(stored: Option<&Vec<u8>>) -> (state: Result<States, SwapError>)
    ensures
        state == status_of(stored_view(stored)),
{
    match stored {
        Some(bytes) => {
            if bytes.len() == 0 {
                return Err(SwapError::DecodeFailed);
            }
            match state_from_u8(bytes[0]) {
                Some(state) => Ok(state),
                None => Err(SwapError::DecodeFailed),
            }
        },
        None => Ok(States::NONE),
    }
}

/// Succeeds if the swap is in state `OPEN`.
pub fn check_swap_open(stored: Option<&Vec<u8>>) -> (checked: Result<(), SwapError>)
    ensures
        checked == open_check(stored_view(stored)),
{
    match get_swap_states(stored) {
        Ok(States::OPEN) => Ok(()),
        Ok(actual) => Err(SwapError::InvalidState { expected: States::OPEN, actual }),
        Err(error) => Err(error),
    }
}

/// The code of the state of a swap, from what is stored under its flag key.
pub fn get_swap_status(stored: Option<&Vec<u8>>) -> (code: Result<u8, SwapError>)
    ensures
        code == status_code_of(stored_view(stored)),
{
    match get_swap_states(stored) {
        Ok(state) => Ok(state_to_u8(state)),
        Err(error) => Err(error),
    }
}

/// Each state is what its code stands for, and each code that stands for a
/// state is the code of that state.
pub proof fn lemma_codes_round_trip(state: States, n: u8)
    ensures
        state_of_code(code_of_state(state)) == Some(state),
        state_of_code(n) is Some ==> code_of_state(state_of_code(n)->Some_0) == n,
{
}

} // verus!
