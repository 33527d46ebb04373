use vstd::prelude::*;
use crate::json::{decoded, deserialize, record_text, serialize};
use crate::keys::{make_swaps_key, swaps_key};
use crate::plan::{
    outcome_view, plan_view, transfer, transfer_call, transfer_from, transfer_from_call, Effect,
    EffectView,
};
use crate::state::{
    check_swap_open, flag_write, get_swap_states, open_check, set_swap_states, status_of,
    stored_view,
};
use crate::types::{same_address, Address, States, Swap, SwapError};

verus! {

/// The write that stores `swap` as the record of `swap_id`.
pub open spec fn record_write(swap_id: Seq<u8>, swap: Swap) -> EffectView {
    EffectView::Write { key: swaps_key(swap_id), value: record_text(swap) }
}

/// The plan of `open`: take `swap.open_value` of the opener's tokens into
/// the escrow of this contract, then store the record, then set the flag to
/// `OPEN`.
pub open spec fn open_plan(contract_address: Address, swap_id: Seq<u8>, swap: Swap) -> Seq<
    EffectView,
> {
    seq![
        transfer_from_call(
            swap.open_contract_address,
            swap.open_trader,
            contract_address,
            swap.open_value,
        ),
        record_write(swap_id, swap),
        flag_write(swap_id, States::OPEN),
    ]
}

/// The plan of `close` for the caller `sender`: set the flag to `CLOSED`,
/// then move the token `close_value` from the caller to the opener, then
/// release the escrow to `close_trader`.
pub open spec fn close_plan(swap_id: Seq<u8>, swap: Swap, sender: Address) -> Seq<EffectView> {
    seq![
        flag_write(swap_id, States::CLOSED),
        transfer_from_call(
            swap.close_contract_address,
            sender,
            swap.open_trader,
            swap.close_value,
        ),
        transfer_call(swap.open_contract_address, swap.close_trader, swap.open_value),
    ]
}

/// The plan of `cancel`: set the flag to `CANCELED`. The escrow stays where
/// it is.
pub open spec fn cancel_plan(swap_id: Seq<u8>) -> Seq<EffectView> {
    seq![flag_write(swap_id, States::CANCELED)]
}

/// The plan of `cancel` with refund: set the flag to `CANCELED`, then return
/// the escrow to the opener.
pub open spec fn refund_plan(swap_id: Seq<u8>, swap: Swap) -> Seq<EffectView> {
    seq![
        flag_write(swap_id, States::CANCELED),
        transfer_call(swap.open_contract_address, swap.open_trader, swap.open_value),
    ]
}

/// The record that is stored under the record key of a swap: `NotFound`
/// where nothing is stored there.
pub open spec fn record_of(stored: Option<Seq<u8>>) -> Result<Swap, SwapError> {
    match stored {
        None => Err(SwapError::NotFound),
        Some(bytes) => decoded(bytes),
    }
}

/// What `open` decides: its plan in state `NONE`, `DuplicateSwap` in every
/// other state.
pub open spec fn opening(
    stored_state: Option<Seq<u8>>,
    contract_address: Address,
    swap_id: Seq<u8>,
    swap: Swap,
) -> Result<Seq<EffectView>, SwapError> {
    match status_of(stored_state) {
        Err(error) => Err(error),
        Ok(States::NONE) => Ok(open_plan(contract_address, swap_id, swap)),
        Ok(_) => Err(SwapError::DuplicateSwap),
    }
}

/// What `close` decides for the caller `sender`: its plan in state `OPEN`,
/// `InvalidState` in every other state. Who the caller is does not decide
/// whether there is a plan.
pub open spec fn closing(
    stored_state: Option<Seq<u8>>,
    stored_record: Option<Seq<u8>>,
    sender: Address,
    swap_id: Seq<u8>,
) -> Result<Seq<EffectView>, SwapError> {
    match open_check(stored_state) {
        Err(error) => Err(error),
        Ok(_) => match record_of(stored_record) {
            Err(error) => Err(error),
            Ok(swap) => Ok(close_plan(swap_id, swap, sender)),
        },
    }
}

/// What `cancel` decides for the caller `sender`: its plan in state `OPEN`
/// and for the opener, `InvalidState` in every other state, `Unauthorized` for
/// every other caller.
pub open spec fn cancelling(
    stored_state: Option<Seq<u8>>,
    stored_record: Option<Seq<u8>>,
    sender: Address,
    swap_id: Seq<u8>,
) -> Result<Seq<EffectView>, SwapError> {
    match open_check(stored_state) {
        Err(error) => Err(error),
        Ok(_) => match record_of(stored_record) {
            Err(error) => Err(error),
            Ok(swap) => if swap.open_trader == sender {
                Ok(cancel_plan(swap_id))
            } else {
                Err(SwapError::Unauthorized)
            },
        },
    }
}

/// What `cancel` with refund decides: as `cancelling`, with the plan that
/// returns the escrow.
pub open spec fn cancelling_with_refund(
    stored_state: Option<Seq<u8>>,
    stored_record: Option<Seq<u8>>,
    sender: Address,
    swap_id: Seq<u8>,
) -> Result<Seq<EffectView>, SwapError> {
    match open_check(stored_state) {
        Err(error) => Err(error),
        Ok(_) => match record_of(stored_record) {
            Err(error) => Err(error),
            Ok(swap) => if swap.open_trader == sender {
                Ok(refund_plan(swap_id, swap))
            } else {
                Err(SwapError::Unauthorized)
            },
        },
    }
}

/// What the query for the record answers: the text of the stored record.
pub open spec fn informing(stored_record: Option<Seq<u8>>) -> Result<Seq<u8>, SwapError> {
    match record_of(stored_record) {
        Ok(swap) => Ok(record_text(swap)),
        Err(error) => Err(error),
    }
}

/// The answer of a query as a mathematical value.
pub open spec fn answer_view(answer: Result<Vec<u8>, SwapError>) -> Result<Seq<u8>, SwapError> {
    match answer {
        Ok(bytes) => Ok(bytes@),
        Err(error) => Err(error),
    }
}

/// Initialises the contract: there is nothing to do.
pub fn init() -> (plan: Vec<Effect>)
    ensures
        plan@.len() == 0,
{
    Vec::new()
}

/// Opens the swap `swap_id` for `sender`.
///
/// `stored_state` is what the host holds under the flag key of `swap_id`,
/// `contract_address` the address of this contract, which keeps the opener's
/// tokens until the swap is closed. The plan starts with the transfer into
/// escrow, so that nothing is written when that transfer fails.
pub fn open_swap(
    stored_state: Option<&Vec<u8>>,
    sender: Address,
    contract_address: Address,
    swap_id: &[u8],
    open_value: u64,
    open_contract_address: Address,
    close_value: u64,
    close_trader: Address,
    close_contract_address: Address,
) -> (outcome: Result<Vec<Effect>, SwapError>)
    ensures
        outcome_view(outcome) == opening(
            stored_view(stored_state),
            contract_address,
            swap_id@,
            Swap {
                open_value,
                open_trader: sender,
                open_contract_address,
                close_value,
                close_trader,
                close_contract_address,
            },
        ),
{
    let state = get_swap_states(stored_state)?;
    match state {
        States::NONE => {},
        _ => {
            return Err(SwapError::DuplicateSwap);
        },
    }
    let escrow = transfer_from(open_contract_address, sender, contract_address, open_value);
    let swap = Swap {
        open_value,
        open_trader: sender,
        open_contract_address,
        close_value,
        close_trader,
        close_contract_address,
    };
    let record = set_swap(swap_id, &swap)?;
    let flag = set_swap_states(swap_id, States::OPEN);
    let plan = vec![escrow, record, flag];
    assert(plan_view(plan@) =~= open_plan(contract_address, swap_id@, swap));
    Ok(plan)
}

/// Answers the query for the record of a swap with its text.
pub fn get_swap_info(stored_record: Option<&Vec<u8>>) -> (answer: Result<Vec<u8>, SwapError>)
    ensures
        answer_view(answer) == informing(stored_view(stored_record)),
{
    let swap = get_swap(stored_record)?;
    serialize(&swap)
}

/// Cancels the swap `swap_id` for `sender`, who has to be its opener.
///
/// `stored_state` and `stored_record` are what the host holds under the flag
/// key and the record key of `swap_id`. The locked tokens are not returned.
pub fn cancel_swap(
    stored_state: Option<&Vec<u8>>,
    stored_record: Option<&Vec<u8>>,
    sender: Address,
    swap_id: &[u8],
) -> (outcome: Result<Vec<Effect>, SwapError>)
    ensures
        outcome_view(outcome) == cancelling(
            stored_view(stored_state),
            stored_view(stored_record),
            sender,
            swap_id@,
        ),
{
    check_swap_open(stored_state)?;
    let swap = get_swap(stored_record)?;
    if !same_address(&swap.open_trader, &sender) {
        Err(SwapError::Unauthorized)
    } else {
        let plan = vec![set_swap_states(swap_id, States::CANCELED)];
        assert(plan_view(plan@) =~= cancel_plan(swap_id@));
        Ok(plan)
    }
}

/// Cancels the swap `swap_id` for `sender`, who has to be its opener, and
/// returns the locked tokens to the opener.
pub fn cancel_swap_with_refund(
    stored_state: Option<&Vec<u8>>,
    stored_record: Option<&Vec<u8>>,
    sender: Address,
    swap_id: &[u8],
) -> (outcome: Result<Vec<Effect>, SwapError>)
    ensures
        outcome_view(outcome) == cancelling_with_refund(
            stored_view(stored_state),
            stored_view(stored_record),
            sender,
            swap_id@,
        ),
{
    check_swap_open(stored_state)?;
    let swap = get_swap(stored_record)?;
    if !same_address(&swap.open_trader, &sender) {
        Err(SwapError::Unauthorized)
    } else {
        let flag = set_swap_states(swap_id, States::CANCELED);
        let refund = transfer(swap.open_contract_address, swap.open_trader, swap.open_value);
        let plan = vec![flag, refund];
        assert(plan_view(plan@) =~= refund_plan(swap_id@, swap));
        Ok(plan)
    }
}

/// Closes the swap `swap_id` for `sender`, whoever that is.
///
/// `stored_state` and `stored_record` are what the host holds under the flag
/// key and the record key of `swap_id`. The flag is set before the transfers,
/// so that a call back into this contract while they run finds the swap
/// `CLOSED`. If a transfer fails, the host has to discard that write with the
/// rest of the invocation.
pub fn close_swap(
    stored_state: Option<&Vec<u8>>,
    stored_record: Option<&Vec<u8>>,
    sender: Address,
    swap_id: &[u8],
) -> (outcome: Result<Vec<Effect>, SwapError>)
    ensures
        outcome_view(outcome) == closing(
            stored_view(stored_state),
            stored_view(stored_record),
            sender,
            swap_id@,
        ),
{
    check_swap_open(stored_state)?;
    let swap = get_swap(stored_record)?;
    let flag = set_swap_states(swap_id, States::CLOSED);
    let delivery = transfer_from(
        swap.close_contract_address,
        sender,
        swap.open_trader,
        swap.close_value,
    );
    let release = transfer(swap.open_contract_address, swap.close_trader, swap.open_value);
    let plan = vec![flag, delivery, release];
    assert(plan_view(plan@) =~= close_plan(swap_id@, swap, sender));
    Ok(plan)
}

/// The effect that stores `swap` as the record of `swap_id`.
pub fn set_swap(swap_id: &[u8], swap: &Swap) -> (effect: Result<Effect, SwapError>)
    ensures
        effect is Ok,
        effect->Ok_0@ == record_write(swap_id@, *swap),
{
    let value = serialize(swap)?;
    let key = make_swaps_key(swap_id);
    Ok(Effect::Write { key, value })
}

/// The record of a swap, from what is stored under its record key.
pub fn get_swap(stored_record: Option<&Vec<u8>>) -> (swap: Result<Swap, SwapError>)
    ensures
        swap == record_of(stored_view(stored_record)),
{
    match stored_record {
        Some(bytes) => deserialize(bytes.as_slice()),
        None => Err(SwapError::NotFound),
    }
}

} // verus!
