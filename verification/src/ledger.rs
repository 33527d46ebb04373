use vstd::prelude::*;
use crate::contract::{cancelling, cancelling_with_refund, closing, opening, record_of};
use crate::keys::{swap_states_key, swaps_key};
use crate::plan::{step_after, EffectView, Step};
use crate::state::status_of;
use crate::types::{Address, States, Swap, SwapError};

verus! {

/// The storage of the contract: what the host holds under each key.
pub type Storage = Map<Seq<u8>, Seq<u8>>;

/// What the host reads under `key`.
pub open spec fn read(storage: Storage, key: Seq<u8>) -> Option<Seq<u8>> {
    if storage.dom().contains(key) {
        Some(storage[key])
    } else {
        None
    }
}

/// The storage once the host has carried out `effect`. A call to a token
/// contract leaves the storage of this contract as it is.
pub open spec fn carried_out(storage: Storage, effect: EffectView) -> Storage {
    match effect {
        EffectView::Write { key, value } => storage.insert(key, value),
        EffectView::Call { .. } => storage,
    }
}

/// The storage once the host has carried out every effect of `plan`, in order.
pub open spec fn written(storage: Storage, plan: Seq<EffectView>) -> Storage
    decreases plan.len(),
{
    if plan.len() == 0 {
        storage
    } else {
        carried_out(written(storage, plan.drop_last()), plan.last())
    }
}

/// The calls of `plan`, in order.
pub open spec fn calls(plan: Seq<EffectView>) -> Seq<EffectView>
    decreases plan.len(),
{
    if plan.len() == 0 {
        Seq::empty()
    } else if plan.last() is Call {
        calls(plan.drop_last()).push(plan.last())
    } else {
        calls(plan.drop_last())
    }
}

/// How the run of a plan of `length` effects ends when the host goes by
/// `step_after` and the effect at each index ends as `succeeds` says: the
/// number of effects that were carried out, and the result of the operation.
pub open spec fn run(
    length: nat,
    succeeds: spec_fn(nat) -> bool,
    performed: nat,
    succeeded: bool,
) -> (nat, Result<(), SwapError>)
    decreases length - performed,
{
    match step_after(length, performed, succeeded) {
        Step::Perform(_) => run(length, succeeds, performed + 1, succeeds(performed)),
        Step::Finish => (performed, Ok(())),
        Step::Abort(error) => (performed, Err(error)),
    }
}

/// The storage after an operation: as the plan leaves it, if there is one and
/// all of it was carried out; unchanged, if the operation was refused.
pub open spec fn after(storage: Storage, outcome: Result<Seq<EffectView>, SwapError>) -> Storage {
    match outcome {
        Ok(plan) => written(storage, plan),
        Err(_) => storage,
    }
}

/// The state of `swap_id` in `storage`.
pub open spec fn status(storage: Storage, swap_id: Seq<u8>) -> Result<States, SwapError> {
    status_of(read(storage, swap_states_key(swap_id)))
}

/// The record of `swap_id` in `storage`.
pub open spec fn record(storage: Storage, swap_id: Seq<u8>) -> Result<Swap, SwapError> {
    record_of(read(storage, swaps_key(swap_id)))
}

/// Whether `swap_id` is in state `state` in `storage`.
pub open spec fn in_state(storage: Storage, swap_id: Seq<u8>, state: States) -> bool {
    status(storage, swap_id) == Ok::<States, SwapError>(state)
}

/// Whether `storage` holds `swap` as the record of `swap_id`.
pub open spec fn holds(storage: Storage, swap_id: Seq<u8>, swap: Swap) -> bool {
    record(storage, swap_id) == Ok::<Swap, SwapError>(swap)
}

/// Whether `swap_id` has no record in `storage`.
pub open spec fn holds_nothing(storage: Storage, swap_id: Seq<u8>) -> bool {
    record(storage, swap_id) == Err::<Swap, SwapError>(SwapError::NotFound)
}

/// Whether the operation decided on `plan`.
pub open spec fn plans(outcome: Result<Seq<EffectView>, SwapError>, plan: Seq<EffectView>) -> bool {
    outcome == Ok::<Seq<EffectView>, SwapError>(plan)
}

/// Whether the operation was refused with `error`.
pub open spec fn refuses(outcome: Result<Seq<EffectView>, SwapError>, error: SwapError) -> bool {
    outcome == Err::<Seq<EffectView>, SwapError>(error)
}

/// What `open` decides on `storage`, for the opener `swap.open_trader`.
pub open spec fn open_outcome(
    storage: Storage,
    contract_address: Address,
    swap_id: Seq<u8>,
    swap: Swap,
) -> Result<Seq<EffectView>, SwapError> {
    opening(read(storage, swap_states_key(swap_id)), contract_address, swap_id, swap)
}

/// What `close` decides on `storage`, for the caller `sender`.
pub open spec fn close_outcome(storage: Storage, sender: Address, swap_id: Seq<u8>) -> Result<
    Seq<EffectView>,
    SwapError,
> {
    closing(
        read(storage, swap_states_key(swap_id)),
        read(storage, swaps_key(swap_id)),
        sender,
        swap_id,
    )
}

/// What `cancel` decides on `storage`, for the caller `sender`.
pub open spec fn cancel_outcome(storage: Storage, sender: Address, swap_id: Seq<u8>) -> Result<
    Seq<EffectView>,
    SwapError,
> {
    cancelling(
        read(storage, swap_states_key(swap_id)),
        read(storage, swaps_key(swap_id)),
        sender,
        swap_id,
    )
}

/// What `cancel` with refund decides on `storage`, for the caller `sender`.
pub open spec fn cancel_with_refund_outcome(
    storage: Storage,
    sender: Address,
    swap_id: Seq<u8>,
) -> Result<Seq<EffectView>, SwapError> {
    cancelling_with_refund(
        read(storage, swap_states_key(swap_id)),
        read(storage, swaps_key(swap_id)),
        sender,
        swap_id,
    )
}

/// The storage holds a record for exactly the identifiers that have a flag,
/// each flag is the one byte of a state other than `NONE`, and each record
/// can be read.
pub open spec fn consistent(storage: Storage) -> bool {
    forall|swap_id: Seq<u8>|
        match #[trigger] read(storage, swap_states_key(swap_id)) {
            None => read(storage, swaps_key(swap_id)) is None,
            Some(flag) => flag.len() == 1 && 1 <= flag[0] <= 3 && record(storage, swap_id) is Ok,
        }
}

/// Carrying out one more effect.
pub proof fn lemma_written_push(storage: Storage, plan: Seq<EffectView>, effect: EffectView)
    ensures
        written(storage, plan.push(effect)) == carried_out(written(storage, plan), effect),
{
    assert(plan.push(effect).drop_last() == plan);
}

/// A plan of one effect.
pub proof fn lemma_written_one(storage: Storage, first: EffectView)
    ensures
        written(storage, seq![first]) == carried_out(storage, first),
{
    lemma_written_push(storage, Seq::empty(), first);
}

/// A plan of two effects.
pub proof fn lemma_written_two(storage: Storage, first: EffectView, second: EffectView)
    ensures
        written(storage, seq![first, second]) == carried_out(
            carried_out(storage, first),
            second,
        ),
{
    lemma_written_one(storage, first);
    lemma_written_push(storage, seq![first], second);
    assert(seq![first, second] == seq![first].push(second));
}

/// A plan of three effects.
pub proof fn lemma_written_three(
    storage: Storage,
    first: EffectView,
    second: EffectView,
    third: EffectView,
)
    ensures
        written(storage, seq![first, second, third]) == carried_out(
            carried_out(carried_out(storage, first), second),
            third,
        ),
{
    lemma_written_two(storage, first, second);
    lemma_written_push(storage, seq![first, second], third);
    assert(seq![first, second, third] == seq![first, second].push(third));
}

/// The calls of a plan with one more effect.
pub proof fn lemma_calls_push(plan: Seq<EffectView>, effect: EffectView)
    ensures
        calls(plan.push(effect)) == if effect is Call {
            calls(plan).push(effect)
        } else {
            calls(plan)
        },
{
    assert(plan.push(effect).drop_last() == plan);
}

} // verus!
