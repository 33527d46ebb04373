use vstd::prelude::*;
use crate::contract::{cancel_plan, close_plan, informing, open_plan, refund_plan};
use crate::json::{lemma_round_trip, record_text};
use crate::keys::{
    lemma_namespaces_disjoint, lemma_swap_states_key_injective, lemma_swaps_key_injective,
    swap_states_key, swaps_key,
};
use crate::ledger::{
    after, calls, cancel_outcome, cancel_with_refund_outcome, close_outcome, consistent, holds,
    holds_nothing, in_state, lemma_calls_push, lemma_written_one, lemma_written_three,
    lemma_written_two, open_outcome, plans, read, record, refuses, run, status, written, Storage,
};
use crate::plan::{transfer_call, transfer_from_call, EffectView};
use crate::state::{code_of_state, flag_write};
use crate::types::{Address, States, Swap, SwapError};

verus! {

/// The storage after `open`.
pub open spec fn opened(
    storage: Storage,
    contract_address: Address,
    swap_id: Seq<u8>,
    swap: Swap,
) -> Storage {
    after(storage, open_outcome(storage, contract_address, swap_id, swap))
}

/// The storage after `close` by `sender`.
pub open spec fn closed(storage: Storage, sender: Address, swap_id: Seq<u8>) -> Storage {
    after(storage, close_outcome(storage, sender, swap_id))
}

/// The storage after `cancel` by `sender`.
pub open spec fn canceled(storage: Storage, sender: Address, swap_id: Seq<u8>) -> Storage {
    after(storage, cancel_outcome(storage, sender, swap_id))
}

/// The storage after `cancel` with refund by `sender`.
pub open spec fn refunded(storage: Storage, sender: Address, swap_id: Seq<u8>) -> Storage {
    after(storage, cancel_with_refund_outcome(storage, sender, swap_id))
}

/// `open` succeeds in state `NONE` and in no other state, where it is refused
/// with `DuplicateSwap`: `OPEN` is entered from `NONE` only.
pub proof fn law_open_only_from_none(
    storage: Storage,
    contract_address: Address,
    swap_id: Seq<u8>,
    swap: Swap,
)
    ensures
        in_state(storage, swap_id, States::NONE) <==> plans(
            open_outcome(storage, contract_address, swap_id, swap),
            open_plan(contract_address, swap_id, swap),
        ),
        in_state(storage, swap_id, States::NONE) <==> open_outcome(
            storage,
            contract_address,
            swap_id,
            swap,
        ) is Ok,
        in_state(storage, swap_id, States::OPEN) || in_state(storage, swap_id, States::CLOSED)
            || in_state(storage, swap_id, States::CANCELED) ==> refuses(
            open_outcome(storage, contract_address, swap_id, swap),
            SwapError::DuplicateSwap,
        ),
{
}

/// What a successful `open` leaves in the storage: the record and the flag
/// `OPEN` of the identifier, and every other key as it was.
pub proof fn law_open_stores_record_and_flag(
    storage: Storage,
    contract_address: Address,
    swap_id: Seq<u8>,
    swap: Swap,
)
    requires
        in_state(storage, swap_id, States::NONE),
    ensures
        opened(storage, contract_address, swap_id, swap) == storage.insert(
            swaps_key(swap_id),
            record_text(swap),
        ).insert(swap_states_key(swap_id), seq![code_of_state(States::OPEN)]),
        in_state(opened(storage, contract_address, swap_id, swap), swap_id, States::OPEN),
        holds(opened(storage, contract_address, swap_id, swap), swap_id, swap),
{
    let plan = open_plan(contract_address, swap_id, swap);
    lemma_written_three(storage, plan[0], plan[1], plan[2]);
    lemma_namespaces_disjoint(swap_id, swap_id);
    lemma_round_trip(swap);
}

/// `close` on an open swap succeeds for every caller. The token goes from the
/// caller to the opener and the escrow to `close_trader`, as the record says,
/// and the swap is `CLOSED` afterwards.
pub proof fn law_close_from_open(storage: Storage, sender: Address, swap_id: Seq<u8>, swap: Swap)
    requires
        in_state(storage, swap_id, States::OPEN),
        holds(storage, swap_id, swap),
    ensures
        plans(close_outcome(storage, sender, swap_id), close_plan(swap_id, swap, sender)),
        calls(close_plan(swap_id, swap, sender)) == seq![
            transfer_from_call(
                swap.close_contract_address,
                sender,
                swap.open_trader,
                swap.close_value,
            ),
            transfer_call(swap.open_contract_address, swap.close_trader, swap.open_value),
        ],
        in_state(closed(storage, sender, swap_id), swap_id, States::CLOSED),
        holds(closed(storage, sender, swap_id), swap_id, swap),
{
    let plan = close_plan(swap_id, swap, sender);
    lemma_written_three(storage, plan[0], plan[1], plan[2]);
    lemma_flag_written(storage, swap_id, States::CLOSED);
    lemma_calls_push(Seq::empty(), plan[0]);
    lemma_calls_push(seq![plan[0]], plan[1]);
    lemma_calls_push(seq![plan[0], plan[1]], plan[2]);
    assert(seq![plan[0], plan[1]] == seq![plan[0]].push(plan[1]));
    assert(plan == seq![plan[0], plan[1]].push(plan[2]));
}

/// `cancel` on an open swap succeeds for the opener and for nobody else. For
/// the opener the swap is `CANCELED` afterwards and no token contract is called;
/// for every other caller the operation is refused with `Unauthorized` and the
/// storage stays as it was.
pub proof fn law_cancel_from_open(storage: Storage, sender: Address, swap_id: Seq<u8>, swap: Swap)
    requires
        in_state(storage, swap_id, States::OPEN),
        holds(storage, swap_id, swap),
    ensures
        sender == swap.open_trader ==> plans(
            cancel_outcome(storage, sender, swap_id),
            cancel_plan(swap_id),
        ),
        sender == swap.open_trader ==> in_state(
            canceled(storage, sender, swap_id),
            swap_id,
            States::CANCELED,
        ),
        sender != swap.open_trader ==> refuses(
            cancel_outcome(storage, sender, swap_id),
            SwapError::Unauthorized,
        ),
        sender != swap.open_trader ==> canceled(storage, sender, swap_id) == storage,
        holds(canceled(storage, sender, swap_id), swap_id, swap),
{
    lemma_written_one(storage, flag_write(swap_id, States::CANCELED));
    lemma_flag_written(storage, swap_id, States::CANCELED);
}

/// `cancel` with refund on an open swap: as `cancel`, and for the opener the
/// plan ends with the return of the escrow to the opener.
pub proof fn law_cancel_with_refund_from_open(
    storage: Storage,
    sender: Address,
    swap_id: Seq<u8>,
    swap: Swap,
)
    requires
        in_state(storage, swap_id, States::OPEN),
        holds(storage, swap_id, swap),
    ensures
        sender == swap.open_trader ==> plans(
            cancel_with_refund_outcome(storage, sender, swap_id),
            refund_plan(swap_id, swap),
        ),
        sender == swap.open_trader ==> in_state(
            refunded(storage, sender, swap_id),
            swap_id,
            States::CANCELED,
        ),
        sender != swap.open_trader ==> refuses(
            cancel_with_refund_outcome(storage, sender, swap_id),
            SwapError::Unauthorized,
        ),
        sender != swap.open_trader ==> refunded(storage, sender, swap_id) == storage,
        holds(refunded(storage, sender, swap_id), swap_id, swap),
{
    let plan = refund_plan(swap_id, swap);
    lemma_written_two(storage, plan[0], plan[1]);
    lemma_flag_written(storage, swap_id, States::CANCELED);
}

/// `CLOSED` and `CANCELED` are terminal: every operation on such a swap is
/// refused, `open` with `DuplicateSwap` and the others with `InvalidState`, and
/// the storage stays as it was.
pub proof fn law_terminal_states(
    storage: Storage,
    contract_address: Address,
    sender: Address,
    swap_id: Seq<u8>,
    swap: Swap,
    state: States,
)
    requires
        state == States::CLOSED || state == States::CANCELED,
        in_state(storage, swap_id, state),
    ensures
        refuses(
            open_outcome(storage, contract_address, swap_id, swap),
            SwapError::DuplicateSwap,
        ),
        refuses(
            close_outcome(storage, sender, swap_id),
            SwapError::InvalidState { expected: States::OPEN, actual: state },
        ),
        refuses(
            cancel_outcome(storage, sender, swap_id),
            SwapError::InvalidState { expected: States::OPEN, actual: state },
        ),
        refuses(
            cancel_with_refund_outcome(storage, sender, swap_id),
            SwapError::InvalidState { expected: States::OPEN, actual: state },
        ),
        opened(storage, contract_address, swap_id, swap) == storage,
        closed(storage, sender, swap_id) == storage,
        canceled(storage, sender, swap_id) == storage,
        refunded(storage, sender, swap_id) == storage,
{
}

/// `close` and `cancel` on an identifier in state `NONE` are refused with
/// `InvalidState`.
pub proof fn law_nothing_to_close(storage: Storage, sender: Address, swap_id: Seq<u8>)
    requires
        in_state(storage, swap_id, States::NONE),
    ensures
        refuses(
            close_outcome(storage, sender, swap_id),
            SwapError::InvalidState { expected: States::OPEN, actual: States::NONE },
        ),
        refuses(
            cancel_outcome(storage, sender, swap_id),
            SwapError::InvalidState { expected: States::OPEN, actual: States::NONE },
        ),
        refuses(
            cancel_with_refund_outcome(storage, sender, swap_id),
            SwapError::InvalidState { expected: States::OPEN, actual: States::NONE },
        ),
{
}

/// The state of a swap moves from `NONE` to `OPEN` by `open`, from `OPEN` to
/// `CLOSED` by `close` and from `OPEN` to `CANCELED` by `cancel`, and in no
/// other way: after every other operation it is what it was.
pub proof fn law_transitions(
    storage: Storage,
    contract_address: Address,
    sender: Address,
    swap_id: Seq<u8>,
    swap: Swap,
)
    requires
        status(storage, swap_id) is Ok,
    ensures
        status(opened(storage, contract_address, swap_id, swap), swap_id) == status(
            storage,
            swap_id,
        ) || (in_state(storage, swap_id, States::NONE) && in_state(
            opened(storage, contract_address, swap_id, swap),
            swap_id,
            States::OPEN,
        )),
        status(closed(storage, sender, swap_id), swap_id) == status(storage, swap_id) || (in_state(
            storage,
            swap_id,
            States::OPEN,
        ) && in_state(closed(storage, sender, swap_id), swap_id, States::CLOSED)),
        status(canceled(storage, sender, swap_id), swap_id) == status(storage, swap_id) || (
        in_state(storage, swap_id, States::OPEN) && in_state(
            canceled(storage, sender, swap_id),
            swap_id,
            States::CANCELED,
        )),
        status(refunded(storage, sender, swap_id), swap_id) == status(storage, swap_id) || (
        in_state(storage, swap_id, States::OPEN) && in_state(
            refunded(storage, sender, swap_id),
            swap_id,
            States::CANCELED,
        )),
{
    let stored = record(storage, swap_id);
    if open_outcome(storage, contract_address, swap_id, swap) is Ok {
        law_open_stores_record_and_flag(storage, contract_address, swap_id, swap);
    }
    if close_outcome(storage, sender, swap_id) is Ok {
        law_close_from_open(storage, sender, swap_id, stored->Ok_0);
    }
    if cancel_outcome(storage, sender, swap_id) is Ok {
        law_cancel_from_open(storage, sender, swap_id, stored->Ok_0);
    }
    if cancel_with_refund_outcome(storage, sender, swap_id) is Ok {
        law_cancel_with_refund_from_open(storage, sender, swap_id, stored->Ok_0);
    }
}

/// An identifier that has no flag in a consistent storage is in state `NONE`
/// and has no record: the query for its record ends in `NotFound`.
pub proof fn law_never_opened(storage: Storage, swap_id: Seq<u8>)
    requires
        consistent(storage),
        read(storage, swap_states_key(swap_id)) is None,
    ensures
        in_state(storage, swap_id, States::NONE),
        holds_nothing(storage, swap_id),
        informing(read(storage, swaps_key(swap_id))) == Err::<Seq<u8>, SwapError>(
            SwapError::NotFound,
        ),
{
}

/// In a consistent storage the state of every identifier can be read, and an
/// identifier has a record exactly if its state is not `NONE`.
pub proof fn law_status_always_known(storage: Storage, swap_id: Seq<u8>)
    requires
        consistent(storage),
    ensures
        status(storage, swap_id) is Ok,
        in_state(storage, swap_id, States::NONE) <==> holds_nothing(storage, swap_id),
        !in_state(storage, swap_id, States::NONE) <==> record(storage, swap_id) is Ok,
{
    assert(read(storage, swap_states_key(swap_id)) is Some ==> record(storage, swap_id) is Ok);
}

/// The empty storage is consistent.
pub proof fn law_empty_storage_is_consistent()
    ensures
        consistent(Map::<Seq<u8>, Seq<u8>>::empty()),
{
}

/// Every operation leaves a consistent storage consistent. With
/// `law_empty_storage_is_consistent` this makes consistency an invariant of the
/// contract: a record exists exactly for the identifiers that were opened.
pub proof fn law_operations_keep_consistency(
    storage: Storage,
    contract_address: Address,
    sender: Address,
    swap_id: Seq<u8>,
    swap: Swap,
)
    requires
        consistent(storage),
    ensures
        consistent(opened(storage, contract_address, swap_id, swap)),
        consistent(closed(storage, sender, swap_id)),
        consistent(canceled(storage, sender, swap_id)),
        consistent(refunded(storage, sender, swap_id)),
{
    let stored = record(storage, swap_id);
    if open_outcome(storage, contract_address, swap_id, swap) is Ok {
        law_open_stores_record_and_flag(storage, contract_address, swap_id, swap);
    }
    if close_outcome(storage, sender, swap_id) is Ok {
        let plan = close_plan(swap_id, stored->Ok_0, sender);
        law_close_from_open(storage, sender, swap_id, stored->Ok_0);
        lemma_written_three(storage, plan[0], plan[1], plan[2]);
    }
    if cancel_outcome(storage, sender, swap_id) is Ok {
        law_cancel_from_open(storage, sender, swap_id, stored->Ok_0);
        lemma_written_one(storage, flag_write(swap_id, States::CANCELED));
    }
    if cancel_with_refund_outcome(storage, sender, swap_id) is Ok {
        let plan = refund_plan(swap_id, stored->Ok_0);
        law_cancel_with_refund_from_open(storage, sender, swap_id, stored->Ok_0);
        lemma_written_two(storage, plan[0], plan[1]);
    }
    lemma_only_own_keys_written(storage, contract_address, sender, swap_id, swap);
    lemma_namespaces_disjoint(swap_id, swap_id);
    lemma_consistent_next(storage, opened(storage, contract_address, swap_id, swap), swap_id);
    lemma_consistent_next(storage, closed(storage, sender, swap_id), swap_id);
    lemma_consistent_next(storage, canceled(storage, sender, swap_id), swap_id);
    lemma_consistent_next(storage, refunded(storage, sender, swap_id), swap_id);
}

/// An operation on one identifier leaves the state and the record of every
/// other identifier as they were.
pub proof fn law_other_identifiers_untouched(
    storage: Storage,
    contract_address: Address,
    sender: Address,
    swap_id: Seq<u8>,
    swap: Swap,
    other: Seq<u8>,
)
    requires
        other != swap_id,
    ensures
        status(opened(storage, contract_address, swap_id, swap), other) == status(storage, other),
        record(opened(storage, contract_address, swap_id, swap), other) == record(storage, other),
        status(closed(storage, sender, swap_id), other) == status(storage, other),
        record(closed(storage, sender, swap_id), other) == record(storage, other),
        status(canceled(storage, sender, swap_id), other) == status(storage, other),
        record(canceled(storage, sender, swap_id), other) == record(storage, other),
        status(refunded(storage, sender, swap_id), other) == status(storage, other),
        record(refunded(storage, sender, swap_id), other) == record(storage, other),
{
    lemma_only_own_keys_written(storage, contract_address, sender, swap_id, swap);
    lemma_keys_apart(swap_id, other);
}

/// The record of a swap is written once: in a consistent storage no
/// operation changes a record that exists.
pub proof fn law_record_is_never_rewritten(
    storage: Storage,
    contract_address: Address,
    sender: Address,
    swap_id: Seq<u8>,
    swap: Swap,
    stored: Swap,
)
    requires
        consistent(storage),
        holds(storage, swap_id, stored),
    ensures
        holds(opened(storage, contract_address, swap_id, swap), swap_id, stored),
        holds(closed(storage, sender, swap_id), swap_id, stored),
        holds(canceled(storage, sender, swap_id), swap_id, stored),
        holds(refunded(storage, sender, swap_id), swap_id, stored),
{
    law_status_always_known(storage, swap_id);
    if close_outcome(storage, sender, swap_id) is Ok {
        law_close_from_open(storage, sender, swap_id, stored);
    }
    if cancel_outcome(storage, sender, swap_id) is Ok {
        law_cancel_from_open(storage, sender, swap_id, stored);
    }
    if cancel_with_refund_outcome(storage, sender, swap_id) is Ok {
        law_cancel_with_refund_from_open(storage, sender, swap_id, stored);
    }
}

/// A second `open` under the same identifier is refused with `DuplicateSwap`,
/// whatever its arguments are, and the record stays that of the first.
pub proof fn law_second_open_is_refused(
    storage: Storage,
    contract_address: Address,
    swap_id: Seq<u8>,
    first: Swap,
    second_contract_address: Address,
    second: Swap,
)
    requires
        in_state(storage, swap_id, States::NONE),
    ensures
        ({
            let once = opened(storage, contract_address, swap_id, first);
            let twice = opened(once, second_contract_address, swap_id, second);
            &&& refuses(
                open_outcome(once, second_contract_address, swap_id, second),
                SwapError::DuplicateSwap,
            )
            &&& twice == once
            &&& holds(twice, swap_id, first)
            &&& in_state(twice, swap_id, States::OPEN)
        }),
{
    law_open_stores_record_and_flag(storage, contract_address, swap_id, first);
}

/// After `open`, `close` succeeds for every caller, the opener or not, and
/// routes the assets as the record of the swap says.
pub proof fn law_anyone_may_close(
    storage: Storage,
    contract_address: Address,
    swap_id: Seq<u8>,
    swap: Swap,
    closer: Address,
)
    requires
        in_state(storage, swap_id, States::NONE),
    ensures
        ({
            let once = opened(storage, contract_address, swap_id, swap);
            &&& plans(close_outcome(once, closer, swap_id), close_plan(swap_id, swap, closer))
            &&& in_state(closed(once, closer, swap_id), swap_id, States::CLOSED)
        }),
{
    law_open_stores_record_and_flag(storage, contract_address, swap_id, swap);
    law_close_from_open(opened(storage, contract_address, swap_id, swap), closer, swap_id, swap);
}

/// After `open`, `cancel` by a caller other than the opener is refused with
/// `Unauthorized`, and the swap stays `OPEN`.
pub proof fn law_stranger_cannot_cancel(
    storage: Storage,
    contract_address: Address,
    swap_id: Seq<u8>,
    swap: Swap,
    stranger: Address,
)
    requires
        in_state(storage, swap_id, States::NONE),
        stranger != swap.open_trader,
    ensures
        ({
            let once = opened(storage, contract_address, swap_id, swap);
            &&& refuses(cancel_outcome(once, stranger, swap_id), SwapError::Unauthorized)
            &&& in_state(canceled(once, stranger, swap_id), swap_id, States::OPEN)
        }),
{
    law_open_stores_record_and_flag(storage, contract_address, swap_id, swap);
    law_cancel_from_open(opened(storage, contract_address, swap_id, swap), stranger, swap_id, swap);
}

/// After `open` and `close`, `cancel` is refused with `InvalidState`, for the
/// opener too, and the swap stays `CLOSED`.
pub proof fn law_no_cancel_after_close(
    storage: Storage,
    contract_address: Address,
    swap_id: Seq<u8>,
    swap: Swap,
    closer: Address,
    canceller: Address,
)
    requires
        in_state(storage, swap_id, States::NONE),
    ensures
        ({
            let done = closed(opened(storage, contract_address, swap_id, swap), closer, swap_id);
            &&& refuses(
                cancel_outcome(done, canceller, swap_id),
                SwapError::InvalidState { expected: States::OPEN, actual: States::CLOSED },
            )
            &&& in_state(canceled(done, canceller, swap_id), swap_id, States::CLOSED)
        }),
{
    law_anyone_may_close(storage, contract_address, swap_id, swap, closer);
    let done = closed(opened(storage, contract_address, swap_id, swap), closer, swap_id);
    law_terminal_states(done, contract_address, canceller, swap_id, swap, States::CLOSED);
}

/// After `open` and `close`, a second `close` is refused with `InvalidState`
/// and the swap stays `CLOSED`. The first `close` plans two calls and the
/// second has no plan, so the token contracts are called twice in all.
pub proof fn law_no_second_close(
    storage: Storage,
    contract_address: Address,
    swap_id: Seq<u8>,
    swap: Swap,
    closer: Address,
    second_closer: Address,
)
    requires
        in_state(storage, swap_id, States::NONE),
    ensures
        ({
            let once = opened(storage, contract_address, swap_id, swap);
            let done = closed(once, closer, swap_id);
            &&& close_outcome(once, closer, swap_id) is Ok
            &&& calls(close_outcome(once, closer, swap_id)->Ok_0).len() == 2
            &&& refuses(
                close_outcome(done, second_closer, swap_id),
                SwapError::InvalidState { expected: States::OPEN, actual: States::CLOSED },
            )
            &&& in_state(closed(done, second_closer, swap_id), swap_id, States::CLOSED)
        }),
{
    let once = opened(storage, contract_address, swap_id, swap);
    law_open_stores_record_and_flag(storage, contract_address, swap_id, swap);
    law_close_from_open(once, closer, swap_id, swap);
    let done = closed(once, closer, swap_id);
    law_terminal_states(done, contract_address, second_closer, swap_id, swap, States::CLOSED);
}

/// After `open`, `cancel` by the opener leaves the swap `CANCELED`, and a
/// `close` that follows is refused with `InvalidState`.
pub proof fn law_no_close_after_cancel(
    storage: Storage,
    contract_address: Address,
    swap_id: Seq<u8>,
    swap: Swap,
    closer: Address,
)
    requires
        in_state(storage, swap_id, States::NONE),
    ensures
        ({
            let once = opened(storage, contract_address, swap_id, swap);
            let gone = canceled(once, swap.open_trader, swap_id);
            &&& cancel_outcome(once, swap.open_trader, swap_id) is Ok
            &&& in_state(gone, swap_id, States::CANCELED)
            &&& refuses(
                close_outcome(gone, closer, swap_id),
                SwapError::InvalidState { expected: States::OPEN, actual: States::CANCELED },
            )
            &&& in_state(closed(gone, closer, swap_id), swap_id, States::CANCELED)
        }),
{
    let once = opened(storage, contract_address, swap_id, swap);
    law_open_stores_record_and_flag(storage, contract_address, swap_id, swap);
    law_cancel_from_open(once, swap.open_trader, swap_id, swap);
    let gone = canceled(once, swap.open_trader, swap_id);
    law_terminal_states(gone, contract_address, closer, swap_id, swap, States::CANCELED);
}

/// A plan whose effects all succeed is carried out to its end, and the
/// operation succeeds.
pub proof fn law_run_to_the_end(length: nat, succeeds: spec_fn(nat) -> bool, performed: nat)
    requires
        performed <= length,
        forall|i: nat| performed <= i < length ==> #[trigger] succeeds(i),
    ensures
        run(length, succeeds, performed, true) == (length, Ok::<(), SwapError>(())),
    decreases length - performed,
{
    if performed < length {
        law_run_to_the_end(length, succeeds, performed + 1);
    }
}

/// A plan is carried out up to its first effect that fails and no further,
/// and the operation then ends in `TransferFailed`.
pub proof fn law_run_stops_at_first_failure(
    length: nat,
    succeeds: spec_fn(nat) -> bool,
    performed: nat,
    failing: nat,
)
    requires
        performed <= failing < length,
        !succeeds(failing),
        forall|i: nat| performed <= i < failing ==> #[trigger] succeeds(i),
    ensures
        run(length, succeeds, performed, true) == (
            failing + 1,
            Err::<(), SwapError>(SwapError::TransferFailed),
        ),
    decreases failing - performed,
{
    if performed < failing {
        law_run_stops_at_first_failure(length, succeeds, performed + 1, failing);
    } else {
        assert(run(length, succeeds, failing + 1, false) == (
            failing + 1,
            Err::<(), SwapError>(SwapError::TransferFailed),
        ));
    }
}

/// The plan of `open` starts with the transfer into escrow: up to and with
/// that call nothing is written, so a transfer that fails leaves the storage
/// as it was.
pub proof fn law_open_writes_after_escrow(
    storage: Storage,
    contract_address: Address,
    swap_id: Seq<u8>,
    swap: Swap,
)
    requires
        open_outcome(storage, contract_address, swap_id, swap) is Ok,
    ensures
        ({
            let plan = open_outcome(storage, contract_address, swap_id, swap)->Ok_0;
            &&& plan[0] is Call
            &&& written(storage, plan.take(1)) == storage
        }),
{
    let plan = open_outcome(storage, contract_address, swap_id, swap)->Ok_0;
    assert(plan.take(1) == seq![plan[0]]);
    lemma_written_one(storage, plan[0]);
}

/// The plan of `close` starts with the flag: while the transfers run, and
/// after one of them failed, the storage holds the swap as `CLOSED`, unless the
/// host discards what the invocation wrote.
pub proof fn law_close_marks_before_transfers(storage: Storage, sender: Address, swap_id: Seq<u8>)
    requires
        close_outcome(storage, sender, swap_id) is Ok,
    ensures
        ({
            let plan = close_outcome(storage, sender, swap_id)->Ok_0;
            &&& plan[0] is Write
            &&& plan[1] is Call
            &&& plan[2] is Call
            &&& in_state(written(storage, plan.take(1)), swap_id, States::CLOSED)
            &&& in_state(written(storage, plan.take(2)), swap_id, States::CLOSED)
        }),
{
    let plan = close_outcome(storage, sender, swap_id)->Ok_0;
    assert(plan.take(1) == seq![plan[0]]);
    assert(plan.take(2) == seq![plan[0], plan[1]]);
    lemma_written_one(storage, plan[0]);
    lemma_written_two(storage, plan[0], plan[1]);
    lemma_flag_written(storage, swap_id, States::CLOSED);
}

/// Writing the flag of an identifier sets its state and leaves its record.
proof fn lemma_flag_written(storage: Storage, swap_id: Seq<u8>, state: States)
    ensures
        ({
            let marked = storage.insert(swap_states_key(swap_id), seq![code_of_state(state)]);
            &&& in_state(marked, swap_id, state)
            &&& record(marked, swap_id) == record(storage, swap_id)
        }),
{
    lemma_namespaces_disjoint(swap_id, swap_id);
}

/// The keys of two distinct identifiers are four distinct keys.
proof fn lemma_keys_apart(swap_id: Seq<u8>, other: Seq<u8>)
    requires
        other != swap_id,
    ensures
        swaps_key(other) != swaps_key(swap_id),
        swap_states_key(other) != swap_states_key(swap_id),
        swaps_key(other) != swap_states_key(swap_id),
        swap_states_key(other) != swaps_key(swap_id),
{
    if swaps_key(other) == swaps_key(swap_id) {
        lemma_swaps_key_injective(other, swap_id);
    }
    if swap_states_key(other) == swap_states_key(swap_id) {
        lemma_swap_states_key_injective(other, swap_id);
    }
    lemma_namespaces_disjoint(other, swap_id);
    lemma_namespaces_disjoint(swap_id, other);
}

/// An operation on an identifier writes under the two keys of that identifier
/// and under no other key.
proof fn lemma_only_own_keys_written(
    storage: Storage,
    contract_address: Address,
    sender: Address,
    swap_id: Seq<u8>,
    swap: Swap,
)
    ensures
        forall|key: Seq<u8>|
            key != swaps_key(swap_id) && key != swap_states_key(swap_id) ==> {
                &&& #[trigger] read(opened(storage, contract_address, swap_id, swap), key) == read(
                    storage,
                    key,
                )
                &&& #[trigger] read(closed(storage, sender, swap_id), key) == read(storage, key)
                &&& #[trigger] read(canceled(storage, sender, swap_id), key) == read(storage, key)
                &&& #[trigger] read(refunded(storage, sender, swap_id), key) == read(storage, key)
            },
{
    let stored = record(storage, swap_id)->Ok_0;
    if open_outcome(storage, contract_address, swap_id, swap) is Ok {
        let plan = open_plan(contract_address, swap_id, swap);
        lemma_written_three(storage, plan[0], plan[1], plan[2]);
    }
    if close_outcome(storage, sender, swap_id) is Ok {
        let plan = close_plan(swap_id, stored, sender);
        lemma_written_three(storage, plan[0], plan[1], plan[2]);
    }
    if cancel_outcome(storage, sender, swap_id) is Ok {
        lemma_written_one(storage, flag_write(swap_id, States::CANCELED));
    }
    if cancel_with_refund_outcome(storage, sender, swap_id) is Ok {
        let plan = refund_plan(swap_id, stored);
        lemma_written_two(storage, plan[0], plan[1]);
    }
}

/// A storage that differs from a consistent one under the two keys of one
/// identifier only, and is in order for that identifier, is consistent.
proof fn lemma_consistent_next(storage: Storage, next: Storage, swap_id: Seq<u8>)
    requires
        consistent(storage),
        forall|key: Seq<u8>|
            key != swaps_key(swap_id) && key != swap_states_key(swap_id) ==> #[trigger] read(
                next,
                key,
            ) == read(storage, key),
        match read(next, swap_states_key(swap_id)) {
            None => read(next, swaps_key(swap_id)) is None,
            Some(flag) => flag.len() == 1 && 1 <= flag[0] <= 3 && record(next, swap_id) is Ok,
        },
    ensures
        consistent(next),
{
    assert forall|other: Seq<u8>|
        match #[trigger] read(next, swap_states_key(other)) {
            None => read(next, swaps_key(other)) is None,
            Some(flag) => flag.len() == 1 && 1 <= flag[0] <= 3 && record(next, other) is Ok,
        } by {
        if other != swap_id {
            lemma_keys_apart(swap_id, other);
        }
    }
}

} // verus!
