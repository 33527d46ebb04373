use vstd::prelude::*;
use crate::laws::{
    law_operations_keep_consistency, law_other_identifiers_untouched,
    law_record_is_never_rewritten, law_status_always_known, law_transitions,
};
use crate::ledger::{
    after, cancel_outcome, cancel_with_refund_outcome, close_outcome, consistent, holds,
    holds_nothing, in_state, open_outcome, status, Storage,
};
use crate::plan::EffectView;
use crate::types::{Address, States, Swap, SwapError};

verus! {

/// One invocation of the contract that may change its storage.
pub enum Operation {
    Open { contract_address: Address, swap_id: Seq<u8>, swap: Swap },
    Close { sender: Address, swap_id: Seq<u8> },
    Cancel { sender: Address, swap_id: Seq<u8> },
    CancelWithRefund { sender: Address, swap_id: Seq<u8> },
}

impl Operation {
    /// The identifier that the operation is about.
    pub open spec fn swap_id(self) -> Seq<u8> {
        match self {
            Operation::Open { swap_id, .. } => swap_id,
            Operation::Close { swap_id, .. } => swap_id,
            Operation::Cancel { swap_id, .. } => swap_id,
            Operation::CancelWithRefund { swap_id, .. } => swap_id,
        }
    }

    /// What the operation decides on `storage`.
    pub open spec fn outcome(self, storage: Storage) -> Result<Seq<EffectView>, SwapError> {
        match self {
            Operation::Open { contract_address, swap_id, swap } => open_outcome(
                storage,
                contract_address,
                swap_id,
                swap,
            ),
            Operation::Close { sender, swap_id } => close_outcome(storage, sender, swap_id),
            Operation::Cancel { sender, swap_id } => cancel_outcome(storage, sender, swap_id),
            Operation::CancelWithRefund { sender, swap_id } => cancel_with_refund_outcome(
                storage,
                sender,
                swap_id,
            ),
        }
    }
}

/// An operation together with how its calls to the token contracts ended.
pub struct Invocation {
    pub operation: Operation,
    pub transfers_succeed: bool,
}

/// The storage after an invocation. Where a transfer failed, the host has
/// discarded what the invocation wrote.
pub open spec fn applied(storage: Storage, invocation: Invocation) -> Storage {
    if invocation.transfers_succeed {
        after(storage, invocation.operation.outcome(storage))
    } else {
        storage
    }
}

/// The storage after a history of invocations that began on the empty storage.
pub open spec fn replayed(history: Seq<Invocation>) -> Storage
    decreases history.len(),
{
    if history.len() == 0 {
        Map::empty()
    } else {
        applied(replayed(history.drop_last()), history.last())
    }
}

/// Whether `history` holds an `open` of `swap_id`.
pub open spec fn was_opened(history: Seq<Invocation>, swap_id: Seq<u8>) -> bool {
    exists|i: int|
        0 <= i < history.len() && (#[trigger] history[i]).operation is Open
            && history[i].operation.swap_id() == swap_id
}

/// After every history the storage is consistent: the state of every
/// identifier can be read, and an identifier has a record exactly if its state
/// is not `NONE`.
pub proof fn law_every_history_is_consistent(history: Seq<Invocation>)
    ensures
        consistent(replayed(history)),
    decreases history.len(),
{
    if history.len() > 0 {
        let before = replayed(history.drop_last());
        law_every_history_is_consistent(history.drop_last());
        lemma_applied_keeps_consistency(before, history.last());
    }
}

/// An identifier that was never opened is in state `NONE` and has no record,
/// whatever else has happened.
pub proof fn law_never_opened_means_none(history: Seq<Invocation>, swap_id: Seq<u8>)
    requires
        !was_opened(history, swap_id),
    ensures
        in_state(replayed(history), swap_id, States::NONE),
        holds_nothing(replayed(history), swap_id),
    decreases history.len(),
{
    law_every_history_is_consistent(history);
    law_status_always_known(replayed(history), swap_id);
    if history.len() > 0 {
        let earlier = history.drop_last();
        let last = history.last();
        let before = replayed(earlier);
        assert(!was_opened(earlier, swap_id)) by {
            if was_opened(earlier, swap_id) {
                let i = choose|i: int|
                    0 <= i < earlier.len() && (#[trigger] earlier[i]).operation is Open
                        && earlier[i].operation.swap_id() == swap_id;
                assert(history[i] == earlier[i]);
            }
        }
        law_never_opened_means_none(earlier, swap_id);
        lemma_applied_state(before, last, swap_id);
    }
}

/// The state of a swap never goes back: once it is not `NONE` it is never
/// `NONE` again, and once it is `CLOSED` or `CANCELED` it stays what it is.
pub proof fn law_states_never_go_back(
    history: Seq<Invocation>,
    later: Seq<Invocation>,
    swap_id: Seq<u8>,
)
    ensures
        !in_state(replayed(history), swap_id, States::NONE) ==> !in_state(
            replayed(history + later),
            swap_id,
            States::NONE,
        ),
        in_state(replayed(history), swap_id, States::CLOSED) ==> in_state(
            replayed(history + later),
            swap_id,
            States::CLOSED,
        ),
        in_state(replayed(history), swap_id, States::CANCELED) ==> in_state(
            replayed(history + later),
            swap_id,
            States::CANCELED,
        ),
    decreases later.len(),
{
    if later.len() == 0 {
        assert(history + later == history);
    } else {
        let whole = history + later;
        assert(whole.drop_last() == history + later.drop_last());
        law_states_never_go_back(history, later.drop_last(), swap_id);
        law_every_history_is_consistent(whole.drop_last());
        law_status_always_known(replayed(whole.drop_last()), swap_id);
        lemma_applied_state(replayed(whole.drop_last()), later.last(), swap_id);
    }
}

/// The record of a swap is what its first `open` stored, for ever.
pub proof fn law_records_never_change(
    history: Seq<Invocation>,
    later: Seq<Invocation>,
    swap_id: Seq<u8>,
    swap: Swap,
)
    requires
        holds(replayed(history), swap_id, swap),
    ensures
        holds(replayed(history + later), swap_id, swap),
    decreases later.len(),
{
    if later.len() == 0 {
        assert(history + later == history);
    } else {
        let whole = history + later;
        assert(whole.drop_last() == history + later.drop_last());
        law_records_never_change(history, later.drop_last(), swap_id, swap);
        let before = replayed(whole.drop_last());
        law_every_history_is_consistent(whole.drop_last());
        lemma_applied_record(before, later.last(), swap_id, swap);
    }
}

/// An invocation leaves a consistent storage consistent.
proof fn lemma_applied_keeps_consistency(storage: Storage, invocation: Invocation)
    requires
        consistent(storage),
    ensures
        consistent(applied(storage, invocation)),
{
    match invocation.operation {
        Operation::Open { contract_address, swap_id, swap } => {
            law_operations_keep_consistency(
                storage,
                contract_address,
                swap.open_trader,
                swap_id,
                swap,
            );
        },
        Operation::Close { sender, swap_id } => {
            law_operations_keep_consistency(storage, sender, sender, swap_id, arbitrary());
        },
        Operation::Cancel { sender, swap_id } => {
            law_operations_keep_consistency(storage, sender, sender, swap_id, arbitrary());
        },
        Operation::CancelWithRefund { sender, swap_id } => {
            law_operations_keep_consistency(storage, sender, sender, swap_id, arbitrary());
        },
    }
}

/// What an invocation does to the state of an identifier: nothing, or one of
/// the three transitions, and the first of them by `open` of that identifier
/// only.
proof fn lemma_applied_state(storage: Storage, invocation: Invocation, swap_id: Seq<u8>)
    requires
        status(storage, swap_id) is Ok,
    ensures
        ({
            let next = applied(storage, invocation);
            ||| status(next, swap_id) == status(storage, swap_id)
            ||| in_state(storage, swap_id, States::NONE) && in_state(next, swap_id, States::OPEN)
                && invocation.operation is Open && invocation.operation.swap_id() == swap_id
            ||| in_state(storage, swap_id, States::OPEN) && in_state(next, swap_id, States::CLOSED)
            ||| in_state(storage, swap_id, States::OPEN) && in_state(
                next,
                swap_id,
                States::CANCELED,
            )
        }),
{
    let own = invocation.operation.swap_id();
    match invocation.operation {
        Operation::Open { contract_address, swap_id: _, swap } => {
            if own == swap_id {
                law_transitions(storage, contract_address, swap.open_trader, swap_id, swap);
            } else {
                law_other_identifiers_untouched(
                    storage,
                    contract_address,
                    swap.open_trader,
                    own,
                    swap,
                    swap_id,
                );
            }
        },
        Operation::Close { sender, swap_id: _ } => {
            if own == swap_id {
                law_transitions(storage, sender, sender, swap_id, arbitrary());
            } else {
                law_other_identifiers_untouched(storage, sender, sender, own, arbitrary(), swap_id);
            }
        },
        Operation::Cancel { sender, swap_id: _ } => {
            if own == swap_id {
                law_transitions(storage, sender, sender, swap_id, arbitrary());
            } else {
                law_other_identifiers_untouched(storage, sender, sender, own, arbitrary(), swap_id);
            }
        },
        Operation::CancelWithRefund { sender, swap_id: _ } => {
            if own == swap_id {
                law_transitions(storage, sender, sender, swap_id, arbitrary());
            } else {
                law_other_identifiers_untouched(storage, sender, sender, own, arbitrary(), swap_id);
            }
        },
    }
}

/// An invocation leaves a record that exists as it is.
proof fn lemma_applied_record(
    storage: Storage,
    invocation: Invocation,
    swap_id: Seq<u8>,
    swap: Swap,
)
    requires
        consistent(storage),
        holds(storage, swap_id, swap),
    ensures
        holds(applied(storage, invocation), swap_id, swap),
{
    let own = invocation.operation.swap_id();
    match invocation.operation {
        Operation::Open { contract_address, swap_id: _, swap: terms } => {
            if own == swap_id {
                law_record_is_never_rewritten(
                    storage,
                    contract_address,
                    terms.open_trader,
                    swap_id,
                    terms,
                    swap,
                );
            } else {
                law_other_identifiers_untouched(
                    storage,
                    contract_address,
                    terms.open_trader,
                    own,
                    terms,
                    swap_id,
                );
            }
        },
        Operation::Close { sender, swap_id: _ } => {
            if own == swap_id {
                law_record_is_never_rewritten(storage, sender, sender, swap_id, arbitrary(), swap);
            } else {
                law_other_identifiers_untouched(storage, sender, sender, own, arbitrary(), swap_id);
            }
        },
        Operation::Cancel { sender, swap_id: _ } => {
            if own == swap_id {
                law_record_is_never_rewritten(storage, sender, sender, swap_id, arbitrary(), swap);
            } else {
                law_other_identifiers_untouched(storage, sender, sender, own, arbitrary(), swap_id);
            }
        },
        Operation::CancelWithRefund { sender, swap_id: _ } => {
            if own == swap_id {
                law_record_is_never_rewritten(storage, sender, sender, swap_id, arbitrary(), swap);
            } else {
                law_other_identifiers_untouched(storage, sender, sender, own, arbitrary(), swap_id);
            }
        },
    }
}

} // verus!
