//! An atomic swap between a fungible-token contract and a non-fungible-token
//! contract, written as the decision layer of a smart contract.
//!
//! The host owns the key-value storage, the caller's identity and the gateway
//! to other contracts. Each operation of this crate takes what the host has
//! read and returns either an error or a plan: the ordered writes and contract
//! calls that the host has to carry out. Nothing here performs I/O.
//!
//! * [`types`]: the swap record, the lifecycle states and the errors.
//! * [`text`]: bytes of ASCII text and comparisons of byte strings.
//! * [`keys`]: the storage keys of the two namespaces.
//! * [`json`]: the text of a stored record and how it is read back.
//! * [`plan`]: effects, plans and the rule by which a host runs a plan.
//! * [`state`]: the stored lifecycle flag.
//! * [`contract`]: the operations `open`, `close`, `cancel` and the queries.
//! * [`ledger`]: the storage as a mathematical map, and what a plan does to it.
//! * [`laws`]: what holds of one operation and of short sequences of them.
//! * [`history`]: what holds after every history of operations.

pub mod types;
pub mod text;
pub mod keys;
pub mod plan;
pub mod json;
pub mod state;
pub mod contract;
pub mod ledger;
pub mod laws;
pub mod history;

pub use contract::{
    cancel_swap, cancel_swap_with_refund, close_swap, get_swap, get_swap_info, init, open_swap,
    set_swap,
};
pub use json::{deserialize, serialize};
pub use keys::{make_key_by_parts, make_swap_states_key, make_swaps_key};
pub use plan::{next_step, transfer, transfer_from, CallArg, Effect, Step};
pub use state::{
    check_swap_open, get_swap_states, get_swap_status, set_swap_states, state_from_u8,
    state_to_u8,
};
pub use types::{same_address, Address, States, Swap, SwapError};
