use vstd::prelude::*;
use vstd::string::*;

verus! {

/// A 20-byte account or contract address.
pub type Address = [u8; 20];

/// The terms of one swap, as stored under its identifier.
#[derive(Clone, Copy, Debug, PartialEq, Eq)]
pub struct Swap {
    /// Quantity of the fungible asset that the opener locks.
    pub open_value: u64,
    /// The party that opened the swap.
    pub open_trader: Address,
    /// The fungible-token contract that holds `open_value`.
    pub open_contract_address: Address,
    /// Identifier of the token that the closer has to supply.
    pub close_value: u64,
    /// The party that receives the locked asset when the swap closes.
    pub close_trader: Address,
    /// The non-fungible-token contract that holds the close-side asset.
    pub close_contract_address: Address,
}

/// The lifecycle flag of a swap identifier.
///
/// `NONE` is the state of an identifier that was never opened. `CLOSED` and
/// `CANCELED` are terminal.
#[allow(non_camel_case_types)]
#[derive(Clone, Copy, Debug, PartialEq, Eq, Structural)]
pub enum States {
    NONE,
    OPEN,
    CLOSED,
    CANCELED,
}

/// Why an operation was refused.
#[derive(Clone, Copy, Debug, PartialEq, Eq, Structural)]
pub enum SwapError {
    /// `open` on an identifier whose state is not `NONE`.
    DuplicateSwap,
    /// The swap is not in the state that the transition starts from.
    InvalidState { expected: States, actual: States },
    /// `cancel` by a caller other than the opener.
    Unauthorized,
    /// A call to a token contract failed.
    TransferFailed,
    /// No record is stored under the identifier.
    NotFound,
    /// The stored bytes are not a record, or not a state code.
    DecodeFailed,
}

/// The name of a state.
pub open spec fn state_name(state: States) -> Seq<char> {
    match state {
        States::NONE => "NONE"@,
        States::OPEN => "OPEN"@,
        States::CLOSED => "CLOSED"@,
        States::CANCELED => "CANCELED"@,
    }
}

/// The message with which an error is reported.
pub open spec fn message_of(error: SwapError) -> Seq<char> {
    match error {
        SwapError::DuplicateSwap => "this swap_id already exists"@,
        SwapError::InvalidState { expected, actual } => "swap state must be "@ + state_name(
            expected,
        ) + ", but got "@ + state_name(actual),
        SwapError::Unauthorized => "unexpected sender"@,
        SwapError::TransferFailed => "failed to transfer"@,
        SwapError::NotFound => "swap not found"@,
        SwapError::DecodeFailed => "failed to deserialize"@,
    }
}

impl States {
    /// The name of the state.
    pub fn name(&self) -> (name: &'static str)
        ensures
            name@ == state_name(*self),
    {
        match self {
            States::NONE => "NONE",
            States::OPEN => "OPEN",
            States::CLOSED => "CLOSED",
            States::CANCELED => "CANCELED",
        }
    }
}

impl SwapError {
    /// The message with which the error is reported to the caller.
    pub fn message(&self) -> (text: String)
        ensures
            text@ == message_of(*self),
    {
        match self {
            SwapError::DuplicateSwap => String::from_str("this swap_id already exists"),
            SwapError::InvalidState { expected, actual } => String::from_str(
                "swap state must be ",
            ).concat(expected.name()).concat(", but got ").concat(actual.name()),
            SwapError::Unauthorized => String::from_str("unexpected sender"),
            SwapError::TransferFailed => String::from_str("failed to transfer"),
            SwapError::NotFound => String::from_str("swap not found"),
            SwapError::DecodeFailed => String::from_str("failed to deserialize"),
        }
    }
}

/// Whether two addresses hold the same bytes.
pub fn same_address(a: &Address, b: &Address) -> (same: bool)
    ensures
        same == (*a == *b),
{
    let mut i: usize = 0;
    while i < 20
        invariant
            i <= 20,
            forall|j: int| 0 <= j < i ==> a[j] == b[j],
        decreases 20 - i,
    {
        if a[i] != b[i] {
            return false;
        }
        i = i + 1;
    }
    assert(*a =~= *b);
    true
}

} // verus!
