use vstd::prelude::*;
use crate::text::ascii;
use crate::types::{Address, SwapError};

verus! {

/// One argument of a call to a token contract. The host encodes it.
#[derive(Clone, Copy, Debug, PartialEq, Eq)]
pub enum CallArg {
    Account(Address),
    Amount(u64),
}

/// One thing that the host has to do for an operation.
#[derive(Debug, PartialEq, Eq)]
pub enum Effect {
    /// Store `value` under `key`, replacing what was there.
    Write { key: Vec<u8>, value: Vec<u8> },
    /// Invoke `method` of the contract at `target` with `args`, and wait for it.
    Call { target: Address, method: Vec<u8>, args: Vec<CallArg> },
}

/// An effect as a mathematical value.
pub enum EffectView {
    Write { key: Seq<u8>, value: Seq<u8> },
    Call { target: Address, method: Seq<u8>, args: Seq<CallArg> },
}

impl View for Effect {
    type V = EffectView;

    open spec fn view(&self) -> EffectView {
        match *self {
            Effect::Write { key, value } => EffectView::Write { key: key@, value: value@ },
            Effect::Call { target, method, args } => EffectView::Call {
                target,
                method: method@,
                args: args@,
            },
        }
    }
}

impl Clone for Effect {
    fn clone(&self) -> (copy: Self)
        ensures
            copy@ == self@,
    {
        match self {
            Effect::Write { key, value } => {
                let key_copy = key.clone();
                let value_copy = value.clone();
                Effect::Write { key: key_copy, value: value_copy }
            },
            Effect::Call { target, method, args } => {
                let method_copy = method.clone();
                let args_copy = args.clone();
                Effect::Call { target: *target, method: method_copy, args: args_copy }
            },
        }
    }
}

/// The effects of a plan as mathematical values, in order.
pub open spec fn plan_view(plan: Seq<Effect>) -> Seq<EffectView> {
    Seq::new(plan.len(), |i: int| plan[i]@)
}

/// What an operation hands back: the plan to run, or why there is none.
pub open spec fn outcome_view(outcome: Result<Vec<Effect>, SwapError>) -> Result<
    Seq<EffectView>,
    SwapError,
> {
    match outcome {
        Ok(plan) => Ok(plan_view(plan@)),
        Err(error) => Err(error),
    }
}

/// The name of the method that moves tokens on behalf of their owner.
pub open spec fn transfer_from_method() -> Seq<u8> {
    ascii("transferFrom"@)
}

/// The name of the method that moves the caller's own tokens.
pub open spec fn transfer_method() -> Seq<u8> {
    ascii("transfer"@)
}

/// The call `transferFrom(from, to, value)` on the contract at `target`.
pub open spec fn transfer_from_call(
    target: Address,
    from: Address,
    to: Address,
    value: u64,
) -> EffectView {
    EffectView::Call {
        target,
        method: transfer_from_method(),
        args: seq![CallArg::Account(from), CallArg::Account(to), CallArg::Amount(value)],
    }
}

/// The call `transfer(to, value)` on the contract at `target`.
pub open spec fn transfer_call(target: Address, to: Address, value: u64) -> EffectView {
    EffectView::Call {
        target,
        method: transfer_method(),
        args: seq![CallArg::Account(to), CallArg::Amount(value)],
    }
}

/// What the host does next while it runs a plan.
#[derive(Clone, Copy, Debug, PartialEq, Eq, Structural)]
pub enum Step {
    /// Carry out the effect at this index of the plan.
    Perform(usize),
    /// Every effect was carried out: the operation succeeded.
    Finish,
    /// Stop and report the error; the host discards what the operation wrote.
    Abort(SwapError),
}

/// The rule by which a plan is run: in order, and no further than the first
/// effect that failed.
pub open spec fn step_after(length: nat, performed: nat, succeeded: bool) -> Step {
    if !succeeded {
        Step::Abort(SwapError::TransferFailed)
    } else if performed < length {
        Step::Perform(performed as usize)
    } else {
        Step::Finish
    }
}

/// Decides how the run of `plan` goes on, once its first `performed` effects
/// were carried out and the last of them ended as `succeeded` says. Before the
/// first effect `performed` is 0 and `succeeded` is true. A write cannot fail,
/// so an effect that failed is a call: the operation ends in `TransferFailed`.
pub fn next_step(plan: &Vec<Effect>, performed: usize, succeeded: bool) -> (step: Step)
    ensures
        step == step_after(plan@.len(), performed as nat, succeeded),
{
    if !succeeded {
        Step::Abort(SwapError::TransferFailed)
    } else if performed < plan.len() {
        Step::Perform(performed)
    } else {
        Step::Finish
    }
}

/// The effect `transferFrom(from, to, value)` on the contract at `target`.
pub fn transfer_from(target: Address, from: Address, to: Address, value: u64) -> (effect: Effect)
    ensures
        effect@ == transfer_from_call(target, from, to, value),
{
    let mut method: Vec<u8> = Vec::new();
    proof {
        reveal_strlit("transferFrom");
    }
    crate::text::push_text(&mut method, "transferFrom");
    let args = vec![CallArg::Account(from), CallArg::Account(to), CallArg::Amount(value)];
    Effect::Call { target, method, args }
}

/// The effect `transfer(to, value)` on the contract at `target`.
pub fn transfer(target: Address, to: Address, value: u64) -> (effect: Effect)
    ensures
        effect@ == transfer_call(target, to, value),
{
    let mut method: Vec<u8> = Vec::new();
    proof {
        reveal_strlit("transfer");
    }
    crate::text::push_text(&mut method, "transfer");
    let args = vec![CallArg::Account(to), CallArg::Amount(value)];
    Effect::Call { target, method, args }
}

} // verus!
