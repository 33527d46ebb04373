//! The swap contract run against an in-memory host: a key-value storage, a
//! fungible-token contract and a non-fungible-token contract.

use atomic_swap::{
    cancel_swap, cancel_swap_with_refund, close_swap, deserialize, get_swap_info, get_swap_status,
    init, make_swap_states_key, make_swaps_key, next_step, open_swap, state_from_u8, Address,
    CallArg, Effect, States, Step, Swap, SwapError,
};
use std::collections::HashMap;

const SENDER1: Address = *b"00000000000000000001";
const SENDER2: Address = *b"00000000000000000002";
const SENDER3: Address = *b"00000000000000000003";
const CONTRACT_SWAP: Address = *b"00000000000000000100";
const CONTRACT_TOKEN_OPEN: Address = *b"00000000000000000101";
const CONTRACT_TOKEN_CLOSE: Address = *b"00000000000000000110";
const TOKEN1: u64 = 1;

/// What the contract sees of the world, and the two token contracts.
#[derive(Clone)]
struct Host {
    storage: HashMap<Vec<u8>, Vec<u8>>,
    balances: HashMap<Address, u64>,
    allowances: HashMap<(Address, Address), u64>,
    owners: HashMap<u64, Address>,
    approvals: HashMap<u64, Address>,
    gateway_calls: usize,
}

impl Host {
    fn new() -> Host {
        Host {
            storage: HashMap::new(),
            balances: HashMap::new(),
            allowances: HashMap::new(),
            owners: HashMap::new(),
            approvals: HashMap::new(),
            gateway_calls: 0,
        }
    }

    fn erc20_init(&mut self, sender: Address) {
        self.balances.insert(sender, 100000 * 10);
    }

    fn erc20_balance_of(&self, owner: Address) -> u64 {
        self.balances.get(&owner).copied().unwrap_or(0)
    }

    fn erc20_approve(&mut self, sender: Address, spender: Address, value: u64) {
        self.allowances.insert((sender, spender), value);
    }

    fn erc20_transfer(&mut self, sender: Address, to: Address, value: u64) -> bool {
        let from_balance = self.erc20_balance_of(sender);
        if from_balance < value {
            return false;
        }
        self.balances.insert(sender, from_balance - value);
        let to_balance = self.erc20_balance_of(to);
        self.balances.insert(to, to_balance + value);
        true
    }

    fn erc20_transfer_from(
        &mut self,
        sender: Address,
        from: Address,
        to: Address,
        value: u64,
    ) -> bool {
        let allowed = self.allowances.get(&(from, sender)).copied().unwrap_or(0);
        if allowed < value || self.erc20_balance_of(from) < value {
            return false;
        }
        self.allowances.insert((from, sender), allowed - value);
        let from_balance = self.erc20_balance_of(from);
        self.balances.insert(from, from_balance - value);
        let to_balance = self.erc20_balance_of(to);
        self.balances.insert(to, to_balance + value);
        true
    }

    fn erc721_mint(&mut self, to: Address, token: u64) {
        self.owners.insert(token, to);
    }

    fn erc721_owner_of(&self, token: u64) -> Option<Address> {
        self.owners.get(&token).copied()
    }

    fn erc721_approve(&mut self, sender: Address, spender: Address, token: u64) {
        if self.erc721_owner_of(token) == Some(sender) {
            self.approvals.insert(token, spender);
        }
    }

    fn erc721_transfer_from(
        &mut self,
        sender: Address,
        from: Address,
        to: Address,
        token: u64,
    ) -> bool {
        if self.erc721_owner_of(token) != Some(from) {
            return false;
        }
        if sender != from && self.approvals.get(&token) != Some(&sender) {
            return false;
        }
        self.approvals.remove(&token);
        self.owners.insert(token, to);
        true
    }

    /// The call gateway: the swap contract is the sender of what it calls.
    fn call_contract(&mut self, target: &Address, method: &[u8], args: &[CallArg]) -> bool {
        self.gateway_calls += 1;
        if *target == CONTRACT_TOKEN_OPEN && method == b"transfer" {
            match args {
                [CallArg::Account(to), CallArg::Amount(value)] => {
                    self.erc20_transfer(CONTRACT_SWAP, *to, *value)
                }
                _ => false,
            }
        } else if *target == CONTRACT_TOKEN_OPEN && method == b"transferFrom" {
            match args {
                [CallArg::Account(from), CallArg::Account(to), CallArg::Amount(value)] => {
                    self.erc20_transfer_from(CONTRACT_SWAP, *from, *to, *value)
                }
                _ => false,
            }
        } else if *target == CONTRACT_TOKEN_CLOSE && method == b"transferFrom" {
            match args {
                [CallArg::Account(from), CallArg::Account(to), CallArg::Amount(token)] => {
                    self.erc721_transfer_from(CONTRACT_SWAP, *from, *to, *token)
                }
                _ => false,
            }
        } else {
            false
        }
    }

    fn perform(&mut self, effect: &Effect) -> bool {
        match effect {
            Effect::Write { key, value } => {
                self.storage.insert(key.clone(), value.clone());
                true
            }
            Effect::Call { target, method, args } => self.call_contract(target, method, args),
        }
    }

    /// Runs a plan as one invocation: what it changed is discarded when it
    /// fails.
    fn run(&mut self, plan: Vec<Effect>) -> Result<(), SwapError> {
        let before = self.clone();
        let mut performed = 0;
        let mut succeeded = true;
        loop {
            match next_step(&plan, performed, succeeded) {
                Step::Perform(index) => {
                    succeeded = self.perform(&plan[index]);
                    performed += 1;
                }
                Step::Finish => return Ok(()),
                Step::Abort(error) => {
                    let calls = self.gateway_calls;
                    *self = before;
                    self.gateway_calls = calls;
                    return Err(error);
                }
            }
        }
    }

    fn flag(&self, swap_id: &[u8]) -> Option<&Vec<u8>> {
        self.storage.get(&make_swap_states_key(swap_id))
    }

    fn record(&self, swap_id: &[u8]) -> Option<&Vec<u8>> {
        self.storage.get(&make_swaps_key(swap_id))
    }

    fn open_swap(
        &mut self,
        sender: Address,
        swap_id: &[u8],
        open_value: u64,
        open_contract_address: Address,
        close_value: u64,
        close_trader: Address,
        close_contract_address: Address,
    ) -> Result<(), SwapError> {
        let plan = open_swap(
            self.flag(swap_id),
            sender,
            CONTRACT_SWAP,
            swap_id,
            open_value,
            open_contract_address,
            close_value,
            close_trader,
            close_contract_address,
        )?;
        self.run(plan)
    }

    fn close_swap(&mut self, sender: Address, swap_id: &[u8]) -> Result<(), SwapError> {
        let plan = close_swap(self.flag(swap_id), self.record(swap_id), sender, swap_id)?;
        self.run(plan)
    }

    fn cancel_swap(&mut self, sender: Address, swap_id: &[u8]) -> Result<(), SwapError> {
        let plan = cancel_swap(self.flag(swap_id), self.record(swap_id), sender, swap_id)?;
        self.run(plan)
    }

    fn cancel_swap_with_refund(
        &mut self,
        sender: Address,
        swap_id: &[u8],
    ) -> Result<(), SwapError> {
        let plan =
            cancel_swap_with_refund(self.flag(swap_id), self.record(swap_id), sender, swap_id)?;
        self.run(plan)
    }

    fn get_swap_status(&self, swap_id: &[u8]) -> Result<u8, SwapError> {
        get_swap_status(self.flag(swap_id))
    }

    fn get_swap_info(&self, swap_id: &[u8]) -> Result<Vec<u8>, SwapError> {
        get_swap_info(self.record(swap_id))
    }
}

fn standard_swap() -> Swap {
    Swap {
        open_value: 100u64,
        open_trader: SENDER1,
        open_contract_address: CONTRACT_TOKEN_OPEN,
        close_value: TOKEN1,
        close_trader: SENDER2,
        close_contract_address: CONTRACT_TOKEN_CLOSE,
    }
}

/// The two token contracts with their approvals, before any swap.
fn setup_tokens() -> Host {
    let mut host = Host::new();
    host.erc20_init(SENDER1);
    host.erc721_mint(SENDER2, TOKEN1);
    host.erc20_approve(SENDER1, CONTRACT_SWAP, 100u64);
    host.erc721_approve(SENDER2, CONTRACT_SWAP, TOKEN1);
    host
}

fn setup_swap(swap_id: Vec<u8>) -> Host {
    let mut host = Host::new();
    host.erc20_init(SENDER1);
    host.erc721_mint(SENDER2, TOKEN1);
    assert_eq!(100000 * 10, host.erc20_balance_of(SENDER1));
    // approve a token on open-contract
    host.erc20_approve(SENDER1, CONTRACT_SWAP, 100u64);
    // ensure that our swap id is unused
    assert_eq!(Ok(0u8), host.get_swap_status(&swap_id));
    // open a swap contract. (sender1 is opener)
    host.open_swap(
        SENDER1,
        &swap_id,
        100u64,
        CONTRACT_TOKEN_OPEN,
        TOKEN1,
        SENDER2,
        CONTRACT_TOKEN_CLOSE,
    )
    .unwrap();
    // check if swap status is valid
    let status = host.get_swap_status(&swap_id).unwrap();
    assert_eq!(Some(States::OPEN), state_from_u8(status));
    // check if swap info is valid
    let swap_bytes = host.get_swap_info(&swap_id).unwrap();
    let swap: Swap = deserialize(&swap_bytes).unwrap();
    assert_eq!(
        swap,
        Swap {
            open_value: 100u64,
            open_trader: SENDER1,
            open_contract_address: CONTRACT_TOKEN_OPEN,
            close_value: TOKEN1,
            close_trader: SENDER2,
            close_contract_address: CONTRACT_TOKEN_CLOSE,
        }
    );
    // approve a token on close-contract
    host.erc721_approve(SENDER2, CONTRACT_SWAP, TOKEN1);
    host
}

#[test]
fn init_test() {
    let mut host = Host::new();
    host.run(init()).unwrap();
    assert!(host.storage.is_empty());
    assert_eq!(0, host.gateway_calls);
}

#[test]
fn standard_swap_test() {
    let swap_id = b"swap1".to_vec();
    let mut host = setup_swap(swap_id.clone());
    // close swap contract. (sender2 is closer)
    host.close_swap(SENDER2, &swap_id).unwrap();
    // check if each balance is valid
    assert_eq!(100000 * 10 - 100, host.erc20_balance_of(SENDER1));
    assert_eq!(100, host.erc20_balance_of(SENDER2));
    let owner = host.erc721_owner_of(TOKEN1).unwrap();
    assert_eq!(SENDER1, owner);
    // nothing else has moved
    assert_eq!(0, host.erc20_balance_of(CONTRACT_SWAP));
    assert_eq!(0, host.erc20_balance_of(SENDER3));
    assert_eq!(3, host.gateway_calls);
}

#[test]
fn cancel_swap_test() {
    let swap_id = b"swap2".to_vec();
    let mut host = setup_swap(swap_id.clone());
    // ensure that canceling swap is success before closing
    host.cancel_swap(SENDER1, &swap_id).unwrap();
    // check if swap status is valid
    let status = host.get_swap_status(&swap_id).unwrap();
    assert_eq!(Some(States::CANCELED), state_from_u8(status));
}

#[test]
fn try_cancel_after_close() {
    let swap_id = b"swap3".to_vec();
    let mut host = setup_swap(swap_id.clone());
    // close swap contract. (sender2 is closer)
    host.close_swap(SENDER2, &swap_id).unwrap();
    // ensure that canceling swap is failed after closing
    assert!(host.cancel_swap(SENDER1, &swap_id).is_err());
    // check if swap status is valid
    let status = host.get_swap_status(&swap_id).unwrap();
    assert_eq!(Some(States::CLOSED), state_from_u8(status));
}

#[test]
fn duplicated_closing() {
    let swap_id = b"swap4".to_vec();
    let mut host = setup_swap(swap_id.clone());
    // close swap contract. (sender2 is closer)
    host.close_swap(SENDER2, &swap_id).unwrap();
    // close swap contract again. (sender2 is closer)
    assert!(host.close_swap(SENDER2, &swap_id).is_err());
}

#[test]
fn open_duplicated_swaps() {
    let swap_id = b"swap5".to_vec();
    let mut host = setup_swap(swap_id.clone());
    // open a swap contract with same swap_id. (sender1 is opener)
    assert!(host
        .open_swap(
            SENDER1,
            &swap_id,
            50u64,
            CONTRACT_TOKEN_OPEN,
            TOKEN1,
            SENDER2,
            CONTRACT_TOKEN_CLOSE,
        )
        .is_err());
    // close swap contract. (sender2 is closer)
    host.close_swap(SENDER2, &swap_id).unwrap();
    // open a swap contract with same swap_id again. (sender1 is opener)
    assert!(host
        .open_swap(
            SENDER1,
            &swap_id,
            10u64,
            CONTRACT_TOKEN_OPEN,
            TOKEN1,
            SENDER2,
            CONTRACT_TOKEN_CLOSE,
        )
        .is_err());
}

#[test]
fn never_opened_identifier_has_no_state_and_no_record() {
    let host = setup_swap(b"known".to_vec());
    for swap_id in [&b"unknown"[..], &b""[..], &b"know"[..], &b"known/"[..], &b"States/known"[..]] {
        assert_eq!(Ok(0u8), host.get_swap_status(swap_id));
        assert_eq!(Err(SwapError::NotFound), host.get_swap_info(swap_id));
    }
}

#[test]
fn second_open_is_duplicate_and_keeps_first_record() {
    let swap_id = b"twice".to_vec();
    let mut host = setup_swap(swap_id.clone());
    host.erc20_approve(SENDER1, CONTRACT_SWAP, 1000u64);
    let second = host.open_swap(
        SENDER3,
        &swap_id,
        7u64,
        CONTRACT_TOKEN_CLOSE,
        9u64,
        SENDER1,
        CONTRACT_TOKEN_OPEN,
    );
    assert_eq!(Err(SwapError::DuplicateSwap), second);
    let stored = deserialize(&host.get_swap_info(&swap_id).unwrap()).unwrap();
    assert_eq!(standard_swap(), stored);
    assert_eq!(Ok(1u8), host.get_swap_status(&swap_id));
    // the refused open has called no contract
    assert_eq!(1, host.gateway_calls);
}

#[test]
fn stranger_may_close_and_assets_go_where_the_record_says() {
    let swap_id = b"stranger".to_vec();
    let mut host = setup_swap(swap_id.clone());
    // the token now belongs to a third party, who has approved the contract
    assert!(host.erc721_transfer_from(CONTRACT_SWAP, SENDER2, SENDER3, TOKEN1));
    host.erc721_approve(SENDER3, CONTRACT_SWAP, TOKEN1);
    host.close_swap(SENDER3, &swap_id).unwrap();
    assert_eq!(Ok(2u8), host.get_swap_status(&swap_id));
    assert_eq!(Some(SENDER1), host.erc721_owner_of(TOKEN1));
    assert_eq!(100, host.erc20_balance_of(SENDER2));
    assert_eq!(0, host.erc20_balance_of(SENDER3));
    assert_eq!(100000 * 10 - 100, host.erc20_balance_of(SENDER1));
}

#[test]
fn close_plan_is_flag_then_token_then_escrow() {
    let swap_id = b"plan".to_vec();
    let host = setup_swap(swap_id.clone());
    let plan = close_swap(host.flag(&swap_id), host.record(&swap_id), SENDER3, &swap_id).unwrap();
    assert_eq!(
        plan,
        vec![
            Effect::Write { key: b"swapStates/plan".to_vec(), value: vec![2u8] },
            Effect::Call {
                target: CONTRACT_TOKEN_CLOSE,
                method: b"transferFrom".to_vec(),
                args: vec![
                    CallArg::Account(SENDER3),
                    CallArg::Account(SENDER1),
                    CallArg::Amount(TOKEN1),
                ],
            },
            Effect::Call {
                target: CONTRACT_TOKEN_OPEN,
                method: b"transfer".to_vec(),
                args: vec![CallArg::Account(SENDER2), CallArg::Amount(100)],
            },
        ]
    );
}

#[test]
fn open_plan_is_escrow_then_record_then_flag() {
    let plan = open_swap(
        None,
        SENDER1,
        CONTRACT_SWAP,
        b"plan",
        100,
        CONTRACT_TOKEN_OPEN,
        TOKEN1,
        SENDER2,
        CONTRACT_TOKEN_CLOSE,
    )
    .unwrap();
    assert_eq!(3, plan.len());
    assert_eq!(
        plan[0],
        Effect::Call {
            target: CONTRACT_TOKEN_OPEN,
            method: b"transferFrom".to_vec(),
            args: vec![
                CallArg::Account(SENDER1),
                CallArg::Account(CONTRACT_SWAP),
                CallArg::Amount(100),
            ],
        }
    );
    match &plan[1] {
        Effect::Write { key, value } => {
            assert_eq!(&b"swaps/plan".to_vec(), key);
            assert_eq!(Ok(standard_swap()), deserialize(value));
        }
        other => panic!("unexpected effect {:?}", other),
    }
    assert_eq!(plan[2], Effect::Write { key: b"swapStates/plan".to_vec(), value: vec![1u8] });
}

#[test]
fn cancel_by_stranger_is_unauthorized_and_swap_stays_open() {
    let swap_id = b"mine".to_vec();
    let mut host = setup_swap(swap_id.clone());
    assert_eq!(Err(SwapError::Unauthorized), host.cancel_swap(SENDER2, &swap_id));
    assert_eq!(Err(SwapError::Unauthorized), host.cancel_swap(SENDER3, &swap_id));
    assert_eq!(Err(SwapError::Unauthorized), host.cancel_swap(CONTRACT_SWAP, &swap_id));
    assert_eq!(Ok(1u8), host.get_swap_status(&swap_id));
    assert_eq!(Err(SwapError::Unauthorized), host.cancel_swap_with_refund(SENDER2, &swap_id));
    assert_eq!(Ok(1u8), host.get_swap_status(&swap_id));
}

#[test]
fn cancel_after_close_is_invalid_state() {
    let swap_id = b"closed".to_vec();
    let mut host = setup_swap(swap_id.clone());
    host.close_swap(SENDER2, &swap_id).unwrap();
    assert_eq!(
        Err(SwapError::InvalidState { expected: States::OPEN, actual: States::CLOSED }),
        host.cancel_swap(SENDER1, &swap_id)
    );
    assert_eq!(
        Err(SwapError::InvalidState { expected: States::OPEN, actual: States::CLOSED }),
        host.cancel_swap_with_refund(SENDER1, &swap_id)
    );
    assert_eq!(Ok(2u8), host.get_swap_status(&swap_id));
}

#[test]
fn second_close_is_invalid_state_and_calls_nothing() {
    let swap_id = b"once".to_vec();
    let mut host = setup_swap(swap_id.clone());
    assert_eq!(1, host.gateway_calls);
    host.close_swap(SENDER2, &swap_id).unwrap();
    assert_eq!(3, host.gateway_calls);
    assert_eq!(
        Err(SwapError::InvalidState { expected: States::OPEN, actual: States::CLOSED }),
        host.close_swap(SENDER2, &swap_id)
    );
    assert_eq!(3, host.gateway_calls);
    assert_eq!(Ok(2u8), host.get_swap_status(&swap_id));
    assert_eq!(100, host.erc20_balance_of(SENDER2));
}

#[test]
fn close_after_cancel_is_invalid_state() {
    let swap_id = b"gone".to_vec();
    let mut host = setup_swap(swap_id.clone());
    host.cancel_swap(SENDER1, &swap_id).unwrap();
    assert_eq!(Ok(3u8), host.get_swap_status(&swap_id));
    assert_eq!(
        Err(SwapError::InvalidState { expected: States::OPEN, actual: States::CANCELED }),
        host.close_swap(SENDER2, &swap_id)
    );
    assert_eq!(Ok(3u8), host.get_swap_status(&swap_id));
    // the escrow stays with the contract
    assert_eq!(100, host.erc20_balance_of(CONTRACT_SWAP));
    assert_eq!(100000 * 10 - 100, host.erc20_balance_of(SENDER1));
}

#[test]
fn cancel_with_refund_returns_the_escrow() {
    let swap_id = b"refund".to_vec();
    let mut host = setup_swap(swap_id.clone());
    let plan =
        cancel_swap_with_refund(host.flag(&swap_id), host.record(&swap_id), SENDER1, &swap_id)
            .unwrap();
    assert_eq!(
        plan,
        vec![
            Effect::Write { key: b"swapStates/refund".to_vec(), value: vec![3u8] },
            Effect::Call {
                target: CONTRACT_TOKEN_OPEN,
                method: b"transfer".to_vec(),
                args: vec![CallArg::Account(SENDER1), CallArg::Amount(100)],
            },
        ]
    );
    host.cancel_swap_with_refund(SENDER1, &swap_id).unwrap();
    assert_eq!(Ok(3u8), host.get_swap_status(&swap_id));
    assert_eq!(0, host.erc20_balance_of(CONTRACT_SWAP));
    assert_eq!(100000 * 10, host.erc20_balance_of(SENDER1));
}

#[test]
fn plain_cancel_plans_one_write() {
    let swap_id = b"plain".to_vec();
    let host = setup_swap(swap_id.clone());
    let plan = cancel_swap(host.flag(&swap_id), host.record(&swap_id), SENDER1, &swap_id).unwrap();
    assert_eq!(plan, vec![Effect::Write { key: b"swapStates/plain".to_vec(), value: vec![3u8] }]);
}

#[test]
fn close_and_cancel_before_open_are_invalid_state() {
    let mut host = setup_tokens();
    assert_eq!(
        Err(SwapError::InvalidState { expected: States::OPEN, actual: States::NONE }),
        host.close_swap(SENDER2, b"none")
    );
    assert_eq!(
        Err(SwapError::InvalidState { expected: States::OPEN, actual: States::NONE }),
        host.cancel_swap(SENDER1, b"none")
    );
    assert_eq!(Ok(0u8), host.get_swap_status(b"none"));
    assert_eq!(0, host.gateway_calls);
}

#[test]
fn open_without_allowance_fails_and_writes_nothing() {
    let mut host = Host::new();
    host.erc20_init(SENDER1);
    let opening = host.open_swap(
        SENDER1,
        b"poor",
        100,
        CONTRACT_TOKEN_OPEN,
        TOKEN1,
        SENDER2,
        CONTRACT_TOKEN_CLOSE,
    );
    assert_eq!(Err(SwapError::TransferFailed), opening);
    assert!(host.storage.is_empty());
    assert_eq!(Ok(0u8), host.get_swap_status(b"poor"));
    assert_eq!(Err(SwapError::NotFound), host.get_swap_info(b"poor"));
    assert_eq!(100000 * 10, host.erc20_balance_of(SENDER1));
    assert_eq!(1, host.gateway_calls);
}

#[test]
fn close_whose_transfer_fails_is_rolled_back_by_the_host() {
    let swap_id = b"unapproved".to_vec();
    let mut host = setup_swap(swap_id.clone());
    // SENDER3 does not own the token
    assert_eq!(Err(SwapError::TransferFailed), host.close_swap(SENDER3, &swap_id));
    assert_eq!(Ok(1u8), host.get_swap_status(&swap_id));
    assert_eq!(Some(SENDER2), host.erc721_owner_of(TOKEN1));
    assert_eq!(100, host.erc20_balance_of(CONTRACT_SWAP));
    // the owner can still close
    host.close_swap(SENDER2, &swap_id).unwrap();
    assert_eq!(Ok(2u8), host.get_swap_status(&swap_id));
}

#[test]
fn close_whose_second_transfer_fails_moves_nothing() {
    let swap_id = b"drained".to_vec();
    let mut host = setup_swap(swap_id.clone());
    // the escrow is gone
    assert!(host.erc20_transfer(CONTRACT_SWAP, SENDER3, 100));
    let calls = host.gateway_calls;
    assert_eq!(Err(SwapError::TransferFailed), host.close_swap(SENDER2, &swap_id));
    assert_eq!(calls + 2, host.gateway_calls);
    assert_eq!(Ok(1u8), host.get_swap_status(&swap_id));
    assert_eq!(Some(SENDER2), host.erc721_owner_of(TOKEN1));
}

#[test]
fn close_sets_the_flag_before_it_calls() {
    let swap_id = b"order".to_vec();
    let host = setup_swap(swap_id.clone());
    let plan = close_swap(host.flag(&swap_id), host.record(&swap_id), SENDER2, &swap_id).unwrap();
    // a host that does not discard writes holds the swap as closed from the
    // first step on
    let mut careless = host.clone();
    assert_eq!(Step::Perform(0), next_step(&plan, 0, true));
    assert!(careless.perform(&plan[0]));
    assert_eq!(Ok(2u8), careless.get_swap_status(&swap_id));
    assert_eq!(Step::Perform(1), next_step(&plan, 1, true));
    assert_eq!(Step::Abort(SwapError::TransferFailed), next_step(&plan, 2, false));
    assert_eq!(Ok(2u8), careless.get_swap_status(&swap_id));
}

#[test]
fn swaps_do_not_disturb_each_other() {
    let mut host = setup_swap(b"a".to_vec());
    host.erc20_approve(SENDER1, CONTRACT_SWAP, 5u64);
    host.open_swap(SENDER1, b"a/b", 5, CONTRACT_TOKEN_OPEN, 2, SENDER3, CONTRACT_TOKEN_CLOSE)
        .unwrap();
    host.cancel_swap(SENDER1, b"a").unwrap();
    assert_eq!(Ok(3u8), host.get_swap_status(b"a"));
    assert_eq!(Ok(1u8), host.get_swap_status(b"a/b"));
    assert_eq!(Ok(0u8), host.get_swap_status(b"b"));
    assert_eq!(Ok(standard_swap()), deserialize(&host.get_swap_info(b"a").unwrap()));
    let other = deserialize(&host.get_swap_info(b"a/b").unwrap()).unwrap();
    assert_eq!(5, other.open_value);
    assert_eq!(SENDER3, other.close_trader);
    assert_eq!(4, host.storage.len());
}

#[test]
fn empty_identifier_is_an_identifier() {
    let mut host = setup_swap(Vec::new());
    assert_eq!(Ok(1u8), host.get_swap_status(b""));
    assert!(host.storage.contains_key(&b"swaps/".to_vec()));
    assert!(host.storage.contains_key(&b"swapStates/".to_vec()));
    host.close_swap(SENDER2, b"").unwrap();
    assert_eq!(Ok(2u8), host.get_swap_status(b""));
}

#[test]
fn corrupt_flag_is_reported() {
    let mut host = setup_swap(b"bad".to_vec());
    host.storage.insert(b"swapStates/bad".to_vec(), vec![4u8]);
    assert_eq!(Err(SwapError::DecodeFailed), host.get_swap_status(b"bad"));
    assert_eq!(Err(SwapError::DecodeFailed), host.close_swap(SENDER2, b"bad"));
    assert_eq!(Err(SwapError::DecodeFailed), host.cancel_swap(SENDER1, b"bad"));
    let opening =
        host.open_swap(SENDER1, b"bad", 1, CONTRACT_TOKEN_OPEN, 1, SENDER2, CONTRACT_TOKEN_CLOSE);
    assert_eq!(Err(SwapError::DecodeFailed), opening);
}

#[test]
fn corrupt_or_missing_record_is_reported() {
    let mut host = setup_swap(b"torn".to_vec());
    host.storage.insert(b"swaps/torn".to_vec(), b"{\"open_value\":100}".to_vec());
    assert_eq!(Err(SwapError::DecodeFailed), host.get_swap_info(b"torn"));
    assert_eq!(Err(SwapError::DecodeFailed), host.close_swap(SENDER2, b"torn"));
    assert_eq!(Err(SwapError::DecodeFailed), host.cancel_swap(SENDER1, b"torn"));
    host.storage.remove(&b"swaps/torn".to_vec());
    assert_eq!(Err(SwapError::NotFound), host.get_swap_info(b"torn"));
    assert_eq!(Err(SwapError::NotFound), host.close_swap(SENDER2, b"torn"));
    assert_eq!(Err(SwapError::NotFound), host.cancel_swap(SENDER1, b"torn"));
    assert_eq!(Ok(1u8), host.get_swap_status(b"torn"));
}
