use repo_contract::contract::{CallContext, RepoContract, RepoContractInstance};
use repo_contract::effects::{Action, Effect, Event, Failure, Plan, Reply, Run};
use repo_contract::storage::Storage;
use repo_contract::uint::U256;
use repo_contract::word::Address;

const BORROWER_ADDR: Address = [
    0xea, 0x67, 0x4f, 0xdd, 0xe7, 0x14, 0xfd, 0x97, 0x9d, 0xe3, 0xed, 0xf0, 0xf5, 0x6a, 0xa9,
    0x71, 0x6b, 0x89, 0x8e, 0xc8,
];
const LENDER_ADDR: Address = [
    0xdb, 0x6f, 0xd4, 0x84, 0xcf, 0xa4, 0x6e, 0xee, 0xb7, 0x3c, 0x71, 0xed, 0xee, 0x82, 0x3e,
    0x48, 0x12, 0xf9, 0xe2, 0xe1,
];
const LOAN_TOKEN_ADDR: Address = [
    0x0f, 0x57, 0x2e, 0x52, 0x95, 0xc5, 0x7f, 0x15, 0x88, 0x6f, 0x9b, 0x26, 0x3e, 0x2f, 0x6d,
    0x2d, 0x6c, 0x7b, 0x5e, 0xc6,
];
const SECURITY_TOKEN_ADDR: Address = [
    0xcd, 0x17, 0x22, 0xf2, 0x94, 0x7d, 0xef, 0x4c, 0xf1, 0x44, 0x67, 0x9d, 0xa3, 0x9c, 0x4c,
    0x32, 0xbd, 0xc3, 0x56, 0x81,
];
const CONTRACT_ADDR: Address = [0u8; 20];

/// A token contract that answers every call with a fixed result.
#[derive(Clone, Copy, Default)]
struct TokenMock {
    transfer: bool,
    transfer_from: bool,
}

impl TokenMock {
    fn with_transfer(mut self, transfer: bool) -> TokenMock {
        self.transfer = transfer;
        self
    }
    fn with_transfer_from(mut self, transfer_from: bool) -> TokenMock {
        self.transfer_from = transfer_from;
        self
    }
}

/// A token call that the agreement made.
#[derive(Clone, Debug, PartialEq)]
enum Call {
    TransferFrom { token: Address, from: Address, to: Address, amount: U256 },
    Transfer { token: Address, to: Address, amount: U256 },
}

impl Call {
    fn address(&self) -> Address {
        match self {
            Call::TransferFrom { token, .. } => *token,
            Call::Transfer { token, .. } => *token,
        }
    }
}

/// A host for the agreement in tests: the chain's storage, the call's
/// circumstances, the token contracts it can call, and what happened.
struct Ext {
    chain: Storage,
    sender: Address,
    timestamp: u64,
    endpoints: Vec<(Address, TokenMock)>,
    calls: Vec<Call>,
    events: Vec<Event>,
    destroyed_for: Vec<Address>,
}

impl Ext {
    fn new() -> Ext {
        Ext {
            chain: Storage::with_capacity(16),
            sender: [0u8; 20],
            timestamp: 0,
            endpoints: Vec::new(),
            calls: Vec::new(),
            events: Vec::new(),
            destroyed_for: Vec::new(),
        }
    }

    /// Starts over with new circumstances and no endpoints; the chain's
    /// storage stays.
    fn reset(&mut self, sender: Address, timestamp: u64) {
        self.sender = sender;
        self.timestamp = timestamp;
        self.endpoints.clear();
        self.calls.clear();
        self.events.clear();
        self.destroyed_for.clear();
    }

    fn endpoint(&mut self, address: Address, mock: TokenMock) {
        self.endpoints.push((address, mock));
    }

    fn token(&self, address: &Address) -> TokenMock {
        match self.endpoints.iter().find(|(a, _)| a == address) {
            Some((_, m)) => *m,
            None => panic!("no contract at the called address"),
        }
    }

    fn ctx(&self) -> CallContext {
        CallContext { sender: self.sender, timestamp: self.timestamp, address: CONTRACT_ADDR }
    }

    /// Carries out a plan; a self-destruction returns here, as the test
    /// host of the agreement's chain does.
    fn run(&mut self, plan: Plan) -> bool {
        let mut run = Run::new(plan);
        let mut reply = Reply::Started;
        loop {
            match run.step(reply) {
                Action::Perform(effect) => {
                    reply = self.perform(effect);
                }
                Action::Finish(result) => return result,
                Action::Abort(failure) => panic!("call aborted: {:?}", failure),
            }
        }
    }

    fn perform(&mut self, effect: Effect) -> Reply {
        match effect {
            Effect::Write { key, value } => {
                self.chain.write(&key, &value);
                Reply::Performed
            }
            Effect::Log { event } => {
                self.events.push(event);
                Reply::Performed
            }
            Effect::TransferFrom { token, from, to, amount } => {
                let mock = self.token(&token);
                self.calls.push(Call::TransferFrom { token, from, to, amount });
                Reply::TransferReturned(mock.transfer_from)
            }
            Effect::Transfer { token, to, amount } => {
                let mock = self.token(&token);
                self.calls.push(Call::Transfer { token, to, amount });
                Reply::TransferReturned(mock.transfer)
            }
            Effect::SelfDestruct { beneficiary } => {
                self.destroyed_for.push(beneficiary);
                Reply::Performed
            }
        }
    }

    fn accept(&mut self, contract: &mut RepoContractInstance) -> bool {
        let ctx = self.ctx();
        let plan = contract.accept(&self.chain, &ctx);
        self.run(plan)
    }

    fn terminate(&mut self, contract: &mut RepoContractInstance) -> bool {
        let ctx = self.ctx();
        let plan = contract.terminate(&self.chain, &ctx);
        self.run(plan)
    }
}

fn amount(v: u64) -> U256 {
    U256::from_u64(v)
}

fn default_contract(ext: &mut Ext) -> RepoContractInstance {
    let mut contract = RepoContractInstance::new();
    let loan_amount = amount(10000);
    let security_amount = amount(50000);
    let interest_rate = amount(3);
    let activation_deadline: u64 = 10;
    let return_deadline: u64 = 20;
    let effects = contract.constructor(
        BORROWER_ADDR,
        LENDER_ADDR,
        LOAN_TOKEN_ADDR,
        SECURITY_TOKEN_ADDR,
        loan_amount,
        security_amount,
        interest_rate,
        activation_deadline,
        return_deadline,
    );
    for effect in effects {
        ext.perform(effect);
    }
    contract
}

fn active_contract(ext: &mut Ext) -> RepoContractInstance {
    ext.reset(BORROWER_ADDR, 5);
    ext.endpoint(LOAN_TOKEN_ADDR, TokenMock::default().with_transfer_from(true));
    ext.endpoint(SECURITY_TOKEN_ADDR, TokenMock::default().with_transfer_from(true));
    let mut contract = default_contract(ext);
    ext.accept(&mut contract);
    ext.sender = LENDER_ADDR;
    ext.accept(&mut contract);
    contract
}

#[test]
fn should_create_contract_with_storage() {
    let mut ext = Ext::new();
    ext.reset([0u8; 20], 0);
    let mut contract = RepoContractInstance::new();
    let loan_amount = amount(10000);
    let security_amount = amount(50000);
    let interest_rate = amount(3);
    let activation_deadline: u64 = 10;
    let return_deadline: u64 = 20;

    let effects = contract.constructor(
        BORROWER_ADDR,
        LENDER_ADDR,
        LOAN_TOKEN_ADDR,
        SECURITY_TOKEN_ADDR,
        loan_amount,
        security_amount,
        interest_rate,
        activation_deadline,
        return_deadline,
    );
    for effect in effects {
        ext.perform(effect);
    }

    let chain = &ext.chain;
    assert_eq!(contract.borrower_address(chain), BORROWER_ADDR);
    assert_eq!(contract.lender_address(chain), LENDER_ADDR);
    assert_eq!(contract.loan_token_address(chain), LOAN_TOKEN_ADDR);
    assert_eq!(contract.security_token_address(chain), SECURITY_TOKEN_ADDR);
    assert_eq!(contract.loan_amount(chain), loan_amount);
    assert_eq!(contract.security_amount(chain), security_amount);
    assert_eq!(contract.interest_rate(chain), interest_rate);
    assert_eq!(contract.activation_deadline(chain), Some(activation_deadline));
    assert_eq!(contract.return_deadline(chain), Some(return_deadline));
}

#[test]
fn should_activate_contract() {
    let mut ext = Ext::new();
    ext.reset(BORROWER_ADDR, 5);
    ext.endpoint(LOAN_TOKEN_ADDR, TokenMock::default().with_transfer_from(true));
    ext.endpoint(SECURITY_TOKEN_ADDR, TokenMock::default().with_transfer_from(true));

    let mut contract = default_contract(&mut ext);
    assert_eq!(ext.accept(&mut contract), false);
    assert_eq!(contract.borrower_acceptance(&ext.chain), true);
    // Set sender to lender
    ext.sender = LENDER_ADDR;
    assert_eq!(ext.accept(&mut contract), true);
    let ext_calls = ext.calls.clone();
    assert_eq!(ext_calls.len(), 2, "2 transfer calls expected");
    let security_transfer = &ext_calls[0];
    let loan_transfer = &ext_calls[1];
    assert_eq!(security_transfer.address(), SECURITY_TOKEN_ADDR);
    assert_eq!(loan_transfer.address(), LOAN_TOKEN_ADDR);

    // Check transfers
    assert_eq!(
        *security_transfer,
        Call::TransferFrom {
            token: SECURITY_TOKEN_ADDR,
            from: BORROWER_ADDR,
            to: CONTRACT_ADDR,
            amount: amount(50000),
        }
    );
    assert_eq!(
        *loan_transfer,
        Call::TransferFrom {
            token: LOAN_TOKEN_ADDR,
            from: LENDER_ADDR,
            to: BORROWER_ADDR,
            amount: amount(10000),
        }
    );

    assert_eq!(contract.lender_acceptance(&ext.chain), true);
    assert_eq!(contract.is_active(&ext.chain), true);
}

#[test]
#[should_panic]
fn should_panic_if_contract_cant_transfer_loan_token() {
    let mut ext = Ext::new();
    ext.reset(BORROWER_ADDR, 5);
    ext.endpoint(LOAN_TOKEN_ADDR, TokenMock::default().with_transfer_from(false));
    ext.endpoint(SECURITY_TOKEN_ADDR, TokenMock::default().with_transfer_from(true));

    let mut contract = default_contract(&mut ext);
    assert_eq!(ext.accept(&mut contract), false);
    // Set sender to lender
    ext.reset(LENDER_ADDR, 0);
    // Should panic because contact can't transfer amount of LOAN_TOKEN for some reason
    ext.accept(&mut contract);
}

#[test]
#[should_panic]
fn should_panic_if_contract_cant_transfer_security_token() {
    let mut ext = Ext::new();
    ext.reset(BORROWER_ADDR, 5);
    ext.endpoint(LOAN_TOKEN_ADDR, TokenMock::default().with_transfer_from(true));
    ext.endpoint(SECURITY_TOKEN_ADDR, TokenMock::default().with_transfer_from(false));

    let mut contract = default_contract(&mut ext);
    assert_eq!(ext.accept(&mut contract), false);
    // Set sender to lender
    ext.sender = LENDER_ADDR;
    // Should panic because contact can't transfer amount of SECURITY_TOKEN for some reason
    ext.accept(&mut contract);
}

#[test]
fn should_suicide_if_activation_deadline_came() {
    let mut ext = Ext::new();
    let mut contract = default_contract(&mut ext);
    ext.reset(BORROWER_ADDR, 11);
    assert_eq!(ext.accept(&mut contract), false);
}

#[test]
#[should_panic]
fn should_panic_if_terminate_before_accept() {
    let mut ext = Ext::new();
    let mut contract = default_contract(&mut ext);
    ext.reset(BORROWER_ADDR, 5);
    ext.terminate(&mut contract);
}

#[test]
fn should_terminate_by_borrower() {
    let mut ext = Ext::new();
    let mut contract = active_contract(&mut ext);
    ext.reset(BORROWER_ADDR, 15);
    ext.endpoint(LOAN_TOKEN_ADDR, TokenMock::default().with_transfer_from(true));
    ext.endpoint(SECURITY_TOKEN_ADDR, TokenMock::default().with_transfer(true));

    ext.terminate(&mut contract);
    let ext_calls = ext.calls.clone();
    assert_eq!(ext_calls.len(), 2, "2 transfer calls expected");

    let loan_transfer = &ext_calls[0];
    let security_transfer = &ext_calls[1];
    assert_eq!(security_transfer.address(), SECURITY_TOKEN_ADDR);
    assert_eq!(loan_transfer.address(), LOAN_TOKEN_ADDR);

    // Check transfers
    assert_eq!(
        *security_transfer,
        Call::Transfer { token: SECURITY_TOKEN_ADDR, to: BORROWER_ADDR, amount: amount(50000) }
    );
    assert_eq!(
        *loan_transfer,
        Call::TransferFrom {
            token: LOAN_TOKEN_ADDR,
            from: BORROWER_ADDR,
            to: LENDER_ADDR,
            amount: amount(10300), // 10000 + 300 of interest
        }
    );
}

#[test]
#[should_panic]
fn should_not_be_able_to_terminate_by_anybody_exept_borrower_if_deadline_hasnt_came() {
    let mut ext = Ext::new();
    let mut contract = active_contract(&mut ext);
    ext.reset(LENDER_ADDR, 15);
    ext.terminate(&mut contract);
}

#[test]
fn can_be_terminated_if_deadline() {
    let mut ext = Ext::new();
    let mut contract = active_contract(&mut ext);
    ext.reset([0u8; 20], 25); // by anybody
    ext.endpoint(SECURITY_TOKEN_ADDR, TokenMock::default().with_transfer(true));

    ext.terminate(&mut contract);

    let ext_calls = ext.calls.clone();
    assert_eq!(ext_calls.len(), 1, "1 transfer call expected");
    let security_transfer = &ext_calls[0];
    assert_eq!(security_transfer.address(), SECURITY_TOKEN_ADDR);
    // Check transfers
    assert_eq!(
        *security_transfer,
        Call::Transfer { token: SECURITY_TOKEN_ADDR, to: LENDER_ADDR, amount: amount(50000) }
    );
}

#[test]
fn terminate_before_accept_is_refused_even_where_tokens_answer() {
    let mut ext = Ext::new();
    let mut contract = default_contract(&mut ext);
    ext.reset(BORROWER_ADDR, 5);
    ext.endpoint(LOAN_TOKEN_ADDR, TokenMock::default().with_transfer_from(true).with_transfer(true));
    ext.endpoint(SECURITY_TOKEN_ADDR, TokenMock::default().with_transfer_from(true).with_transfer(true));
    let ctx = ext.ctx();
    let plan = contract.terminate(&ext.chain, &ctx);
    assert_eq!(plan.outcome, Err(Failure::NotActive));
    assert!(plan.effects.is_empty());
    let mut run = Run::new(plan);
    assert_eq!(run.step(Reply::Started), Action::Abort(Failure::NotActive));
    assert!(ext.calls.is_empty());
}
