use repo_contract::contract::{checked_interest, checked_sum, CallContext, RepoContract, RepoContractInstance};
use repo_contract::effects::{Action, Effect, Event, Failure, Plan, Reply, Run};
use repo_contract::layout::{storage_key, storage_keys, Slot};
use repo_contract::storage::Storage;
use repo_contract::uint::U256;
use repo_contract::word::{
    address_to_word, same_address, same_word, u64_to_word, value_to_word, word_to_address,
    word_to_value, Address, Word,
};

const BORROWER: Address = [0x11; 20];
const LENDER: Address = [0x22; 20];
const LOAN_TOKEN: Address = [0x33; 20];
const SECURITY_TOKEN: Address = [0x44; 20];
const STRANGER: Address = [0x55; 20];
const THIS: Address = [0x66; 20];

fn amount(v: u64) -> U256 {
    U256::from_u64(v)
}

fn ctx(sender: Address, timestamp: u64) -> CallContext {
    CallContext { sender, timestamp, address: THIS }
}

fn apply(chain: &mut Storage, effects: &[Effect]) {
    for e in effects {
        if let Effect::Write { key, value } = e {
            chain.write(key, value);
        }
    }
}

/// The chain's storage after the constructor with loan 10000, security
/// 50000, rate 3%, activation deadline 10 and return deadline 20.
fn constructed_chain() -> Storage {
    let mut chain = Storage::with_capacity(16);
    let mut c = RepoContractInstance::new();
    let effects = c.constructor(
        BORROWER,
        LENDER,
        LOAN_TOKEN,
        SECURITY_TOKEN,
        amount(10000),
        amount(50000),
        amount(3),
        10,
        20,
    );
    apply(&mut chain, &effects);
    chain
}

/// One call on a fresh instance over `chain`, whose writes then land on it.
fn accept_once(chain: &mut Storage, c: CallContext) -> Plan {
    let plan = RepoContractInstance::new().accept(chain, &c);
    apply(chain, &plan.effects);
    plan
}

fn active_chain() -> Storage {
    let mut chain = constructed_chain();
    accept_once(&mut chain, ctx(BORROWER, 5));
    accept_once(&mut chain, ctx(LENDER, 5));
    chain
}

fn word_with_tail(bytes: &[u8]) -> Word {
    let mut w = [0u8; 32];
    let n = bytes.len();
    w[32 - n..].copy_from_slice(bytes);
    w
}

#[test]
fn constructor_writes_the_terms_in_slot_order() {
    let mut c = RepoContractInstance::new();
    let effects = c.constructor(
        BORROWER,
        LENDER,
        LOAN_TOKEN,
        SECURITY_TOKEN,
        amount(10000),
        amount(50000),
        amount(3),
        10,
        20,
    );
    assert_eq!(effects.len(), 9);
    assert_eq!(
        effects[0],
        Effect::Write { key: storage_key(Slot::Borrower), value: address_to_word(&BORROWER) }
    );
    assert_eq!(
        effects[4],
        Effect::Write { key: storage_key(Slot::LoanAmount), value: word_with_tail(&[0x27, 0x10]) }
    );
    assert_eq!(
        effects[8],
        Effect::Write { key: storage_key(Slot::ReturnDeadline), value: word_with_tail(&[20]) }
    );
}

#[test]
fn terms_read_back_through_a_fresh_instance() {
    let chain = constructed_chain();
    let mut c = RepoContractInstance::new();
    assert_eq!(c.borrower_address(&chain), BORROWER);
    assert_eq!(c.lender_address(&chain), LENDER);
    assert_eq!(c.loan_amount(&chain), amount(10000));
    assert_eq!(c.interest_rate(&chain), amount(3));
    assert_eq!(c.activation_deadline(&chain), Some(10));
    assert_eq!(c.borrower_acceptance(&chain), false);
    assert_eq!(c.lender_acceptance(&chain), false);
    assert_eq!(c.is_active(&chain), false);
}

#[test]
fn lender_first_then_borrower_activates() {
    let mut chain = constructed_chain();
    let first = accept_once(&mut chain, ctx(LENDER, 3));
    assert_eq!(first.outcome, Ok(false));
    assert_eq!(
        first.effects,
        vec![
            Effect::Write { key: storage_key(Slot::LendAccepted), value: u64_to_word(1) },
            Effect::Log { event: Event::LenderAcceptance },
        ]
    );
    let second = accept_once(&mut chain, ctx(BORROWER, 10));
    assert_eq!(second.outcome, Ok(true));
    assert_eq!(second.effects.len(), 4);
    assert_eq!(second.effects[1], Effect::Log { event: Event::BorrowerAcceptance });
    assert_eq!(
        second.effects[2],
        Effect::TransferFrom { token: SECURITY_TOKEN, from: BORROWER, to: THIS, amount: amount(50000) }
    );
    assert_eq!(
        second.effects[3],
        Effect::TransferFrom { token: LOAN_TOKEN, from: LENDER, to: BORROWER, amount: amount(10000) }
    );
    assert!(RepoContractInstance::new().is_active(&chain));
}

#[test]
fn active_agreement_refuses_acceptance() {
    let chain = active_chain();
    let plan = RepoContractInstance::new().accept(&chain, &ctx(BORROWER, 5));
    assert_eq!(plan.outcome, Err(Failure::AlreadyActive));
    assert!(plan.effects.is_empty());
}

#[test]
fn stranger_cannot_accept() {
    let chain = constructed_chain();
    let plan = RepoContractInstance::new().accept(&chain, &ctx(STRANGER, 5));
    assert_eq!(plan.outcome, Err(Failure::NotParticipant));
    assert!(plan.effects.is_empty());
}

#[test]
fn acceptance_is_recorded_once_and_persists() {
    let mut chain = constructed_chain();
    accept_once(&mut chain, ctx(BORROWER, 5));
    let again = accept_once(&mut chain, ctx(BORROWER, 6));
    assert_eq!(again.outcome, Ok(false));
    let mut c = RepoContractInstance::new();
    assert!(c.borrower_acceptance(&chain));
    assert!(!c.lender_acceptance(&chain));
}

#[test]
fn expired_acceptance_destroys_first() {
    let chain = constructed_chain();
    let plan = RepoContractInstance::new().accept(&chain, &ctx(LENDER, 11));
    assert_eq!(plan.effects[0], Effect::Log { event: Event::Suicide });
    assert_eq!(plan.effects[1], Effect::SelfDestruct { beneficiary: LENDER });
    assert_eq!(plan.outcome, Ok(false));
}

#[test]
fn refund_moves_loan_with_interest_and_security() {
    let chain = active_chain();
    let plan = RepoContractInstance::new().terminate(&chain, &ctx(BORROWER, 20));
    assert_eq!(plan.outcome, Ok(false));
    assert_eq!(
        plan.effects,
        vec![
            Effect::TransferFrom { token: LOAN_TOKEN, from: BORROWER, to: LENDER, amount: amount(10300) },
            Effect::Transfer { token: SECURITY_TOKEN, to: BORROWER, amount: amount(50000) },
            Effect::Log { event: Event::Refund },
            Effect::Log { event: Event::Suicide },
            Effect::SelfDestruct { beneficiary: BORROWER },
        ]
    );
}

#[test]
fn default_gives_security_to_lender() {
    let chain = active_chain();
    let plan = RepoContractInstance::new().terminate(&chain, &ctx(STRANGER, 21));
    assert_eq!(plan.outcome, Ok(false));
    assert_eq!(
        plan.effects,
        vec![
            Effect::Transfer { token: SECURITY_TOKEN, to: LENDER, amount: amount(50000) },
            Effect::Log { event: Event::Default },
            Effect::Log { event: Event::Suicide },
            Effect::SelfDestruct { beneficiary: STRANGER },
        ]
    );
}

#[test]
fn only_borrower_terminates_before_return_deadline() {
    let chain = active_chain();
    let plan = RepoContractInstance::new().terminate(&chain, &ctx(LENDER, 15));
    assert_eq!(plan.outcome, Err(Failure::NotBorrower));
    assert!(plan.effects.is_empty());
}

#[test]
fn terminate_writes_nothing() {
    let chain = active_chain();
    let plan = RepoContractInstance::new().terminate(&chain, &ctx(BORROWER, 15));
    assert!(plan.effects.iter().all(|e| !matches!(e, Effect::Write { .. })));
}

#[test]
fn return_amount_overflow_aborts() {
    let mut chain = Storage::with_capacity(16);
    let max = U256 { limbs: [u64::MAX; 4] };
    let mut c = RepoContractInstance::new();
    let effects =
        c.constructor(BORROWER, LENDER, LOAN_TOKEN, SECURITY_TOKEN, max, amount(1), amount(200), 10, 20);
    apply(&mut chain, &effects);
    let plan = RepoContractInstance::new().terminate(&chain, &ctx(BORROWER, 15));
    assert_eq!(plan.outcome, Err(Failure::ArithmeticOverflow));
}

#[test]
fn deadline_beyond_64_bits_aborts() {
    let mut chain = constructed_chain();
    let mut big = [0u8; 32];
    big[23] = 1;
    chain.write(&storage_key(Slot::ActivationDeadline), &big);
    let mut c = RepoContractInstance::new();
    assert_eq!(c.activation_deadline(&chain), None);
    let plan = RepoContractInstance::new().accept(&chain, &ctx(BORROWER, 5));
    assert_eq!(plan.outcome, Err(Failure::DeadlineOverflow));
}

#[test]
fn failed_token_call_aborts_the_run() {
    let mut run = Run::new(Plan {
        effects: vec![
            Effect::TransferFrom { token: LOAN_TOKEN, from: BORROWER, to: LENDER, amount: amount(1) },
            Effect::Log { event: Event::Refund },
        ],
        outcome: Ok(true),
    });
    assert!(matches!(run.step(Reply::Started), Action::Perform(Effect::TransferFrom { .. })));
    assert_eq!(run.step(Reply::TransferReturned(false)), Action::Abort(Failure::TransferFailed));
    assert_eq!(run.step(Reply::Performed), Action::Abort(Failure::TransferFailed));
}

#[test]
fn run_hands_out_effects_in_order_then_finishes() {
    let plan = Plan {
        effects: vec![Effect::Log { event: Event::Activation }, Effect::SelfDestruct { beneficiary: THIS }],
        outcome: Ok(true),
    };
    let mut run = Run::new(plan);
    assert_eq!(run.step(Reply::Started), Action::Perform(Effect::Log { event: Event::Activation }));
    assert_eq!(run.step(Reply::Performed), Action::Perform(Effect::SelfDestruct { beneficiary: THIS }));
    assert_eq!(run.step(Reply::Performed), Action::Finish(true));
    let mut failing = Run::new(Plan { effects: vec![], outcome: Err(Failure::NotParticipant) });
    assert_eq!(failing.step(Reply::Started), Action::Abort(Failure::NotParticipant));
}

#[test]
fn interest_is_loan_over_hundred_times_rate() {
    assert_eq!(checked_interest(&amount(10000), &amount(3)), Some(amount(300)));
    // the division rounds down before the multiplication
    assert_eq!(checked_interest(&amount(199), &amount(7)), Some(amount(7)));
    assert_eq!(checked_interest(&amount(99), &amount(1000)), Some(amount(0)));
    let big = U256 { limbs: [0, 0, 0, 1 << 40] };
    assert_eq!(checked_interest(&big, &amount(1 << 40)), None);
}

#[test]
fn checked_sum_carries_and_overflows() {
    let a = U256 { limbs: [u64::MAX, 0, 0, 0] };
    assert_eq!(checked_sum(&a, &amount(1)), Some(U256 { limbs: [0, 1, 0, 0] }));
    let max = U256 { limbs: [u64::MAX; 4] };
    assert_eq!(checked_sum(&max, &amount(1)), None);
    assert_eq!(checked_sum(&max, &amount(0)), Some(max));
}

#[test]
fn words_hold_numbers_big_endian() {
    let w = word_with_tail(&[0x01, 0x02]);
    assert_eq!(word_to_value(&w), amount(258));
    assert_eq!(value_to_word(&amount(258)), w);
    let high = U256 { limbs: [0, 0, 0, 0x0102_0304_0506_0708] };
    let hw = value_to_word(&high);
    assert_eq!(&hw[..8], &[1, 2, 3, 4, 5, 6, 7, 8]);
    assert_eq!(word_to_value(&hw), high);
    assert_eq!(u64_to_word(20), word_with_tail(&[20]));
}

#[test]
fn addresses_sit_in_the_last_twenty_bytes() {
    let w = address_to_word(&BORROWER);
    assert_eq!(&w[..12], &[0u8; 12]);
    assert_eq!(&w[12..], &BORROWER);
    assert_eq!(word_to_address(&w), BORROWER);
    assert!(same_address(&BORROWER, &BORROWER));
    assert!(!same_address(&BORROWER, &LENDER));
    assert!(same_word(&w, &w));
    assert!(!same_word(&w, &[0u8; 32]));
}

#[test]
fn storage_reads_give_back_writes() {
    let mut s = Storage::with_capacity(2);
    let k = storage_key(Slot::LoanAmount);
    assert_eq!(s.lookup(&k), None);
    assert_eq!(s.get(&k), [0u8; 32]);
    s.write(&k, &[7u8; 32]);
    assert_eq!(s.lookup(&k), Some([7u8; 32]));
    s.write(&k, &[8u8; 32]);
    assert_eq!(s.get(&k), [8u8; 32]);
    assert_eq!(s.lookup(&storage_key(Slot::Lender)), None);
}

#[test]
fn storage_keys_number_the_slots() {
    let keys = storage_keys();
    assert_eq!(keys.len(), 11);
    for (i, k) in keys.iter().enumerate() {
        assert_eq!(k[0] as usize, i);
        assert!(k[1..].iter().all(|b| *b == 0));
    }
    assert_eq!(storage_key(Slot::LendAccepted)[0], 10);
    assert_eq!(Slot::ActivationDeadline.index(), 7);
}

#[test]
fn u256_helpers() {
    assert!(amount(0).is_zero());
    assert!(!amount(1).is_zero());
    assert_eq!(amount(77).to_u64(), Some(77));
    assert_eq!(U256 { limbs: [1, 1, 0, 0] }.to_u64(), None);
}

#[test]
fn suicide_logs_then_destroys_and_returns_false() {
    let c = RepoContractInstance::new();
    let mut effects = Vec::new();
    assert!(!c.suicide(&STRANGER, &mut effects));
    assert_eq!(
        effects,
        vec![Effect::Log { event: Event::Suicide }, Effect::SelfDestruct { beneficiary: STRANGER }]
    );
}

#[test]
fn inactive_agreement_refuses_terminate_until_activation_deadline() {
    let mut chain = constructed_chain();
    accept_once(&mut chain, ctx(BORROWER, 5));
    for sender in [BORROWER, LENDER, STRANGER] {
        let plan = RepoContractInstance::new().terminate(&chain, &ctx(sender, 10));
        assert_eq!(plan.outcome, Err(Failure::NotActive));
        assert!(plan.effects.is_empty());
    }
    // past the activation deadline it destroys itself first
    let plan = RepoContractInstance::new().terminate(&chain, &ctx(BORROWER, 11));
    assert_eq!(plan.effects[0], Effect::Log { event: Event::Suicide });
    assert_eq!(plan.effects[1], Effect::SelfDestruct { beneficiary: BORROWER });
}
