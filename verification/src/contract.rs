//! The repo agreement: its terms written at construction, acceptance by both
//! parties, and termination by refund or default.

use vstd::prelude::*;
use crate::effects::{effects_view, Effect, EffectView, Event, Failure, Plan};
use crate::layout::{active, slot_address, slot_flag, slot_key, slot_value, storage_key, Slot};
use crate::storage::{word_at, Storage};
use crate::uint::{
    limb_base, u256_div, u256_modulus, u256_overflowing_add,
    u256_overflowing_mul, U256,
};
use crate::word::{
    address_to_word, address_word, same_address, u64_to_word, value_to_word, value_word,
    word_to_address, word_to_value, Address, Word,
};

verus! {

broadcast use vstd::array::group_array_axioms;

/// What the host tells a call about its circumstances.
#[derive(Clone, Copy, Debug)]
pub struct CallContext {
    /// The account that sent the call.
    pub sender: Address,
    /// The time of the block.
    pub timestamp: u64,
    /// The agreement's own account.
    pub address: Address,
}

/// The words of the agreement's storage as a call sees them: those it has
/// cached, and the chain's for the rest (zero where nothing is stored).
pub open spec fn storage_words(chain: Map<Seq<u8>, Seq<u8>>, cache: Map<Seq<u8>, Seq<u8>>) -> Map<
    Seq<u8>,
    Seq<u8>,
> {
    Map::new(
        |k: Seq<u8>| true,
        |k: Seq<u8>|
            if cache.contains_key(k) {
                cache[k]
            } else {
                word_at(chain, k)
            },
    )
}

/// The word that a flag holds once set: the number 1.
pub open spec fn one_word() -> Seq<u8> {
    value_word(1)
}

/// The divisor of the interest rate: rates are in percent.
pub open spec fn rate_divisor() -> nat {
    100
}

/// Logging `Suicide`, then destroying the account for `beneficiary`.
pub open spec fn self_destruct(beneficiary: Seq<u8>) -> Seq<EffectView> {
    seq![
        EffectView::Log { event: Event::Suicide },
        EffectView::SelfDestruct { beneficiary },
    ]
}

/// The storage after the constructor wrote the terms into `st`.
pub open spec fn constructed(
    st: Map<Seq<u8>, Seq<u8>>,
    borrower: Seq<u8>,
    lender: Seq<u8>,
    loan_token: Seq<u8>,
    security_token: Seq<u8>,
    loan_amount: nat,
    security_amount: nat,
    interest_rate: nat,
    activation_deadline: nat,
    return_deadline: nat,
) -> Map<Seq<u8>, Seq<u8>> {
    st.insert(slot_key(Slot::Borrower), address_word(borrower))
        .insert(slot_key(Slot::Lender), address_word(lender))
        .insert(slot_key(Slot::LoanToken), address_word(loan_token))
        .insert(slot_key(Slot::SecurityToken), address_word(security_token))
        .insert(slot_key(Slot::LoanAmount), value_word(loan_amount))
        .insert(slot_key(Slot::SecurityAmount), value_word(security_amount))
        .insert(slot_key(Slot::InterestRate), value_word(interest_rate))
        .insert(slot_key(Slot::ActivationDeadline), value_word(activation_deadline))
        .insert(slot_key(Slot::ReturnDeadline), value_word(return_deadline))
}

/// The writes of the constructor, in order.
pub open spec fn constructor_effects(
    borrower: Seq<u8>,
    lender: Seq<u8>,
    loan_token: Seq<u8>,
    security_token: Seq<u8>,
    loan_amount: nat,
    security_amount: nat,
    interest_rate: nat,
    activation_deadline: nat,
    return_deadline: nat,
) -> Seq<EffectView> {
    seq![
        EffectView::Write { key: slot_key(Slot::Borrower), value: address_word(borrower) },
        EffectView::Write { key: slot_key(Slot::Lender), value: address_word(lender) },
        EffectView::Write { key: slot_key(Slot::LoanToken), value: address_word(loan_token) },
        EffectView::Write {
            key: slot_key(Slot::SecurityToken),
            value: address_word(security_token),
        },
        EffectView::Write { key: slot_key(Slot::LoanAmount), value: value_word(loan_amount) },
        EffectView::Write {
            key: slot_key(Slot::SecurityAmount),
            value: value_word(security_amount),
        },
        EffectView::Write { key: slot_key(Slot::InterestRate), value: value_word(interest_rate) },
        EffectView::Write {
            key: slot_key(Slot::ActivationDeadline),
            value: value_word(activation_deadline),
        },
        EffectView::Write {
            key: slot_key(Slot::ReturnDeadline),
            value: value_word(return_deadline),
        },
    ]
}

/// The words of a storage seen over the chain after writing `v` under `k`
/// into the cache are those seen before, with `v` under `k`.
pub proof fn lemma_storage_words_insert(
    chain: Map<Seq<u8>, Seq<u8>>,
    cache: Map<Seq<u8>, Seq<u8>>,
    k: Seq<u8>,
    v: Seq<u8>,
)
    ensures
        storage_words(chain, cache.insert(k, v)) == storage_words(chain, cache).insert(k, v),
{
    assert(storage_words(chain, cache.insert(k, v)) =~= storage_words(chain, cache).insert(k, v));
}

/// What `accept` does once the sender's acceptance is recorded in `flag`:
/// the effects so far `pre`, the storage before the record `st`.
pub open spec fn accept_recorded(
    st: Map<Seq<u8>, Seq<u8>>,
    ctx: CallContext,
    pre: Seq<EffectView>,
    flag: Slot,
    event: Event,
) -> (Seq<EffectView>, Result<bool, Failure>, Map<Seq<u8>, Seq<u8>>) {
    let st1 = st.insert(slot_key(flag), one_word());
    let e1 = pre + seq![
        EffectView::Write { key: slot_key(flag), value: one_word() },
        EffectView::Log { event },
    ];
    if active(st1) {
        (
            e1 + seq![
                EffectView::TransferFrom {
                    token: slot_address(st1, Slot::SecurityToken),
                    from: slot_address(st, Slot::Borrower),
                    to: ctx.address@,
                    amount: slot_value(st1, Slot::SecurityAmount),
                },
                EffectView::TransferFrom {
                    token: slot_address(st1, Slot::LoanToken),
                    from: slot_address(st, Slot::Lender),
                    to: slot_address(st, Slot::Borrower),
                    amount: slot_value(st1, Slot::LoanAmount),
                },
            ],
            Ok(true),
            st1,
        )
    } else {
        (e1, Ok(false), st1)
    }
}

/// What `accept` does from storage `st`: its effects, its outcome, and the
/// storage after it.
///
/// An active agreement refuses; past the activation deadline the agreement
/// destroys itself for the sender (a host that returns from that goes on);
/// the borrower's or lender's acceptance is recorded and logged, anyone
/// else is refused; once both have accepted, the security moves from the
/// borrower to the agreement and the loan from the lender to the borrower.
pub open spec fn accept_spec(st: Map<Seq<u8>, Seq<u8>>, ctx: CallContext) -> (
    Seq<EffectView>,
    Result<bool, Failure>,
    Map<Seq<u8>, Seq<u8>>,
) {
    if active(st) {
        (seq![], Err(Failure::AlreadyActive), st)
    } else if slot_value(st, Slot::ActivationDeadline) >= limb_base() {
        (seq![], Err(Failure::DeadlineOverflow), st)
    } else {
        let pre = if ctx.timestamp > slot_value(st, Slot::ActivationDeadline) {
            self_destruct(ctx.sender@)
        } else {
            seq![]
        };
        if ctx.sender@ == slot_address(st, Slot::Borrower) {
            accept_recorded(st, ctx, pre, Slot::BorrowAccepted, Event::BorrowerAcceptance)
        } else if ctx.sender@ == slot_address(st, Slot::Lender) {
            accept_recorded(st, ctx, pre, Slot::LendAccepted, Event::LenderAcceptance)
        } else {
            (pre, Err(Failure::NotParticipant), st)
        }
    }
}

/// The amount the borrower returns: the loan and the interest, where the
/// interest is the loan divided by 100 (rounded down) times the rate.
pub open spec fn return_amount(loan: nat, rate: nat) -> nat {
    loan + (loan / rate_divisor()) * rate
}

/// What `terminate` does from storage `st`: its effects, its outcome, and
/// the storage after it (unchanged).
///
/// An agreement that is not active cannot be terminated: up to its
/// activation deadline the call is refused; past it the agreement destroys
/// itself for the sender (a host that returns from that goes on). Up to the
/// return deadline only the borrower may terminate: the loan with interest
/// goes back to the lender, the security back to the borrower, `Refund` is
/// logged. After the return deadline anyone may terminate: the security
/// goes to the lender, `Default` is logged. Either way the agreement then
/// destroys itself for the sender.
pub open spec fn terminate_spec(st: Map<Seq<u8>, Seq<u8>>, ctx: CallContext) -> (
    Seq<EffectView>,
    Result<bool, Failure>,
    Map<Seq<u8>, Seq<u8>>,
) {
    let expiring = !active(st);
    let loan = slot_value(st, Slot::LoanAmount);
    let rate = slot_value(st, Slot::InterestRate);
    let borrower = slot_address(st, Slot::Borrower);
    let lender = slot_address(st, Slot::Lender);
    let security = slot_value(st, Slot::SecurityAmount);
    if expiring && slot_value(st, Slot::ActivationDeadline) >= limb_base() {
        (seq![], Err(Failure::DeadlineOverflow), st)
    } else if expiring && ctx.timestamp <= slot_value(st, Slot::ActivationDeadline) {
        (seq![], Err(Failure::NotActive), st)
    } else {
        let pre = if expiring && ctx.timestamp > slot_value(st, Slot::ActivationDeadline) {
            self_destruct(ctx.sender@)
        } else {
            seq![]
        };
        if return_amount(loan, rate) >= u256_modulus() {
            (pre, Err(Failure::ArithmeticOverflow), st)
        } else if slot_value(st, Slot::ReturnDeadline) >= limb_base() {
            (pre, Err(Failure::DeadlineOverflow), st)
        } else if ctx.timestamp <= slot_value(st, Slot::ReturnDeadline) {
            if ctx.sender@ != borrower {
                (pre, Err(Failure::NotBorrower), st)
            } else {
                (
                    pre + seq![
                        EffectView::TransferFrom {
                            token: slot_address(st, Slot::LoanToken),
                            from: borrower,
                            to: lender,
                            amount: return_amount(loan, rate),
                        },
                        EffectView::Transfer {
                            token: slot_address(st, Slot::SecurityToken),
                            to: borrower,
                            amount: security,
                        },
                        EffectView::Log { event: Event::Refund },
                    ] + self_destruct(ctx.sender@),
                    Ok(false),
                    st,
                )
            }
        } else {
            (
                pre + seq![
                    EffectView::Transfer {
                        token: slot_address(st, Slot::SecurityToken),
                        to: lender,
                        amount: security,
                    },
                    EffectView::Log { event: Event::Default },
                ] + self_destruct(ctx.sender@),
                Ok(false),
                st,
            )
        }
    }
}

/// The agreement's calls.
pub trait RepoContract {
    /// Writes the terms of the agreement.
    fn constructor(
        &mut self,
        borrower: Address,
        lender: Address,
        loan_token: Address,
        security_token: Address,
        loan_amount: U256,
        security_amount: U256,
        interest_rate: U256,
        activation_deadline: u64,
        return_deadline: u64,
    ) -> Vec<Effect>;

    /// Records the sender's acceptance; activates the loan once both
    /// parties have accepted.
    fn accept(&mut self, chain: &Storage, ctx: &CallContext) -> Plan;

    /// Ends the agreement by refund or default.
    fn terminate(&mut self, chain: &Storage, ctx: &CallContext) -> Plan;
}

/// One call's view of the agreement: the storage words it has read or
/// written so far.
pub struct RepoContractInstance {
    storage: Storage,
}

impl RepoContractInstance {
    /// The words cached so far.
    pub closed spec fn cache(&self) -> Map<Seq<u8>, Seq<u8>> {
        self.storage@
    }

    /// The storage as this instance sees it over the chain's `chain`.
    pub open spec fn words(&self, chain: Map<Seq<u8>, Seq<u8>>) -> Map<Seq<u8>, Seq<u8>> {
        storage_words(chain, self.cache())
    }

    pub fn new() -> (r: RepoContractInstance)
        ensures
            r.cache() == Map::<Seq<u8>, Seq<u8>>::empty(),
    {
        RepoContractInstance { storage: Storage::with_capacity(10) }
    }

    /// The cache after reading `slot` over the chain's `chain`.
    pub open spec fn cache_after_read(&self, chain: Map<Seq<u8>, Seq<u8>>, slot: Slot) -> Map<
        Seq<u8>,
        Seq<u8>,
    > {
        self.cache().insert(slot_key(slot), self.words(chain)[slot_key(slot)])
    }

    pub fn borrower_address(&mut self, chain: &Storage) -> (r: Address)
        ensures
            r@ == slot_address(old(self).words(chain@), Slot::Borrower),
            final(self).cache() == old(self).cache_after_read(chain@, Slot::Borrower),
    {
        word_to_address(&self.read(chain, Slot::Borrower))
    }

    pub fn lender_address(&mut self, chain: &Storage) -> (r: Address)
        ensures
            r@ == slot_address(old(self).words(chain@), Slot::Lender),
            final(self).cache() == old(self).cache_after_read(chain@, Slot::Lender),
    {
        word_to_address(&self.read(chain, Slot::Lender))
    }

    pub fn loan_token_address(&mut self, chain: &Storage) -> (r: Address)
        ensures
            r@ == slot_address(old(self).words(chain@), Slot::LoanToken),
            final(self).cache() == old(self).cache_after_read(chain@, Slot::LoanToken),
    {
        word_to_address(&self.read(chain, Slot::LoanToken))
    }

    pub fn security_token_address(&mut self, chain: &Storage) -> (r: Address)
        ensures
            r@ == slot_address(old(self).words(chain@), Slot::SecurityToken),
            final(self).cache() == old(self).cache_after_read(chain@, Slot::SecurityToken),
    {
        word_to_address(&self.read(chain, Slot::SecurityToken))
    }

    pub fn loan_amount(&mut self, chain: &Storage) -> (r: U256)
        ensures
            r@ == slot_value(old(self).words(chain@), Slot::LoanAmount),
            final(self).cache() == old(self).cache_after_read(chain@, Slot::LoanAmount),
    {
        word_to_value(&self.read(chain, Slot::LoanAmount))
    }

    pub fn security_amount(&mut self, chain: &Storage) -> (r: U256)
        ensures
            r@ == slot_value(old(self).words(chain@), Slot::SecurityAmount),
            final(self).cache() == old(self).cache_after_read(chain@, Slot::SecurityAmount),
    {
        word_to_value(&self.read(chain, Slot::SecurityAmount))
    }

    pub fn interest_rate(&mut self, chain: &Storage) -> (r: U256)
        ensures
            r@ == slot_value(old(self).words(chain@), Slot::InterestRate),
            final(self).cache() == old(self).cache_after_read(chain@, Slot::InterestRate),
    {
        word_to_value(&self.read(chain, Slot::InterestRate))
    }

    /// The activation deadline (a timestamp); `None` where the stored number
    /// does not fit in 64 bits.
    pub fn activation_deadline(&mut self, chain: &Storage) -> (r: Option<u64>)
        ensures
            r == (if slot_value(old(self).words(chain@), Slot::ActivationDeadline) < limb_base() {
                Some(slot_value(old(self).words(chain@), Slot::ActivationDeadline) as u64)
            } else {
                None::<u64>
            }),
            final(self).cache() == old(self).cache_after_read(chain@, Slot::ActivationDeadline),
    {
        word_to_value(&self.read(chain, Slot::ActivationDeadline)).to_u64()
    }

    /// The return deadline (a timestamp); `None` where the stored number does
    /// not fit in 64 bits.
    pub fn return_deadline(&mut self, chain: &Storage) -> (r: Option<u64>)
        ensures
            r == (if slot_value(old(self).words(chain@), Slot::ReturnDeadline) < limb_base() {
                Some(slot_value(old(self).words(chain@), Slot::ReturnDeadline) as u64)
            } else {
                None::<u64>
            }),
            final(self).cache() == old(self).cache_after_read(chain@, Slot::ReturnDeadline),
    {
        word_to_value(&self.read(chain, Slot::ReturnDeadline)).to_u64()
    }

    pub fn borrower_acceptance(&mut self, chain: &Storage) -> (r: bool)
        ensures
            r == slot_flag(old(self).words(chain@), Slot::BorrowAccepted),
            final(self).cache() == old(self).cache_after_read(chain@, Slot::BorrowAccepted),
    {
        !word_to_value(&self.read(chain, Slot::BorrowAccepted)).is_zero()
    }

    pub fn lender_acceptance(&mut self, chain: &Storage) -> (r: bool)
        ensures
            r == slot_flag(old(self).words(chain@), Slot::LendAccepted),
            final(self).cache() == old(self).cache_after_read(chain@, Slot::LendAccepted),
    {
        !word_to_value(&self.read(chain, Slot::LendAccepted)).is_zero()
    }

    /// Both parties have accepted. The lender's flag is read only where the
    /// borrower's is set.
    pub fn is_active(&mut self, chain: &Storage) -> (r: bool)
        ensures
            r == active(old(self).words(chain@)),
            final(self).words(chain@) == old(self).words(chain@),
            final(self).cache() == (if slot_flag(old(self).words(chain@), Slot::BorrowAccepted) {
                old(self).cache_after_read(chain@, Slot::BorrowAccepted).insert(
                    slot_key(Slot::LendAccepted),
                    old(self).words(chain@)[slot_key(Slot::LendAccepted)],
                )
            } else {
                old(self).cache_after_read(chain@, Slot::BorrowAccepted)
            }),
    {
        self.borrower_acceptance(chain) && self.lender_acceptance(chain)
    }

    /// Logs `Suicide` and destroys the account for `sender`. Returns `false`,
    /// for a host that returns from the destruction.
    pub fn suicide(&self, sender: &Address, effects: &mut Vec<Effect>) -> (r: bool)
        ensures
            !r,
            effects_view(final(effects)@) == effects_view(old(effects)@) + self_destruct(sender@),
    {
        emit(effects, Effect::Log { event: Event::Suicide });
        emit(effects, Effect::SelfDestruct { beneficiary: *sender });
        assert(effects_view(effects@) =~= effects_view(old(effects)@) + self_destruct(sender@));
        false
    }

    /// Reads a slot: from the cache, else from the chain, caching it.
    fn read(&mut self, chain: &Storage, slot: Slot) -> (r: Word)
        ensures
            r@ == old(self).words(chain@)[slot_key(slot)],
            final(self).cache() == old(self).cache().insert(slot_key(slot), r@),
            final(self).words(chain@) == old(self).words(chain@),
    {
        let key = storage_key(slot);
        let v = self.storage.read(chain, &key);
        assert(self.words(chain@) =~= old(self).words(chain@));
        v
    }

    /// Writes a slot: on the chain (as an effect) and in the cache.
    fn write(&mut self, slot: Slot, value: &Word, effects: &mut Vec<Effect>)
        ensures
            final(self).cache() == old(self).cache().insert(slot_key(slot), value@),
            effects_view(final(effects)@) == effects_view(old(effects)@).push(
                EffectView::Write { key: slot_key(slot), value: value@ },
            ),
    {
        let key = storage_key(slot);
        emit(effects, Effect::Write { key, value: *value });
        self.storage.write(&key, value);
    }
}

/// Appends an effect.
fn emit(effects: &mut Vec<Effect>, e: Effect)
    ensures
        effects_view(final(effects)@) == effects_view(old(effects)@).push(e@),
{
    effects.push(e);
    assert(effects_view(effects@) =~= effects_view(old(effects)@).push(e@));
}

impl RepoContract for RepoContractInstance {
    fn constructor(
        &mut self,
        borrower: Address,
        lender: Address,
        loan_token: Address,
        security_token: Address,
        loan_amount: U256,
        security_amount: U256,
        interest_rate: U256,
        activation_deadline: u64,
        return_deadline: u64,
    ) -> (r: Vec<Effect>)
        ensures
            effects_view(r@) == constructor_effects(
                borrower@,
                lender@,
                loan_token@,
                security_token@,
                loan_amount@,
                security_amount@,
                interest_rate@,
                activation_deadline as nat,
                return_deadline as nat,
            ),
            final(self).cache() == constructed(
                old(self).cache(),
                borrower@,
                lender@,
                loan_token@,
                security_token@,
                loan_amount@,
                security_amount@,
                interest_rate@,
                activation_deadline as nat,
                return_deadline as nat,
            ),
    {
        let mut effects: Vec<Effect> = Vec::new();
        assert(effects_view(effects@) =~= Seq::<EffectView>::empty());
        self.write(Slot::Borrower, &address_to_word(&borrower), &mut effects);
        self.write(Slot::Lender, &address_to_word(&lender), &mut effects);
        self.write(Slot::LoanToken, &address_to_word(&loan_token), &mut effects);
        self.write(Slot::SecurityToken, &address_to_word(&security_token), &mut effects);
        self.write(Slot::LoanAmount, &value_to_word(&loan_amount), &mut effects);
        self.write(Slot::SecurityAmount, &value_to_word(&security_amount), &mut effects);
        self.write(Slot::InterestRate, &value_to_word(&interest_rate), &mut effects);
        self.write(Slot::ActivationDeadline, &u64_to_word(activation_deadline), &mut effects);
        self.write(Slot::ReturnDeadline, &u64_to_word(return_deadline), &mut effects);
        effects
    }

    fn accept(&mut self, chain: &Storage, ctx: &CallContext) -> (r: Plan)
        ensures
            (effects_view(r.effects@), r.outcome, final(self).words(chain@)) == accept_spec(
                old(self).words(chain@),
                *ctx,
            ),
    {
        let ghost st = old(self).words(chain@);
        let mut effects: Vec<Effect> = Vec::new();
        assert(effects_view(effects@) =~= Seq::<EffectView>::empty());
        let sender = ctx.sender;
        if self.is_active(chain) {
            return Plan { effects, outcome: Err(Failure::AlreadyActive) };
        }
        let deadline = match self.activation_deadline(chain) {
            Some(d) => d,
            None => {
                return Plan { effects, outcome: Err(Failure::DeadlineOverflow) };
            },
        };
        assert(self.words(chain@) =~= st);
        if ctx.timestamp > deadline {
            self.suicide(&sender, &mut effects);
        }
        let ghost pre = effects_view(effects@);
        let lender_address = self.lender_address(chain);
        assert(self.words(chain@) =~= st);
        let borrower_address = self.borrower_address(chain);
        assert(self.words(chain@) =~= st);
        let ghost cache0 = self.cache();
        let flag;
        if same_address(&sender, &borrower_address) {
            flag = Slot::BorrowAccepted;
            self.write(Slot::BorrowAccepted, &u64_to_word(1), &mut effects);
            emit(&mut effects, Effect::Log { event: Event::BorrowerAcceptance });
        } else if same_address(&sender, &lender_address) {
            flag = Slot::LendAccepted;
            self.write(Slot::LendAccepted, &u64_to_word(1), &mut effects);
            emit(&mut effects, Effect::Log { event: Event::LenderAcceptance });
        } else {
            return Plan { effects, outcome: Err(Failure::NotParticipant) };
        }
        let ghost st1 = st.insert(slot_key(flag), one_word());
        proof {
            lemma_storage_words_insert(chain@, cache0, slot_key(flag), one_word());
            assert(self.words(chain@) =~= st1);
        }
        if !(self.borrower_acceptance(chain) && self.lender_acceptance(chain)) {
            assert(self.words(chain@) =~= st1);
            return Plan { effects, outcome: Ok(false) };
        }
        assert(self.words(chain@) =~= st1);
        let loan_token = self.loan_token_address(chain);
        assert(self.words(chain@) =~= st1);
        let security_token = self.security_token_address(chain);
        assert(self.words(chain@) =~= st1);
        let loan_amount = self.loan_amount(chain);
        assert(self.words(chain@) =~= st1);
        let security_amount = self.security_amount(chain);
        assert(self.words(chain@) =~= st1);
        let this_contract_address = ctx.address;
        emit(
            &mut effects,
            Effect::TransferFrom {
                token: security_token,
                from: borrower_address,
                to: this_contract_address,
                amount: security_amount,
            },
        );
        emit(
            &mut effects,
            Effect::TransferFrom {
                token: loan_token,
                from: lender_address,
                to: borrower_address,
                amount: loan_amount,
            },
        );
        Plan { effects, outcome: Ok(true) }
    }

    fn terminate(&mut self, chain: &Storage, ctx: &CallContext) -> (r: Plan)
        ensures
            (effects_view(r.effects@), r.outcome, final(self).words(chain@)) == terminate_spec(
                old(self).words(chain@),
                *ctx,
            ),
    {
        let ghost st = old(self).words(chain@);
        let mut effects: Vec<Effect> = Vec::new();
        assert(effects_view(effects@) =~= Seq::<EffectView>::empty());
        let sender = ctx.sender;
        if !self.is_active(chain) {
            assert(self.words(chain@) =~= st);
            let deadline = match self.activation_deadline(chain) {
                Some(d) => d,
                None => {
                    return Plan { effects, outcome: Err(Failure::DeadlineOverflow) };
                },
            };
            if ctx.timestamp <= deadline {
                assert(self.words(chain@) =~= st);
                return Plan { effects, outcome: Err(Failure::NotActive) };
            }
            self.suicide(&sender, &mut effects);
        }
        assert(self.words(chain@) =~= st);
        let lender_address = self.lender_address(chain);
        assert(self.words(chain@) =~= st);
        let borrower_address = self.borrower_address(chain);
        assert(self.words(chain@) =~= st);
        let loan_token = self.loan_token_address(chain);
        assert(self.words(chain@) =~= st);
        let security_token = self.security_token_address(chain);
        assert(self.words(chain@) =~= st);
        let loan_amount = self.loan_amount(chain);
        assert(self.words(chain@) =~= st);
        let security_amount = self.security_amount(chain);
        assert(self.words(chain@) =~= st);
        let rate = self.interest_rate(chain);
        assert(self.words(chain@) =~= st);
        let interest_amount = match checked_interest(&loan_amount, &rate) {
            Some(v) => v,
            None => {
                return Plan { effects, outcome: Err(Failure::ArithmeticOverflow) };
            },
        };
        let return_amount = match checked_sum(&loan_amount, &interest_amount) {
            Some(v) => v,
            None => {
                return Plan { effects, outcome: Err(Failure::ArithmeticOverflow) };
            },
        };
        let return_deadline = match self.return_deadline(chain) {
            Some(d) => d,
            None => {
                assert(self.words(chain@) =~= st);
                return Plan { effects, outcome: Err(Failure::DeadlineOverflow) };
            },
        };
        assert(self.words(chain@) =~= st);
        let ghost pre = effects_view(effects@);
        if ctx.timestamp <= return_deadline {
            if !same_address(&sender, &borrower_address) {
                return Plan { effects, outcome: Err(Failure::NotBorrower) };
            }
            emit(
                &mut effects,
                Effect::TransferFrom {
                    token: loan_token,
                    from: borrower_address,
                    to: lender_address,
                    amount: return_amount,
                },
            );
            emit(
                &mut effects,
                Effect::Transfer { token: security_token, to: borrower_address, amount: security_amount },
            );
            emit(&mut effects, Effect::Log { event: Event::Refund });
            let r = self.suicide(&sender, &mut effects);
            Plan { effects, outcome: Ok(r) }
        } else {
            emit(
                &mut effects,
                Effect::Transfer { token: security_token, to: lender_address, amount: security_amount },
            );
            emit(&mut effects, Effect::Log { event: Event::Default });
            let r = self.suicide(&sender, &mut effects);
            Plan { effects, outcome: Ok(r) }
        }
    }
}

/// The interest on `loan` at `rate` percent: `(loan / 100) * rate`, or
/// `None` where the product does not fit in 256 bits (where `bigint`'s `*`
/// panics).
pub fn checked_interest(loan: &U256, rate: &U256) -> (r: Option<U256>)
    ensures
        match r {
            Some(v) => (loan@ / rate_divisor()) * rate@ < u256_modulus()
                && v@ == (loan@ / rate_divisor()) * rate@,
            None => (loan@ / rate_divisor()) * rate@ >= u256_modulus(),
        },
{
    let q = u256_div(loan, &U256::from_u64(100));
    let (p, overflow) = u256_overflowing_mul(&q, rate);
    if overflow {
        None
    } else {
        proof {
            vstd::arithmetic::div_mod::lemma_small_mod(
                (q@ * rate@) as nat,
                u256_modulus(),
            );
        }
        Some(p)
    }
}

/// `a + b`, or `None` where the sum does not fit in 256 bits (where
/// `bigint`'s `+` panics).
pub fn checked_sum(a: &U256, b: &U256) -> (r: Option<U256>)
    ensures
        match r {
            Some(v) => a@ + b@ < u256_modulus() && v@ == a@ + b@,
            None => a@ + b@ >= u256_modulus(),
        },
{
    let (s, overflow) = u256_overflowing_add(a, b);
    if overflow {
        None
    } else {
        proof {
            vstd::arithmetic::div_mod::lemma_small_mod((a@ + b@) as nat, u256_modulus());
        }
        Some(s)
    }
}

} // verus!
