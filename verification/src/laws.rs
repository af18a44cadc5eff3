//! What holds of the agreement across its calls.

use vstd::prelude::*;
use crate::contract::{
    accept_spec, constructed, constructor_effects, one_word, self_destruct, storage_words,
    terminate_spec, CallContext,
};
use crate::effects::{EffectView, Event, Failure};
use crate::layout::{
    active, lemma_slot_keys_distinct, slot_address, slot_flag, slot_key, slot_value, slot_word,
    Slot,
};
use crate::storage::{apply_cache_ops, cached_read, writes_key, CacheOp};
use crate::uint::{be_value, lemma_u256_bound, limb_base, U256};
use crate::word::{address_word, lemma_value_word_roundtrip, value_word, word_address, Address};

verus! {

broadcast use vstd::array::group_array_axioms;

/// Writing one slot leaves the others as they were.
pub proof fn lemma_slot_after_insert(st: Map<Seq<u8>, Seq<u8>>, s: Slot, t: Slot, w: Seq<u8>)
    ensures
        slot_word(st.insert(slot_key(t), w), s) == (if s == t {
            w
        } else {
            slot_word(st, s)
        }),
{
    if s != t {
        lemma_slot_keys_distinct(s, t);
    }
}

pub proof fn lemma_one_word()
    ensures
        be_value(one_word()) == 1,
        one_word().len() == 32,
{
    lemma_value_word_roundtrip(1);
}

pub proof fn lemma_address_roundtrip(a: Seq<u8>)
    requires
        a.len() == 20,
    ensures
        word_address(address_word(a)) == a,
        address_word(a).len() == 32,
{
    assert(word_address(address_word(a)) =~= a);
}

/// A read through the cache gives back what the last write of the same key
/// wrote, whatever the chain holds; writes of other keys do not change it.
pub proof fn law_read_after_write(
    cache: Map<Seq<u8>, Seq<u8>>,
    chain: Map<Seq<u8>, Seq<u8>>,
    k: Seq<u8>,
    v: Seq<u8>,
    other: Seq<u8>,
)
    requires
        other != k,
    ensures
        cached_read(cache.insert(k, v), chain, k) == v,
        cached_read(cache.insert(k, v), chain, other) == cached_read(cache, chain, other),
{
}

/// After a write of `v` under `k`, any sequence of reads and of writes of
/// other keys leaves `k` in the cache with `v`: a read of `k` then gives `v`
/// from the cache, whatever the chain holds.
pub proof fn law_read_after_writes(
    cache: Map<Seq<u8>, Seq<u8>>,
    chain: Map<Seq<u8>, Seq<u8>>,
    k: Seq<u8>,
    v: Seq<u8>,
    ops: Seq<CacheOp>,
)
    requires
        forall|i: int| 0 <= i < ops.len() ==> !writes_key(#[trigger] ops[i], k),
    ensures
        apply_cache_ops(cache.insert(k, v), chain, ops).contains_key(k),
        apply_cache_ops(cache.insert(k, v), chain, ops)[k] == v,
        cached_read(apply_cache_ops(cache.insert(k, v), chain, ops), chain, k) == v,
    decreases ops.len(),
{
    if ops.len() > 0 {
        let p = ops.drop_last();
        assert forall|i: int| 0 <= i < p.len() implies !writes_key(#[trigger] p[i], k) by {
            assert(p[i] == ops[i]);
        }
        law_read_after_writes(cache, chain, k, v, p);
        assert(!writes_key(ops[ops.len() - 1], k));
    }
}

/// Decoding the word of an address or of a number gives it back.
pub proof fn law_encoding_roundtrip(a: Address, x: U256, d: u64)
    ensures
        word_address(address_word(a@)) == a@,
        be_value(value_word(x@)) == x@,
        be_value(value_word(d as nat)) == d as nat,
{
    lemma_address_roundtrip(a@);
    lemma_u256_bound(x);
    lemma_value_word_roundtrip(x@);
    lemma_value_word_roundtrip(d as nat);
}

/// The words that an instance sees after the constructor wrote its cache are
/// those it saw before, with the terms written.
pub proof fn law_constructor_words(
    chain: Map<Seq<u8>, Seq<u8>>,
    cache: Map<Seq<u8>, Seq<u8>>,
    borrower: Seq<u8>,
    lender: Seq<u8>,
    loan_token: Seq<u8>,
    security_token: Seq<u8>,
    loan_amount: nat,
    security_amount: nat,
    interest_rate: nat,
    activation_deadline: nat,
    return_deadline: nat,
)
    ensures
        storage_words(
            chain,
            constructed(
                cache,
                borrower,
                lender,
                loan_token,
                security_token,
                loan_amount,
                security_amount,
                interest_rate,
                activation_deadline,
                return_deadline,
            ),
        ) == constructed(
            storage_words(chain, cache),
            borrower,
            lender,
            loan_token,
            security_token,
            loan_amount,
            security_amount,
            interest_rate,
            activation_deadline,
            return_deadline,
        ),
{
    assert(storage_words(
        chain,
        constructed(
            cache,
            borrower,
            lender,
            loan_token,
            security_token,
            loan_amount,
            security_amount,
            interest_rate,
            activation_deadline,
            return_deadline,
        ),
    ) =~= constructed(
        storage_words(chain, cache),
        borrower,
        lender,
        loan_token,
        security_token,
        loan_amount,
        security_amount,
        interest_rate,
        activation_deadline,
        return_deadline,
    ));
}

/// The storage after the first `n` of `es` are performed on `chain`: each
/// write stores its word under its key; other effects leave storage alone.
pub open spec fn written_prefix(chain: Map<Seq<u8>, Seq<u8>>, es: Seq<EffectView>, n: nat) -> Map<
    Seq<u8>,
    Seq<u8>,
>
    decreases n,
{
    if n == 0 {
        chain
    } else {
        let before = written_prefix(chain, es, (n - 1) as nat);
        match es[n - 1] {
            EffectView::Write { key, value } => before.insert(key, value),
            _ => before,
        }
    }
}

/// The storage after all of `es` are performed on `chain`.
pub open spec fn written(chain: Map<Seq<u8>, Seq<u8>>, es: Seq<EffectView>) -> Map<
    Seq<u8>,
    Seq<u8>,
> {
    written_prefix(chain, es, es.len())
}

/// The constructor's writes, performed in order on any chain storage, leave
/// a storage from which every term reads back as given: each address in the
/// last twenty bytes of its slot's word, each amount and deadline as the
/// big-endian number of its slot's word; the acceptance flags stay as the
/// chain had them.
pub proof fn law_constructor_writes_read_back(
    chain: Map<Seq<u8>, Seq<u8>>,
    borrower: Address,
    lender: Address,
    loan_token: Address,
    security_token: Address,
    loan_amount: U256,
    security_amount: U256,
    interest_rate: U256,
    activation_deadline: u64,
    return_deadline: u64,
)
    ensures
        ({
            let c = written(
                chain,
                constructor_effects(
                    borrower@,
                    lender@,
                    loan_token@,
                    security_token@,
                    loan_amount@,
                    security_amount@,
                    interest_rate@,
                    activation_deadline as nat,
                    return_deadline as nat,
                ),
            );
            &&& slot_address(c, Slot::Borrower) == borrower@
            &&& slot_address(c, Slot::Lender) == lender@
            &&& slot_address(c, Slot::LoanToken) == loan_token@
            &&& slot_address(c, Slot::SecurityToken) == security_token@
            &&& slot_value(c, Slot::LoanAmount) == loan_amount@
            &&& slot_value(c, Slot::SecurityAmount) == security_amount@
            &&& slot_value(c, Slot::InterestRate) == interest_rate@
            &&& slot_value(c, Slot::ActivationDeadline) == activation_deadline as nat
            &&& slot_value(c, Slot::ReturnDeadline) == return_deadline as nat
            &&& slot_word(c, Slot::BorrowAccepted) == slot_word(chain, Slot::BorrowAccepted)
            &&& slot_word(c, Slot::LendAccepted) == slot_word(chain, Slot::LendAccepted)
        }),
{
    let es = constructor_effects(
        borrower@,
        lender@,
        loan_token@,
        security_token@,
        loan_amount@,
        security_amount@,
        interest_rate@,
        activation_deadline as nat,
        return_deadline as nat,
    );
    reveal_with_fuel(written_prefix, 10);
    assert(written(chain, es) == constructed(
        chain,
        borrower@,
        lender@,
        loan_token@,
        security_token@,
        loan_amount@,
        security_amount@,
        interest_rate@,
        activation_deadline as nat,
        return_deadline as nat,
    ));
    law_terms_read_back(
        chain,
        borrower,
        lender,
        loan_token,
        security_token,
        loan_amount,
        security_amount,
        interest_rate,
        activation_deadline,
        return_deadline,
    );
}

/// Each getter gives back the term that the constructor wrote, and the
/// acceptance flags stay as they were.
pub proof fn law_terms_read_back(
    st: Map<Seq<u8>, Seq<u8>>,
    borrower: Address,
    lender: Address,
    loan_token: Address,
    security_token: Address,
    loan_amount: U256,
    security_amount: U256,
    interest_rate: U256,
    activation_deadline: u64,
    return_deadline: u64,
)
    ensures
        ({
            let c = constructed(
                st,
                borrower@,
                lender@,
                loan_token@,
                security_token@,
                loan_amount@,
                security_amount@,
                interest_rate@,
                activation_deadline as nat,
                return_deadline as nat,
            );
            &&& slot_address(c, Slot::Borrower) == borrower@
            &&& slot_address(c, Slot::Lender) == lender@
            &&& slot_address(c, Slot::LoanToken) == loan_token@
            &&& slot_address(c, Slot::SecurityToken) == security_token@
            &&& slot_value(c, Slot::LoanAmount) == loan_amount@
            &&& slot_value(c, Slot::SecurityAmount) == security_amount@
            &&& slot_value(c, Slot::InterestRate) == interest_rate@
            &&& slot_value(c, Slot::ActivationDeadline) == activation_deadline as nat
            &&& slot_value(c, Slot::ReturnDeadline) == return_deadline as nat
            &&& slot_word(c, Slot::BorrowAccepted) == slot_word(st, Slot::BorrowAccepted)
            &&& slot_word(c, Slot::LendAccepted) == slot_word(st, Slot::LendAccepted)
        }),
{
    lemma_address_roundtrip(borrower@);
    lemma_address_roundtrip(lender@);
    lemma_address_roundtrip(loan_token@);
    lemma_address_roundtrip(security_token@);
    lemma_u256_bound(loan_amount);
    lemma_u256_bound(security_amount);
    lemma_u256_bound(interest_rate);
    lemma_value_word_roundtrip(loan_amount@);
    lemma_value_word_roundtrip(security_amount@);
    lemma_value_word_roundtrip(interest_rate@);
    lemma_value_word_roundtrip(activation_deadline as nat);
    lemma_value_word_roundtrip(return_deadline as nat);
    let slots = seq![
        Slot::Borrower,
        Slot::Lender,
        Slot::LoanToken,
        Slot::SecurityToken,
        Slot::LoanAmount,
        Slot::SecurityAmount,
        Slot::InterestRate,
        Slot::ActivationDeadline,
        Slot::ReturnDeadline,
        Slot::BorrowAccepted,
        Slot::LendAccepted,
    ];
    assert forall|i: int, j: int| 0 <= i < 11 && 0 <= j < 11 && i != j implies slot_key(
        slots[i],
    ) != slot_key(slots[j]) by {
        lemma_slot_keys_distinct(slots[i], slots[j]);
    }
}

/// An agreement that both parties have accepted refuses every further
/// acceptance, with no effect and no change to its storage.
pub proof fn law_active_refuses_accept(st: Map<Seq<u8>, Seq<u8>>, ctx: CallContext)
    requires
        active(st),
    ensures
        accept_spec(st, ctx) == (Seq::<EffectView>::empty(), Err::<bool, Failure>(
            Failure::AlreadyActive,
        ), st),
{
}

/// An account that is neither borrower nor lender cannot accept: the call
/// fails, records no acceptance and writes nothing.
pub proof fn law_only_parties_accept(st: Map<Seq<u8>, Seq<u8>>, ctx: CallContext)
    requires
        ctx.sender@ != slot_address(st, Slot::Borrower),
        ctx.sender@ != slot_address(st, Slot::Lender),
    ensures
        accept_spec(st, ctx).1 is Err,
        accept_spec(st, ctx).2 == st,
        forall|i: int|
            0 <= i < accept_spec(st, ctx).0.len() ==> !(accept_spec(st, ctx).0[i] is Write),
{
}

/// Acceptance is never withdrawn: a flag set before a call of `accept` is
/// set after it, and a call of `terminate` changes no storage.
pub proof fn law_acceptance_persists(st: Map<Seq<u8>, Seq<u8>>, ctx: CallContext)
    ensures
        slot_flag(st, Slot::BorrowAccepted) ==> slot_flag(
            accept_spec(st, ctx).2,
            Slot::BorrowAccepted,
        ),
        slot_flag(st, Slot::LendAccepted) ==> slot_flag(accept_spec(st, ctx).2, Slot::LendAccepted),
        terminate_spec(st, ctx).2 == st,
{
    lemma_one_word();
    lemma_slot_after_insert(st, Slot::BorrowAccepted, Slot::LendAccepted, one_word());
    lemma_slot_after_insert(st, Slot::LendAccepted, Slot::BorrowAccepted, one_word());
    lemma_slot_after_insert(st, Slot::BorrowAccepted, Slot::BorrowAccepted, one_word());
    lemma_slot_after_insert(st, Slot::LendAccepted, Slot::LendAccepted, one_word());
}

/// Whether an effect is a token call.
pub open spec fn is_token_call(e: EffectView) -> bool {
    e is TransferFrom || e is Transfer
}

/// `accept` calls a token only in the call that activates the loan: a call
/// with a token call among its effects returns `true`, found the agreement
/// not active and leaves it active (both flags set); every other call makes
/// no token call at all.
pub proof fn law_accept_transfers_only_on_activation(st: Map<Seq<u8>, Seq<u8>>, ctx: CallContext)
    ensures
        (exists|i: int|
            0 <= i < accept_spec(st, ctx).0.len() && is_token_call(
                #[trigger] accept_spec(st, ctx).0[i],
            )) ==> {
            &&& accept_spec(st, ctx).1 == Ok::<bool, Failure>(true)
            &&& !active(st)
            &&& slot_value(accept_spec(st, ctx).2, Slot::BorrowAccepted) != 0
            &&& slot_value(accept_spec(st, ctx).2, Slot::LendAccepted) != 0
        },
        accept_spec(st, ctx).1 != Ok::<bool, Failure>(true) ==> forall|i: int|
            0 <= i < accept_spec(st, ctx).0.len() ==> !is_token_call(
                #[trigger] accept_spec(st, ctx).0[i],
            ),
{
    let e = accept_spec(st, ctx).0;
    if exists|i: int| 0 <= i < e.len() && is_token_call(#[trigger] e[i]) {
        let i = choose|i: int| 0 <= i < e.len() && is_token_call(#[trigger] e[i]);
        assert(is_token_call(e[i]));
    }
}

/// Before the activation deadline and before the lender has accepted, the
/// borrower's `accept` (first or repeated) only records and logs the
/// borrower's acceptance and returns `false`: no token moves.
pub proof fn law_borrower_waits_for_lender(st: Map<Seq<u8>, Seq<u8>>, ctx: CallContext)
    requires
        slot_value(st, Slot::LendAccepted) == 0,
        slot_value(st, Slot::ActivationDeadline) < limb_base(),
        ctx.timestamp <= slot_value(st, Slot::ActivationDeadline),
        ctx.sender@ == slot_address(st, Slot::Borrower),
    ensures
        accept_spec(st, ctx) == (
            seq![
                EffectView::Write { key: slot_key(Slot::BorrowAccepted), value: value_word(1) },
                EffectView::Log { event: Event::BorrowerAcceptance },
            ],
            Ok::<bool, Failure>(false),
            st.insert(slot_key(Slot::BorrowAccepted), value_word(1)),
        ),
{
    lemma_one_word();
    lemma_slot_after_insert(st, Slot::LendAccepted, Slot::BorrowAccepted, one_word());
}

/// Before the activation deadline and before the borrower has accepted, the
/// lender's `accept` (first or repeated) only records and logs the lender's
/// acceptance and returns `false`: no token moves.
pub proof fn law_lender_waits_for_borrower(st: Map<Seq<u8>, Seq<u8>>, ctx: CallContext)
    requires
        slot_value(st, Slot::BorrowAccepted) == 0,
        slot_value(st, Slot::ActivationDeadline) < limb_base(),
        ctx.timestamp <= slot_value(st, Slot::ActivationDeadline),
        ctx.sender@ == slot_address(st, Slot::Lender),
        ctx.sender@ != slot_address(st, Slot::Borrower),
    ensures
        accept_spec(st, ctx) == (
            seq![
                EffectView::Write { key: slot_key(Slot::LendAccepted), value: value_word(1) },
                EffectView::Log { event: Event::LenderAcceptance },
            ],
            Ok::<bool, Failure>(false),
            st.insert(slot_key(Slot::LendAccepted), value_word(1)),
        ),
{
    lemma_one_word();
    lemma_slot_after_insert(st, Slot::BorrowAccepted, Slot::LendAccepted, one_word());
}

/// The storage after a sequence of calls of `accept`, each on the storage
/// that the one before left.
pub open spec fn after_accepts(st: Map<Seq<u8>, Seq<u8>>, cs: Seq<CallContext>) -> Map<
    Seq<u8>,
    Seq<u8>,
>
    decreases cs.len(),
{
    if cs.len() == 0 {
        st
    } else {
        accept_spec(after_accepts(st, cs.drop_last()), cs.last()).2
    }
}

/// How many calls of a sequence of calls of `accept` return `true`, that is,
/// activate the loan and make its two transfers.
pub open spec fn activations(st: Map<Seq<u8>, Seq<u8>>, cs: Seq<CallContext>) -> nat
    decreases cs.len(),
{
    if cs.len() == 0 {
        0
    } else {
        activations(st, cs.drop_last()) + if accept_spec(
            after_accepts(st, cs.drop_last()),
            cs.last(),
        ).1 == Ok::<bool, Failure>(true) {
            1nat
        } else {
            0nat
        }
    }
}

/// Over any sequence of calls of `accept`, with any senders and times, at
/// most one call activates the loan; once the loan is active it stays
/// active, and no later call activates it again.
pub proof fn law_at_most_one_activation(st: Map<Seq<u8>, Seq<u8>>, cs: Seq<CallContext>)
    ensures
        activations(st, cs) <= 1,
        activations(st, cs) == 1 ==> active(after_accepts(st, cs)),
        active(st) ==> activations(st, cs) == 0 && active(after_accepts(st, cs)),
    decreases cs.len(),
{
    if cs.len() > 0 {
        let p = cs.drop_last();
        law_at_most_one_activation(st, p);
        let s = after_accepts(st, p);
        if active(s) {
            law_active_refuses_accept(s, cs.last());
        }
    }
}

/// The storage of an agreement in which neither party has accepted, whose
/// borrower and lender differ, and whose activation deadline is `t` or later.
pub open spec fn awaiting_both(st: Map<Seq<u8>, Seq<u8>>, t: u64) -> bool {
    &&& !slot_flag(st, Slot::BorrowAccepted)
    &&& !slot_flag(st, Slot::LendAccepted)
    &&& slot_address(st, Slot::Borrower) != slot_address(st, Slot::Lender)
    &&& slot_value(st, Slot::ActivationDeadline) < limb_base()
    &&& t <= slot_value(st, Slot::ActivationDeadline)
}

/// The transfers that activate the loan: the security from the borrower to
/// the agreement, then the loan from the lender to the borrower.
pub open spec fn activation_transfers(st: Map<Seq<u8>, Seq<u8>>, this: Seq<u8>) -> Seq<
    EffectView,
> {
    seq![
        EffectView::TransferFrom {
            token: slot_address(st, Slot::SecurityToken),
            from: slot_address(st, Slot::Borrower),
            to: this,
            amount: slot_value(st, Slot::SecurityAmount),
        },
        EffectView::TransferFrom {
            token: slot_address(st, Slot::LoanToken),
            from: slot_address(st, Slot::Lender),
            to: slot_address(st, Slot::Borrower),
            amount: slot_value(st, Slot::LoanAmount),
        },
    ]
}

/// Before the activation deadline, the first party to accept is recorded
/// and the call returns `false`; the second party's acceptance activates
/// the loan: it is recorded, logged, the two activation transfers follow,
/// and the call returns `true`. This holds in either order.
pub proof fn law_both_acceptances_activate(
    st: Map<Seq<u8>, Seq<u8>>,
    first: CallContext,
    second: CallContext,
    t: u64,
)
    requires
        awaiting_both(st, t),
        first.timestamp <= t,
        second.timestamp <= t,
        (first.sender@ == slot_address(st, Slot::Borrower) && second.sender@ == slot_address(
            st,
            Slot::Lender,
        )) || (first.sender@ == slot_address(st, Slot::Lender) && second.sender@
            == slot_address(st, Slot::Borrower)),
    ensures
        ({
            let (e1, o1, st1) = accept_spec(st, first);
            let (e2, o2, st2) = accept_spec(st1, second);
            let (flag1, event1, flag2, event2) = if first.sender@ == slot_address(
                st,
                Slot::Borrower,
            ) {
                (
                    Slot::BorrowAccepted,
                    Event::BorrowerAcceptance,
                    Slot::LendAccepted,
                    Event::LenderAcceptance,
                )
            } else {
                (
                    Slot::LendAccepted,
                    Event::LenderAcceptance,
                    Slot::BorrowAccepted,
                    Event::BorrowerAcceptance,
                )
            };
            &&& o1 == Ok::<bool, Failure>(false)
            &&& !active(st1)
            &&& e1 == seq![
                EffectView::Write { key: slot_key(flag1), value: one_word() },
                EffectView::Log { event: event1 },
            ]
            &&& o2 == Ok::<bool, Failure>(true)
            &&& active(st2)
            &&& e2 == seq![
                EffectView::Write { key: slot_key(flag2), value: one_word() },
                EffectView::Log { event: event2 },
            ] + activation_transfers(st, second.address@)
        }),
{
    lemma_one_word();
    let st1 = accept_spec(st, first).2;
    let flag1 = if first.sender@ == slot_address(st, Slot::Borrower) {
        Slot::BorrowAccepted
    } else {
        Slot::LendAccepted
    };
    let flag2 = if first.sender@ == slot_address(st, Slot::Borrower) {
        Slot::LendAccepted
    } else {
        Slot::BorrowAccepted
    };
    assert(st1 == st.insert(slot_key(flag1), one_word()));
    let slots = seq![
        Slot::Borrower,
        Slot::Lender,
        Slot::LoanToken,
        Slot::SecurityToken,
        Slot::LoanAmount,
        Slot::SecurityAmount,
        Slot::InterestRate,
        Slot::ActivationDeadline,
        Slot::ReturnDeadline,
        Slot::BorrowAccepted,
        Slot::LendAccepted,
    ];
    assert forall|i: int| 0 <= i < 11 implies slot_word(st1, #[trigger] slots[i]) == (if slots[i]
        == flag1 {
        one_word()
    } else {
        slot_word(st, slots[i])
    }) by {
        lemma_slot_after_insert(st, slots[i], flag1, one_word());
    }
    let st2 = st1.insert(slot_key(flag2), one_word());
    assert forall|i: int| 0 <= i < 11 implies slot_word(st2, #[trigger] slots[i]) == (if slots[i]
        == flag2 {
        one_word()
    } else {
        slot_word(st1, slots[i])
    }) by {
        lemma_slot_after_insert(st1, slots[i], flag2, one_word());
    }
    assert(slots[9] == Slot::BorrowAccepted);
    assert(slots[10] == Slot::LendAccepted);
    assert(slots[0] == Slot::Borrower);
    assert(slots[1] == Slot::Lender);
    assert(slots[2] == Slot::LoanToken);
    assert(slots[3] == Slot::SecurityToken);
    assert(slots[4] == Slot::LoanAmount);
    assert(slots[5] == Slot::SecurityAmount);
    assert(slots[7] == Slot::ActivationDeadline);
}

/// The storage of an active agreement whose return deadline fits in 64 bits
/// and whose amount to return fits in 256 bits.
pub open spec fn terminable(st: Map<Seq<u8>, Seq<u8>>) -> bool {
    &&& active(st)
    &&& slot_value(st, Slot::ReturnDeadline) < limb_base()
    &&& slot_value(st, Slot::LoanAmount) + (slot_value(st, Slot::LoanAmount) / 100)
        * slot_value(st, Slot::InterestRate) < crate::uint::u256_modulus()
}

/// `terminate` fails for arithmetic overflow only where the loan plus its
/// interest (the loan divided by 100, times the rate) reaches 2^256.
pub proof fn law_overflow_only_when_too_large(st: Map<Seq<u8>, Seq<u8>>, ctx: CallContext)
    requires
        terminate_spec(st, ctx).1 == Err::<bool, Failure>(Failure::ArithmeticOverflow),
    ensures
        slot_value(st, Slot::LoanAmount) + (slot_value(st, Slot::LoanAmount) / 100) * slot_value(
            st,
            Slot::InterestRate,
        ) >= crate::uint::u256_modulus(),
{
}

/// An agreement that both parties have not accepted cannot be terminated
/// before its activation deadline: the call fails with no effect, whoever
/// sends it.
pub proof fn law_inactive_refuses_terminate(st: Map<Seq<u8>, Seq<u8>>, ctx: CallContext)
    requires
        !active(st),
        slot_value(st, Slot::ActivationDeadline) < limb_base(),
        ctx.timestamp <= slot_value(st, Slot::ActivationDeadline),
    ensures
        terminate_spec(st, ctx) == (Seq::<EffectView>::empty(), Err::<bool, Failure>(
            Failure::NotActive,
        ), st),
{
}

/// Up to the return deadline the borrower terminates by refund: the loan
/// with interest (the loan divided by 100, times the rate) moves from the
/// borrower to the lender, the security back to the borrower, `Refund` is
/// logged, and the agreement destroys itself for the borrower.
pub proof fn law_refund(st: Map<Seq<u8>, Seq<u8>>, ctx: CallContext)
    requires
        terminable(st),
        ctx.timestamp <= slot_value(st, Slot::ReturnDeadline),
        ctx.sender@ == slot_address(st, Slot::Borrower),
    ensures
        terminate_spec(st, ctx) == (
            seq![
                EffectView::TransferFrom {
                    token: slot_address(st, Slot::LoanToken),
                    from: slot_address(st, Slot::Borrower),
                    to: slot_address(st, Slot::Lender),
                    amount: slot_value(st, Slot::LoanAmount) + (slot_value(st, Slot::LoanAmount)
                        / 100) * slot_value(st, Slot::InterestRate),
                },
                EffectView::Transfer {
                    token: slot_address(st, Slot::SecurityToken),
                    to: slot_address(st, Slot::Borrower),
                    amount: slot_value(st, Slot::SecurityAmount),
                },
                EffectView::Log { event: Event::Refund },
                EffectView::Log { event: Event::Suicide },
                EffectView::SelfDestruct { beneficiary: slot_address(st, Slot::Borrower) },
            ],
            Ok::<bool, Failure>(false),
            st,
        ),
{
}

/// Up to the return deadline nobody but the borrower may terminate: the call
/// fails without any token call.
pub proof fn law_only_borrower_refunds(st: Map<Seq<u8>, Seq<u8>>, ctx: CallContext)
    requires
        terminable(st),
        ctx.timestamp <= slot_value(st, Slot::ReturnDeadline),
        ctx.sender@ != slot_address(st, Slot::Borrower),
    ensures
        terminate_spec(st, ctx) == (Seq::<EffectView>::empty(), Err::<bool, Failure>(
            Failure::NotBorrower,
        ), st),
{
}

/// After the return deadline anyone may terminate, by default: the security
/// goes to the lender, `Default` is logged, and the agreement destroys
/// itself for the sender.
pub proof fn law_default(st: Map<Seq<u8>, Seq<u8>>, ctx: CallContext)
    requires
        terminable(st),
        ctx.timestamp > slot_value(st, Slot::ReturnDeadline),
    ensures
        terminate_spec(st, ctx) == (
            seq![
                EffectView::Transfer {
                    token: slot_address(st, Slot::SecurityToken),
                    to: slot_address(st, Slot::Lender),
                    amount: slot_value(st, Slot::SecurityAmount),
                },
                EffectView::Log { event: Event::Default },
            ] + self_destruct(ctx.sender@),
            Ok::<bool, Failure>(false),
            st,
        ),
{
}

/// A call of `terminate` that does not fail ends with the agreement
/// destroying itself for the sender.
pub proof fn law_terminate_ends_agreement(st: Map<Seq<u8>, Seq<u8>>, ctx: CallContext)
    requires
        terminate_spec(st, ctx).1 is Ok,
    ensures
        ({
            let e = terminate_spec(st, ctx).0;
            &&& e.len() >= 2
            &&& e.subrange(e.len() - 2, e.len() as int) == self_destruct(ctx.sender@)
        }),
{
    let e = terminate_spec(st, ctx).0;
    assert(e.subrange(e.len() - 2, e.len() as int) =~= self_destruct(ctx.sender@));
}

/// Past the activation deadline, an agreement that is not active destroys
/// itself for the sender at the start of `accept` and of `terminate`.
pub proof fn law_expired_destroys(st: Map<Seq<u8>, Seq<u8>>, ctx: CallContext)
    requires
        !active(st),
        slot_value(st, Slot::ActivationDeadline) < limb_base(),
        ctx.timestamp > slot_value(st, Slot::ActivationDeadline),
    ensures
        accept_spec(st, ctx).0.len() >= 2,
        accept_spec(st, ctx).0.subrange(0, 2) == self_destruct(ctx.sender@),
        terminate_spec(st, ctx).0.len() >= 2,
        terminate_spec(st, ctx).0.subrange(0, 2) == self_destruct(ctx.sender@),
{
    assert(accept_spec(st, ctx).0.subrange(0, 2) =~= self_destruct(ctx.sender@));
    assert(terminate_spec(st, ctx).0.subrange(0, 2) =~= self_destruct(ctx.sender@));
}

} // verus!
