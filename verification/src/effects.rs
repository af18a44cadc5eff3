//! What a call of the agreement does to the world, as values: the storage
//! writes, event logs, token calls and self-destruction that the host
//! performs, in order, and the machine that hands them to the host one by one.

use vstd::prelude::*;
use crate::uint::U256;
use crate::word::{Address, Word};

verus! {

/// The events that the agreement logs.
#[derive(Clone, Copy, Debug, PartialEq, Eq)]
pub enum Event {
    LenderAcceptance,
    BorrowerAcceptance,
    Activation,
    Refund,
    Default,
    Suicide,
}

/// One effect on the chain.
#[derive(Clone, Copy, Debug, PartialEq, Eq)]
pub enum Effect {
    /// Store `value` under `key` in the agreement's storage.
    Write { key: Word, value: Word },
    /// Log an event.
    Log { event: Event },
    /// Call `transferFrom(from, to, amount)` on the token contract at
    /// `token`; the call must return `true`.
    TransferFrom { token: Address, from: Address, to: Address, amount: U256 },
    /// Call `transfer(to, amount)` on the token contract at `token`; the
    /// call must return `true`.
    Transfer { token: Address, to: Address, amount: U256 },
    /// Destroy the agreement's account, sending its balance to
    /// `beneficiary`. A host that halts here ends the call; one that
    /// returns goes on with the effects that follow.
    SelfDestruct { beneficiary: Address },
}

/// An effect with its words and addresses as byte sequences and its
/// amounts as numbers.
pub enum EffectView {
    Write { key: Seq<u8>, value: Seq<u8> },
    Log { event: Event },
    TransferFrom { token: Seq<u8>, from: Seq<u8>, to: Seq<u8>, amount: nat },
    Transfer { token: Seq<u8>, to: Seq<u8>, amount: nat },
    SelfDestruct { beneficiary: Seq<u8> },
}

impl View for Effect {
    type V = EffectView;

    open spec fn view(&self) -> EffectView {
        match *self {
            Effect::Write { key, value } => EffectView::Write { key: key@, value: value@ },
            Effect::Log { event } => EffectView::Log { event },
            Effect::TransferFrom { token, from, to, amount } => EffectView::TransferFrom {
                token: token@,
                from: from@,
                to: to@,
                amount: amount@,
            },
            Effect::Transfer { token, to, amount } => EffectView::Transfer {
                token: token@,
                to: to@,
                amount: amount@,
            },
            Effect::SelfDestruct { beneficiary } => EffectView::SelfDestruct {
                beneficiary: beneficiary@,
            },
        }
    }
}

/// The views of a sequence of effects.
pub open spec fn effects_view(s: Seq<Effect>) -> Seq<EffectView> {
    s.map_values(|e: Effect| e@)
}

/// Why a call fails: the places where the agreement aborts the transaction.
#[derive(Clone, Copy, Debug, PartialEq, Eq)]
pub enum Failure {
    /// `accept` on an agreement that both parties have accepted already.
    AlreadyActive,
    /// `accept` by an account that is neither borrower nor lender.
    NotParticipant,
    /// `terminate` before the return deadline by another than the borrower.
    NotBorrower,
    /// `terminate` of an agreement that both parties have not yet accepted
    /// and whose activation deadline has not passed.
    NotActive,
    /// The amount to return does not fit in 256 bits.
    ArithmeticOverflow,
    /// A stored deadline does not fit in 64 bits.
    DeadlineOverflow,
    /// A token call returned `false`.
    TransferFailed,
}

/// What a call does: its effects, in order, and how it ends once they are
/// done: with a result, or by aborting.
pub struct Plan {
    pub effects: Vec<Effect>,
    pub outcome: Result<bool, Failure>,
}

/// The host's answer to the last action.
#[derive(Clone, Copy, Debug, PartialEq, Eq)]
pub enum Reply {
    /// Nothing was asked yet.
    Started,
    /// The effect was performed.
    Performed,
    /// The token call returned this value.
    TransferReturned(bool),
}

/// What the host is to do next.
#[derive(Clone, Copy, Debug, PartialEq, Eq)]
pub enum Action {
    /// Perform this effect, then reply.
    Perform(Effect),
    /// The call returns this value.
    Finish(bool),
    /// The call aborts the transaction.
    Abort(Failure),
}

/// A plan being carried out: the host asks for the next action, performs
/// it, and hands back the reply.
pub struct Run {
    effects: Vec<Effect>,
    outcome: Result<bool, Failure>,
    next: usize,
    failed: Option<Failure>,
}

impl Run {
    #[verifier::type_invariant]
    closed spec fn inv(&self) -> bool {
        self.next <= self.effects@.len()
    }

    /// The planned effects.
    pub closed spec fn planned(&self) -> Seq<Effect> {
        self.effects@
    }

    /// How the plan ends once its effects are done.
    pub closed spec fn ending(&self) -> Result<bool, Failure> {
        self.outcome
    }

    /// How many effects were handed out.
    pub closed spec fn position(&self) -> nat {
        self.next as nat
    }

    /// The failure that stopped the run, if one did.
    pub closed spec fn stopped(&self) -> Option<Failure> {
        self.failed
    }

    pub fn new(plan: Plan) -> (r: Run)
        ensures
            r.planned() == plan.effects@,
            r.ending() == plan.outcome,
            r.position() == 0,
            r.stopped() == None::<Failure>,
    {
        Run { effects: plan.effects, outcome: plan.outcome, next: 0, failed: None }
    }

    /// The next action, given the reply to the last one. A token call that
    /// returned `false` aborts with [`Failure::TransferFailed`]; after an
    /// abort every further action is the same abort.
    pub fn step(&mut self, reply: Reply) -> (a: Action)
        ensures
            final(self).planned() == old(self).planned(),
            final(self).ending() == old(self).ending(),
            final(self).position() <= final(self).planned().len(),
            match old(self).stopped() {
                Some(f) => a == Action::Abort(f) && final(self).stopped() == Some(f)
                    && final(self).position() == old(self).position(),
                None => if reply == Reply::TransferReturned(false) {
                    a == Action::Abort(Failure::TransferFailed)
                        && final(self).stopped() == Some(Failure::TransferFailed)
                        && final(self).position() == old(self).position()
                } else if old(self).position() < old(self).planned().len() {
                    a == Action::Perform(old(self).planned()[old(self).position() as int])
                        && final(self).position() == old(self).position() + 1
                        && final(self).stopped() == None::<Failure>
                } else {
                    a == (match old(self).ending() {
                        Ok(b) => Action::Finish(b),
                        Err(f) => Action::Abort(f),
                    }) && final(self).position() == old(self).position()
                        && final(self).stopped() == None::<Failure>
                },
            },
    {
        proof {
            use_type_invariant(&*self);
        }
        if let Some(f) = self.failed {
            return Action::Abort(f);
        }
        if let Reply::TransferReturned(false) = reply {
            self.failed = Some(Failure::TransferFailed);
            return Action::Abort(Failure::TransferFailed);
        }
        if self.next < self.effects.len() {
            let e = self.effects[self.next];
            self.next = self.next + 1;
            Action::Perform(e)
        } else {
            match self.outcome {
                Ok(b) => Action::Finish(b),
                Err(f) => Action::Abort(f),
            }
        }
    }
}

} // verus!
