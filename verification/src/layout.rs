//! Where the agreement keeps its terms: eleven storage slots, keyed by the
//! words 0, 1, ..., 10 in their first byte, and what each slot's word means.

use vstd::prelude::*;
use crate::storage::word_at;
use crate::uint::be_value;
use crate::word::{word_address, Word};

verus! {

broadcast use vstd::array::group_array_axioms;

/// A storage slot of the agreement.
#[derive(Clone, Copy, Debug, PartialEq, Eq)]
pub enum Slot {
    Borrower,
    Lender,
    LoanToken,
    SecurityToken,
    LoanAmount,
    SecurityAmount,
    InterestRate,
    ActivationDeadline,
    ReturnDeadline,
    BorrowAccepted,
    LendAccepted,
}

impl Slot {
    /// The slot's number: its place in the order above.
    pub open spec fn number(self) -> u8 {
        match self {
            Slot::Borrower => 0,
            Slot::Lender => 1,
            Slot::LoanToken => 2,
            Slot::SecurityToken => 3,
            Slot::LoanAmount => 4,
            Slot::SecurityAmount => 5,
            Slot::InterestRate => 6,
            Slot::ActivationDeadline => 7,
            Slot::ReturnDeadline => 8,
            Slot::BorrowAccepted => 9,
            Slot::LendAccepted => 10,
        }
    }

    pub fn index(&self) -> (r: u8)
        ensures
            r == self.number(),
    {
        match self {
            Slot::Borrower => 0,
            Slot::Lender => 1,
            Slot::LoanToken => 2,
            Slot::SecurityToken => 3,
            Slot::LoanAmount => 4,
            Slot::SecurityAmount => 5,
            Slot::InterestRate => 6,
            Slot::ActivationDeadline => 7,
            Slot::ReturnDeadline => 8,
            Slot::BorrowAccepted => 9,
            Slot::LendAccepted => 10,
        }
    }
}

/// The key of a slot: its number, then 31 zero bytes.
pub open spec fn slot_key(s: Slot) -> Seq<u8> {
    seq![s.number()] + Seq::new(31, |i: int| 0u8)
}

pub proof fn lemma_slot_keys_distinct(a: Slot, b: Slot)
    requires
        a != b,
    ensures
        slot_key(a) != slot_key(b),
{
    assert(slot_key(a)[0] == a.number());
    assert(slot_key(b)[0] == b.number());
}

/// The key word of a slot.
pub fn storage_key(slot: Slot) -> (r: Word)
    ensures
        r@ == slot_key(slot),
{
    let mut w: Word = [0u8; 32];
    w[0] = slot.index();
    assert(w@ =~= slot_key(slot));
    w
}

/// The keys of all slots, in slot order: what a host loads from the chain
/// before a call.
pub fn storage_keys() -> (r: Vec<Word>)
    ensures
        r@.len() == 11,
        forall|i: int| 0 <= i < 11 ==> (#[trigger] r@[i])@ == slot_key(slot_at(i)),
{
    let mut v: Vec<Word> = Vec::new();
    v.push(storage_key(Slot::Borrower));
    v.push(storage_key(Slot::Lender));
    v.push(storage_key(Slot::LoanToken));
    v.push(storage_key(Slot::SecurityToken));
    v.push(storage_key(Slot::LoanAmount));
    v.push(storage_key(Slot::SecurityAmount));
    v.push(storage_key(Slot::InterestRate));
    v.push(storage_key(Slot::ActivationDeadline));
    v.push(storage_key(Slot::ReturnDeadline));
    v.push(storage_key(Slot::BorrowAccepted));
    v.push(storage_key(Slot::LendAccepted));
    v
}

/// The slot with number `i`.
pub open spec fn slot_at(i: int) -> Slot {
    if i == 0 {
        Slot::Borrower
    } else if i == 1 {
        Slot::Lender
    } else if i == 2 {
        Slot::LoanToken
    } else if i == 3 {
        Slot::SecurityToken
    } else if i == 4 {
        Slot::LoanAmount
    } else if i == 5 {
        Slot::SecurityAmount
    } else if i == 6 {
        Slot::InterestRate
    } else if i == 7 {
        Slot::ActivationDeadline
    } else if i == 8 {
        Slot::ReturnDeadline
    } else if i == 9 {
        Slot::BorrowAccepted
    } else {
        Slot::LendAccepted
    }
}

/// The word of a slot in a storage map.
pub open spec fn slot_word(st: Map<Seq<u8>, Seq<u8>>, s: Slot) -> Seq<u8> {
    word_at(st, slot_key(s))
}

/// The address that a slot holds.
pub open spec fn slot_address(st: Map<Seq<u8>, Seq<u8>>, s: Slot) -> Seq<u8> {
    word_address(slot_word(st, s))
}

/// The number that a slot holds.
pub open spec fn slot_value(st: Map<Seq<u8>, Seq<u8>>, s: Slot) -> nat {
    be_value(slot_word(st, s))
}

/// Whether a flag slot is set (holds a number other than zero).
pub open spec fn slot_flag(st: Map<Seq<u8>, Seq<u8>>, s: Slot) -> bool {
    slot_value(st, s) != 0
}

/// Both parties have accepted: the loan is active.
pub open spec fn active(st: Map<Seq<u8>, Seq<u8>>) -> bool {
    slot_flag(st, Slot::BorrowAccepted) && slot_flag(st, Slot::LendAccepted)
}

} // verus!
