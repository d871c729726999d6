//! The runtime that trusted calls are dispatched to: one handler per call kind.
//!
//! `Runtime` is a model of the host ledger's balances and ceremonies modules, written for
//! this library: its error cases and storage layout follow those modules' storage names but
//! are not taken from their code.
use vstd::prelude::*;
use crate::attendance::{AccountId, CurrencyIdentifier, ProofOfAttendance};
use crate::balances::transfer_spec;
use crate::ceremonies::register_spec;
use crate::demurrage::{BlockNumber, DemurrageError};
use crate::fixed::BalanceType;
use crate::state::State;
use crate::storage_key::{StorageHasher, value_key_spec, key_hash_spec};

verus! {

/// Why a runtime handler refused a call. The state is left as it was.
#[derive(Clone, Copy, Debug, PartialEq, Eq, Structural)]
pub enum DispatchError {
    /// A stored balance could not be brought to the current height.
    Demurrage(DemurrageError),
    /// A transfer of a negative amount.
    NegativeAmount,
    /// The sender's present balance is below the amount.
    InsufficientBalance,
    /// A sum or a counter does not fit.
    Overflow,
    /// A stored value that the call reads cannot be decoded.
    Undecodable,
    /// Registration is only open in the registering phase.
    WrongPhase,
    /// The participant is already registered for this ceremony.
    AlreadyRegistered,
    /// The proof of attendance is for another prover, currency or ceremony, or its
    /// signature is invalid.
    InvalidProof,
}

/// `r` reports `outcome`: on success the state became the outcome's map, on failure it stayed.
pub open spec fn reports<E>(
    r: Result<(), E>,
    before: Map<Seq<u8>, Seq<u8>>,
    after: Map<Seq<u8>, Seq<u8>>,
    outcome: Result<Map<Seq<u8>, Seq<u8>>, E>,
) -> bool {
    match outcome {
        Ok(m) => r == Ok::<(), E>(()) && after == m,
        Err(e) => r == Err::<(), E>(e) && after == before,
    }
}

/// The address of an account's nonce.
pub open spec fn nonce_key_spec(account: Seq<u8>) -> Seq<u8> {
    value_key_spec("System"@, "Account"@) + key_hash_spec(account, StorageHasher::Blake2_128Concat)
}

/// `before` and `after` agree at `k`: both lack it, or both hold the same value there.
pub open spec fn same_at(before: Map<Seq<u8>, Seq<u8>>, after: Map<Seq<u8>, Seq<u8>>, k: Seq<u8>) -> bool {
    &&& before.contains_key(k) == after.contains_key(k)
    &&& before.contains_key(k) ==> before[k] == after[k]
}

/// `before` and `after` agree at every account's nonce address.
pub open spec fn keeps_nonces(before: Map<Seq<u8>, Seq<u8>>, after: Map<Seq<u8>, Seq<u8>>) -> bool {
    forall|a: AccountId| #[trigger] same_at(before, after, nonce_key_spec(a@))
}

/// A nonce address has 80 bytes: the table prefix, a 16-byte digest and the account.
pub proof fn lemma_nonce_key_len(a: AccountId)
    ensures
        nonce_key_spec(a@).len() == 80,
{
}

/// Writing at an address of another length than 80 keeps every nonce.
pub proof fn lemma_insert_keeps_nonces(m: Map<Seq<u8>, Seq<u8>>, k: Seq<u8>, v: Seq<u8>)
    requires
        k.len() != 80,
    ensures
        keeps_nonces(m, m.insert(k, v)),
{
    assert forall|a: AccountId| #[trigger] same_at(m, m.insert(k, v), nonce_key_spec(a@)) by {
        lemma_nonce_key_len(a);
    }
}

/// The handlers of a runtime, one per kind of trusted call. Each either applies its whole
/// effect to the state or refuses and leaves it as it was.
pub trait Trait {
    /// The state after a transfer, or why it is refused.
    spec fn transfer_outcome(
        &self,
        m: Map<Seq<u8>, Seq<u8>>,
        from: AccountId,
        to: AccountId,
        cid: CurrencyIdentifier,
        amount: BalanceType,
    ) -> Result<Map<Seq<u8>, Seq<u8>>, DispatchError>;

    /// The state after a registration, or why it is refused.
    spec fn register_outcome(
        &self,
        m: Map<Seq<u8>, Seq<u8>>,
        who: AccountId,
        cid: CurrencyIdentifier,
        poa: Option<ProofOfAttendance>,
    ) -> Result<Map<Seq<u8>, Seq<u8>>, DispatchError>;

    /// A transfer that succeeds leaves every nonce alone.
    proof fn lemma_transfer_keeps_nonces(
        &self,
        m: Map<Seq<u8>, Seq<u8>>,
        from: AccountId,
        to: AccountId,
        cid: CurrencyIdentifier,
        amount: BalanceType,
    )
        ensures
            self.transfer_outcome(m, from, to, cid, amount) matches Ok(m2) ==> keeps_nonces(m, m2),
    ;

    /// A registration that succeeds leaves every nonce alone.
    proof fn lemma_register_keeps_nonces(
        &self,
        m: Map<Seq<u8>, Seq<u8>>,
        who: AccountId,
        cid: CurrencyIdentifier,
        poa: Option<ProofOfAttendance>,
    )
        ensures
            self.register_outcome(m, who, cid, poa) matches Ok(m2) ==> keeps_nonces(m, m2),
    ;

    /// Moves `amount` of currency `cid` from `from` to `to`.
    fn transfer(
        &self,
        state: &mut State,
        from: &AccountId,
        to: &AccountId,
        cid: &CurrencyIdentifier,
        amount: BalanceType,
    ) -> (r: Result<(), DispatchError>)
        requires
            old(state).wf(),
        ensures
            final(state).wf(),
            reports(
                r,
                old(state)@,
                final(state)@,
                self.transfer_outcome(old(state)@, *from, *to, *cid, amount),
            ),
    ;

    /// Registers `who` for the current ceremony of `cid`, with an optional proof of attendance.
    fn register_participant(
        &self,
        state: &mut State,
        who: &AccountId,
        cid: &CurrencyIdentifier,
        poa: &Option<ProofOfAttendance>,
    ) -> (r: Result<(), DispatchError>)
        requires
            old(state).wf(),
        ensures
            final(state).wf(),
            reports(r, old(state)@, final(state)@, self.register_outcome(old(state)@, *who, *cid, *poa)),
    ;
}

/// The runtime of a shard, with what its handlers need to know of the public ledger.
#[derive(Clone, Copy, Debug, PartialEq, Eq, Structural)]
pub struct Runtime {
    /// The current block height.
    pub block_number: BlockNumber,
    /// The decay rate per block of the shard's currency.
    pub demurrage_per_block: BalanceType,
}

impl Trait for Runtime {
    open spec fn transfer_outcome(
        &self,
        m: Map<Seq<u8>, Seq<u8>>,
        from: AccountId,
        to: AccountId,
        cid: CurrencyIdentifier,
        amount: BalanceType,
    ) -> Result<Map<Seq<u8>, Seq<u8>>, DispatchError> {
        transfer_spec(m, from, to, cid, amount, *self)
    }

    open spec fn register_outcome(
        &self,
        m: Map<Seq<u8>, Seq<u8>>,
        who: AccountId,
        cid: CurrencyIdentifier,
        poa: Option<ProofOfAttendance>,
    ) -> Result<Map<Seq<u8>, Seq<u8>>, DispatchError> {
        register_spec(m, who, cid, poa)
    }

    proof fn lemma_transfer_keeps_nonces(
        &self,
        m: Map<Seq<u8>, Seq<u8>>,
        from: AccountId,
        to: AccountId,
        cid: CurrencyIdentifier,
        amount: BalanceType,
    ) {
        crate::balances::lemma_transfer_keeps_nonces(m, from, to, cid, amount, *self);
    }

    proof fn lemma_register_keeps_nonces(
        &self,
        m: Map<Seq<u8>, Seq<u8>>,
        who: AccountId,
        cid: CurrencyIdentifier,
        poa: Option<ProofOfAttendance>,
    ) {
        crate::ceremonies::lemma_register_keeps_nonces(m, who, cid, poa);
    }

    fn transfer(
        &self,
        state: &mut State,
        from: &AccountId,
        to: &AccountId,
        cid: &CurrencyIdentifier,
        amount: BalanceType,
    ) -> (r: Result<(), DispatchError>) {
        crate::balances::transfer(self, state, from, to, cid, amount)
    }

    fn register_participant(
        &self,
        state: &mut State,
        who: &AccountId,
        cid: &CurrencyIdentifier,
        poa: &Option<ProofOfAttendance>,
    ) -> (r: Result<(), DispatchError>) {
        crate::ceremonies::register_participant(state, who, cid, poa)
    }
}

} // verus!
