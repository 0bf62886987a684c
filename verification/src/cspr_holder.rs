//! The escrow ledger: who locked how much native currency in the pool.
//!
//! The currency itself is moved by the host. [`EscrowLedger::lock`] and
//! [`EscrowLedger::unlock`] decide whether a movement is due and name it;
//! [`EscrowLedger::settle`] books it once the host says how it went. The
//! free functions state the same rules on the values they read and write.

use crate::identity::{
    authorized, hex_lower, lemma_purses_apart, uref_to_str, AccountHash, Key, URef,
};
use crate::kvstore::KVStore;
use crate::sums::{lemma_entry_le_sum, lemma_sum_empty, lemma_sum_insert, sum_values, value_or_zero};
use crate::uint::{u512_checked_add, u512_checked_sub, u512_max, U512};
use vstd::prelude::*;

verus! {

/// Why an operation of the escrow ledger was refused.
#[derive(Clone, Copy, Debug, PartialEq, Eq)]
pub enum Error {
    /// Nothing can be locked with an amount of zero.
    ZeroAmount,
    /// The purse has less locked than the amount to unlock.
    InsufficientBalance,
    /// The caller is not the governance account.
    Unauthorized,
    /// The host could not move the currency.
    TransferFailed,
}

impl Error {
    /// The number by which a host reports the error.
    pub open spec fn spec_code(self) -> u16 {
        match self {
            Error::ZeroAmount => 0,
            Error::InsufficientBalance => 1,
            Error::Unauthorized => 2,
            Error::TransferFailed => 3,
        }
    }

    /// The number by which a host reports the error.
    pub fn code(&self) -> (code: u16)
        ensures
            code == self.spec_code(),
    {
        match self {
            Error::ZeroAmount => 0,
            Error::InsufficientBalance => 1,
            Error::Unauthorized => 2,
            Error::TransferFailed => 3,
        }
    }
}

/// A movement of native currency that the host is to carry out.
#[derive(Clone, Copy, Debug, PartialEq, Eq)]
pub enum Transfer {
    /// `amount` goes from `purse` into the pool.
    Deposit { purse: URef, amount: U512 },
    /// `amount` goes from the pool to `account`, out of what `purse` locked.
    Withdrawal { purse: URef, account: AccountHash, amount: U512 },
}

/// How the host fared with a movement of currency.
#[derive(Clone, Copy, Debug, PartialEq, Eq)]
pub enum TransferOutcome {
    Completed,
    Failed,
}

/// Lets only the governance account pass.
pub fn _authorization_check(caller: &Key, governance: &AccountHash) -> (r: Result<(), Error>)
    ensures
        authorized(*caller, *governance) ==> r is Ok,
        !authorized(*caller, *governance) ==> r == Err::<(), Error>(Error::Unauthorized),
{
    if caller.same(&Key::Account(*governance)) {
        Ok(())
    } else {
        Err(Error::Unauthorized)
    }
}

/// The rule of `lock`: an amount that is not zero is added to what the purse
/// has locked. The result is the locked amount to book once the currency
/// has reached the pool.
pub fn lock(balance: U512, amount: U512) -> (r: Result<U512, Error>)
    requires
        amount.value() != 0 ==> balance.value() + amount.value() <= u512_max(),
    ensures
        amount.value() == 0 ==> r == Err::<U512, Error>(Error::ZeroAmount),
        amount.value() != 0 ==> r is Ok && r.unwrap().value() == balance.value() + amount.value(),
{
    if amount.is_zero() {
        return Err(Error::ZeroAmount);
    }
    match u512_checked_add(balance, amount) {
        Some(locked) => Ok(locked),
        None => unreached(),
    }
}

/// The rule of `unlock`: the governance account takes an amount out of what
/// the purse has locked, if that much is locked. The result is the locked
/// amount to book once the currency has left the pool.
pub fn unlock(caller: &Key, governance: &AccountHash, balance: U512, amount: U512) -> (r: Result<
    U512,
    Error,
>)
    ensures
        !authorized(*caller, *governance) ==> r == Err::<U512, Error>(Error::Unauthorized),
        authorized(*caller, *governance) && balance.value() < amount.value() ==> r == Err::<
            U512,
            Error,
        >(Error::InsufficientBalance),
        authorized(*caller, *governance) && amount.value() <= balance.value() ==> r is Ok
            && r.unwrap().value() == balance.value() - amount.value(),
{
    if _authorization_check(caller, governance).is_err() {
        return Err(Error::Unauthorized);
    }
    match u512_checked_sub(balance, amount) {
        Some(locked) => Ok(locked),
        None => Err(Error::InsufficientBalance),
    }
}

/// A movement that the ledger waits for, with what it will book.
struct Pending {
    transfer: Transfer,
    locked_after: U512,
    pool_after: U512,
}

/// The escrow ledger: the amount that each purse has locked, the amount in
/// the pool, and the governance account that alone may unlock.
pub struct EscrowLedger {
    governance: AccountHash,
    store: KVStore<U512>,
    balances: usize,
    pool: U512,
    pending: Option<Pending>,
}

/// What an escrow ledger holds. The locked amounts are filed under the
/// purse's address in hexadecimal; a purse that is not in the map has
/// nothing locked. `pending` is the movement that the ledger waits for.
pub struct EscrowLedgerView {
    pub governance: AccountHash,
    pub balances: Map<Seq<char>, nat>,
    pub pool: nat,
    pub pending: Option<Transfer>,
}

/// The name under which the locked amount of `purse` is filed.
pub open spec fn spec_uref_to_str(purse: URef) -> Seq<char> {
    hex_lower(purse.addr@)
}

/// The numbers that a table of amounts stands for.
pub open spec fn amounts(table: Map<Seq<char>, U512>) -> Map<Seq<char>, nat> {
    table.map_values(|amount: U512| amount.value())
}

/// How the numbers of a table follow a write to it, and what they say of a
/// key.
proof fn lemma_amounts_insert(table: Map<Seq<char>, U512>, key: Seq<char>, amount: U512)
    ensures
        amounts(table.insert(key, amount)) == amounts(table).insert(key, amount.value()),
        amounts(table).dom() == table.dom(),
        value_or_zero(amounts(table), key) == if table.dom().contains(key) {
            table[key].value()
        } else {
            0
        },
{
    assert(amounts(table.insert(key, amount)) =~= amounts(table).insert(key, amount.value()));
    assert(amounts(table).dom() =~= table.dom());
}

impl EscrowLedgerView {
    /// What `purse` has locked.
    pub open spec fn balance(self, purse: URef) -> nat {
        value_or_zero(self.balances, spec_uref_to_str(purse))
    }

    /// The locked amounts are finitely many and sum to the pool, so that no
    /// purse has more locked than the pool holds.
    pub open spec fn conserved(self) -> bool {
        self.balances.dom().finite() && sum_values(self.balances) == self.pool
    }

    /// What asking to lock `amount` from `purse` returns, and the ledger
    /// after it.
    pub open spec fn lock(self, purse: URef, amount: U512) -> (
        Result<Transfer, Error>,
        EscrowLedgerView,
    ) {
        if amount.value() == 0 {
            (Err(Error::ZeroAmount), self)
        } else {
            let transfer = Transfer::Deposit { purse, amount };
            (Ok(transfer), EscrowLedgerView { pending: Some(transfer), ..self })
        }
    }

    /// What asking to unlock `amount` of `purse` for `account` on the call
    /// of `caller` returns, and the ledger after it.
    pub open spec fn unlock(self, caller: Key, purse: URef, account: AccountHash, amount: U512)
        -> (Result<Transfer, Error>, EscrowLedgerView) {
        if !authorized(caller, self.governance) {
            (Err(Error::Unauthorized), self)
        } else if self.balance(purse) < amount.value() {
            (Err(Error::InsufficientBalance), self)
        } else {
            let transfer = Transfer::Withdrawal { purse, account, amount };
            (Ok(transfer), EscrowLedgerView { pending: Some(transfer), ..self })
        }
    }

    /// What settling the pending movement returns, and the ledger after it:
    /// a movement that was made is booked, one that failed is dropped, and
    /// with nothing pending there is nothing to book.
    pub open spec fn settle(self, outcome: TransferOutcome) -> (
        Result<(), Error>,
        EscrowLedgerView,
    ) {
        match (self.pending, outcome) {
            (Some(Transfer::Deposit { purse, amount }), TransferOutcome::Completed) => (
                Ok(()),
                EscrowLedgerView {
                    balances: self.balances.insert(
                        spec_uref_to_str(purse),
                        self.balance(purse) + amount.value(),
                    ),
                    pool: self.pool + amount.value(),
                    pending: None,
                    ..self
                },
            ),
            (Some(Transfer::Withdrawal { purse, amount, .. }), TransferOutcome::Completed) => (
                Ok(()),
                EscrowLedgerView {
                    balances: self.balances.insert(
                        spec_uref_to_str(purse),
                        (self.balance(purse) - amount.value()) as nat,
                    ),
                    pool: (self.pool - amount.value()) as nat,
                    pending: None,
                    ..self
                },
            ),
            _ => (Err(Error::TransferFailed), EscrowLedgerView { pending: None, ..self }),
        }
    }
}

impl View for EscrowLedger {
    type V = EscrowLedgerView;

    closed spec fn view(&self) -> EscrowLedgerView {
        EscrowLedgerView {
            governance: self.governance,
            balances: amounts(self.store.table(self.balances as int)),
            pool: self.pool.value(),
            pending: match self.pending {
                Some(pending) => Some(pending.transfer),
                None => None,
            },
        }
    }
}

/// Installs an escrow ledger under `governance`, with nothing locked and an
/// empty pool.
pub fn call(governance: AccountHash) -> (ledger: EscrowLedger)
    ensures
        ledger.wf(),
        ledger@ == (EscrowLedgerView {
            governance,
            balances: Map::<Seq<char>, nat>::empty(),
            pool: 0,
            pending: None,
        }),
{
    let mut store: KVStore<U512> = KVStore::new();
    let balances = store.namespace("balances");
    proof {
        assert(amounts(Map::<Seq<char>, U512>::empty()) =~= Map::<Seq<char>, nat>::empty());
        lemma_sum_empty::<Seq<char>>();
    }
    EscrowLedger { governance, store, balances, pool: U512::zero(), pending: None }
}

impl EscrowLedger {
    /// The tables are in order, and what is pending can be booked.
    pub closed spec fn tables_ok(&self) -> bool {
        &&& self.store.wf()
        &&& self.balances < self.store.names().len()
        &&& match self.pending {
            Some(pending) => match pending.transfer {
                Transfer::Deposit { purse, amount } => {
                    &&& pending.locked_after.value() == self@.balance(purse) + amount.value()
                    &&& pending.pool_after.value() == self@.pool + amount.value()
                },
                Transfer::Withdrawal { purse, amount, .. } => {
                    &&& pending.locked_after.value() == self@.balance(purse) - amount.value()
                    &&& pending.pool_after.value() == self@.pool - amount.value()
                },
            },
            None => true,
        }
    }

    /// Well-formedness: the tables are in order and the locked amounts sum
    /// to the pool.
    pub open spec fn wf(&self) -> bool {
        self.tables_ok() && self@.conserved()
    }

    /// The account that may unlock.
    pub fn governance(&self) -> (governance: AccountHash)
        ensures
            governance == self@.governance,
    {
        self.governance
    }

    /// What `purse` has locked: zero for a purse that never locked.
    pub fn balance_of(&self, purse: &URef) -> (balance: U512)
        requires
            self.wf(),
        ensures
            balance.value() == self@.balance(*purse),
    {
        let key = uref_to_str(purse);
        proof {
            lemma_amounts_insert(self.store.table(self.balances as int), key@, U512::spec_zero());
        }
        self.store.read(self.balances, key.as_str())
    }

    /// The amount of currency in the pool.
    pub fn pool(&self) -> (pool: U512)
        ensures
            pool.value() == self@.pool,
    {
        self.pool
    }

    /// Asks to lock `amount` from `src_purse`. Where the amount is not zero,
    /// the result names the movement into the pool that the host is to make
    /// before it calls [`EscrowLedger::settle`]; it takes the place of a
    /// movement that was still pending. The pool must be able to hold the
    /// amount.
    pub fn lock(&mut self, src_purse: &URef, amount: U512) -> (r: Result<Transfer, Error>)
        requires
            old(self).wf(),
            amount.value() != 0 ==> old(self)@.pool + amount.value() <= u512_max(),
        ensures
            final(self).wf(),
            r == old(self)@.lock(*src_purse, amount).0,
            final(self)@ == old(self)@.lock(*src_purse, amount).1,
            r is Err ==> *final(self) == *old(self),
    {
        let key = uref_to_str(src_purse);
        let balance = self.store.read(self.balances, key.as_str());
        proof {
            self.store.lemma_wf();
            lemma_amounts_insert(self.store.table(self.balances as int), key@, balance);
            lemma_entry_le_sum(amounts(self.store.table(self.balances as int)), key@);
        }
        match lock(balance, amount) {
            Err(error) => Err(error),
            Ok(locked_after) => match u512_checked_add(self.pool, amount) {
                Some(pool_after) => {
                    let transfer = Transfer::Deposit { purse: *src_purse, amount };
                    self.pending = Some(Pending { transfer, locked_after, pool_after });
                    Ok(transfer)
                },
                None => unreached(),
            },
        }
    }

    /// The governance account asks to unlock `amount` of what `target_purse`
    /// has locked, for `target_account`. Where that much is locked, the
    /// result names the movement out of the pool that the host is to make
    /// before it calls [`EscrowLedger::settle`]; it takes the place of a
    /// movement that was still pending.
    pub fn unlock(
        &mut self,
        caller: &Key,
        target_purse: &URef,
        target_account: &AccountHash,
        amount: U512,
    ) -> (r: Result<Transfer, Error>)
        requires
            old(self).wf(),
        ensures
            final(self).wf(),
            r == old(self)@.unlock(*caller, *target_purse, *target_account, amount).0,
            final(self)@ == old(self)@.unlock(*caller, *target_purse, *target_account, amount).1,
            r is Err ==> *final(self) == *old(self),
    {
        let key = uref_to_str(target_purse);
        let balance = self.store.read(self.balances, key.as_str());
        proof {
            self.store.lemma_wf();
            lemma_amounts_insert(self.store.table(self.balances as int), key@, balance);
            lemma_entry_le_sum(amounts(self.store.table(self.balances as int)), key@);
        }
        match unlock(caller, &self.governance, balance, amount) {
            Err(error) => Err(error),
            Ok(locked_after) => match u512_checked_sub(self.pool, amount) {
                Some(pool_after) => {
                    let transfer = Transfer::Withdrawal {
                        purse: *target_purse,
                        account: *target_account,
                        amount,
                    };
                    self.pending = Some(Pending { transfer, locked_after, pool_after });
                    Ok(transfer)
                },
                None => unreached(),
            },
        }
    }

    /// Books the pending movement once the host has made it, or drops it
    /// where the host could not. Where nothing is pending, nothing was moved
    /// and nothing is booked.
    pub fn settle(&mut self, outcome: TransferOutcome) -> (r: Result<(), Error>)
        requires
            old(self).wf(),
        ensures
            final(self).wf(),
            r == old(self)@.settle(outcome).0,
            final(self)@ == old(self)@.settle(outcome).1,
    {
        let pending = self.pending.take();
        match (pending, outcome) {
            (Some(pending), TransferOutcome::Completed) => {
                let purse = match pending.transfer {
                    Transfer::Deposit { purse, .. } => purse,
                    Transfer::Withdrawal { purse, .. } => purse,
                };
                let key = uref_to_str(&purse);
                let ghost table = self.store.table(self.balances as int);
                proof {
                    self.store.lemma_wf();
                    lemma_amounts_insert(table, key@, pending.locked_after);
                    lemma_sum_insert(amounts(table), key@, pending.locked_after.value());
                }
                self.store.write(self.balances, key.as_str(), pending.locked_after);
                self.pool = pending.pool_after;
                Ok(())
            },
            _ => Err(Error::TransferFailed),
        }
    }
}

/// Booking a movement changes the locked amount of no other purse.
pub proof fn lemma_other_purses_stay(ledger: EscrowLedgerView, other: URef, outcome: TransferOutcome)
    requires
        match ledger.pending {
            Some(Transfer::Deposit { purse, .. }) => purse != other,
            Some(Transfer::Withdrawal { purse, .. }) => purse != other,
            None => true,
        },
    ensures
        ledger.settle(outcome).1.balance(other) == ledger.balance(other),
{
    match ledger.pending {
        Some(Transfer::Deposit { purse, .. }) => lemma_purses_apart(purse, other),
        Some(Transfer::Withdrawal { purse, .. }) => lemma_purses_apart(purse, other),
        None => {},
    }
}

/// No purse has more locked than the pool holds.
pub proof fn lemma_locked_within_pool(ledger: EscrowLedgerView, purse: URef)
    requires
        ledger.conserved(),
    ensures
        ledger.balance(purse) <= ledger.pool,
{
    lemma_entry_le_sum(ledger.balances, spec_uref_to_str(purse));
}

/// Booking a movement keeps the locked amounts equal in sum to the pool.
pub proof fn lemma_settle_conserves(ledger: EscrowLedgerView, outcome: TransferOutcome)
    requires
        ledger.conserved(),
        ledger.pending matches Some(Transfer::Withdrawal { purse, amount, .. })
            ==> amount.value() <= ledger.balance(purse),
    ensures
        ledger.settle(outcome).1.conserved(),
{
    match (ledger.pending, outcome) {
        (Some(Transfer::Deposit { purse, amount }), TransferOutcome::Completed) => {
            lemma_sum_insert(
                ledger.balances,
                spec_uref_to_str(purse),
                ledger.balance(purse) + amount.value(),
            );
        },
        (Some(Transfer::Withdrawal { purse, amount, .. }), TransferOutcome::Completed) => {
            lemma_sum_insert(
                ledger.balances,
                spec_uref_to_str(purse),
                (ledger.balance(purse) - amount.value()) as nat,
            );
            lemma_entry_le_sum(ledger.balances, spec_uref_to_str(purse));
        },
        _ => {},
    }
}

/// No locked amount is taken below zero: unlocking is granted only where the
/// purse has the amount locked, and booking it leaves exactly the locked
/// amount less the amount.
pub proof fn lemma_unlock_stays_non_negative(
    ledger: EscrowLedgerView,
    caller: Key,
    purse: URef,
    account: AccountHash,
    amount: U512,
)
    ensures
        ledger.unlock(caller, purse, account, amount).0 is Ok ==> amount.value() <= ledger.balance(
            purse,
        ) && ledger.unlock(caller, purse, account, amount).1.settle(
            TransferOutcome::Completed,
        ).1.balance(purse) == ledger.balance(purse) - amount.value(),
{
}

/// Only the governance account unlocks: from any other caller the ledger
/// reports `Unauthorized` and stays as it was.
pub proof fn lemma_authorization_gate(
    ledger: EscrowLedgerView,
    caller: Key,
    purse: URef,
    account: AccountHash,
    amount: U512,
)
    requires
        !authorized(caller, ledger.governance),
    ensures
        ledger.unlock(caller, purse, account, amount) == (
            Err::<Transfer, Error>(Error::Unauthorized),
            ledger,
        ),
{
}

/// Round trip: once an amount was locked from a purse and the same amount
/// unlocked by the governance account, both movements made, the purse has
/// locked what it had locked before and the pool holds what it held before.
pub proof fn lemma_lock_unlock_round_trip(
    ledger: EscrowLedgerView,
    caller: Key,
    purse: URef,
    account: AccountHash,
    amount: U512,
)
    requires
        authorized(caller, ledger.governance),
        amount.value() != 0,
    ensures
        ({
            let asked = ledger.lock(purse, amount);
            let locked = asked.1.settle(TransferOutcome::Completed);
            let asked_back = locked.1.unlock(caller, purse, account, amount);
            let unlocked = asked_back.1.settle(TransferOutcome::Completed);
            &&& asked.0 == Ok::<Transfer, Error>(Transfer::Deposit { purse, amount })
            &&& locked.0 is Ok
            &&& locked.1.balance(purse) == ledger.balance(purse) + amount.value()
            &&& asked_back.0 == Ok::<Transfer, Error>(
                Transfer::Withdrawal { purse, account, amount },
            )
            &&& unlocked.0 is Ok
            &&& unlocked.1.balance(purse) == ledger.balance(purse)
            &&& unlocked.1.pool == ledger.pool
            &&& unlocked.1.pending is None
        }),
{
}

} // verus!
