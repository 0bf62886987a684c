//! The token ledger and the factory that registers token ledgers by name.
//!
//! The free functions state the rule of each operation on the values it
//! reads and writes; [`TokenLedger`] and [`Factory`] apply them to tables of
//! their own.

use crate::identity::{
    allowance_key, authorized, key_to_str, lemma_allowances_apart, lemma_holders_apart,
    spec_allowance_key,
    spec_key_to_str, AccountHash, ContractHash, Key,
};
use crate::kvstore::KVStore;
use crate::sums::{
    lemma_entry_le_sum, lemma_sum_empty, lemma_sum_insert, lemma_two_entries_le_sum, sum_values,
    value_or_zero,
};
use crate::uint::{u256_checked_add, u256_checked_sub, u256_max, U256};
use vstd::prelude::*;

verus! {

/// Why an operation of a token ledger or of the factory was refused.
#[derive(Clone, Copy, Debug, PartialEq, Eq)]
pub enum Error {
    /// Tokens cannot be minted to the zero identity.
    ZeroAddressTarget,
    /// Tokens cannot be burned from the zero identity.
    ZeroAddressSource,
    /// The balance is smaller than the amount to take from it.
    InsufficientBalance,
    /// The caller is not the governance account.
    Unauthorized,
    /// A token of that name is registered already.
    AlreadyExists,
    /// No token of that name is registered.
    TokenNotFound,
    /// The allowance is smaller than the amount to spend.
    InsufficientAllowance,
}

impl Error {
    /// The number by which a host reports the error.
    pub open spec fn spec_code(self) -> u16 {
        match self {
            Error::ZeroAddressTarget => 0,
            Error::ZeroAddressSource => 1,
            Error::InsufficientBalance => 2,
            Error::Unauthorized => 3,
            Error::AlreadyExists => 4,
            Error::TokenNotFound => 5,
            Error::InsufficientAllowance => 6,
        }
    }

    /// The number by which a host reports the error.
    pub fn code(&self) -> (code: u16)
        ensures
            code == self.spec_code(),
    {
        match self {
            Error::ZeroAddressTarget => 0,
            Error::ZeroAddressSource => 1,
            Error::InsufficientBalance => 2,
            Error::Unauthorized => 3,
            Error::AlreadyExists => 4,
            Error::TokenNotFound => 5,
            Error::InsufficientAllowance => 6,
        }
    }
}

/// The supply and one balance after tokens were minted or burned.
#[derive(Clone, Copy, Debug, PartialEq, Eq)]
pub struct SupplyChange {
    pub total_supply: U256,
    pub balance: U256,
}

/// The balances of sender and recipient after a transfer. Where both are the
/// same holder, `recipient` is what the holder ends with.
#[derive(Clone, Copy, Debug, PartialEq, Eq)]
pub struct BalanceChange {
    pub sender: U256,
    pub recipient: U256,
}

/// What is left of an allowance and the balances after it was spent from.
#[derive(Clone, Copy, Debug, PartialEq, Eq)]
pub struct SpendChange {
    pub allowance: U256,
    pub balances: BalanceChange,
}

/// Lets only the governance account pass.
pub fn _authorization_check(caller: &Key, governance: &AccountHash) -> (r: Result<(), Error>)
    ensures
        authorized(*caller, *governance) ==> r is Ok,
        !authorized(*caller, *governance) ==> r == Err::<(), Error>(Error::Unauthorized),
{
    if caller.same(&Key::Account(*governance)) {
        Ok(())
    } else {
        Err(Error::Unauthorized)
    }
}

/// The rule of `mint`: the governance account adds `amount` to the supply
/// and to the balance of `owner`, who is not the zero identity.
pub fn mint(
    caller: &Key,
    governance: &AccountHash,
    owner: &Key,
    total_supply: U256,
    balance: U256,
    amount: U256,
) -> (r: Result<SupplyChange, Error>)
    requires
        authorized(*caller, *governance) && !owner.spec_is_zero() ==> total_supply.value()
            + amount.value() <= u256_max() && balance.value() + amount.value() <= u256_max(),
    ensures
        !authorized(*caller, *governance) ==> r == Err::<SupplyChange, Error>(Error::Unauthorized),
        authorized(*caller, *governance) && owner.spec_is_zero() ==> r == Err::<
            SupplyChange,
            Error,
        >(Error::ZeroAddressTarget),
        authorized(*caller, *governance) && !owner.spec_is_zero() ==> r is Ok
            && r.unwrap().total_supply.value() == total_supply.value() + amount.value()
            && r.unwrap().balance.value() == balance.value() + amount.value(),
{
    if _authorization_check(caller, governance).is_err() {
        return Err(Error::Unauthorized);
    }
    if owner.is_zero() {
        return Err(Error::ZeroAddressTarget);
    }
    let new_supply = u256_checked_add(total_supply, amount);
    let new_balance = u256_checked_add(balance, amount);
    match (new_supply, new_balance) {
        (Some(total_supply), Some(balance)) => Ok(SupplyChange { total_supply, balance }),
        _ => unreached(),
    }
}

/// The rule of `burn`: the governance account takes `amount` from the
/// balance of `owner`, who is not the zero identity, and from the supply.
pub fn burn(
    caller: &Key,
    governance: &AccountHash,
    owner: &Key,
    total_supply: U256,
    balance: U256,
    amount: U256,
) -> (r: Result<SupplyChange, Error>)
    requires
        authorized(*caller, *governance) && !owner.spec_is_zero() && amount.value()
            <= balance.value() ==> amount.value() <= total_supply.value(),
    ensures
        !authorized(*caller, *governance) ==> r == Err::<SupplyChange, Error>(Error::Unauthorized),
        authorized(*caller, *governance) && owner.spec_is_zero() ==> r == Err::<
            SupplyChange,
            Error,
        >(Error::ZeroAddressSource),
        authorized(*caller, *governance) && !owner.spec_is_zero() && balance.value()
            < amount.value() ==> r == Err::<SupplyChange, Error>(Error::InsufficientBalance),
        authorized(*caller, *governance) && !owner.spec_is_zero() && amount.value()
            <= balance.value() ==> r is Ok && r.unwrap().total_supply.value()
            == total_supply.value() - amount.value() && r.unwrap().balance.value()
            == balance.value() - amount.value(),
{
    if _authorization_check(caller, governance).is_err() {
        return Err(Error::Unauthorized);
    }
    if owner.is_zero() {
        return Err(Error::ZeroAddressSource);
    }
    match u256_checked_sub(balance, amount) {
        None => Err(Error::InsufficientBalance),
        Some(balance) => match u256_checked_sub(total_supply, amount) {
            Some(total_supply) => Ok(SupplyChange { total_supply, balance }),
            None => unreached(),
        },
    }
}

/// The rule of a transfer: `amount` leaves the sender's balance and reaches
/// the recipient's. Where both holders have the same bytes they share one
/// balance: `recipient_balance` is then not looked at, and the balance ends
/// as it began.
pub fn _transfer(
    sender: &Key,
    recipient: &Key,
    sender_balance: U256,
    recipient_balance: U256,
    amount: U256,
) -> (r: Result<BalanceChange, Error>)
    requires
        amount.value() <= sender_balance.value() && sender.bytes() != recipient.bytes()
            ==> recipient_balance.value() + amount.value() <= u256_max(),
    ensures
        sender_balance.value() < amount.value() ==> r == Err::<BalanceChange, Error>(
            Error::InsufficientBalance,
        ),
        amount.value() <= sender_balance.value() ==> r is Ok && r.unwrap().sender.value()
            == sender_balance.value() - amount.value() && r.unwrap().recipient.value()
            == if sender.bytes() == recipient.bytes() {
            sender_balance.value()
        } else {
            recipient_balance.value() + amount.value()
        },
{
    match u256_checked_sub(sender_balance, amount) {
        None => Err(Error::InsufficientBalance),
        Some(debited) => {
            let before = if sender.same_holder(recipient) {
                debited
            } else {
                recipient_balance
            };
            match u256_checked_add(before, amount) {
                Some(credited) => Ok(BalanceChange { sender: debited, recipient: credited }),
                None => unreached(),
            }
        },
    }
}

/// The rule of a transfer by a spender: as [`_transfer`], and `amount`
/// leaves the allowance too. A balance that is too small is reported before
/// an allowance that is too small.
pub fn _transfer_from(
    owner: &Key,
    recipient: &Key,
    allowance: U256,
    owner_balance: U256,
    recipient_balance: U256,
    amount: U256,
) -> (r: Result<SpendChange, Error>)
    requires
        amount.value() <= owner_balance.value() && owner.bytes() != recipient.bytes()
            ==> recipient_balance.value() + amount.value() <= u256_max(),
    ensures
        owner_balance.value() < amount.value() ==> r == Err::<SpendChange, Error>(
            Error::InsufficientBalance,
        ),
        amount.value() <= owner_balance.value() && allowance.value() < amount.value() ==> r
            == Err::<SpendChange, Error>(Error::InsufficientAllowance),
        amount.value() <= owner_balance.value() && amount.value() <= allowance.value() ==> r is Ok
            && r.unwrap().allowance.value() == allowance.value() - amount.value()
            && r.unwrap().balances.sender.value() == owner_balance.value() - amount.value()
            && r.unwrap().balances.recipient.value() == if owner.bytes() == recipient.bytes() {
            owner_balance.value()
        } else {
            recipient_balance.value() + amount.value()
        },
{
    match _transfer(owner, recipient, owner_balance, recipient_balance, amount) {
        Err(error) => Err(error),
        Ok(balances) => match u256_checked_sub(allowance, amount) {
            None => Err(Error::InsufficientAllowance),
            Some(allowance) => Ok(SpendChange { allowance, balances }),
        },
    }
}

/// The rule of `get_erc20_hash`: the identity that the registry holds for a
/// name, or `TokenNotFound` where it holds none.
pub fn get_erc20_hash(registered: Option<ContractHash>) -> (r: Result<ContractHash, Error>)
    ensures
        r == match registered {
            Some(identity) => Ok::<ContractHash, Error>(identity),
            None => Err::<ContractHash, Error>(Error::TokenNotFound),
        },
{
    match registered {
        Some(identity) => Ok(identity),
        None => Err(Error::TokenNotFound),
    }
}

/// The rule of `create_erc20`: only the governance account creates a token,
/// and only under a name that the registry does not hold yet.
pub fn create_erc20(caller: &Key, governance: &AccountHash, registered: Option<ContractHash>) -> (r:
    Result<(), Error>)
    ensures
        !authorized(*caller, *governance) ==> r == Err::<(), Error>(Error::Unauthorized),
        authorized(*caller, *governance) && registered is Some ==> r == Err::<(), Error>(
            Error::AlreadyExists,
        ),
        authorized(*caller, *governance) && registered is None ==> r is Ok,
{
    if _authorization_check(caller, governance).is_err() {
        return Err(Error::Unauthorized);
    }
    if registered.is_some() {
        return Err(Error::AlreadyExists);
    }
    Ok(())
}

/// Name, symbol, decimals and supply of a token.
pub struct TokenMetadata {
    pub name: String,
    pub symbol: String,
    pub decimals: u8,
    pub total_supply: U256,
}

/// A ledger of one fungible token: its metadata, the balance of each holder,
/// the allowances that holders grant, and the governance account that may
/// mint and burn.
pub struct TokenLedger {
    metadata: TokenMetadata,
    governance: AccountHash,
    store: KVStore<U256>,
    balances: usize,
    allowances: usize,
}

/// What a token ledger holds, as numbers and maps. Balances are filed under
/// [`spec_key_to_str`], allowances under [`spec_allowance_key`]; a name that
/// is not in a map stands for zero.
pub struct TokenLedgerView {
    pub name: Seq<char>,
    pub symbol: Seq<char>,
    pub decimals: u8,
    pub total_supply: nat,
    pub governance: AccountHash,
    pub balances: Map<Seq<char>, nat>,
    pub allowances: Map<Seq<char>, nat>,
}

/// The numbers that a table of amounts stands for.
pub open spec fn amounts(table: Map<Seq<char>, U256>) -> Map<Seq<char>, nat> {
    table.map_values(|amount: U256| amount.value())
}

/// How the numbers of a table follow a write to it, and what they say of a
/// key.
proof fn lemma_amounts_insert(table: Map<Seq<char>, U256>, key: Seq<char>, amount: U256)
    ensures
        amounts(table.insert(key, amount)) == amounts(table).insert(key, amount.value()),
        amounts(table).dom() == table.dom(),
        value_or_zero(amounts(table), key) == if table.dom().contains(key) {
            table[key].value()
        } else {
            0
        },
{
    assert(amounts(table.insert(key, amount)) =~= amounts(table).insert(key, amount.value()));
    assert(amounts(table).dom() =~= table.dom());
}

/// The balances after `amount` went from the entry `sender` to the entry
/// `recipient`: the sender is debited first, then the recipient credited.
pub open spec fn transferred(
    balances: Map<Seq<char>, nat>,
    sender: Seq<char>,
    recipient: Seq<char>,
    amount: nat,
) -> Map<Seq<char>, nat> {
    let debited = balances.insert(sender, (value_or_zero(balances, sender) - amount) as nat);
    debited.insert(recipient, value_or_zero(debited, recipient) + amount)
}

/// A transfer that the sender can afford leaves the sum of all balances as
/// it was.
pub proof fn lemma_transfer_keeps_sum(
    balances: Map<Seq<char>, nat>,
    sender: Seq<char>,
    recipient: Seq<char>,
    amount: nat,
)
    requires
        balances.dom().finite(),
        amount <= value_or_zero(balances, sender),
    ensures
        transferred(balances, sender, recipient, amount).dom().finite(),
        sum_values(transferred(balances, sender, recipient, amount)) == sum_values(balances),
{
    let debited = balances.insert(sender, (value_or_zero(balances, sender) - amount) as nat);
    lemma_sum_insert(balances, sender, (value_or_zero(balances, sender) - amount) as nat);
    lemma_sum_insert(debited, recipient, value_or_zero(debited, recipient) + amount);
}

impl TokenLedgerView {
    /// The balance of `holder`.
    pub open spec fn balance(self, holder: Key) -> nat {
        value_or_zero(self.balances, spec_key_to_str(holder))
    }

    /// What `spender` may still move out of the balance of `owner`.
    pub open spec fn allowance(self, owner: Key, spender: Key) -> nat {
        value_or_zero(self.allowances, spec_allowance_key(owner, spender))
    }

    /// Conservation: the balances are finitely many and sum to the supply.
    pub open spec fn conserved(self) -> bool {
        self.balances.dom().finite() && sum_values(self.balances) == self.total_supply
    }

    /// The ledger after `owner` set the allowance of `spender` to `amount`.
    pub open spec fn approve(self, owner: Key, spender: Key, amount: nat) -> TokenLedgerView {
        TokenLedgerView {
            allowances: self.allowances.insert(spec_allowance_key(owner, spender), amount),
            ..self
        }
    }

    /// What a transfer of `amount` from `sender` to `recipient` returns, and
    /// the ledger after it.
    pub open spec fn transfer(self, sender: Key, recipient: Key, amount: nat) -> (
        Result<(), Error>,
        TokenLedgerView,
    ) {
        if self.balance(sender) < amount {
            (Err(Error::InsufficientBalance), self)
        } else {
            (
                Ok(()),
                TokenLedgerView {
                    balances: transferred(
                        self.balances,
                        spec_key_to_str(sender),
                        spec_key_to_str(recipient),
                        amount,
                    ),
                    ..self
                },
            )
        }
    }

    /// What a transfer of `amount` from `owner` to `recipient` by `spender`
    /// returns, and the ledger after it.
    pub open spec fn transfer_from(self, spender: Key, owner: Key, recipient: Key, amount: nat) -> (
        Result<(), Error>,
        TokenLedgerView,
    ) {
        if self.balance(owner) < amount {
            (Err(Error::InsufficientBalance), self)
        } else if self.allowance(owner, spender) < amount {
            (Err(Error::InsufficientAllowance), self)
        } else {
            (
                Ok(()),
                TokenLedgerView {
                    balances: transferred(
                        self.balances,
                        spec_key_to_str(owner),
                        spec_key_to_str(recipient),
                        amount,
                    ),
                    allowances: self.allowances.insert(
                        spec_allowance_key(owner, spender),
                        (self.allowance(owner, spender) - amount) as nat,
                    ),
                    ..self
                },
            )
        }
    }

    /// What minting `amount` to `owner` on the call of `caller` returns, and
    /// the ledger after it.
    pub open spec fn mint(self, caller: Key, owner: Key, amount: nat) -> (
        Result<(), Error>,
        TokenLedgerView,
    ) {
        if !authorized(caller, self.governance) {
            (Err(Error::Unauthorized), self)
        } else if owner.spec_is_zero() {
            (Err(Error::ZeroAddressTarget), self)
        } else {
            (
                Ok(()),
                TokenLedgerView {
                    total_supply: self.total_supply + amount,
                    balances: self.balances.insert(
                        spec_key_to_str(owner),
                        self.balance(owner) + amount,
                    ),
                    ..self
                },
            )
        }
    }

    /// What burning `amount` from `owner` on the call of `caller` returns,
    /// and the ledger after it.
    pub open spec fn burn(self, caller: Key, owner: Key, amount: nat) -> (
        Result<(), Error>,
        TokenLedgerView,
    ) {
        if !authorized(caller, self.governance) {
            (Err(Error::Unauthorized), self)
        } else if owner.spec_is_zero() {
            (Err(Error::ZeroAddressSource), self)
        } else if self.balance(owner) < amount {
            (Err(Error::InsufficientBalance), self)
        } else {
            (
                Ok(()),
                TokenLedgerView {
                    total_supply: (self.total_supply - amount) as nat,
                    balances: self.balances.insert(
                        spec_key_to_str(owner),
                        (self.balance(owner) - amount) as nat,
                    ),
                    ..self
                },
            )
        }
    }
}

impl View for TokenLedger {
    type V = TokenLedgerView;

    closed spec fn view(&self) -> TokenLedgerView {
        TokenLedgerView {
            name: self.metadata.name@,
            symbol: self.metadata.symbol@,
            decimals: self.metadata.decimals,
            total_supply: self.metadata.total_supply.value(),
            governance: self.governance,
            balances: amounts(self.store.table(self.balances as int)),
            allowances: amounts(self.store.table(self.allowances as int)),
        }
    }
}

impl TokenLedger {
    /// The tables are in order: the store is well-formed and holds the two
    /// tables of the ledger.
    pub closed spec fn tables_ok(&self) -> bool {
        &&& self.store.wf()
        &&& self.balances < self.store.names().len()
        &&& self.allowances < self.store.names().len()
        &&& self.balances != self.allowances
    }

    /// Well-formedness: the tables are in order and the balances sum to the
    /// supply.
    pub open spec fn wf(&self) -> bool {
        self.tables_ok() && self@.conserved()
    }

    /// A new ledger whose whole supply is the balance of `holder`.
    pub fn new(
        name: String,
        symbol: String,
        decimals: u8,
        total_supply: U256,
        governance: AccountHash,
        holder: &Key,
    ) -> (ledger: Self)
        ensures
            ledger.wf(),
            ledger@ == (TokenLedgerView {
                name: name@,
                symbol: symbol@,
                decimals,
                total_supply: total_supply.value(),
                governance,
                balances: Map::<Seq<char>, nat>::empty().insert(
                    spec_key_to_str(*holder),
                    total_supply.value(),
                ),
                allowances: Map::<Seq<char>, nat>::empty(),
            }),
    {
        let mut store: KVStore<U256> = KVStore::new();
        let balances = store.namespace("balances");
        let allowances = store.namespace("allowances");
        proof {
            store.lemma_wf();
            assert(balances != allowances) by {
                if balances == allowances {
                    reveal_strlit("balances");
                    reveal_strlit("allowances");
                    assert("balances"@.len() != "allowances"@.len());
                }
            }
        }
        let key = key_to_str(holder);
        store.write(balances, key.as_str(), total_supply);
        let ledger = TokenLedger {
            metadata: TokenMetadata { name, symbol, decimals, total_supply },
            governance,
            store,
            balances,
            allowances,
        };
        proof {
            let empty = Map::<Seq<char>, U256>::empty();
            lemma_amounts_insert(empty, key@, total_supply);
            assert(amounts(empty) =~= Map::<Seq<char>, nat>::empty());
            lemma_sum_empty::<Seq<char>>();
            lemma_sum_insert(Map::<Seq<char>, nat>::empty(), key@, total_supply.value());
        }
        ledger
    }

    /// Name, symbol, decimals and supply together.
    pub fn metadata(&self) -> (metadata: &TokenMetadata)
        ensures
            metadata.name@ == self@.name,
            metadata.symbol@ == self@.symbol,
            metadata.decimals == self@.decimals,
            metadata.total_supply.value() == self@.total_supply,
    {
        &self.metadata
    }

    /// The name of the token.
    pub fn name(&self) -> (name: &String)
        ensures
            name@ == self@.name,
    {
        &self.metadata.name
    }

    /// The symbol of the token.
    pub fn symbol(&self) -> (symbol: &String)
        ensures
            symbol@ == self@.symbol,
    {
        &self.metadata.symbol
    }

    /// The number of decimals in which amounts are shown.
    pub fn decimals(&self) -> (decimals: u8)
        ensures
            decimals == self@.decimals,
    {
        self.metadata.decimals
    }

    /// The number of tokens that exist.
    pub fn total_supply(&self) -> (supply: U256)
        ensures
            supply.value() == self@.total_supply,
    {
        self.metadata.total_supply
    }

    /// The account that may mint and burn.
    pub fn governance(&self) -> (governance: AccountHash)
        ensures
            governance == self@.governance,
    {
        self.governance
    }

    /// The balance of `account`: zero for a holder that never had tokens.
    pub fn balance_of(&self, account: &Key) -> (balance: U256)
        requires
            self.wf(),
        ensures
            balance.value() == self@.balance(*account),
    {
        let key = key_to_str(account);
        proof {
            lemma_amounts_insert(self.store.table(self.balances as int), key@, U256::spec_zero());
        }
        self.store.read(self.balances, key.as_str())
    }

    /// What `spender` may still move out of the balance of `owner`: zero
    /// where nothing was approved.
    pub fn allowance(&self, owner: &Key, spender: &Key) -> (allowance: U256)
        requires
            self.wf(),
        ensures
            allowance.value() == self@.allowance(*owner, *spender),
    {
        let key = allowance_key(owner, spender);
        proof {
            lemma_amounts_insert(
                self.store.table(self.allowances as int),
                key@,
                U256::spec_zero(),
            );
        }
        self.store.read(self.allowances, key.as_str())
    }

    /// Sets what `spender` may move out of the balance of `owner` to
    /// `amount`, whatever it was before.
    fn _approve(&mut self, owner: &Key, spender: &Key, amount: U256)
        requires
            old(self).wf(),
        ensures
            final(self).wf(),
            final(self)@ == old(self)@.approve(*owner, *spender, amount.value()),
    {
        let key = allowance_key(owner, spender);
        proof {
            lemma_amounts_insert(self.store.table(self.allowances as int), key@, amount);
        }
        self.store.write(self.allowances, key.as_str(), amount);
    }

    /// The caller lets `spender` move up to `amount` out of the caller's
    /// balance. The amount replaces what was approved before.
    pub fn approve(&mut self, caller: &Key, spender: &Key, amount: U256)
        requires
            old(self).wf(),
        ensures
            final(self).wf(),
            final(self)@ == old(self)@.approve(*caller, *spender, amount.value()),
    {
        self._approve(caller, spender, amount);
    }

    /// Moves `amount` from the balance of `sender` to that of `recipient`,
    /// if the sender has that much.
    fn _transfer(&mut self, sender: &Key, recipient: &Key, amount: U256) -> (r: Result<
        (),
        Error,
    >)
        requires
            old(self).wf(),
        ensures
            final(self).wf(),
            r == old(self)@.transfer(*sender, *recipient, amount.value()).0,
            final(self)@ == old(self)@.transfer(*sender, *recipient, amount.value()).1,
            r is Err ==> *final(self) == *old(self),
    {
        let sender_key = key_to_str(sender);
        let recipient_key = key_to_str(recipient);
        let sender_balance = self.store.read(self.balances, sender_key.as_str());
        let recipient_balance = self.store.read(self.balances, recipient_key.as_str());
        let ghost table = self.store.table(self.balances as int);
        proof {
            self.store.lemma_wf();
            lemma_amounts_insert(table, sender_key@, sender_balance);
            lemma_amounts_insert(table, recipient_key@, recipient_balance);
            lemma_holders_apart(*sender, *recipient);
            if sender_key@ != recipient_key@ {
                lemma_two_entries_le_sum(amounts(table), sender_key@, recipient_key@);
            }
        }
        match _transfer(sender, recipient, sender_balance, recipient_balance, amount) {
            Err(error) => Err(error),
            Ok(change) => {
                self.store.write(self.balances, sender_key.as_str(), change.sender);
                proof {
                    lemma_amounts_insert(table, sender_key@, change.sender);
                    lemma_amounts_insert(
                        table.insert(sender_key@, change.sender),
                        recipient_key@,
                        change.recipient,
                    );
                    lemma_transfer_keeps_sum(
                        amounts(table),
                        sender_key@,
                        recipient_key@,
                        amount.value(),
                    );
                }
                self.store.write(self.balances, recipient_key.as_str(), change.recipient);
                Ok(())
            },
        }
    }

    /// The caller sends `amount` of its tokens to `recipient`.
    pub fn transfer(&mut self, caller: &Key, recipient: &Key, amount: U256) -> (r: Result<
        (),
        Error,
    >)
        requires
            old(self).wf(),
        ensures
            final(self).wf(),
            r == old(self)@.transfer(*caller, *recipient, amount.value()).0,
            final(self)@ == old(self)@.transfer(*caller, *recipient, amount.value()).1,
            r is Err ==> *final(self) == *old(self),
    {
        self._transfer(caller, recipient, amount)
    }

    /// Moves `amount` from the balance of `owner` to that of `recipient` on
    /// behalf of `spender`, whose allowance shrinks by `amount`. A balance
    /// that is too small is reported before an allowance that is too small.
    fn _transfer_from(
        &mut self,
        spender: &Key,
        owner: &Key,
        recipient: &Key,
        amount: U256,
    ) -> (r: Result<(), Error>)
        requires
            old(self).wf(),
        ensures
            final(self).wf(),
            r == old(self)@.transfer_from(*spender, *owner, *recipient, amount.value()).0,
            final(self)@ == old(self)@.transfer_from(
                *spender,
                *owner,
                *recipient,
                amount.value(),
            ).1,
            r is Err ==> *final(self) == *old(self),
    {
        let key = allowance_key(owner, spender);
        let owner_key = key_to_str(owner);
        let recipient_key = key_to_str(recipient);
        let allowance = self.store.read(self.allowances, key.as_str());
        let owner_balance = self.store.read(self.balances, owner_key.as_str());
        let recipient_balance = self.store.read(self.balances, recipient_key.as_str());
        let ghost table = self.store.table(self.balances as int);
        let ghost granted = self.store.table(self.allowances as int);
        proof {
            self.store.lemma_wf();
            lemma_amounts_insert(granted, key@, allowance);
            lemma_amounts_insert(table, owner_key@, owner_balance);
            lemma_amounts_insert(table, recipient_key@, recipient_balance);
            lemma_holders_apart(*owner, *recipient);
            if owner_key@ != recipient_key@ {
                lemma_two_entries_le_sum(amounts(table), owner_key@, recipient_key@);
            }
        }
        match _transfer_from(owner, recipient, allowance, owner_balance, recipient_balance, amount) {
            Err(error) => Err(error),
            Ok(change) => {
                self.store.write(self.balances, owner_key.as_str(), change.balances.sender);
                proof {
                    lemma_amounts_insert(table, owner_key@, change.balances.sender);
                    lemma_amounts_insert(
                        table.insert(owner_key@, change.balances.sender),
                        recipient_key@,
                        change.balances.recipient,
                    );
                    lemma_amounts_insert(granted, key@, change.allowance);
                    lemma_transfer_keeps_sum(
                        amounts(table),
                        owner_key@,
                        recipient_key@,
                        amount.value(),
                    );
                }
                self.store.write(self.balances, recipient_key.as_str(), change.balances.recipient);
                self.store.write(self.allowances, key.as_str(), change.allowance);
                Ok(())
            },
        }
    }

    /// The caller moves `amount` from the balance of `owner` to that of
    /// `recipient`, out of what `owner` allowed the caller to spend.
    pub fn transfer_from(&mut self, caller: &Key, owner: &Key, recipient: &Key, amount: U256) -> (r:
        Result<(), Error>)
        requires
            old(self).wf(),
        ensures
            final(self).wf(),
            r == old(self)@.transfer_from(*caller, *owner, *recipient, amount.value()).0,
            final(self)@ == old(self)@.transfer_from(
                *caller,
                *owner,
                *recipient,
                amount.value(),
            ).1,
            r is Err ==> *final(self) == *old(self),
    {
        self._transfer_from(caller, owner, recipient, amount)
    }

    /// The governance account creates `amount` new tokens in the balance of
    /// `owner`. The new supply must fit in 256 bits.
    pub fn mint(&mut self, caller: &Key, owner: &Key, amount: U256) -> (r: Result<(), Error>)
        requires
            old(self).wf(),
            authorized(*caller, old(self)@.governance) && !owner.spec_is_zero() ==> old(
                self,
            )@.total_supply + amount.value() <= u256_max(),
        ensures
            final(self).wf(),
            r == old(self)@.mint(*caller, *owner, amount.value()).0,
            final(self)@ == old(self)@.mint(*caller, *owner, amount.value()).1,
            r is Err ==> *final(self) == *old(self),
    {
        let key = key_to_str(owner);
        let balance = self.store.read(self.balances, key.as_str());
        let ghost table = self.store.table(self.balances as int);
        proof {
            self.store.lemma_wf();
            lemma_amounts_insert(table, key@, balance);
            lemma_entry_le_sum(amounts(table), key@);
        }
        match mint(caller, &self.governance, owner, self.metadata.total_supply, balance, amount) {
            Err(error) => Err(error),
            Ok(change) => {
                proof {
                    lemma_amounts_insert(table, key@, change.balance);
                    lemma_sum_insert(amounts(table), key@, change.balance.value());
                }
                self.metadata.total_supply = change.total_supply;
                self.store.write(self.balances, key.as_str(), change.balance);
                Ok(())
            },
        }
    }

    /// The governance account destroys `amount` tokens of the balance of
    /// `owner`.
    pub fn burn(&mut self, caller: &Key, owner: &Key, amount: U256) -> (r: Result<(), Error>)
        requires
            old(self).wf(),
        ensures
            final(self).wf(),
            r == old(self)@.burn(*caller, *owner, amount.value()).0,
            final(self)@ == old(self)@.burn(*caller, *owner, amount.value()).1,
            r is Err ==> *final(self) == *old(self),
    {
        let key = key_to_str(owner);
        let balance = self.store.read(self.balances, key.as_str());
        let ghost table = self.store.table(self.balances as int);
        proof {
            self.store.lemma_wf();
            lemma_amounts_insert(table, key@, balance);
            lemma_entry_le_sum(amounts(table), key@);
        }
        match burn(caller, &self.governance, owner, self.metadata.total_supply, balance, amount) {
            Err(error) => Err(error),
            Ok(change) => {
                proof {
                    lemma_amounts_insert(table, key@, change.balance);
                    lemma_sum_insert(amounts(table), key@, change.balance.value());
                }
                self.metadata.total_supply = change.total_supply;
                self.store.write(self.balances, key.as_str(), change.balance);
                Ok(())
            },
        }
    }
}

/// A registry of token ledgers by name, under a governance account that
/// alone may create tokens.
pub struct Factory {
    governance: AccountHash,
    store: KVStore<ContractHash>,
    tokens: usize,
}

/// What a factory holds: its governance account and the identity of the
/// token ledger registered under each name.
pub struct FactoryView {
    pub governance: AccountHash,
    pub tokens: Map<Seq<char>, ContractHash>,
}

/// A token ledger that a factory has just made, and the identity under
/// which the factory registered it.
pub struct Child {
    pub identity: ContractHash,
    pub ledger: TokenLedger,
}

impl FactoryView {
    /// What looking up `token_name` returns.
    pub open spec fn get_erc20_hash(self, token_name: Seq<char>) -> Result<ContractHash, Error> {
        if self.tokens.dom().contains(token_name) {
            Ok(self.tokens[token_name])
        } else {
            Err(Error::TokenNotFound)
        }
    }

    /// What creating a token called `token_name` on the call of `caller`
    /// returns, and the factory after it. `identity` is the identity that
    /// the new ledger is given.
    pub open spec fn create_erc20(self, caller: Key, token_name: Seq<char>, identity: ContractHash)
        -> (Result<(), Error>, FactoryView) {
        if !authorized(caller, self.governance) {
            (Err(Error::Unauthorized), self)
        } else if self.tokens.dom().contains(token_name) {
            (Err(Error::AlreadyExists), self)
        } else {
            (Ok(()), FactoryView { tokens: self.tokens.insert(token_name, identity), ..self })
        }
    }
}

impl View for Factory {
    type V = FactoryView;

    closed spec fn view(&self) -> FactoryView {
        FactoryView { governance: self.governance, tokens: self.store.table(self.tokens as int) }
    }
}

/// Installs a factory under `governance`, with an empty registry.
pub fn call(governance: AccountHash) -> (factory: Factory)
    ensures
        factory.wf(),
        factory@ == (FactoryView { governance, tokens: Map::<Seq<char>, ContractHash>::empty() }),
{
    let mut store: KVStore<ContractHash> = KVStore::new();
    let tokens = store.namespace("tokens");
    Factory { governance, store, tokens }
}

impl Factory {
    /// Well-formedness: the store is well-formed and holds the registry.
    pub closed spec fn wf(&self) -> bool {
        self.store.wf() && self.tokens < self.store.names().len()
    }

    /// The account that may create tokens.
    pub fn governance(&self) -> (governance: AccountHash)
        ensures
            governance == self@.governance,
    {
        self.governance
    }

    /// The identity of the token ledger registered as `token_name`, or
    /// `TokenNotFound` where none is.
    pub fn get_erc20_hash(&self, token_name: &str) -> (r: Result<ContractHash, Error>)
        requires
            self.wf(),
        ensures
            r == self@.get_erc20_hash(token_name@),
    {
        get_erc20_hash(self.store.lookup(self.tokens, token_name))
    }

    /// The governance account creates the token `token_name`: a new ledger
    /// with tables of its own, whose whole supply is the balance of the
    /// caller, registered under `identity`. A name can be registered once.
    pub fn create_erc20(
        &mut self,
        caller: &Key,
        token_name: String,
        token_symbol: String,
        token_decimals: u8,
        token_total_supply: U256,
        governance: AccountHash,
        identity: ContractHash,
    ) -> (r: Result<Child, Error>)
        requires
            old(self).wf(),
        ensures
            final(self).wf(),
            final(self)@ == old(self)@.create_erc20(*caller, token_name@, identity).1,
            match r {
                Ok(child) => {
                    &&& old(self)@.create_erc20(*caller, token_name@, identity).0 is Ok
                    &&& child.identity == identity
                    &&& child.ledger.wf()
                    &&& child.ledger@ == (TokenLedgerView {
                        name: token_name@,
                        symbol: token_symbol@,
                        decimals: token_decimals,
                        total_supply: token_total_supply.value(),
                        governance,
                        balances: Map::<Seq<char>, nat>::empty().insert(
                            spec_key_to_str(*caller),
                            token_total_supply.value(),
                        ),
                        allowances: Map::<Seq<char>, nat>::empty(),
                    })
                },
                Err(error) => {
                    &&& old(self)@.create_erc20(*caller, token_name@, identity).0 == Err::<
                        (),
                        Error,
                    >(error)
                    &&& *final(self) == *old(self)
                },
            },
    {
        let registered = self.store.lookup(self.tokens, token_name.as_str());
        match create_erc20(caller, &self.governance, registered) {
            Err(error) => Err(error),
            Ok(()) => {
                self.store.write(self.tokens, token_name.as_str(), identity);
                let ledger = TokenLedger::new(
                    token_name,
                    token_symbol,
                    token_decimals,
                    token_total_supply,
                    governance,
                    caller,
                );
                Ok(Child { identity, ledger })
            },
        }
    }
}

/// One operation on a token ledger, with its caller and arguments.
pub enum Operation {
    Approve { caller: Key, spender: Key, amount: nat },
    Transfer { caller: Key, recipient: Key, amount: nat },
    TransferFrom { caller: Key, owner: Key, recipient: Key, amount: nat },
    Mint { caller: Key, owner: Key, amount: nat },
    Burn { caller: Key, owner: Key, amount: nat },
}

impl TokenLedgerView {
    /// The ledger after one operation: changed where the operation
    /// succeeds, as it was where the operation is refused.
    pub open spec fn apply(self, operation: Operation) -> TokenLedgerView {
        match operation {
            Operation::Approve { caller, spender, amount } => self.approve(caller, spender, amount),
            Operation::Transfer { caller, recipient, amount } => self.transfer(
                caller,
                recipient,
                amount,
            ).1,
            Operation::TransferFrom { caller, owner, recipient, amount } => self.transfer_from(
                caller,
                owner,
                recipient,
                amount,
            ).1,
            Operation::Mint { caller, owner, amount } => self.mint(caller, owner, amount).1,
            Operation::Burn { caller, owner, amount } => self.burn(caller, owner, amount).1,
        }
    }

    /// The ledger after a sequence of operations, the first one first.
    pub open spec fn apply_all(self, operations: Seq<Operation>) -> TokenLedgerView
        decreases operations.len(),
    {
        if operations.len() == 0 {
            self
        } else {
            self.apply_all(operations.drop_last()).apply(operations.last())
        }
    }
}

/// Conservation, one step: an operation on a ledger whose balances sum to
/// its supply leaves a ledger whose balances sum to its supply.
pub proof fn lemma_operation_conserves(ledger: TokenLedgerView, operation: Operation)
    requires
        ledger.conserved(),
    ensures
        ledger.apply(operation).conserved(),
{
    match operation {
        Operation::Approve { .. } => {},
        Operation::Transfer { caller, recipient, amount } => {
            if amount <= ledger.balance(caller) {
                lemma_transfer_keeps_sum(
                    ledger.balances,
                    spec_key_to_str(caller),
                    spec_key_to_str(recipient),
                    amount,
                );
            }
        },
        Operation::TransferFrom { caller, owner, recipient, amount } => {
            if amount <= ledger.balance(owner) {
                lemma_transfer_keeps_sum(
                    ledger.balances,
                    spec_key_to_str(owner),
                    spec_key_to_str(recipient),
                    amount,
                );
            }
        },
        Operation::Mint { caller, owner, amount } => {
            lemma_sum_insert(
                ledger.balances,
                spec_key_to_str(owner),
                ledger.balance(owner) + amount,
            );
        },
        Operation::Burn { caller, owner, amount } => {
            if amount <= ledger.balance(owner) {
                lemma_sum_insert(
                    ledger.balances,
                    spec_key_to_str(owner),
                    (ledger.balance(owner) - amount) as nat,
                );
                lemma_entry_le_sum(ledger.balances, spec_key_to_str(owner));
            }
        },
    }
}

/// Conservation: after every operation of any sequence of operations on a
/// ledger whose balances sum to its supply, the balances sum to the supply.
pub proof fn lemma_conservation(ledger: TokenLedgerView, operations: Seq<Operation>)
    requires
        ledger.conserved(),
    ensures
        forall|n: int|
            0 <= n <= operations.len() ==> #[trigger] ledger.apply_all(
                operations.take(n),
            ).conserved(),
    decreases operations.len(),
{
    assert forall|n: int| 0 <= n <= operations.len() implies #[trigger] ledger.apply_all(
        operations.take(n),
    ).conserved() by {
        if n == 0 {
            assert(operations.take(0).len() == 0);
        } else if n < operations.len() {
            lemma_conservation(ledger, operations.drop_last());
            assert(operations.drop_last().take(n) =~= operations.take(n));
        } else {
            assert(operations.take(n) =~= operations);
            lemma_conservation(ledger, operations.drop_last());
            let front = operations.drop_last();
            assert(front.take(front.len() as int) =~= front);
            lemma_operation_conserves(ledger.apply_all(front), operations.last());
        }
    }
}

/// Name, symbol, decimals and governance account are set when the ledger is
/// made and never change after.
pub proof fn lemma_set_once(ledger: TokenLedgerView, operations: Seq<Operation>)
    ensures
        ledger.apply_all(operations).name == ledger.name,
        ledger.apply_all(operations).symbol == ledger.symbol,
        ledger.apply_all(operations).decimals == ledger.decimals,
        ledger.apply_all(operations).governance == ledger.governance,
    decreases operations.len(),
{
    if operations.len() > 0 {
        lemma_set_once(ledger, operations.drop_last());
    }
}

/// No balance is taken below zero: burning or transferring an amount
/// succeeds only where the balance holds it, and then leaves exactly the
/// balance less the amount.
pub proof fn lemma_debits_stay_non_negative(
    ledger: TokenLedgerView,
    caller: Key,
    owner: Key,
    recipient: Key,
    amount: nat,
)
    ensures
        ledger.burn(caller, owner, amount).0 is Ok ==> amount <= ledger.balance(owner)
            && ledger.burn(caller, owner, amount).1.balance(owner) == ledger.balance(owner)
            - amount,
        ledger.transfer(owner, recipient, amount).0 is Ok ==> amount <= ledger.balance(owner),
        ledger.transfer(owner, recipient, amount).0 is Ok && spec_key_to_str(owner)
            != spec_key_to_str(recipient) ==> ledger.transfer(owner, recipient, amount).1.balance(
            owner,
        ) == ledger.balance(owner) - amount && ledger.transfer(
            owner,
            recipient,
            amount,
        ).1.balance(recipient) == ledger.balance(recipient) + amount,
        ledger.transfer_from(caller, owner, recipient, amount).0 is Ok ==> amount
            <= ledger.balance(owner) && amount <= ledger.allowance(owner, caller),
{
}

/// An operation changes no balance but those of the holders that it names:
/// a holder whose bytes differ from theirs keeps its balance.
pub proof fn lemma_other_balances_stay(
    ledger: TokenLedgerView,
    caller: Key,
    owner: Key,
    recipient: Key,
    other: Key,
    amount: nat,
)
    requires
        other.bytes() != owner.bytes(),
        other.bytes() != recipient.bytes(),
    ensures
        ledger.transfer(owner, recipient, amount).1.balance(other) == ledger.balance(other),
        ledger.transfer_from(caller, owner, recipient, amount).1.balance(other) == ledger.balance(
            other,
        ),
        ledger.mint(caller, owner, amount).1.balance(other) == ledger.balance(other),
        ledger.burn(caller, owner, amount).1.balance(other) == ledger.balance(other),
{
    lemma_holders_apart(other, owner);
    lemma_holders_apart(other, recipient);
}

/// Approving or spending the allowance of one owner to one spender changes
/// the allowance of no other pair.
pub proof fn lemma_other_allowances_stay(
    ledger: TokenLedgerView,
    owner: Key,
    spender: Key,
    other_owner: Key,
    other_spender: Key,
    recipient: Key,
    amount: nat,
)
    requires
        other_owner != owner || other_spender != spender,
    ensures
        ledger.approve(owner, spender, amount).allowance(other_owner, other_spender)
            == ledger.allowance(other_owner, other_spender),
        ledger.transfer_from(spender, owner, recipient, amount).1.allowance(
            other_owner,
            other_spender,
        ) == ledger.allowance(other_owner, other_spender),
{
    lemma_allowances_apart(owner, spender, other_owner, other_spender);
}

/// A successful transfer by a spender lowers the spender's allowance by
/// exactly the amount, and an approval sets the allowance to its amount
/// whatever it was before.
pub proof fn lemma_allowance(
    ledger: TokenLedgerView,
    spender: Key,
    owner: Key,
    recipient: Key,
    amount: nat,
)
    ensures
        ledger.transfer_from(spender, owner, recipient, amount).0 is Ok ==> ledger.transfer_from(
            spender,
            owner,
            recipient,
            amount,
        ).1.allowance(owner, spender) == ledger.allowance(owner, spender) - amount,
        ledger.approve(owner, spender, amount).allowance(owner, spender) == amount,
{
}

/// Only the governance account mints and burns: from any other caller both
/// report `Unauthorized` and leave the ledger as it was.
pub proof fn lemma_authorization_gate(ledger: TokenLedgerView, caller: Key, owner: Key, amount: nat)
    requires
        !authorized(caller, ledger.governance),
    ensures
        ledger.mint(caller, owner, amount) == (
            Err::<(), Error>(Error::Unauthorized),
            ledger,
        ),
        ledger.burn(caller, owner, amount) == (Err::<(), Error>(Error::Unauthorized), ledger),
{
}

/// Only the governance account creates tokens: from any other caller the
/// factory reports `Unauthorized` and stays as it was.
pub proof fn lemma_factory_authorization_gate(
    factory: FactoryView,
    caller: Key,
    token_name: Seq<char>,
    identity: ContractHash,
)
    requires
        !authorized(caller, factory.governance),
    ensures
        factory.create_erc20(caller, token_name, identity) == (
            Err::<(), Error>(Error::Unauthorized),
            factory,
        ),
{
}

/// A name is registered once: where creating a token succeeds, creating one
/// of the same name again reports `AlreadyExists` and changes nothing, so
/// that the name still leads to the first identity.
pub proof fn lemma_registry_uniqueness(
    factory: FactoryView,
    caller: Key,
    token_name: Seq<char>,
    first: ContractHash,
    second: ContractHash,
)
    requires
        factory.create_erc20(caller, token_name, first).0 is Ok,
    ensures
        ({
            let created = factory.create_erc20(caller, token_name, first).1;
            &&& created.get_erc20_hash(token_name) == Ok::<ContractHash, Error>(first)
            &&& created.create_erc20(caller, token_name, second) == (
                Err::<(), Error>(Error::AlreadyExists),
                created,
            )
        }),
{
}

} // verus!
