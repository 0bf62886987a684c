//! Identities of accounts, contracts and purses, and the text forms under
//! which the ledgers file them.

use crate::kvstore::Stored;
use vstd::prelude::*;
use vstd::string::StringExecFns;

verus! {

/// The identity of an account: the 32 bytes of its hash.
#[derive(Clone, Copy, Debug, PartialEq, Eq)]
pub struct AccountHash {
    pub bytes: [u8; 32],
}

/// The identity of a contract, and so of a token ledger that a factory made.
#[derive(Clone, Copy, Debug, PartialEq, Eq)]
pub struct ContractHash {
    pub bytes: [u8; 32],
}

/// A purse: a container of native currency, known by its address.
#[derive(Clone, Copy, Debug, PartialEq, Eq)]
pub struct URef {
    pub addr: [u8; 32],
}

/// Who holds a balance or makes a call: an account or a contract.
#[derive(Clone, Copy, Debug, PartialEq, Eq)]
pub enum Key {
    Account(AccountHash),
    Hash([u8; 32]),
}

/// One frame of the chain of calls that led to the running entry point.
#[derive(Clone, Copy, Debug, PartialEq, Eq)]
pub enum CallStackElement {
    /// Code that an account runs directly.
    Session { account_hash: AccountHash },
    /// Stored code that runs as the account that called it.
    StoredSession {
        account_hash: AccountHash,
        contract_package_hash: [u8; 32],
        contract_hash: ContractHash,
    },
    /// A stored contract that runs as itself.
    StoredContract { contract_package_hash: [u8; 32], contract_hash: ContractHash },
}

/// The 32 bytes that are all zero.
pub open spec fn zero_bytes() -> Seq<u8> {
    Seq::new(32, |i: int| 0u8)
}

/// Whether two 32-byte arrays hold the same bytes.
pub fn bytes_equal(a: &[u8; 32], b: &[u8; 32]) -> (r: bool)
    ensures
        r == (a@ == b@),
        r == (*a == *b),
{
    let mut i: usize = 0;
    while i < 32
        invariant
            i <= 32,
            forall|j: int| 0 <= j < i ==> a[j] == b[j],
        decreases 32 - i,
    {
        if a[i] != b[i] {
            return false;
        }
        i += 1;
    }
    proof {
        assert(a@ =~= b@);
        assert(*a =~= *b);
    }
    true
}

/// Whether a 32-byte array holds only zeros.
pub fn bytes_are_zero(a: &[u8; 32]) -> (r: bool)
    ensures
        r == (a@ == zero_bytes()),
{
    let mut i: usize = 0;
    while i < 32
        invariant
            i <= 32,
            forall|j: int| 0 <= j < i ==> a[j] == 0,
        decreases 32 - i,
    {
        if a[i] != 0 {
            assert(zero_bytes()[i as int] == 0);
            return false;
        }
        i += 1;
    }
    proof {
        assert(a@ =~= zero_bytes());
    }
    true
}

impl AccountHash {
    /// The account whose hash is `value`.
    pub fn new(value: [u8; 32]) -> (r: Self)
        ensures
            r.bytes == value,
    {
        AccountHash { bytes: value }
    }

    /// The bytes of the hash.
    pub fn value(&self) -> (r: [u8; 32])
        ensures
            r == self.bytes,
    {
        self.bytes
    }

    /// Whether this is the same account as `other`.
    pub fn same(&self, other: &AccountHash) -> (r: bool)
        ensures
            r == (*self == *other),
    {
        bytes_equal(&self.bytes, &other.bytes)
    }
}

impl ContractHash {
    /// The contract whose hash is `value`.
    pub fn new(value: [u8; 32]) -> (r: Self)
        ensures
            r.bytes == value,
    {
        ContractHash { bytes: value }
    }

    /// The bytes of the hash.
    pub fn value(&self) -> (r: [u8; 32])
        ensures
            r == self.bytes,
    {
        self.bytes
    }
}

impl Default for ContractHash {
    /// The identity whose bytes are all zero.
    fn default() -> (r: Self)
        ensures
            r.bytes@ == zero_bytes(),
    {
        let r = ContractHash { bytes: [0u8; 32] };
        proof {
            assert(r.bytes@ =~= zero_bytes());
        }
        r
    }
}

impl Stored for ContractHash {
    open spec fn spec_default() -> Self {
        ContractHash { bytes: vstd::array::spec_array_fill_for_copy_type::<u8, 32>(0u8) }
    }

    fn default_value() -> (value: Self) {
        ContractHash { bytes: [0u8; 32] }
    }
}

impl URef {
    /// The purse at `addr`.
    pub fn new(addr: [u8; 32]) -> (r: Self)
        ensures
            r.addr == addr,
    {
        URef { addr }
    }

    /// The address of the purse.
    pub fn addr(&self) -> (r: [u8; 32])
        ensures
            r == self.addr,
    {
        self.addr
    }
}

impl Key {
    /// The 32 bytes that identify the holder, whichever kind it is.
    pub open spec fn bytes(self) -> Seq<u8> {
        match self {
            Key::Account(account) => account.bytes@,
            Key::Hash(hash) => hash@,
        }
    }

    /// Whether this is the zero identity, as an account or as a contract.
    pub open spec fn spec_is_zero(self) -> bool {
        self.bytes() == zero_bytes()
    }

    /// Whether this is the zero identity, as an account or as a contract.
    pub fn is_zero(&self) -> (r: bool)
        ensures
            r == self.spec_is_zero(),
    {
        match self {
            Key::Account(account) => bytes_are_zero(&account.bytes),
            Key::Hash(hash) => bytes_are_zero(hash),
        }
    }

    /// Whether this holder has the same bytes as `other`, so that both share
    /// one balance.
    pub fn same_holder(&self, other: &Key) -> (r: bool)
        ensures
            r == (self.bytes() == other.bytes()),
    {
        let mine = match self {
            Key::Account(account) => &account.bytes,
            Key::Hash(hash) => hash,
        };
        let theirs = match other {
            Key::Account(account) => &account.bytes,
            Key::Hash(hash) => hash,
        };
        bytes_equal(mine, theirs)
    }

    /// Whether this is the same identity as `other`, of the same kind.
    pub fn same(&self, other: &Key) -> (r: bool)
        ensures
            r == (*self == *other),
    {
        match (self, other) {
            (Key::Account(a), Key::Account(b)) => a.same(b),
            (Key::Hash(a), Key::Hash(b)) => bytes_equal(a, b),
            _ => false,
        }
    }
}

/// Whether `caller` is the governance account. A contract is never one, even
/// with the same bytes.
pub open spec fn authorized(caller: Key, governance: AccountHash) -> bool {
    caller == Key::Account(governance)
}

/// The lower-case hexadecimal digit for a value below 16.
pub open spec fn hex_digit(n: u8) -> char {
    if n < 10 {
        ((48 + n) as u8) as char
    } else {
        ((87 + n) as u8) as char
    }
}

/// Lower-case hexadecimal text of `bytes`: two digits for each byte, the high
/// half first.
pub open spec fn hex_lower(bytes: Seq<u8>) -> Seq<char> {
    Seq::new(
        2 * bytes.len(),
        |i: int|
            if i % 2 == 0 {
                hex_digit(bytes[i / 2] / 16)
            } else {
                hex_digit(bytes[i / 2] % 16)
            },
    )
}

/// How a holder is shown in text: its kind, then its bytes in hexadecimal
/// between round brackets.
pub open spec fn key_display(key: Key) -> Seq<char> {
    match key {
        Key::Account(account) => "Key::Account("@ + hex_lower(account.bytes@) + ")"@,
        Key::Hash(hash) => "Key::Hash("@ + hex_lower(hash@) + ")"@,
    }
}

/// The name under which a balance is filed: the holder's bytes in
/// hexadecimal. An account and a contract with the same bytes share it.
pub open spec fn spec_key_to_str(key: Key) -> Seq<char> {
    hex_lower(key.bytes())
}

/// The name under which the allowance that `owner` grants `spender` is filed.
pub open spec fn spec_allowance_key(owner: Key, spender: Key) -> Seq<char> {
    "allowances_"@ + key_display(owner) + "_"@ + key_display(spender)
}

/// The caller that a chain of calls shows: the principal of its first frame,
/// which began the transaction, whatever contracts lie between it and the
/// running frame on top. A chain of fewer than two frames shows none.
pub open spec fn spec_get_caller(call_stack: Seq<CallStackElement>) -> Option<Key> {
    if call_stack.len() < 2 {
        None
    } else {
        Some(frame_principal(call_stack[0]))
    }
}

/// Whether a frame is code that runs as `account`.
pub open spec fn runs_as(frame: CallStackElement, account: AccountHash) -> bool {
    match frame {
        CallStackElement::Session { account_hash } => account_hash == account,
        CallStackElement::StoredSession { account_hash, .. } => account_hash == account,
        CallStackElement::StoredContract { .. } => false,
    }
}

/// The principal of one frame: the account for code that runs as an account,
/// the contract itself for a stored contract.
pub open spec fn frame_principal(frame: CallStackElement) -> Key {
    match frame {
        CallStackElement::Session { account_hash } => Key::Account(account_hash),
        CallStackElement::StoredSession { account_hash, .. } => Key::Account(account_hash),
        CallStackElement::StoredContract { contract_hash, .. } => Key::Hash(contract_hash.bytes),
    }
}

/// `hex::encode` on 32 bytes: their lower-case hexadecimal text, two digits
/// for each byte.
#[verifier::external_body]
fn hex_encode(bytes: &[u8; 32]) -> (text: String)
    ensures
        text@ == hex_lower(bytes@),
{
    hex::encode(bytes)
}

/// The `Display` text of `casper_types::account::AccountHash`: the lower-case
/// hexadecimal text of its 32 bytes.
#[verifier::external_body]
fn account_hash_text(account: &AccountHash) -> (text: String)
    ensures
        text@ == hex_lower(account.bytes@),
{
    casper_types::account::AccountHash::new(account.bytes).to_string()
}

/// The `Display` text of `casper_types::Key` for an account or a contract:
/// `Key::Account(..)` or `Key::Hash(..)` around the lower-case hexadecimal
/// text of the 32 bytes.
#[verifier::external_body]
fn key_text(key: &Key) -> (text: String)
    ensures
        text@ == key_display(*key),
{
    match key {
        Key::Account(account) => casper_types::Key::Account(
            casper_types::account::AccountHash::new(account.bytes),
        ).to_string(),
        Key::Hash(hash) => casper_types::Key::Hash(*hash).to_string(),
    }
}

/// The name under which the balance of `key` is filed.
pub fn key_to_str(key: &Key) -> (name: String)
    ensures
        name@ == spec_key_to_str(*key),
{
    match key {
        Key::Account(account) => account_hash_text(account),
        Key::Hash(package) => hex_encode(package),
    }
}

/// The name under which the locked amount of a purse is filed: its address
/// in hexadecimal.
pub fn uref_to_str(uref: &URef) -> (name: String)
    ensures
        name@ == hex_lower(uref.addr@),
{
    hex_encode(&uref.addr)
}

/// The name under which the allowance that `owner` grants `sender` is filed.
pub fn allowance_key(owner: &Key, sender: &Key) -> (name: String)
    ensures
        name@ == spec_allowance_key(*owner, *sender),
{
    let mut name = String::from_str("allowances_");
    let owner_text = key_text(owner);
    let sender_text = key_text(sender);
    name.append(owner_text.as_str());
    name.append("_");
    name.append(sender_text.as_str());
    name
}

/// The caller of the running entry point, read off the chain of calls: the
/// principal of the first frame, which began the transaction. `None` when
/// the chain has no frame below the running one.
pub fn get_caller(call_stack: &Vec<CallStackElement>) -> (caller: Option<Key>)
    ensures
        caller == spec_get_caller(call_stack@),
{
    if call_stack.len() < 2 {
        return None;
    }
    match call_stack[0] {
        CallStackElement::Session { account_hash } => Some(Key::Account(account_hash)),
        CallStackElement::StoredSession { account_hash, .. } => Some(Key::Account(account_hash)),
        CallStackElement::StoredContract { contract_hash, .. } => Some(
            Key::Hash(contract_hash.bytes),
        ),
    }
}

/// Where an account began the transaction, that account is the caller,
/// whatever frames lie between its own and the running one.
pub proof fn lemma_caller_began_the_transaction(
    call_stack: Seq<CallStackElement>,
    account: AccountHash,
)
    requires
        call_stack.len() >= 2,
        runs_as(call_stack[0], account),
    ensures
        spec_get_caller(call_stack) == Some(Key::Account(account)),
{
}

/// Distinct values below 16 have distinct hexadecimal digits.
proof fn lemma_hex_digit_injective(n: u8, m: u8)
    requires
        n < 16,
        m < 16,
        hex_digit(n) == hex_digit(m),
    ensures
        n == m,
{
    assert(hex_digit(n) as u32 == if n < 10 {
        48 + n
    } else {
        87 + n
    });
    assert(hex_digit(m) as u32 == if m < 10 {
        48 + m
    } else {
        87 + m
    });
}

/// Byte sequences with the same hexadecimal text are the same.
pub proof fn lemma_hex_lower_injective(a: Seq<u8>, b: Seq<u8>)
    requires
        hex_lower(a) == hex_lower(b),
    ensures
        a == b,
{
    assert(hex_lower(a).len() == 2 * a.len());
    assert(hex_lower(b).len() == 2 * b.len());
    assert forall|i: int| 0 <= i < a.len() implies a[i] == b[i] by {
        assert(hex_lower(a)[2 * i] == hex_digit(a[i] / 16));
        assert(hex_lower(b)[2 * i] == hex_digit(b[i] / 16));
        assert(hex_lower(a)[2 * i + 1] == hex_digit(a[i] % 16));
        assert(hex_lower(b)[2 * i + 1] == hex_digit(b[i] % 16));
        lemma_hex_digit_injective(a[i] / 16, b[i] / 16);
        lemma_hex_digit_injective(a[i] % 16, b[i] % 16);
    }
    assert(a =~= b);
}

/// Two holders share a balance exactly when they have the same bytes.
pub proof fn lemma_holders_apart(a: Key, b: Key)
    ensures
        spec_key_to_str(a) == spec_key_to_str(b) <==> a.bytes() == b.bytes(),
{
    if spec_key_to_str(a) == spec_key_to_str(b) {
        lemma_hex_lower_injective(a.bytes(), b.bytes());
    }
}

/// Two purses share a locked amount exactly when they are the same purse.
pub proof fn lemma_purses_apart(p: URef, q: URef)
    ensures
        hex_lower(p.addr@) == hex_lower(q.addr@) <==> p == q,
{
    if hex_lower(p.addr@) == hex_lower(q.addr@) {
        lemma_hex_lower_injective(p.addr@, q.addr@);
        assert(p.addr =~= q.addr);
    }
}

/// How long the text of a holder is before its hexadecimal digits begin.
spec fn display_prefix_len(key: Key) -> int {
    match key {
        Key::Account(_) => 13,
        Key::Hash(_) => 10,
    }
}

/// The text of a holder is its kind, 64 hexadecimal digits and a bracket;
/// its sixth character tells the kind.
proof fn lemma_key_display_shape(key: Key)
    ensures
        key_display(key).len() == display_prefix_len(key) + 65,
        key_display(key)[5] == (if key is Account {
            'A'
        } else {
            'H'
        }),
        key_display(key).subrange(display_prefix_len(key), display_prefix_len(key) + 64)
            == hex_lower(key.bytes()),
{
    reveal_strlit("Key::Account(");
    reveal_strlit("Key::Hash(");
    reveal_strlit(")");
    let p = display_prefix_len(key);
    let hex = hex_lower(key.bytes());
    assert(key.bytes().len() == 32);
    assert(hex.len() == 64);
    match key {
        Key::Account(account) => {
            assert(key_display(key) == "Key::Account("@ + hex + ")"@);
            assert("Key::Account("@[5] == 'A');
        },
        Key::Hash(hash) => {
            assert(key_display(key) == "Key::Hash("@ + hex + ")"@);
            assert("Key::Hash("@[5] == 'H');
        },
    }
    assert(key_display(key).subrange(p, p + 64) =~= hex);
}

/// Holders with the same text are the same holder.
pub proof fn lemma_key_display_injective(a: Key, b: Key)
    requires
        key_display(a) == key_display(b),
    ensures
        a == b,
{
    lemma_key_display_shape(a);
    lemma_key_display_shape(b);
    lemma_hex_lower_injective(a.bytes(), b.bytes());
    match (a, b) {
        (Key::Account(x), Key::Account(y)) => {
            assert(x.bytes =~= y.bytes);
        },
        (Key::Hash(x), Key::Hash(y)) => {
            assert(x =~= y);
        },
        _ => {},
    }
}

/// Two allowances are filed under the same name exactly when they are the
/// allowance of the same owner to the same spender.
pub proof fn lemma_allowances_apart(o1: Key, s1: Key, o2: Key, s2: Key)
    ensures
        spec_allowance_key(o1, s1) == spec_allowance_key(o2, s2) <==> o1 == o2 && s1 == s2,
{
    let x = spec_allowance_key(o1, s1);
    let y = spec_allowance_key(o2, s2);
    if x == y {
        reveal_strlit("allowances_");
        reveal_strlit("_");
        lemma_key_display_shape(o1);
        lemma_key_display_shape(o2);
        lemma_key_display_shape(s1);
        lemma_key_display_shape(s2);
        let d1 = key_display(o1);
        let d2 = key_display(o2);
        let e1 = key_display(s1);
        let e2 = key_display(s2);
        assert(x == "allowances_"@ + d1 + "_"@ + e1);
        assert(y == "allowances_"@ + d2 + "_"@ + e2);
        assert(x[16] == d1[5]);
        assert(y[16] == d2[5]);
        assert(d1.len() == d2.len());
        let n = d1.len() as int;
        assert(x.subrange(11, 11 + n) =~= d1);
        assert(y.subrange(11, 11 + n) =~= d2);
        assert(x.len() == y.len());
        assert(x.subrange(12 + n, x.len() as int) =~= e1);
        assert(y.subrange(12 + n, y.len() as int) =~= e2);
        lemma_key_display_injective(o1, o2);
        lemma_key_display_injective(s1, s2);
    }
}

} // verus!
