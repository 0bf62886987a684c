use casper_types::{AsymmetricType, PublicKey};
use ledger_factory::factory::{Error, TokenLedger};
use ledger_factory::identity::{AccountHash, Key};
use ledger_factory::uint::U256;

const NAME: &str = "ERC20";
const SYMBOL: &str = "ERC";
const DECIMALS: u8 = 8;

fn total_supply() -> U256 {
    U256::from_u64(1_000)
}

fn account(seed: u8) -> AccountHash {
    let public_key = PublicKey::ed25519_from_bytes([seed; 32]).unwrap();
    AccountHash::new(public_key.to_account_hash().value())
}

fn to_key(account: AccountHash) -> Key {
    Key::Account(account)
}

fn add(a: U256, b: U256) -> U256 {
    U256 { words: (casper_types::U256(a.words) + casper_types::U256(b.words)).0 }
}

fn sub(a: U256, b: U256) -> U256 {
    U256 { words: (casper_types::U256(a.words) - casper_types::U256(b.words)).0 }
}

struct Sender(AccountHash);

struct Token {
    ledger: TokenLedger,
    ali: AccountHash,
    bob: AccountHash,
    joe: AccountHash,
}

impl Token {
    fn deployed(name: &str, symbol: &str) -> Token {
        let ali = account(3);
        let bob = account(6);
        let joe = account(9);
        let ledger = TokenLedger::new(
            name.to_string(),
            symbol.to_string(),
            DECIMALS,
            total_supply(),
            ali,
            &to_key(ali),
        );
        Token { ledger, ali, bob, joe }
    }

    fn name(&self) -> String {
        self.ledger.name().clone()
    }

    fn symbol(&self) -> String {
        self.ledger.symbol().clone()
    }

    fn decimals(&self) -> u8 {
        self.ledger.decimals()
    }

    fn total_supply(&self) -> U256 {
        self.ledger.total_supply()
    }

    fn balance_of(&self, account: Key) -> U256 {
        self.ledger.balance_of(&account)
    }

    fn allowance(&self, owner: Key, spender: Key) -> U256 {
        self.ledger.allowance(&owner, &spender)
    }

    fn transfer(&mut self, recipient: Key, amount: U256, sender: Sender) {
        self.ledger.transfer(&to_key(sender.0), &recipient, amount).unwrap();
    }

    fn approve(&mut self, spender: Key, amount: U256, sender: Sender) {
        self.ledger.approve(&to_key(sender.0), &spender, amount);
    }

    fn transfer_from(&mut self, owner: Key, recipient: Key, amount: U256, sender: Sender) {
        self.ledger.transfer_from(&to_key(sender.0), &owner, &recipient, amount).unwrap();
    }

    fn mint(&mut self, owner: Key, amount: U256, sender: Sender) {
        self.ledger.mint(&to_key(sender.0), &owner, amount).unwrap();
    }

    fn burn(&mut self, owner: Key, amount: U256, sender: Sender) {
        self.ledger.burn(&to_key(sender.0), &owner, amount).unwrap();
    }
}

#[test]
fn test_erc20_deploy() {
    let t = Token::deployed("ERC20", "ERC");
    assert_eq!(t.name(), NAME);
    assert_eq!(t.symbol(), SYMBOL);
    assert_eq!(t.decimals(), DECIMALS);
    assert_eq!(t.balance_of(to_key(t.ali)), total_supply());
    assert_eq!(t.allowance(to_key(t.ali), to_key(t.ali)), U256::from_u64(0));
    assert_eq!(t.allowance(to_key(t.ali), to_key(t.bob)), U256::from_u64(0));
    assert_eq!(t.allowance(to_key(t.bob), to_key(t.ali)), U256::from_u64(0));
    assert_eq!(t.allowance(to_key(t.bob), to_key(t.bob)), U256::from_u64(0));
    let expected = casper_types::account::AccountHash::from_formatted_str(
        "account-hash-fb4215156ad2505de4b230bd8de087cc0443025cd1ad2b468846571d443196ac",
    )
    .unwrap();
    assert_eq!(t.ali, AccountHash::new(expected.value()));
}

#[test]
fn test_erc20_transfer() {
    let amount = U256::from_u64(10);
    let mut t = Token::deployed("ERC20", "ERC");
    t.transfer(to_key(t.bob), amount, Sender(t.ali));
    assert_eq!(t.balance_of(to_key(t.ali)), sub(total_supply(), amount));
    assert_eq!(t.balance_of(to_key(t.bob)), amount);
}

#[test]
#[should_panic]
fn test_erc20_transfer_too_much() {
    let amount = U256::from_u64(1);
    let mut t = Token::deployed("ERC20", "ERC");
    t.transfer(to_key(t.ali), amount, Sender(t.bob));
}

#[test]
fn test_erc20_approve() {
    let amount = U256::from_u64(10);
    let mut t = Token::deployed("ERC20", "ERC");
    t.approve(to_key(t.bob), amount, Sender(t.ali));
    assert_eq!(t.balance_of(to_key(t.ali)), total_supply());
    assert_eq!(t.allowance(to_key(t.ali), to_key(t.bob)), amount);
    assert_eq!(t.allowance(to_key(t.bob), to_key(t.ali)), U256::from_u64(0));
}

#[test]
fn test_erc20_transfer_from() {
    let allowance = U256::from_u64(10);
    let amount = U256::from_u64(3);
    let mut t = Token::deployed("ERC20", "ERC");
    t.approve(to_key(t.bob), allowance, Sender(t.ali));
    assert_eq!(t.allowance(to_key(t.ali), to_key(t.bob)), allowance);
    t.transfer_from(to_key(t.ali), to_key(t.joe), amount, Sender(t.bob));
    assert_eq!(t.balance_of(to_key(t.ali)), sub(total_supply(), amount));
    assert_eq!(t.balance_of(to_key(t.joe)), amount);
    assert_eq!(t.allowance(to_key(t.ali), to_key(t.bob)), sub(allowance, amount));
}

#[test]
#[should_panic]
fn test_erc20_transfer_from_too_much() {
    let amount = add(total_supply(), U256::from_u64(1));
    let mut t = Token::deployed("ERC20", "ERC");
    t.transfer_from(to_key(t.ali), to_key(t.joe), amount, Sender(t.bob));
}

#[test]
fn test_mint() {
    let mut t = Token::deployed("ERC20", "ERC");
    let amount = U256::from_u64(10);
    let balance = t.balance_of(to_key(t.ali));
    let total_supply = t.total_supply();
    t.mint(to_key(t.ali), amount, Sender(t.ali));
    assert_eq!(t.balance_of(to_key(t.ali)), add(balance, amount));
    assert_eq!(t.total_supply(), add(total_supply, amount));
}

#[test]
fn test_mint_to_new_user() {
    let mut t = Token::deployed("ERC20", "ERC");
    let amount = U256::from_u64(10);
    let total_supply = t.total_supply();
    t.mint(to_key(t.bob), amount, Sender(t.ali));
    assert_eq!(t.balance_of(to_key(t.bob)), amount);
    assert_eq!(t.total_supply(), add(total_supply, amount));
}

#[test]
#[should_panic]
fn test_mint_to_zero_hash() {
    let mut t = Token::deployed("ERC20", "ERC");
    let amount = U256::from_u64(10);
    t.mint(Key::Hash([0u8; 32]), amount, Sender(t.ali));
}

#[test]
#[should_panic]
fn test_mint_unauthorized() {
    let mut t = Token::deployed("ERC20", "ERC");
    let amount = U256::from_u64(10);
    t.mint(Key::Hash([0u8; 32]), amount, Sender(t.bob));
}

#[test]
fn test_burn() {
    let mut t = Token::deployed("ERC20", "ERC");
    let amount = U256::from_u64(10);
    let balance = t.balance_of(to_key(t.ali));
    let total_supply = t.total_supply();
    t.burn(to_key(t.ali), amount, Sender(t.ali));
    assert_eq!(t.balance_of(to_key(t.ali)), sub(balance, amount));
    assert_eq!(t.total_supply(), sub(total_supply, amount));
}

#[test]
#[should_panic]
fn test_burn_too_much() {
    let mut t = Token::deployed("ERC20", "ERC");
    let amount = U256::from_u64(10);
    let total_supply = t.total_supply();
    t.mint(to_key(t.bob), amount, Sender(t.ali));
    assert_eq!(t.balance_of(to_key(t.bob)), amount);
    assert_eq!(t.total_supply(), add(total_supply, amount));
    t.burn(to_key(t.bob), add(amount, U256::from_u64(1)), Sender(t.ali));
}

#[test]
#[should_panic]
fn test_burn_from_zero_hash() {
    let mut t = Token::deployed("ERC20", "ERC");
    let amount = U256::from_u64(10);
    t.burn(Key::Hash([0u8; 32]), amount, Sender(t.ali));
}

#[test]
#[should_panic]
fn test_burn_unauthorized() {
    let mut t = Token::deployed("ERC20", "ERC");
    let amount = U256::from_u64(10);
    t.burn(Key::Hash([0u8; 32]), amount, Sender(t.bob));
}

#[test]
fn transfer_without_balance_reports_insufficient_balance_and_changes_nothing() {
    let mut t = Token::deployed("ERC20", "ERC");
    let r = t.ledger.transfer(&to_key(t.bob), &to_key(t.ali), U256::from_u64(1));
    assert_eq!(r, Err(Error::InsufficientBalance));
    assert_eq!(t.balance_of(to_key(t.ali)), total_supply());
    assert_eq!(t.balance_of(to_key(t.bob)), U256::from_u64(0));
    assert_eq!(t.total_supply(), total_supply());
}

#[test]
fn transfer_to_oneself_keeps_the_balance() {
    let mut t = Token::deployed("ERC20", "ERC");
    let r = t.ledger.transfer(&to_key(t.ali), &to_key(t.ali), U256::from_u64(400));
    assert_eq!(r, Ok(()));
    assert_eq!(t.balance_of(to_key(t.ali)), total_supply());
}

#[test]
fn account_and_contract_of_the_same_bytes_share_a_balance() {
    let mut t = Token::deployed("ERC20", "ERC");
    let as_contract = Key::Hash(t.bob.value());
    t.transfer(as_contract, U256::from_u64(7), Sender(t.ali));
    assert_eq!(t.balance_of(to_key(t.bob)), U256::from_u64(7));
    assert_eq!(t.balance_of(as_contract), U256::from_u64(7));
}

#[test]
fn allowances_of_account_and_contract_are_apart() {
    let mut t = Token::deployed("ERC20", "ERC");
    let as_contract = Key::Hash(t.bob.value());
    t.approve(to_key(t.bob), U256::from_u64(5), Sender(t.ali));
    assert_eq!(t.allowance(to_key(t.ali), to_key(t.bob)), U256::from_u64(5));
    assert_eq!(t.allowance(to_key(t.ali), as_contract), U256::from_u64(0));
}

#[test]
fn approve_sets_the_allowance_whatever_it_was() {
    let mut t = Token::deployed("ERC20", "ERC");
    t.approve(to_key(t.bob), U256::from_u64(10), Sender(t.ali));
    t.approve(to_key(t.bob), U256::from_u64(4), Sender(t.ali));
    assert_eq!(t.allowance(to_key(t.ali), to_key(t.bob)), U256::from_u64(4));
}

#[test]
fn allowance_of_ten_spent_by_three_twice_leaves_four() {
    let mut t = Token::deployed("ERC20", "ERC");
    t.approve(to_key(t.bob), U256::from_u64(10), Sender(t.ali));
    t.transfer_from(to_key(t.ali), to_key(t.joe), U256::from_u64(3), Sender(t.bob));
    assert_eq!(t.allowance(to_key(t.ali), to_key(t.bob)), U256::from_u64(7));
    t.transfer_from(to_key(t.ali), to_key(t.joe), U256::from_u64(3), Sender(t.bob));
    assert_eq!(t.allowance(to_key(t.ali), to_key(t.bob)), U256::from_u64(4));
    assert_eq!(t.balance_of(to_key(t.joe)), U256::from_u64(6));
    assert_eq!(t.balance_of(to_key(t.ali)), U256::from_u64(994));
}

#[test]
fn transfer_from_beyond_the_allowance_reports_insufficient_allowance() {
    let mut t = Token::deployed("ERC20", "ERC");
    t.approve(to_key(t.bob), U256::from_u64(2), Sender(t.ali));
    let r = t.ledger.transfer_from(
        &to_key(t.bob),
        &to_key(t.ali),
        &to_key(t.joe),
        U256::from_u64(3),
    );
    assert_eq!(r, Err(Error::InsufficientAllowance));
    assert_eq!(t.allowance(to_key(t.ali), to_key(t.bob)), U256::from_u64(2));
    assert_eq!(t.balance_of(to_key(t.ali)), total_supply());
    assert_eq!(t.balance_of(to_key(t.joe)), U256::from_u64(0));
}

#[test]
fn transfer_from_beyond_the_balance_reports_insufficient_balance_first() {
    let mut t = Token::deployed("ERC20", "ERC");
    let r = t.ledger.transfer_from(
        &to_key(t.bob),
        &to_key(t.ali),
        &to_key(t.joe),
        U256::from_u64(1_001),
    );
    assert_eq!(r, Err(Error::InsufficientBalance));
}

#[test]
fn mint_of_ten_on_a_supply_of_thousand_gives_thousand_and_ten() {
    let mut t = Token::deployed("ERC20", "ERC");
    assert_eq!(t.ledger.mint(&to_key(t.ali), &to_key(t.ali), U256::from_u64(10)), Ok(()));
    assert_eq!(t.total_supply(), U256::from_u64(1_010));
    assert_eq!(t.balance_of(to_key(t.ali)), U256::from_u64(1_010));
    let r = t.ledger.burn(&to_key(t.ali), &to_key(t.ali), U256::from_u64(2_000));
    assert_eq!(r, Err(Error::InsufficientBalance));
    assert_eq!(t.total_supply(), U256::from_u64(1_010));
    assert_eq!(t.balance_of(to_key(t.ali)), U256::from_u64(1_010));
}

#[test]
fn mint_and_burn_report_each_refusal() {
    let mut t = Token::deployed("ERC20", "ERC");
    let ten = U256::from_u64(10);
    let zero_account = Key::Account(AccountHash::new([0u8; 32]));
    assert_eq!(t.ledger.mint(&to_key(t.bob), &to_key(t.bob), ten), Err(Error::Unauthorized));
    assert_eq!(t.ledger.burn(&to_key(t.bob), &to_key(t.ali), ten), Err(Error::Unauthorized));
    assert_eq!(t.ledger.mint(&to_key(t.ali), &zero_account, ten), Err(Error::ZeroAddressTarget));
    assert_eq!(
        t.ledger.mint(&to_key(t.ali), &Key::Hash([0u8; 32]), ten),
        Err(Error::ZeroAddressTarget)
    );
    assert_eq!(t.ledger.burn(&to_key(t.ali), &zero_account, ten), Err(Error::ZeroAddressSource));
    assert_eq!(
        t.ledger.burn(&to_key(t.ali), &to_key(t.bob), ten),
        Err(Error::InsufficientBalance)
    );
    assert_eq!(t.total_supply(), total_supply());
    assert_eq!(t.balance_of(to_key(t.ali)), total_supply());
    assert_eq!(t.balance_of(to_key(t.bob)), U256::from_u64(0));
}

#[test]
fn a_contract_as_caller_is_not_the_governance_account() {
    let mut t = Token::deployed("ERC20", "ERC");
    let as_contract = Key::Hash(t.ali.value());
    let r = t.ledger.mint(&as_contract, &to_key(t.bob), U256::from_u64(1));
    assert_eq!(r, Err(Error::Unauthorized));
}

#[test]
fn balances_sum_to_the_supply_after_each_operation() {
    let mut t = Token::deployed("ERC20", "ERC");
    let holders = [to_key(t.ali), to_key(t.bob), to_key(t.joe)];
    let sum = |t: &Token| {
        holders.iter().fold(casper_types::U256::zero(), |acc, k| {
            acc + casper_types::U256(t.balance_of(*k).words)
        })
    };
    assert_eq!(sum(&t), casper_types::U256(t.total_supply().words));
    t.mint(to_key(t.bob), U256::from_u64(50), Sender(t.ali));
    assert_eq!(sum(&t), casper_types::U256(t.total_supply().words));
    t.transfer(to_key(t.joe), U256::from_u64(20), Sender(t.bob));
    assert_eq!(sum(&t), casper_types::U256(t.total_supply().words));
    t.burn(to_key(t.ali), U256::from_u64(300), Sender(t.ali));
    assert_eq!(sum(&t), casper_types::U256(t.total_supply().words));
    assert_eq!(t.total_supply(), U256::from_u64(750));
}

#[test]
fn amounts_carry_across_words() {
    let holder = to_key(account(3));
    let mut ledger = TokenLedger::new(
        "BIG".to_string(),
        "B".to_string(),
        0,
        U256 { words: [u64::MAX, u64::MAX, 0, 0] },
        account(3),
        &holder,
    );
    assert_eq!(ledger.mint(&holder, &holder, U256::from_u64(1)), Ok(()));
    assert_eq!(ledger.total_supply(), U256 { words: [0, 0, 1, 0] });
    assert_eq!(ledger.balance_of(&holder), U256 { words: [0, 0, 1, 0] });
    assert_eq!(ledger.burn(&holder, &holder, U256::from_u64(2)), Ok(()));
    assert_eq!(ledger.total_supply(), U256 { words: [u64::MAX - 1, u64::MAX, 0, 0] });
}

#[test]
fn rules_on_plain_values_give_the_new_amounts() {
    let ali = account(3);
    let bob = account(6);
    let ten = U256::from_u64(10);
    let minted = ledger_factory::factory::mint(
        &to_key(ali),
        &ali,
        &to_key(bob),
        U256::from_u64(1_000),
        U256::from_u64(5),
        ten,
    )
    .unwrap();
    assert_eq!(minted.total_supply, U256::from_u64(1_010));
    assert_eq!(minted.balance, U256::from_u64(15));
    let burned = ledger_factory::factory::burn(
        &to_key(ali),
        &ali,
        &to_key(bob),
        U256::from_u64(1_000),
        U256::from_u64(15),
        ten,
    )
    .unwrap();
    assert_eq!(burned.total_supply, U256::from_u64(990));
    assert_eq!(burned.balance, U256::from_u64(5));
    let joe = account(9);
    let moved = ledger_factory::factory::_transfer(
        &to_key(ali),
        &to_key(bob),
        U256::from_u64(30),
        U256::from_u64(1),
        ten,
    )
    .unwrap();
    assert_eq!(moved.sender, U256::from_u64(20));
    assert_eq!(moved.recipient, U256::from_u64(11));
    let kept = ledger_factory::factory::_transfer(
        &to_key(ali),
        &Key::Hash(ali.value()),
        U256::from_u64(30),
        U256::from_u64(1),
        ten,
    )
    .unwrap();
    assert_eq!(kept.sender, U256::from_u64(20));
    assert_eq!(kept.recipient, U256::from_u64(30));
    let spent = ledger_factory::factory::_transfer_from(
        &to_key(ali),
        &to_key(joe),
        ten,
        U256::from_u64(30),
        U256::from_u64(1),
        U256::from_u64(3),
    )
    .unwrap();
    assert_eq!(spent.allowance, U256::from_u64(7));
    assert_eq!(spent.balances.sender, U256::from_u64(27));
    assert_eq!(spent.balances.recipient, U256::from_u64(4));
    assert_eq!(
        ledger_factory::factory::_transfer(
            &to_key(ali),
            &to_key(bob),
            U256::from_u64(3),
            U256::from_u64(1),
            ten
        ),
        Err(Error::InsufficientBalance)
    );
    assert_eq!(
        ledger_factory::factory::_transfer_from(
            &to_key(ali),
            &to_key(joe),
            U256::from_u64(2),
            U256::from_u64(30),
            U256::from_u64(1),
            ten,
        ),
        Err(Error::InsufficientAllowance)
    );
    assert_eq!(
        ledger_factory::factory::_transfer_from(
            &to_key(ali),
            &to_key(joe),
            U256::from_u64(2),
            U256::from_u64(3),
            U256::from_u64(1),
            ten,
        ),
        Err(Error::InsufficientBalance)
    );
    assert_eq!(
        ledger_factory::factory::_authorization_check(&to_key(bob), &ali),
        Err(Error::Unauthorized)
    );
    assert_eq!(ledger_factory::factory::_authorization_check(&to_key(ali), &ali), Ok(()));
}

#[test]
fn token_errors_have_their_codes() {
    assert_eq!(Error::ZeroAddressTarget.code(), 0);
    assert_eq!(Error::ZeroAddressSource.code(), 1);
    assert_eq!(Error::InsufficientBalance.code(), 2);
    assert_eq!(Error::Unauthorized.code(), 3);
    assert_eq!(Error::AlreadyExists.code(), 4);
    assert_eq!(Error::TokenNotFound.code(), 5);
    assert_eq!(Error::InsufficientAllowance.code(), 6);
}

#[test]
fn metadata_holds_name_symbol_decimals_and_supply() {
    let mut t = Token::deployed("ERC20", "ERC");
    t.mint(to_key(t.bob), U256::from_u64(1), Sender(t.ali));
    let metadata = t.ledger.metadata();
    assert_eq!(metadata.name, "ERC20");
    assert_eq!(metadata.symbol, "ERC");
    assert_eq!(metadata.decimals, 8);
    assert_eq!(metadata.total_supply, U256::from_u64(1_001));
    assert_eq!(t.ledger.governance(), t.ali);
}

#[test]
fn a_transfer_leaves_other_holders_alone() {
    let mut t = Token::deployed("ERC20", "ERC");
    t.transfer(to_key(t.joe), U256::from_u64(5), Sender(t.ali));
    t.transfer(to_key(t.bob), U256::from_u64(10), Sender(t.ali));
    assert_eq!(t.balance_of(to_key(t.joe)), U256::from_u64(5));
    assert_eq!(t.balance_of(to_key(t.ali)), U256::from_u64(985));
}

#[test]
fn approving_one_pair_leaves_the_others_alone() {
    let mut t = Token::deployed("ERC20", "ERC");
    t.approve(to_key(t.bob), U256::from_u64(10), Sender(t.ali));
    t.approve(to_key(t.joe), U256::from_u64(20), Sender(t.ali));
    t.approve(to_key(t.ali), U256::from_u64(30), Sender(t.bob));
    t.transfer_from(to_key(t.ali), to_key(t.joe), U256::from_u64(4), Sender(t.bob));
    assert_eq!(t.allowance(to_key(t.ali), to_key(t.bob)), U256::from_u64(6));
    assert_eq!(t.allowance(to_key(t.ali), to_key(t.joe)), U256::from_u64(20));
    assert_eq!(t.allowance(to_key(t.bob), to_key(t.ali)), U256::from_u64(30));
}
