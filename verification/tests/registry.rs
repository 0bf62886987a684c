use casper_types::{AsymmetricType, PublicKey};
use ledger_factory::factory::{call, create_erc20, get_erc20_hash, Error, Factory};
use ledger_factory::identity::{AccountHash, ContractHash, Key};
use ledger_factory::uint::U256;

const NAME: &str = "ERC20";
const SYMBOL: &str = "ERC";
const DECIMALS: u8 = 8;

fn total_supply() -> U256 {
    U256::from_u64(1_000)
}

fn account(seed: u8) -> AccountHash {
    let public_key = PublicKey::ed25519_from_bytes([seed; 32]).unwrap();
    AccountHash::new(public_key.to_account_hash().value())
}

struct Sender(AccountHash);

struct Deployed {
    factory: Factory,
    made: u8,
    ali: AccountHash,
    bob: AccountHash,
}

impl Deployed {
    fn deployed() -> Deployed {
        let ali = account(3);
        let bob = account(6);
        Deployed { factory: call(ali), made: 0, ali, bob }
    }

    fn get_erc20_hash(&self, token_name: String) -> ContractHash {
        self.factory.get_erc20_hash(&token_name).unwrap_or_default()
    }

    fn create_erc20(
        &mut self,
        token_name: String,
        token_symbol: String,
        token_decimals: u8,
        token_total_supply: U256,
        governance: AccountHash,
        sender: Sender,
    ) {
        self.made += 1;
        self.factory
            .create_erc20(
                &Key::Account(sender.0),
                token_name,
                token_symbol,
                token_decimals,
                token_total_supply,
                governance,
                ContractHash::new([self.made; 32]),
            )
            .unwrap();
    }
}

#[test]
fn test_factory_deploy() {
    let f = Deployed::deployed();
    let expected = casper_types::account::AccountHash::from_formatted_str(
        "account-hash-fb4215156ad2505de4b230bd8de087cc0443025cd1ad2b468846571d443196ac",
    )
    .unwrap();
    assert_eq!(f.ali, AccountHash::new(expected.value()));
    assert_eq!(f.factory.governance(), f.ali);
}

#[test]
fn test_factory_create_erc20() {
    let mut f = Deployed::deployed();
    let contract_hash = f.get_erc20_hash(NAME.to_string());
    assert_eq!(contract_hash, ContractHash::default());
    f.create_erc20(
        NAME.to_string(),
        SYMBOL.to_string(),
        DECIMALS,
        total_supply(),
        f.ali,
        Sender(f.ali),
    );
    let contract_hash = f.get_erc20_hash(NAME.to_string());
    assert_ne!(contract_hash, ContractHash::default());
}

#[test]
#[should_panic]
fn test_factory_create_unauthorized() {
    let mut f = Deployed::deployed();
    f.create_erc20(
        NAME.to_string(),
        SYMBOL.to_string(),
        DECIMALS,
        total_supply(),
        f.ali,
        Sender(f.bob),
    );
}

#[test]
#[should_panic]
fn test_factory_create_redundant() {
    let mut f = Deployed::deployed();
    f.create_erc20(
        NAME.to_string(),
        SYMBOL.to_string(),
        DECIMALS,
        total_supply(),
        f.ali,
        Sender(f.ali),
    );
    f.create_erc20(
        NAME.to_string(),
        SYMBOL.to_string(),
        DECIMALS,
        total_supply(),
        f.ali,
        Sender(f.ali),
    );
}

#[test]
fn an_unknown_name_reports_token_not_found() {
    let f = Deployed::deployed();
    assert_eq!(f.factory.get_erc20_hash("ERC20"), Err(Error::TokenNotFound));
}

#[test]
fn a_registered_zero_identity_is_found() {
    let mut f = Deployed::deployed();
    let caller = Key::Account(f.ali);
    let made = f.factory.create_erc20(
        &caller,
        "Z".to_string(),
        "Z".to_string(),
        0,
        total_supply(),
        f.ali,
        ContractHash::default(),
    );
    assert!(made.is_ok());
    assert_eq!(f.factory.get_erc20_hash("Z"), Ok(ContractHash::default()));
    let again = f.factory.create_erc20(
        &caller,
        "Z".to_string(),
        "Z".to_string(),
        0,
        total_supply(),
        f.ali,
        ContractHash::new([9u8; 32]),
    );
    assert_eq!(again.err(), Some(Error::AlreadyExists));
}

#[test]
fn the_new_ledger_credits_the_whole_supply_to_the_caller() {
    let mut f = Deployed::deployed();
    let caller = Key::Account(f.ali);
    let identity = ContractHash::new([7u8; 32]);
    let child = f
        .factory
        .create_erc20(
            &caller,
            NAME.to_string(),
            SYMBOL.to_string(),
            DECIMALS,
            total_supply(),
            f.bob,
            identity,
        )
        .unwrap();
    assert_eq!(child.identity, identity);
    assert_eq!(child.ledger.name().as_str(), NAME);
    assert_eq!(child.ledger.symbol().as_str(), SYMBOL);
    assert_eq!(child.ledger.decimals(), DECIMALS);
    assert_eq!(child.ledger.total_supply(), total_supply());
    assert_eq!(child.ledger.governance(), f.bob);
    assert_eq!(child.ledger.balance_of(&caller), total_supply());
    assert_eq!(child.ledger.balance_of(&Key::Account(f.bob)), U256::from_u64(0));
    assert_eq!(f.factory.get_erc20_hash(NAME), Ok(identity));
}

#[test]
fn a_second_creation_keeps_the_first_identity() {
    let mut f = Deployed::deployed();
    let caller = Key::Account(f.ali);
    let first = ContractHash::new([7u8; 32]);
    let second = ContractHash::new([8u8; 32]);
    assert!(f
        .factory
        .create_erc20(&caller, "A".to_string(), "A".to_string(), 1, total_supply(), f.ali, first)
        .is_ok());
    let again = f.factory.create_erc20(
        &caller,
        "A".to_string(),
        "B".to_string(),
        2,
        total_supply(),
        f.bob,
        second,
    );
    assert_eq!(again.err(), Some(Error::AlreadyExists));
    assert_eq!(f.factory.get_erc20_hash("A"), Ok(first));
    assert!(f
        .factory
        .create_erc20(&caller, "B".to_string(), "B".to_string(), 2, total_supply(), f.bob, second)
        .is_ok());
    assert_eq!(f.factory.get_erc20_hash("A"), Ok(first));
    assert_eq!(f.factory.get_erc20_hash("B"), Ok(second));
}

#[test]
fn an_unauthorized_creation_registers_nothing() {
    let mut f = Deployed::deployed();
    let r = f.factory.create_erc20(
        &Key::Account(f.bob),
        NAME.to_string(),
        SYMBOL.to_string(),
        DECIMALS,
        total_supply(),
        f.ali,
        ContractHash::new([7u8; 32]),
    );
    assert_eq!(r.err(), Some(Error::Unauthorized));
    assert_eq!(f.factory.get_erc20_hash(NAME), Err(Error::TokenNotFound));
}

#[test]
fn children_of_one_factory_do_not_share_balances() {
    let mut f = Deployed::deployed();
    let caller = Key::Account(f.ali);
    let mut a = f
        .factory
        .create_erc20(
            &caller,
            "A".to_string(),
            "A".to_string(),
            0,
            total_supply(),
            f.ali,
            ContractHash::new([1u8; 32]),
        )
        .unwrap();
    let b = f
        .factory
        .create_erc20(
            &caller,
            "B".to_string(),
            "B".to_string(),
            0,
            U256::from_u64(5),
            f.ali,
            ContractHash::new([2u8; 32]),
        )
        .unwrap();
    a.ledger.transfer(&caller, &Key::Account(f.bob), U256::from_u64(10)).unwrap();
    assert_eq!(a.ledger.balance_of(&caller), U256::from_u64(990));
    assert_eq!(b.ledger.balance_of(&caller), U256::from_u64(5));
    assert_eq!(b.ledger.balance_of(&Key::Account(f.bob)), U256::from_u64(0));
}

#[test]
fn registry_rules_on_plain_values() {
    let ali = account(3);
    let bob = account(6);
    let identity = ContractHash::new([7u8; 32]);
    assert_eq!(get_erc20_hash(None), Err(Error::TokenNotFound));
    assert_eq!(get_erc20_hash(Some(identity)), Ok(identity));
    assert_eq!(create_erc20(&Key::Account(bob), &ali, None), Err(Error::Unauthorized));
    assert_eq!(create_erc20(&Key::Account(bob), &ali, Some(identity)), Err(Error::Unauthorized));
    assert_eq!(create_erc20(&Key::Account(ali), &ali, Some(identity)), Err(Error::AlreadyExists));
    assert_eq!(create_erc20(&Key::Account(ali), &ali, None), Ok(()));
}
