use invariant_clamm::address::Address;
use invariant_clamm::erc20::{Approval, Erc20, Erc20Error, Transfer};
use invariant_clamm::uint::U256;

fn u(x: u128) -> U256 {
    U256::from_u128(x)
}

fn token(owner: Address, supply: u128) -> Erc20 {
    let (token, _) = Erc20::init(owner, String::from("TKN"), String::from("Token"), 6, Some(u(supply)));
    token
}

#[test]
fn init_gives_the_supply_to_the_caller() {
    let alice = Address::account([0x01; 32]);
    let (token, event) = Erc20::init(alice, String::from("TKN"), String::from("Token"), 6, Some(u(1000)));
    assert_eq!(token.total_supply(), u(1000));
    assert_eq!(token.balance_of(&alice), u(1000));
    assert_eq!(token.name(), String::from("Token"));
    assert_eq!(token.symbol(), String::from("TKN"));
    assert_eq!(token.decimals(), 6);
    assert_eq!(event, Some(Transfer { from: None, to: Some(alice), amount: u(1000) }));
}

#[test]
fn init_without_or_with_zero_supply_announces_nothing() {
    let alice = Address::account([0x01; 32]);
    let (token, event) = Erc20::init(alice, String::from(""), String::from(""), 0, None);
    assert_eq!(token.total_supply(), u(0));
    assert_eq!(event, None);
    let (token, event) = Erc20::init(alice, String::from(""), String::from(""), 0, Some(u(0)));
    assert_eq!(token.balance_of(&alice), u(0));
    assert_eq!(event, None);
}

#[test]
fn transfer_moves_tokens() {
    let alice = Address::account([0x01; 32]);
    let bob = Address::account([0x02; 32]);
    let mut token = token(alice, 1000);
    let event = token.transfer(alice, &bob, &u(300)).unwrap();
    assert_eq!(event, Transfer { from: Some(alice), to: Some(bob), amount: u(300) });
    assert_eq!(token.balance_of(&alice), u(700));
    assert_eq!(token.balance_of(&bob), u(300));
    assert_eq!(token.total_supply(), u(1000));
}

#[test]
fn transfer_to_oneself_changes_nothing() {
    let alice = Address::account([0x01; 32]);
    let mut token = token(alice, 1000);
    token.transfer(alice, &alice, &u(400)).unwrap();
    assert_eq!(token.balance_of(&alice), u(1000));
}

#[test]
fn transfer_of_more_than_the_balance_fails() {
    let alice = Address::account([0x01; 32]);
    let bob = Address::account([0x02; 32]);
    let mut token = token(alice, 1000);
    assert_eq!(token.transfer(bob, &alice, &u(1)), Err(Erc20Error::InsufficientBalance));
    assert_eq!(token.transfer(alice, &bob, &u(1001)), Err(Erc20Error::InsufficientBalance));
    assert_eq!(token.balance_of(&alice), u(1000));
    assert_eq!(token.balance_of(&bob), u(0));
}

#[test]
fn transfer_from_spends_the_allowance() {
    let alice = Address::account([0x01; 32]);
    let bob = Address::account([0x02; 32]);
    let carol = Address::account([0x03; 32]);
    let mut token = token(alice, 1000);
    let approval = token.approve(alice, &bob, &u(500));
    assert_eq!(approval, Approval { owner: alice, spender: bob, value: u(500) });
    assert_eq!(token.allowance(&alice, &bob), u(500));

    let (approval, transfer) = token.transfer_from(bob, &alice, &carol, &u(200)).unwrap();
    assert_eq!(approval, Approval { owner: alice, spender: bob, value: u(300) });
    assert_eq!(transfer, Transfer { from: Some(alice), to: Some(carol), amount: u(200) });
    assert_eq!(token.allowance(&alice, &bob), u(300));
    assert_eq!(token.balance_of(&alice), u(800));
    assert_eq!(token.balance_of(&carol), u(200));
}

#[test]
fn transfer_from_fails_without_allowance_or_balance() {
    let alice = Address::account([0x01; 32]);
    let bob = Address::account([0x02; 32]);
    let mut token = token(alice, 100);
    assert_eq!(token.transfer_from(bob, &alice, &bob, &u(1)), Err(Erc20Error::InsufficientAllowance));
    token.approve(alice, &bob, &u(500));
    assert_eq!(token.transfer_from(bob, &alice, &bob, &u(101)), Err(Erc20Error::InsufficientBalance));
    // a failed transfer spends nothing
    assert_eq!(token.allowance(&alice, &bob), u(500));
    assert_eq!(token.balance_of(&alice), u(100));
}

#[test]
fn mint_and_burn_move_the_supply() {
    let alice = Address::account([0x01; 32]);
    let bob = Address::account([0x02; 32]);
    let mut token = token(alice, 100);
    let event = token.mint(&bob, &u(50));
    assert_eq!(event, Transfer { from: None, to: Some(bob), amount: u(50) });
    assert_eq!(token.total_supply(), u(150));
    assert_eq!(token.balance_of(&bob), u(50));
    let event = token.burn(&alice, &u(30)).unwrap();
    assert_eq!(event, Transfer { from: Some(alice), to: None, amount: u(30) });
    assert_eq!(token.total_supply(), u(120));
    assert_eq!(token.balance_of(&alice), u(70));
    assert_eq!(token.burn(&bob, &u(51)), Err(Erc20Error::InsufficientBalance));
    assert_eq!(token.total_supply(), u(120));
}

#[test]
fn error_codes() {
    assert_eq!(Erc20Error::InsufficientBalance.code(), 30_000);
    assert_eq!(Erc20Error::InsufficientAllowance.code(), 30_001);
    assert_eq!(Erc20Error::NameNotSet.code(), 30_002);
    assert_eq!(Erc20Error::SymbolNotSet.code(), 30_003);
    assert_eq!(Erc20Error::DecimalsNotSet.code(), 30_004);
}
