use fangorn::contract::erc20::{Address, TokenEvent, ERC20};
use fangorn::uint256::U256;

const ZERO: Address = [0u8; 20];
const ALICE: Address = [1u8; 20];
const BOB: Address = [2u8; 20];
const CAROL: Address = [3u8; 20];

fn amount(n: u128) -> U256 {
    U256::from_u128(n)
}

fn minted(n: u128) -> ERC20 {
    let mut token = ERC20::new();
    assert_eq!(token.mint(ALICE, amount(n)), Ok(()));
    token
}

#[test]
fn a_new_token_is_empty() {
    let token = ERC20::new();
    assert_eq!(token.total_supply(), amount(0));
    assert_eq!(token.balance_of(ALICE), amount(0));
    assert_eq!(token.allowance(ALICE, BOB), amount(0));
    assert!(token.log.is_empty());
}

#[test]
fn mint_makes_tokens() {
    let token = minted(100);
    assert_eq!(token.total_supply(), amount(100));
    assert_eq!(token.balance_of(ALICE), amount(100));
    assert!(matches!(
        token.log[0],
        TokenEvent::Transfer { from: ZERO, to: ALICE, value } if value == amount(100)
    ));
}

#[test]
fn mint_refuses_the_zero_address() {
    let mut token = ERC20::new();
    assert_eq!(token.mint(ZERO, amount(1)), Err(b"ZeroAddress".to_vec()));
    assert_eq!(token.total_supply(), amount(0));
    assert!(token.log.is_empty());
}

#[test]
fn mint_wraps_around() {
    let mut token = ERC20::new();
    assert_eq!(token.mint(ALICE, U256::max()), Ok(()));
    assert_eq!(token.mint(ALICE, amount(3)), Ok(()));
    assert_eq!(token.total_supply(), amount(2));
    assert_eq!(token.balance_of(ALICE), amount(2));
}

#[test]
fn transfer_moves_value() {
    let mut token = minted(100);
    assert_eq!(token.transfer(ALICE, BOB, amount(30)), Ok(true));
    assert_eq!(token.balance_of(ALICE), amount(70));
    assert_eq!(token.balance_of(BOB), amount(30));
    assert_eq!(token.balance_of(CAROL), amount(0));
    assert_eq!(token.total_supply(), amount(100));
    assert_eq!(token.log.len(), 2);
    assert!(matches!(
        token.log[1],
        TokenEvent::Transfer { from: ALICE, to: BOB, value } if value == amount(30)
    ));
}

#[test]
fn transfer_to_oneself_changes_nothing() {
    let mut token = minted(100);
    assert_eq!(token.transfer(ALICE, ALICE, amount(60)), Ok(true));
    assert_eq!(token.balance_of(ALICE), amount(100));
}

#[test]
fn transfer_is_refused() {
    let mut token = minted(100);
    assert_eq!(token.transfer(ALICE, ZERO, amount(1)), Err(b"ZeroAddress".to_vec()));
    assert_eq!(
        token.transfer(ALICE, BOB, amount(101)),
        Err(b"InsufficientBalance".to_vec())
    );
    // the zero address is refused first
    assert_eq!(token.transfer(ALICE, ZERO, amount(101)), Err(b"ZeroAddress".to_vec()));
    assert_eq!(token.balance_of(ALICE), amount(100));
    assert_eq!(token.log.len(), 1);
}

#[test]
fn approve_sets_one_allowance() {
    let mut token = minted(100);
    assert_eq!(token.approve(ALICE, BOB, amount(40)), Ok(true));
    assert_eq!(token.allowance(ALICE, BOB), amount(40));
    assert_eq!(token.allowance(BOB, ALICE), amount(0));
    assert_eq!(token.allowance(ALICE, CAROL), amount(0));
    assert_eq!(token.approve(ALICE, BOB, amount(7)), Ok(true));
    assert_eq!(token.allowance(ALICE, BOB), amount(7));
    assert_eq!(token.approve(ALICE, ZERO, amount(7)), Err(b"ZeroAddress".to_vec()));
    assert!(matches!(
        token.log[2],
        TokenEvent::Approval { owner: ALICE, spender: BOB, value } if value == amount(7)
    ));
}

#[test]
fn allowance_is_a_budget() {
    let mut token = minted(100);
    assert_eq!(token.approve(ALICE, BOB, amount(40)), Ok(true));
    assert_eq!(token.transfer_from(BOB, ALICE, CAROL, amount(25)), Ok(true));
    assert_eq!(token.allowance(ALICE, BOB), amount(15));
    assert_eq!(token.balance_of(CAROL), amount(25));
    assert_eq!(
        token.transfer_from(BOB, ALICE, CAROL, amount(16)),
        Err(b"InsufficientAllowance".to_vec())
    );
    assert_eq!(token.transfer_from(BOB, ALICE, CAROL, amount(15)), Ok(true));
    assert_eq!(token.allowance(ALICE, BOB), amount(0));
    assert_eq!(token.balance_of(ALICE), amount(60));
}

#[test]
fn largest_allowance_is_without_limit() {
    let mut token = minted(100);
    assert_eq!(token.approve(ALICE, BOB, U256::max()), Ok(true));
    assert_eq!(token.transfer_from(BOB, ALICE, CAROL, amount(100)), Ok(true));
    assert_eq!(token.allowance(ALICE, BOB), U256::max());
}

#[test]
fn refused_transfer_from_reports_why() {
    let mut token = minted(10);
    assert_eq!(token.approve(ALICE, BOB, amount(50)), Ok(true));
    assert_eq!(
        token.transfer_from(BOB, ALICE, CAROL, amount(20)),
        Err(b"InsufficientBalance".to_vec())
    );
    assert_eq!(
        token.transfer_from(BOB, ALICE, ZERO, amount(1)),
        Err(b"ZeroAddress".to_vec())
    );
}

#[test]
fn balances_add_up_to_the_supply() {
    let mut token = minted(100);
    assert_eq!(token.mint(BOB, amount(50)), Ok(()));
    assert_eq!(token.transfer(ALICE, CAROL, amount(10)), Ok(true));
    assert_eq!(token.transfer(BOB, CAROL, amount(50)), Ok(true));
    let sum = token
        .balance_of(ALICE)
        .wrapping_add(token.balance_of(BOB))
        .wrapping_add(token.balance_of(CAROL));
    assert_eq!(sum, token.total_supply());
    assert_eq!(sum, amount(150));
    assert_eq!(token.balance_of(ZERO), amount(0));
}

#[test]
fn wide_numbers_carry() {
    let top = U256 { hi: 0, lo: u128::MAX };
    assert_eq!(top.wrapping_add(amount(1)), U256 { hi: 1, lo: 0 });
    assert_eq!(U256 { hi: 1, lo: 0 }.minus(amount(1)), top);
    assert!(top.less_than(U256 { hi: 1, lo: 0 }));
    assert!(!U256 { hi: 1, lo: 0 }.less_than(top));
    assert!(U256::max().equals(U256 { hi: u128::MAX, lo: u128::MAX }));
    assert_eq!(U256::max().wrapping_add(amount(1)), U256::zero());
}
