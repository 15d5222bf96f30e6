use erc20::{AccountId, Approval, Erc20, Event, Transfer};

fn alice() -> AccountId {
    AccountId::from([0x1; 32])
}

fn bob() -> AccountId {
    AccountId::from([0x0; 32])
}

fn charlie() -> AccountId {
    AccountId::from([0x2; 32])
}

#[test]
fn new_works() {
    let contract = Erc20::new(777, alice());
    assert_eq!(contract.total_supply(), 777);
}

#[test]
fn balance_works() {
    let contract = Erc20::new(100, alice());
    assert_eq!(contract.total_supply(), 100);
    assert_eq!(contract.balance_of(AccountId::from([0x1; 32])), 100);
    assert_eq!(contract.balance_of(AccountId::from([0x0; 32])), 0);
}

#[test]
fn transfer_works() {
    let mut contract = Erc20::new(100, alice());
    assert_eq!(contract.balance_of(AccountId::from([0x1; 32])), 100);
    assert!(contract.transfer(alice(), AccountId::from([0x0; 32]), 10));
    assert_eq!(contract.balance_of(AccountId::from([0x0; 32])), 10);
    assert!(!contract.transfer(alice(), AccountId::from([0x0; 32]), 100));
}

#[test]
fn transfer_from_works() {
    let mut contract = Erc20::new(100, alice());
    assert_eq!(contract.balance_of(AccountId::from([0x1; 32])), 100);
    contract.approve(alice(), AccountId::from([0x1; 32]), 20);
    contract.transfer_from(alice(), AccountId::from([0x1; 32]), AccountId::from([0x0; 32]), 10);
    assert_eq!(contract.balance_of(AccountId::from([0x0; 32])), 10);
}

#[test]
fn allowances_works() {
    let mut contract = Erc20::new(100, alice());
    assert_eq!(contract.balance_of(AccountId::from([0x1; 32])), 100);
    contract.approve(alice(), AccountId::from([0x1; 32]), 200);
    assert_eq!(contract.allowance(AccountId::from([0x1; 32]), AccountId::from([0x1; 32])), 200);

    assert!(contract.transfer_from(alice(), AccountId::from([0x1; 32]), AccountId::from([0x0; 32]), 50));
    assert_eq!(contract.balance_of(AccountId::from([0x0; 32])), 50);
    assert_eq!(contract.allowance(AccountId::from([0x1; 32]), AccountId::from([0x1; 32])), 150);

    assert!(!contract.transfer_from(alice(), AccountId::from([0x1; 32]), AccountId::from([0x0; 32]), 100));
    assert_eq!(contract.balance_of(AccountId::from([0x0; 32])), 50);
    assert_eq!(contract.allowance(AccountId::from([0x1; 32]), AccountId::from([0x1; 32])), 150);
}

#[test]
fn construction_credits_creator_only() {
    let contract = Erc20::new(777, alice());
    assert_eq!(contract.total_supply(), 777);
    assert_eq!(contract.balance_of(alice()), 777);
    assert_eq!(contract.balance_of(bob()), 0);
    assert_eq!(contract.balance_of(charlie()), 0);
    assert_eq!(contract.allowance(alice(), bob()), 0);
    assert_eq!(
        contract.events().clone(),
        vec![Event::Transfer(Transfer { from: None, to: Some(alice()), value: 777 })]
    );
}

#[test]
fn balances_sum_to_supply_after_transfers() {
    let mut contract = Erc20::new(1000, alice());
    assert!(contract.transfer(alice(), bob(), 300));
    assert!(contract.transfer(bob(), charlie(), 120));
    assert!(contract.approve(charlie(), alice(), 50));
    assert!(contract.transfer_from(alice(), charlie(), bob(), 40));
    assert!(contract.transfer(charlie(), charlie(), 80));
    assert!(!contract.transfer(bob(), alice(), 1000));
    let sum = contract.balance_of(alice()) + contract.balance_of(bob()) + contract.balance_of(charlie());
    assert_eq!(sum, contract.total_supply());
    assert_eq!(contract.balance_of(alice()), 700);
    assert_eq!(contract.balance_of(bob()), 220);
    assert_eq!(contract.balance_of(charlie()), 80);
}

#[test]
fn self_transfer_keeps_balance() {
    let mut contract = Erc20::new(100, alice());
    assert!(contract.transfer(alice(), alice(), 60));
    assert_eq!(contract.balance_of(alice()), 100);
    assert!(contract.transfer(alice(), alice(), 100));
    assert_eq!(contract.balance_of(alice()), 100);
    assert_eq!(contract.total_supply(), 100);
}

#[test]
fn self_transfer_beyond_balance_fails() {
    let mut contract = Erc20::new(100, alice());
    assert!(!contract.transfer(alice(), alice(), 101));
    assert_eq!(contract.balance_of(alice()), 100);
}

#[test]
fn insufficient_funds_changes_nothing() {
    let mut contract = Erc20::new(100, alice());
    assert!(!contract.transfer(alice(), bob(), 101));
    assert_eq!(contract.balance_of(alice()), 100);
    assert_eq!(contract.balance_of(bob()), 0);
    assert_eq!(contract.events().len(), 1);
}

#[test]
fn transfer_of_zero_from_empty_account_succeeds() {
    let mut contract = Erc20::new(100, alice());
    assert!(contract.transfer(bob(), charlie(), 0));
    assert_eq!(contract.balance_of(bob()), 0);
    assert_eq!(contract.balance_of(charlie()), 0);
    assert!(!contract.transfer(bob(), charlie(), 1));
}

#[test]
fn approve_overwrites() {
    let mut contract = Erc20::new(100, alice());
    assert!(contract.approve(alice(), bob(), 20));
    assert_eq!(contract.allowance(alice(), bob()), 20);
    assert!(contract.approve(alice(), bob(), 5));
    assert_eq!(contract.allowance(alice(), bob()), 5);
    assert_eq!(contract.allowance(bob(), alice()), 0);
    assert_eq!(contract.balance_of(alice()), 100);
}

#[test]
fn approve_beyond_balance_is_allowed() {
    let mut contract = Erc20::new(10, alice());
    assert!(contract.approve(alice(), bob(), 1_000_000));
    assert_eq!(contract.allowance(alice(), bob()), 1_000_000);
    assert!(!contract.transfer_from(bob(), alice(), charlie(), 11));
    assert_eq!(contract.allowance(alice(), bob()), 1_000_000);
    assert_eq!(contract.balance_of(alice()), 10);
}

#[test]
fn delegated_transfer_decrements_allowance() {
    let mut contract = Erc20::new(500, alice());
    assert!(contract.approve(alice(), bob(), 200));
    assert!(contract.transfer_from(bob(), alice(), charlie(), 50));
    assert_eq!(contract.balance_of(charlie()), 50);
    assert_eq!(contract.allowance(alice(), bob()), 150);
    assert!(!contract.transfer_from(bob(), alice(), charlie(), 200));
    assert_eq!(contract.allowance(alice(), bob()), 150);
    assert_eq!(contract.balance_of(charlie()), 50);
    assert_eq!(contract.balance_of(alice()), 450);
}

#[test]
fn delegated_transfer_without_allowance_fails() {
    let mut contract = Erc20::new(500, alice());
    assert!(!contract.transfer_from(bob(), alice(), charlie(), 1));
    assert_eq!(contract.balance_of(alice()), 500);
    assert_eq!(contract.balance_of(charlie()), 0);
}

#[test]
fn direct_transfer_does_not_consume_allowance() {
    let mut contract = Erc20::new(500, alice());
    assert!(contract.approve(alice(), bob(), 70));
    assert!(contract.transfer(alice(), bob(), 100));
    assert_eq!(contract.allowance(alice(), bob()), 70);
}

#[test]
fn reads_do_not_change_state() {
    let mut contract = Erc20::new(300, alice());
    assert!(contract.approve(alice(), bob(), 30));
    for _ in 0..5 {
        assert_eq!(contract.balance_of(alice()), 300);
        assert_eq!(contract.balance_of(bob()), 0);
        assert_eq!(contract.allowance(alice(), bob()), 30);
        assert_eq!(contract.total_supply(), 300);
    }
    assert!(contract.transfer(alice(), bob(), 10));
    for _ in 0..5 {
        assert_eq!(contract.balance_of(alice()), 290);
        assert_eq!(contract.balance_of(bob()), 10);
        assert_eq!(contract.allowance(alice(), bob()), 30);
    }
}

#[test]
fn events_record_each_change() {
    let mut contract = Erc20::new(100, alice());
    assert!(contract.approve(alice(), bob(), 40));
    assert!(contract.transfer_from(bob(), alice(), charlie(), 15));
    assert!(!contract.transfer(charlie(), alice(), 16));
    assert!(contract.transfer(alice(), bob(), 5));
    let events = contract.take_events();
    assert_eq!(
        events,
        vec![
            Event::Transfer(Transfer { from: None, to: Some(alice()), value: 100 }),
            Event::Approval(Approval { owner: alice(), spender: bob(), value: 40 }),
            Event::Transfer(Transfer { from: Some(alice()), to: Some(charlie()), value: 15 }),
            Event::Transfer(Transfer { from: Some(alice()), to: Some(bob()), value: 5 }),
        ]
    );
    assert!(contract.events().is_empty());
    assert_eq!(contract.balance_of(alice()), 80);
}

#[test]
fn large_supply_moves_without_overflow() {
    let mut contract = Erc20::new(u128::MAX, alice());
    assert!(contract.transfer(alice(), bob(), u128::MAX - 1));
    assert!(contract.transfer(alice(), bob(), 1));
    assert_eq!(contract.balance_of(bob()), u128::MAX);
    assert_eq!(contract.balance_of(alice()), 0);
    assert!(!contract.transfer(alice(), bob(), 1));
}

#[test]
fn fresh_ledger_has_room() {
    let mut contract = Erc20::new(100, alice());
    assert!(contract.has_room());
    assert!(contract.transfer(alice(), bob(), 1));
    assert!(contract.has_room());
}

#[test]
fn accounts_compare_by_bytes() {
    let mut other = [0x1u8; 32];
    assert!(erc20::account::same_account(&alice(), &other));
    other[31] = 0x2;
    assert!(!erc20::account::same_account(&alice(), &other));
    assert!(!erc20::account::same_account(&alice(), &bob()));
}
