//! Tests of the credit-scored loan ledger.

use passkey_account::loan_contract::LoanContract;
use passkey_account::loan_types::{Address, LoanError};

fn setup() -> (LoanContract, Address, Address, Address) {
    let mut contract = LoanContract::new();
    let admin = Address { id: 1 };
    let token = Address { id: 2 };
    let pool = Address { id: 3 };
    contract.initialize(admin, token, pool, 700).unwrap();
    (contract, admin, token, pool)
}

#[test]
fn loan_contract_test_initialize_success() {
    let (contract, _, _, _) = setup();
    let balance = contract.get_pool_balance();
    assert_eq!(balance, 0);
}

#[test]
fn loan_contract_test_transfer_loan_success() {
    let (mut contract, admin, _, _) = setup();
    let recipient = Address { id: 4 };

    contract.deposit_to_pool(admin, 10_000_000_000).unwrap();

    let amount = 5_000_000_000; // 500 USDC (with 7 decimals)
    let credit_score = 750;

    let result = contract.transfer_loan(recipient, amount, credit_score, 0).unwrap();
    assert!(result.success);
    assert_eq!(result.amount, amount);

    let balance = contract.get_pool_balance();
    assert_eq!(balance, 5_000_000_000);
}

#[test]
fn loan_contract_test_transfer_loan_insufficient_score() {
    let (mut contract, admin, _, _) = setup();
    let recipient = Address { id: 4 };

    contract.deposit_to_pool(admin, 10_000_000_000).unwrap();

    let amount = 5_000_000_000;
    let credit_score = 650;

    assert_eq!(
        contract.transfer_loan(recipient, amount, credit_score, 0),
        Err(LoanError::InsufficientCreditScore)
    );
}

#[test]
fn loan_contract_test_get_loan_history() {
    let (mut contract, admin, _, _) = setup();
    let user = Address { id: 4 };

    let history = contract.get_loan_history(user);
    assert_eq!(history.len(), 0);

    contract.deposit_to_pool(admin, 10_000_000_000).unwrap();
    contract.transfer_loan(user, 5_000_000_000, 750, 0).unwrap();

    let history = contract.get_loan_history(user);
    assert_eq!(history.len(), 1);
}

#[test]
fn loan_contract_test_deposit_to_pool() {
    let (mut contract, admin, _, _) = setup();

    let amount = 100_000_000_000;
    let new_balance = contract.deposit_to_pool(admin, amount).unwrap();
    assert_eq!(new_balance, amount);
}

#[test]
fn loan_contract_test_check_eligibility() {
    let (mut contract, admin, _, _) = setup();
    let user = Address { id: 4 };

    contract.deposit_to_pool(admin, 10_000_000_000).unwrap();

    let amount = 5_000_000_000;

    let eligible = contract.check_eligibility(user, amount, 750, 0);
    assert!(eligible);

    let not_eligible = contract.check_eligibility(user, amount, 650, 0);
    assert!(!not_eligible);
}

#[test]
fn loan_contract_test_duplicate_loan_prevention() {
    let (mut contract, admin, _, _) = setup();
    let recipient = Address { id: 4 };

    contract.deposit_to_pool(admin, 20_000_000_000).unwrap();

    let amount = 5_000_000_000;
    let credit_score = 750;

    let result1 = contract.transfer_loan(recipient, amount, credit_score, 0).unwrap();
    assert!(result1.success);

    assert_eq!(
        contract.transfer_loan(recipient, amount, credit_score, 0),
        Err(LoanError::DuplicateLoan)
    );
}

#[test]
fn duplicate_loan_window_expires_after_a_day() {
    let (mut contract, admin, _, _) = setup();
    let recipient = Address { id: 4 };
    contract.deposit_to_pool(admin, 20_000_000_000).unwrap();

    contract.transfer_loan(recipient, 5_000_000_000, 750, 1_000).unwrap();
    // within 24 hours: rejected
    assert_eq!(
        contract.transfer_loan(recipient, 5_000_000_000, 750, 1_000 + 86_399),
        Err(LoanError::DuplicateLoan)
    );
    // at exactly 24 hours: allowed again
    let r = contract.transfer_loan(recipient, 5_000_000_000, 750, 1_000 + 86_400).unwrap();
    assert!(r.success);
    assert_eq!(contract.get_loan_history(recipient).len(), 2);
}

#[test]
fn initialize_rejects_bad_minimum_and_double_init() {
    let mut contract = LoanContract::new();
    let admin = Address { id: 1 };
    let token = Address { id: 2 };
    let pool = Address { id: 3 };
    assert_eq!(
        contract.initialize(admin, token, pool, 499),
        Err(LoanError::InvalidAmount)
    );
    assert_eq!(
        contract.initialize(admin, token, pool, 851),
        Err(LoanError::InvalidAmount)
    );
    contract.initialize(admin, token, pool, 700).unwrap();
    assert_eq!(
        contract.initialize(admin, token, pool, 700),
        Err(LoanError::AlreadyInitialized)
    );
}

#[test]
fn pool_errors_and_authorization() {
    let mut contract = LoanContract::new();
    let admin = Address { id: 1 };
    let stranger = Address { id: 9 };

    // nothing works before initialization
    assert_eq!(
        contract.deposit_to_pool(admin, 100),
        Err(LoanError::NotInitialized)
    );
    assert_eq!(
        contract.transfer_loan(stranger, 100, 800, 0),
        Err(LoanError::NotInitialized)
    );
    assert!(!contract.check_eligibility(stranger, 100, 800, 0));

    contract.initialize(admin, Address { id: 2 }, Address { id: 3 }, 700).unwrap();

    // only the admin funds the pool, and only with positive amounts
    assert_eq!(
        contract.deposit_to_pool(stranger, 100),
        Err(LoanError::Unauthorized)
    );
    assert_eq!(contract.deposit_to_pool(admin, 0), Err(LoanError::InvalidAmount));
    assert_eq!(contract.deposit_to_pool(admin, -5), Err(LoanError::InvalidAmount));

    // loan checks: amount and pool funds
    contract.deposit_to_pool(admin, 1_000).unwrap();
    assert_eq!(
        contract.transfer_loan(stranger, 0, 800, 0),
        Err(LoanError::InvalidAmount)
    );
    assert_eq!(
        contract.transfer_loan(stranger, 2_000, 800, 0),
        Err(LoanError::InsufficientPoolFunds)
    );
    assert_eq!(contract.get_pool_balance(), 1_000);
}

#[test]
fn history_keeps_per_user_order() {
    let (mut contract, admin, _, _) = setup();
    let alice = Address { id: 10 };
    let bob = Address { id: 11 };
    contract.deposit_to_pool(admin, 10_000).unwrap();

    contract.transfer_loan(alice, 100, 750, 0).unwrap();
    contract.transfer_loan(bob, 200, 760, 10).unwrap();
    contract.transfer_loan(alice, 300, 770, 100_000).unwrap();

    let alice_history = contract.get_loan_history(alice);
    assert_eq!(alice_history.len(), 2);
    assert_eq!(alice_history[0].amount, 100);
    assert_eq!(alice_history[1].amount, 300);
    assert_eq!(alice_history[1].credit_score, 770);
    assert_eq!(alice_history[1].timestamp, 100_000);

    let bob_history = contract.get_loan_history(bob);
    assert_eq!(bob_history.len(), 1);
    assert_eq!(bob_history[0].recipient, bob);
}
