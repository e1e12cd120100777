//! Admin rotation, payment withdrawal, fund withdrawal, debt and the
//! pallet-admin two-step transfer.

use pallet_chainlink_feed::handle::FeedBuilder;
use pallet_chainlink_feed::mock::Test;
use pallet_chainlink_feed::types::{Error, OracleMeta};

#[test]
fn admin_transfer_should_work() {
    let mut p = Test::new_ext();
    let oracle = 1;
    let old_admin = 2;
    assert!(FeedBuilder::new()
        .min_submissions(1)
        .restart_delay(0)
        .oracles(vec![(oracle, old_admin)])
        .build_and_store(&mut p)
        .is_ok());

    let new_admin = 42;
    assert_eq!(
        p.transfer_admin(old_admin, 123, new_admin),
        Err(Error::OracleNotFound)
    );
    assert_eq!(
        p.transfer_admin(123, oracle, new_admin),
        Err(Error::NotAdmin)
    );
    assert!(p.transfer_admin(old_admin, oracle, new_admin).is_ok());
    let oracle_meta = p.oracle(oracle).expect("oracle should be present");
    assert_eq!(oracle_meta.pending_admin, Some(new_admin));
    assert_eq!(p.accept_admin(new_admin, 123), Err(Error::OracleNotFound));
    assert_eq!(p.accept_admin(123, oracle), Err(Error::NotPendingAdmin));
    assert!(p.accept_admin(new_admin, oracle).is_ok());
    let oracle_meta = p.oracle(oracle).expect("oracle should be present");
    assert_eq!(oracle_meta.pending_admin, None);
    assert_eq!(oracle_meta.admin, new_admin);
}

#[test]
fn payment_withdrawal_should_work() {
    let mut p = Test::new_ext();
    let amount = 1;
    let oracle = 3;
    let admin = 4;
    let recipient = 5;
    p.insert_oracle_meta(
        oracle,
        OracleMeta { withdrawable: amount, admin, ..Default::default() },
    );
    assert_eq!(
        p.withdraw_payment(admin, 123, recipient, amount),
        Err(Error::OracleNotFound)
    );
    assert_eq!(
        p.withdraw_payment(123, oracle, recipient, amount),
        Err(Error::NotAdmin)
    );
    assert_eq!(
        p.withdraw_payment(admin, oracle, recipient, 2 * amount),
        Err(Error::InsufficientFunds)
    );
    let fund_balance = p.fund_free;
    p.set_module_balance(1);
    assert!(p.withdraw_payment(admin, oracle, recipient, amount).is_err());
    p.set_module_balance(fund_balance);

    assert!(p.withdraw_payment(admin, oracle, recipient, amount).is_ok());
}

#[test]
fn funds_withdrawal_should_work() {
    let mut p = Test::new_ext();
    let amount = 50;
    let recipient = 5;
    let fund = Test::module_account();
    assert_eq!(
        p.withdraw_funds(123, recipient, amount),
        Err(Error::NotPalletAdmin)
    );
    assert_eq!(
        p.withdraw_funds(fund, recipient, 101 * 100),
        Err(Error::InsufficientFunds)
    );
    assert_eq!(
        p.withdraw_funds(fund, recipient, 100 * 100),
        Err(Error::InsufficientReserve)
    );
    assert!(p.withdraw_funds(fund, recipient, amount).is_ok());
}

#[test]
fn transfer_pallet_admin_should_work() {
    let mut p = Test::new_ext();
    let new_admin = 23;
    let fund = Test::module_account();
    assert_eq!(
        p.transfer_pallet_admin(123, new_admin),
        Err(Error::NotPalletAdmin)
    );
    assert!(p.transfer_pallet_admin(fund, new_admin).is_ok());
    assert_eq!(p.pending_pallet_admin, Some(new_admin));
    assert_eq!(p.accept_pallet_admin(123), Err(Error::NotPendingPalletAdmin));
    assert!(p.accept_pallet_admin(new_admin).is_ok());
    assert_eq!(p.pallet_admin, new_admin);
    assert_eq!(p.pending_pallet_admin, None);
}

#[test]
fn can_go_into_debt_and_repay() {
    let mut p = Test::new_ext();
    let admin = Test::module_account();
    let owner = 1;
    let oracle = 2;
    let payment = 33;
    assert!(FeedBuilder::new()
        .payment(payment)
        .owner(owner)
        .oracles(vec![(oracle, 3), (3, 3)])
        .build_and_store(&mut p)
        .is_ok());
    assert_eq!(p.debt, 0);
    // ensure the fund is out of tokens
    p.set_module_balance(1);
    assert!(p.submit(oracle, 0, 1, 42).is_ok());
    assert_eq!(p.debt, payment);
    let new_funds = 2 * payment;
    p.set_module_balance(new_funds);
    // it is possible to reduce the debt partially
    assert!(p.reduce_debt(admin, 10).is_ok());
    assert_eq!(p.fund_free, new_funds - 10);
    assert_eq!(p.debt, payment - 10);
    // it is possible to overshoot in passing the amount correcting debt...
    assert!(p.reduce_debt(42, payment).is_ok());
    // ... but it will only correct the debt
    assert_eq!(p.fund_free, new_funds - payment);
    assert_eq!(p.debt, 0);
}
