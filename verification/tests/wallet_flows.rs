use token_wallet::errors::{FlowStart, RemoteOutcome, WalletError};
use token_wallet::identity::Identity;
use token_wallet::wallet::Wallet;

fn ident(tag: u8) -> Identity {
    Identity::from_bytes(vec![tag, 0x2a, tag])
}

#[test]
fn fresh_identity_has_zero_balance() {
    let w = Wallet::new();
    assert_eq!(w.get_balance(&ident(1)), 0);
    assert_eq!(w.get_balance(&ident(2)), 0);
}

#[test]
fn successful_deposit_credits_exactly_the_amount() {
    let mut w = Wallet::new();
    let a = ident(1);
    assert_eq!(w.begin_deposit(&a), FlowStart::Proceed);
    let r = w.settle_deposit::<u64>(&a, 100, RemoteOutcome::Transferred(7));
    match r {
        Ok(index) => assert_eq!(index, 7),
        Err(_) => panic!("confirmed deposit must return the transfer index"),
    }
    assert_eq!(w.get_balance(&a), 100);

    assert_eq!(w.begin_deposit(&a), FlowStart::Proceed);
    let r = w.settle_deposit::<u64>(&a, 25, RemoteOutcome::Transferred(8));
    assert!(r.is_ok());
    assert_eq!(w.get_balance(&a), 125);
}

#[test]
fn rejected_deposit_changes_nothing_and_reports_the_rejection() {
    let mut w = Wallet::new();
    let a = ident(1);
    assert_eq!(w.begin_deposit(&a), FlowStart::Proceed);
    let r = w.settle_deposit::<u64>(&a, 100, RemoteOutcome::Rejected("declined".to_string()));
    match r {
        Err(WalletError::LedgerRejected(reason)) => assert_eq!(reason, "declined"),
        _ => panic!("a rejected pull must surface LedgerRejected"),
    }
    assert_eq!(w.get_balance(&a), 0);
}

#[test]
fn unreachable_deposit_changes_nothing_and_reports_the_failure() {
    let mut w = Wallet::new();
    let a = ident(1);
    assert_eq!(w.begin_deposit(&a), FlowStart::Proceed);
    let r = w.settle_deposit::<u64>(&a, 100, RemoteOutcome::Unreachable("no route".to_string()));
    match r {
        Err(WalletError::CallUnreachable(reason)) => assert_eq!(reason, "no route"),
        _ => panic!("an undelivered pull must surface CallUnreachable"),
    }
    assert_eq!(w.get_balance(&a), 0);
}

#[test]
fn overdraw_is_refused_before_any_remote_call() {
    let mut w = Wallet::new();
    let a = ident(1);
    assert_eq!(w.begin_deposit(&a), FlowStart::Proceed);
    let _ = w.settle_deposit::<u64>(&a, 40, RemoteOutcome::Transferred(1));

    // The opening step refuses: the flow never reaches the remote call, so
    // there is no outcome to settle and the slot stays free.
    assert_eq!(w.begin_send(&a, 41), FlowStart::Insufficient);
    assert_eq!(w.get_balance(&a), 40);
    assert_eq!(w.begin_send(&a, 40), FlowStart::Proceed);
}

#[test]
fn successful_withdrawal_debits_exactly_the_amount() {
    let mut w = Wallet::new();
    let a = ident(1);
    let b = ident(9);
    assert_eq!(w.begin_deposit(&a), FlowStart::Proceed);
    let _ = w.settle_deposit::<u64>(&a, 100, RemoteOutcome::Transferred(1));

    assert_eq!(w.begin_send(&a, 30), FlowStart::Proceed);
    let r = w.settle_send::<u64>(&a, 30, RemoteOutcome::Transferred(2));
    match r {
        Ok(index) => assert_eq!(index, 2),
        Err(_) => panic!("confirmed withdrawal must return the transfer index"),
    }
    assert_eq!(w.get_balance(&a), 70);
    // The destination's local balance is not touched: the tokens left custody.
    assert_eq!(w.get_balance(&b), 0);
}

#[test]
fn failed_withdrawal_leaves_the_balance_unchanged() {
    let mut w = Wallet::new();
    let a = ident(1);
    assert_eq!(w.begin_deposit(&a), FlowStart::Proceed);
    let _ = w.settle_deposit::<u64>(&a, 100, RemoteOutcome::Transferred(1));

    assert_eq!(w.begin_send(&a, 60), FlowStart::Proceed);
    let r = w.settle_send::<u64>(&a, 60, RemoteOutcome::Rejected("frozen".to_string()));
    assert!(matches!(r, Err(WalletError::LedgerRejected(_))));
    assert_eq!(w.get_balance(&a), 100);

    assert_eq!(w.begin_send(&a, 60), FlowStart::Proceed);
    let r = w.settle_send::<u64>(&a, 60, RemoteOutcome::Unreachable("timeout".to_string()));
    assert!(matches!(r, Err(WalletError::CallUnreachable(_))));
    assert_eq!(w.get_balance(&a), 100);
}

#[test]
fn deposit_then_withdrawal_round_trip() {
    let mut w = Wallet::new();
    let a = ident(1);
    let d: u64 = 1_000_000;
    let wd: u64 = 999_999;
    assert_eq!(w.begin_deposit(&a), FlowStart::Proceed);
    let _ = w.settle_deposit::<u64>(&a, d, RemoteOutcome::Transferred(1));
    assert_eq!(w.begin_send(&a, wd), FlowStart::Proceed);
    let _ = w.settle_send::<u64>(&a, wd, RemoteOutcome::Transferred(2));
    assert_eq!(w.get_balance(&a), d - wd);
}

#[test]
fn overlapping_withdrawals_cannot_both_pass() {
    // Starting balance 50; two withdrawals of 30 each fit individually but
    // not together. The in-flight slot serializes them: while the first is
    // between its opening and settling steps the second is answered Busy,
    // and once the first settles the second fails the balance check.
    let mut w = Wallet::new();
    let a = ident(1);
    assert_eq!(w.begin_deposit(&a), FlowStart::Proceed);
    let _ = w.settle_deposit::<u64>(&a, 50, RemoteOutcome::Transferred(1));

    assert_eq!(w.begin_send(&a, 30), FlowStart::Proceed);
    assert_eq!(w.begin_send(&a, 30), FlowStart::Busy);
    let r = w.settle_send::<u64>(&a, 30, RemoteOutcome::Transferred(2));
    assert!(r.is_ok());
    assert_eq!(w.begin_send(&a, 30), FlowStart::Insufficient);
    assert_eq!(w.get_balance(&a), 20);
}

#[test]
fn in_flight_slot_blocks_only_its_own_identity() {
    let mut w = Wallet::new();
    let a = ident(1);
    let b = ident(2);
    assert_eq!(w.begin_deposit(&a), FlowStart::Proceed);
    // Another flow for the same identity must wait; other identities proceed.
    assert_eq!(w.begin_deposit(&a), FlowStart::Busy);
    assert_eq!(w.begin_send(&a, 0), FlowStart::Busy);
    assert_eq!(w.begin_deposit(&b), FlowStart::Proceed);
    let _ = w.settle_deposit::<u64>(&b, 5, RemoteOutcome::Transferred(1));
    let _ = w.settle_deposit::<u64>(&a, 9, RemoteOutcome::Transferred(2));
    assert_eq!(w.get_balance(&a), 9);
    assert_eq!(w.get_balance(&b), 5);
    // Settling freed both slots.
    assert_eq!(w.begin_deposit(&a), FlowStart::Proceed);
}

#[test]
fn example_scenario() {
    // Starting balance 0; deposit(100) succeeds; send(30) succeeds;
    // send(1000) is refused for insufficient balance and changes nothing.
    let mut w = Wallet::new();
    let caller = ident(1);
    let other = ident(2);

    assert_eq!(w.get_balance(&caller), 0);

    assert_eq!(w.begin_deposit(&caller), FlowStart::Proceed);
    let r = w.settle_deposit::<u64>(&caller, 100, RemoteOutcome::Transferred(11));
    assert!(r.is_ok());
    assert_eq!(w.get_balance(&caller), 100);

    assert_eq!(w.begin_send(&caller, 30), FlowStart::Proceed);
    let r = w.settle_send::<u64>(&caller, 30, RemoteOutcome::Transferred(12));
    assert!(r.is_ok());
    assert_eq!(w.get_balance(&caller), 70);

    assert_eq!(w.begin_send(&caller, 1000), FlowStart::Insufficient);
    assert_eq!(w.get_balance(&caller), 70);
    assert_eq!(w.get_balance(&other), 0);
}
