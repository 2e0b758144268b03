use erc20::Erc20;
use erc20::Error;
use erc20::Event;

const ALICE: u64 = 1;
const BOB: u64 = 2;
const CHARLIE: u64 = 3;

#[test]
fn constructor_works() {
    let erc20 = Erc20::new(ALICE, 1000);
    assert_eq!(erc20.total_supply(), 1000);
    assert_eq!(erc20.balance_of(ALICE), 1000);

    let emitted_events = erc20.events();
    assert_eq!(emitted_events.len(), 1);
    match emitted_events[0] {
        Event::Transfer(transfer) => {
            assert!(transfer.from.is_none(), "mint from error");
            assert_eq!(transfer.to, Some(ALICE));
            assert_eq!(transfer.value, 1000);
        }
        _ => panic!("Expecting a Transfer event"),
    }
}

#[test]
fn transfer_should_work() {
    let mut erc20 = Erc20::new(ALICE, 1000);
    let res = erc20.transfer(ALICE, BOB, 12);
    assert_eq!(res, Ok(()));
    assert_eq!(erc20.balance_of(ALICE), 1000 - 12);
    assert_eq!(erc20.balance_of(BOB), 12);
}

#[test]
fn invalid_transfer_should_fail() {
    let mut erc20 = Erc20::new(ALICE, 1000);
    let res = erc20.transfer(BOB, CHARLIE, 12);
    assert_eq!(res, Err(Error::BalanceTooLow));
    assert_eq!(erc20.balance_of(BOB), 0);
    assert_eq!(erc20.balance_of(CHARLIE), 0);
}

#[test]
fn e2e_transfer() {
    let total_supply = 1000;
    let mut erc20 = Erc20::new(ALICE, total_supply);
    let res = erc20.transfer(ALICE, BOB, 2);
    assert_eq!(res, Ok(()));
    assert_eq!(erc20.balance_of(ALICE), 998);
}

#[test]
fn transfer_emits_event() {
    let mut erc20 = Erc20::new(ALICE, 1000);
    erc20.transfer(ALICE, BOB, 12).unwrap();
    let emitted_events = erc20.events();
    assert_eq!(emitted_events.len(), 2);
    match emitted_events[1] {
        Event::Transfer(transfer) => {
            assert_eq!(transfer.from, Some(ALICE));
            assert_eq!(transfer.to, Some(BOB));
            assert_eq!(transfer.value, 12);
        }
        _ => panic!("Expecting a Transfer event"),
    }
}

#[test]
fn queries_are_idempotent() {
    let mut erc20 = Erc20::new(ALICE, 1000);
    erc20.transfer(ALICE, BOB, 7).unwrap();
    assert_eq!(erc20.total_supply(), erc20.total_supply());
    assert_eq!(erc20.balance_of(ALICE), erc20.balance_of(ALICE));
    assert_eq!(erc20.balance_of(BOB), erc20.balance_of(BOB));
    assert_eq!(erc20.allowance(ALICE, BOB), erc20.allowance(ALICE, BOB));
}

#[test]
fn failed_transfer_changes_nothing() {
    let mut erc20 = Erc20::new(ALICE, 1000);
    erc20.approve(ALICE, BOB, 10).unwrap();
    let events_before = erc20.events().len();

    assert_eq!(erc20.transfer(BOB, CHARLIE, 12), Err(Error::BalanceTooLow));
    assert_eq!(
        erc20.transfer_from(BOB, ALICE, CHARLIE, 20),
        Err(Error::AllowanceTooLow)
    );
    assert_eq!(
        erc20.transfer_from(BOB, ALICE, CHARLIE, 10),
        Ok(())
    );
    // Drain Bob's allowance, then exceed Alice's balance via a huge approval.
    erc20.approve(ALICE, BOB, u128::MAX).unwrap();
    assert_eq!(
        erc20.transfer_from(BOB, ALICE, CHARLIE, 991),
        Err(Error::BalanceTooLow)
    );

    assert_eq!(erc20.total_supply(), 1000);
    assert_eq!(erc20.balance_of(ALICE), 990);
    assert_eq!(erc20.balance_of(BOB), 0);
    assert_eq!(erc20.balance_of(CHARLIE), 10);
    assert_eq!(erc20.allowance(ALICE, BOB), u128::MAX);
    // Only the two successful mutations emitted events on top of the earlier
    // log: failures leave the event log untouched too.
    assert_eq!(erc20.events().len(), events_before + 2);
}

#[test]
fn approve_then_transfer_from_works() {
    let mut erc20 = Erc20::new(ALICE, 1000);
    assert_eq!(erc20.approve(ALICE, BOB, 50), Ok(()));
    assert_eq!(erc20.allowance(ALICE, BOB), 50);
    assert_eq!(erc20.transfer_from(BOB, ALICE, CHARLIE, 20), Ok(()));
    assert_eq!(erc20.allowance(ALICE, BOB), 30);
    assert_eq!(erc20.balance_of(ALICE), 980);
    assert_eq!(erc20.balance_of(CHARLIE), 20);
}

#[test]
fn transfer_from_beyond_allowance_fails() {
    let mut erc20 = Erc20::new(ALICE, 1000);
    erc20.approve(ALICE, BOB, 10).unwrap();
    let res = erc20.transfer_from(BOB, ALICE, CHARLIE, 20);
    assert_eq!(res, Err(Error::AllowanceTooLow));
    assert_eq!(erc20.allowance(ALICE, BOB), 10);
    assert_eq!(erc20.balance_of(ALICE), 1000);
    assert_eq!(erc20.balance_of(CHARLIE), 0);
}

#[test]
fn self_transfer_keeps_balance() {
    let mut erc20 = Erc20::new(ALICE, 1000);
    assert_eq!(erc20.transfer(ALICE, ALICE, 5), Ok(()));
    assert_eq!(erc20.balance_of(ALICE), 1000);
    let emitted_events = erc20.events();
    assert_eq!(emitted_events.len(), 2);
    match emitted_events[1] {
        Event::Transfer(transfer) => {
            assert_eq!(transfer.from, Some(ALICE));
            assert_eq!(transfer.to, Some(ALICE));
            assert_eq!(transfer.value, 5);
        }
        _ => panic!("Expecting a Transfer event"),
    }
}

#[test]
fn approve_overwrites_and_emits() {
    let mut erc20 = Erc20::new(ALICE, 1000);
    // An allowance may exceed the owner's balance: it is a ceiling, not a
    // reservation.
    erc20.approve(ALICE, BOB, 5000).unwrap();
    assert_eq!(erc20.allowance(ALICE, BOB), 5000);
    erc20.approve(ALICE, BOB, 3).unwrap();
    assert_eq!(erc20.allowance(ALICE, BOB), 3);
    // Allowances are per ordered pair.
    assert_eq!(erc20.allowance(BOB, ALICE), 0);
    assert_eq!(erc20.allowance(ALICE, CHARLIE), 0);

    let emitted_events = erc20.events();
    assert_eq!(emitted_events.len(), 3);
    match emitted_events[1] {
        Event::Approval(approval) => {
            assert_eq!(approval.from, ALICE);
            assert_eq!(approval.to, BOB);
            assert_eq!(approval.value, 5000);
        }
        _ => panic!("Expecting an Approval event"),
    }
}

#[test]
fn zero_supply_ledger_is_valid() {
    let mut erc20 = Erc20::new(ALICE, 0);
    assert_eq!(erc20.total_supply(), 0);
    assert_eq!(erc20.balance_of(ALICE), 0);
    // A transfer of 0 units from an empty balance still succeeds.
    assert_eq!(erc20.transfer(ALICE, BOB, 0), Ok(()));
    assert_eq!(erc20.transfer(ALICE, BOB, 1), Err(Error::BalanceTooLow));
}

#[test]
fn whole_balance_can_move() {
    let mut erc20 = Erc20::new(ALICE, u128::MAX);
    assert_eq!(erc20.transfer(ALICE, BOB, u128::MAX), Ok(()));
    assert_eq!(erc20.balance_of(ALICE), 0);
    assert_eq!(erc20.balance_of(BOB), u128::MAX);
    assert_eq!(erc20.total_supply(), u128::MAX);
}
