use debt_registry::{
    apply_payment, new_debt, override_status, record_payment, DataKey, DebtError, DebtInfo,
    DebtRegistry, LedgerEvent, PaymentRecord, PaymentStep, Status,
};

fn s(text: &str) -> String {
    text.to_string()
}

#[test]
fn test_register_debt() {
    let mut reg = DebtRegistry::new();
    let result = reg.register_debt(1, 1, s("GCUSTOMER"), 150000);
    assert_eq!(result.debt_id, 1);
    assert_eq!(result.total_amount, 150000);
    assert_eq!(result.paid_amount, 0);
}

#[test]
fn test_register_payment() {
    let mut reg = DebtRegistry::new();
    reg.register_debt(1, 1, s("GCUSTOMER"), 150000);
    reg.register_payment(1, 50000, s("cash"), 0).unwrap();
    let debt = reg.get_debt(1).unwrap();
    assert_eq!(debt.paid_amount, 50000);
    assert_eq!(debt.status, Status::Partial);
}

#[test]
fn registered_debt_is_pending_with_nothing_paid() {
    let mut reg = DebtRegistry::new();
    let d = reg.register_debt(7, 3, s("GCUST"), 500);
    assert_eq!(
        d,
        DebtInfo {
            debt_id: 7,
            site_id: 3,
            customer: s("GCUST"),
            total_amount: 500,
            paid_amount: 0,
            status: Status::Pending,
        }
    );
    assert_eq!(reg.get_debt(7).unwrap(), d);
    assert_eq!(reg.get_payments(7), 0);
}

#[test]
fn payments_settle_a_debt_step_by_step() {
    let mut reg = DebtRegistry::new();
    let d = reg.register_debt(1, 1, s("GCUST"), 150000);
    assert_eq!(d.paid_amount, 0);
    assert_eq!(d.status, Status::Pending);
    assert_eq!(reg.register_payment(1, 50000, s("cash"), 10), Ok(true));
    let d = reg.get_debt(1).unwrap();
    assert_eq!(d.paid_amount, 50000);
    assert_eq!(d.status, Status::Partial);
    assert_eq!(reg.register_payment(1, 100000, s("transfer"), 20), Ok(true));
    let d = reg.get_debt(1).unwrap();
    assert_eq!(d.paid_amount, 150000);
    assert_eq!(d.status, Status::Paid);
    assert_eq!(reg.get_payments(1), 2);
}

#[test]
fn cancelled_debt_keeps_its_balance() {
    let mut reg = DebtRegistry::new();
    reg.register_debt(2, 1, s("GCUST"), 100);
    assert_eq!(reg.update_status(2, Status::from_tag("cancelled")), Ok(true));
    let d = reg.get_debt(2).unwrap();
    assert_eq!(d.status, Status::Cancelled);
    assert_eq!(d.status.tag(), s("cancelled"));
    assert_eq!(d.paid_amount, 0);
    assert_eq!(d.total_amount, 100);
}

#[test]
fn payment_on_unknown_debt_changes_nothing() {
    let mut reg = DebtRegistry::new();
    reg.register_debt(1, 1, s("GCUST"), 100);
    reg.take_events();
    assert_eq!(reg.register_payment(9, 10, s("cash"), 1), Err(DebtError::NotFound));
    assert_eq!(reg.get_payments(9), 0);
    assert!(!reg.contains(DataKey::Debt(9)));
    assert!(!reg.contains(DataKey::PaymentCount(9)));
    assert!(!reg.contains(DataKey::Payment(9, 0)));
    assert_eq!(reg.get_payment(9, 0), None);
    assert!(reg.take_events().is_empty());
    assert_eq!(reg.get_debt(1).unwrap().paid_amount, 0);
}

#[test]
fn unknown_debt_is_not_found_and_counts_zero() {
    let reg = DebtRegistry::new();
    assert_eq!(reg.get_debt(42), Err(DebtError::NotFound));
    assert_eq!(reg.get_payments(42), 0);
}

#[test]
fn status_override_on_unknown_debt_is_not_found() {
    let mut reg = DebtRegistry::new();
    assert_eq!(reg.update_status(5, Status::Cancelled), Err(DebtError::NotFound));
    assert!(reg.take_events().is_empty());
}

#[test]
fn payment_log_keeps_call_order() {
    let mut reg = DebtRegistry::new();
    reg.register_debt(3, 1, s("GCUST"), 1000);
    reg.register_payment(3, 100, s("cash"), 11).unwrap();
    reg.register_payment(3, 250, s("card"), 12).unwrap();
    reg.register_payment(3, 50, s("stellar"), 13).unwrap();
    assert_eq!(reg.get_payments(3), 3);
    let expected = [(100, "cash", 11), (250, "card", 12), (50, "stellar", 13)];
    for (i, (amount, kind, ts)) in expected.iter().enumerate() {
        let p = reg.get_payment(3, i as u64).unwrap();
        assert_eq!(
            p,
            PaymentRecord { debt_id: 3, amount: *amount, payment_type: s(kind), timestamp: *ts }
        );
        assert!(reg.contains(DataKey::Payment(3, i as u64)));
    }
    assert_eq!(reg.get_payment(3, 3), None);
    assert!(!reg.contains(DataKey::Payment(3, 3)));
    assert!(reg.contains(DataKey::PaymentCount(3)));
    assert!(reg.contains(DataKey::Debt(3)));
}

#[test]
fn payment_after_override_derives_status_again() {
    let mut reg = DebtRegistry::new();
    reg.register_debt(4, 1, s("GCUST"), 100);
    reg.register_payment(4, 30, s("cash"), 1).unwrap();
    reg.update_status(4, Status::Cancelled).unwrap();
    let d = reg.get_debt(4).unwrap();
    assert_eq!(d.status, Status::Cancelled);
    assert_eq!(d.paid_amount, 30);
    assert_eq!(d.total_amount, 100);
    reg.register_payment(4, 10, s("cash"), 2).unwrap();
    let d = reg.get_debt(4).unwrap();
    assert_eq!(d.paid_amount, 40);
    assert_eq!(d.status, Status::Partial);
}

#[test]
fn overpayment_is_accepted_and_paid() {
    let mut reg = DebtRegistry::new();
    reg.register_debt(1, 1, s("GCUST"), 100);
    reg.register_payment(1, 250, s("cash"), 1).unwrap();
    let d = reg.get_debt(1).unwrap();
    assert_eq!(d.paid_amount, 250);
    assert_eq!(d.status, Status::Paid);
}

#[test]
fn exact_total_is_paid() {
    let mut reg = DebtRegistry::new();
    reg.register_debt(1, 1, s("GCUST"), 100);
    reg.register_payment(1, 99, s("cash"), 1).unwrap();
    assert_eq!(reg.get_debt(1).unwrap().status, Status::Partial);
    reg.register_payment(1, 1, s("cash"), 2).unwrap();
    assert_eq!(reg.get_debt(1).unwrap().status, Status::Paid);
}

#[test]
fn negative_balance_keeps_previous_status() {
    let mut reg = DebtRegistry::new();
    reg.register_debt(1, 1, s("GCUST"), 100);
    reg.register_payment(1, 40, s("cash"), 1).unwrap();
    reg.register_payment(1, -60, s("refund"), 2).unwrap();
    let d = reg.get_debt(1).unwrap();
    assert_eq!(d.paid_amount, -20);
    assert_eq!(d.status, Status::Partial);
    reg.register_payment(1, 20, s("cash"), 3).unwrap();
    let d = reg.get_debt(1).unwrap();
    assert_eq!(d.paid_amount, 0);
    assert_eq!(d.status, Status::Partial);
}

#[test]
fn zero_payment_on_fresh_debt_stays_pending() {
    let mut reg = DebtRegistry::new();
    reg.register_debt(1, 1, s("GCUST"), 100);
    reg.register_payment(1, 0, s("cash"), 1).unwrap();
    let d = reg.get_debt(1).unwrap();
    assert_eq!(d.status, Status::Pending);
    assert_eq!(reg.get_payments(1), 1);
}

#[test]
fn paid_amount_overflow_is_refused() {
    let mut reg = DebtRegistry::new();
    reg.register_debt(1, 1, s("GCUST"), 100);
    reg.register_payment(1, i128::MAX, s("cash"), 1).unwrap();
    assert_eq!(reg.register_payment(1, 1, s("cash"), 2), Err(DebtError::Overflow));
    let d = reg.get_debt(1).unwrap();
    assert_eq!(d.paid_amount, i128::MAX);
    assert_eq!(reg.get_payments(1), 1);
}

#[test]
fn re_registration_keeps_written_payments() {
    let mut reg = DebtRegistry::new();
    reg.register_debt(1, 1, s("GOLD"), 100);
    reg.register_payment(1, 70, s("cash"), 1).unwrap();
    reg.register_payment(1, 20, s("card"), 2).unwrap();
    let d = reg.register_debt(1, 2, s("GNEW"), 300);
    assert_eq!(d.paid_amount, 0);
    assert_eq!(reg.get_debt(1).unwrap(), d);
    assert_eq!(reg.get_payments(1), 0);
    let old_first = PaymentRecord { debt_id: 1, amount: 70, payment_type: s("cash"), timestamp: 1 };
    let old_second = PaymentRecord { debt_id: 1, amount: 20, payment_type: s("card"), timestamp: 2 };
    assert_eq!(reg.get_payment(1, 0), Some(old_first));
    assert_eq!(reg.get_payment(1, 1), Some(old_second.clone()));
    reg.register_payment(1, 5, s("transfer"), 3).unwrap();
    assert_eq!(reg.get_payments(1), 1);
    assert_eq!(
        reg.get_payment(1, 0),
        Some(PaymentRecord { debt_id: 1, amount: 5, payment_type: s("transfer"), timestamp: 3 })
    );
    assert_eq!(reg.get_payment(1, 1), Some(old_second));
}

#[test]
fn override_with_canonical_tag_is_stored_canonically() {
    let mut reg = DebtRegistry::new();
    reg.register_debt(6, 1, s("GCUST"), 100);
    reg.take_events();
    reg.update_status(6, Status::Other(s("cancelled"))).unwrap();
    assert_eq!(reg.get_debt(6).unwrap().status, Status::Cancelled);
    assert_eq!(
        reg.take_events(),
        vec![LedgerEvent::StatusChanged { debt_id: 6, status: Status::Cancelled }]
    );
    reg.update_status(6, Status::Other(s("disputed"))).unwrap();
    assert_eq!(reg.get_debt(6).unwrap().status, Status::Other(s("disputed")));
}

#[test]
fn record_payment_gives_the_whole_step() {
    let d = new_debt(8, 2, s("GCUST"), 100);
    let step = record_payment(&d, 3, 40, s("cash"), 77).unwrap();
    assert_eq!(
        step,
        PaymentStep {
            debt: DebtInfo { paid_amount: 40, status: Status::Partial, ..d.clone() },
            index: 3,
            record: PaymentRecord { debt_id: 8, amount: 40, payment_type: s("cash"), timestamp: 77 },
            count: 4,
        }
    );
    assert_eq!(record_payment(&d, u64::MAX, 1, s("cash"), 1), Err(DebtError::Overflow));
}

#[test]
fn override_status_changes_status_only() {
    let d = new_debt(8, 2, s("GCUST"), 100);
    let p = apply_payment(&d, 30).unwrap();
    let o = override_status(&p, Status::Other(s("paid")));
    assert_eq!(o, DebtInfo { status: Status::Paid, ..p.clone() });
    let c = override_status(&p, Status::Cancelled);
    assert_eq!(c.paid_amount, 30);
    assert_eq!(c.total_amount, 100);
    assert_eq!(c.status, Status::Cancelled);
}

#[test]
fn events_are_queued_in_order() {
    let mut reg = DebtRegistry::new();
    reg.register_debt(1, 5, s("GCUST"), 100);
    reg.register_payment(1, 100, s("cash"), 9).unwrap();
    reg.update_status(1, Status::Other(s("disputed"))).unwrap();
    let events = reg.take_events();
    assert_eq!(
        events,
        vec![
            LedgerEvent::DebtRegistered { debt_id: 1, site_id: 5, customer: s("GCUST"), total_amount: 100 },
            LedgerEvent::PaymentRegistered {
                debt_id: 1,
                amount: 100,
                payment_type: s("cash"),
                status: Status::Paid,
            },
            LedgerEvent::StatusChanged { debt_id: 1, status: Status::Other(s("disputed")) },
        ]
    );
    assert!(reg.take_events().is_empty());
}

#[test]
fn apply_payment_derives_status() {
    let d = new_debt(1, 1, s("GCUST"), 100);
    let p = apply_payment(&d, 60).unwrap();
    assert_eq!(p.paid_amount, 60);
    assert_eq!(p.status, Status::Partial);
    let q = apply_payment(&p, 40).unwrap();
    assert_eq!(q.status, Status::Paid);
    let mut c = d.clone();
    c.status = Status::Cancelled;
    let r = apply_payment(&c, -5).unwrap();
    assert_eq!(r.paid_amount, -5);
    assert_eq!(r.status, Status::Cancelled);
    let mut m = d.clone();
    m.paid_amount = i128::MIN;
    assert_eq!(apply_payment(&m, -1), Err(DebtError::Overflow));
}

#[test]
fn status_tags_round_trip() {
    for (tag, status) in [
        ("pending", Status::Pending),
        ("partial", Status::Partial),
        ("paid", Status::Paid),
        ("cancelled", Status::Cancelled),
        ("written_off", Status::Other(s("written_off"))),
    ] {
        assert_eq!(Status::from_tag(tag), status);
        assert_eq!(status.tag(), s(tag));
    }
}
