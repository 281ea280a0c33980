use vstd::prelude::*;

use crate::types::{normal_form, DebtError, DebtInfo, PaymentRecord, Status};

verus! {

/// The status after a payment brings the paid amount to `paid`.
///
/// Reaching the total settles the debt; a positive balance short of the
/// total makes it partial; otherwise the previous status stays as it was
/// (a balance pushed back to zero or below does not reset it to pending).
pub open spec fn next_status(paid: int, total: int, prev: Status) -> Status {
    if paid >= total {
        Status::Paid
    } else if paid > 0 {
        Status::Partial
    } else {
        prev
    }
}

/// Whether a payment of `amount` keeps the paid amount of `debt` within `i128`.
pub open spec fn payment_fits(debt: DebtInfo, amount: i128) -> bool {
    i128::MIN <= debt.paid_amount + amount <= i128::MAX
}

/// The record of `debt` after a payment of `amount`.
pub open spec fn paid_after(debt: DebtInfo, amount: i128) -> DebtInfo {
    let paid = debt.paid_amount + amount;
    DebtInfo {
        paid_amount: paid as i128,
        status: next_status(paid, debt.total_amount as int, debt.status),
        ..debt
    }
}

/// The record of a debt as it is first registered: nothing paid, pending.
pub open spec fn fresh_debt(debt_id: u64, site_id: u64, customer: String, total_amount: i128) -> DebtInfo {
    DebtInfo {
        debt_id,
        site_id,
        customer,
        total_amount,
        paid_amount: 0,
        status: Status::Pending,
    }
}

/// Builds the record of a newly registered debt.
pub fn new_debt(debt_id: u64, site_id: u64, customer: String, total_amount: i128) -> (r: DebtInfo)
    ensures
        r == fresh_debt(debt_id, site_id, customer, total_amount),
{
    DebtInfo { debt_id, site_id, customer, total_amount, paid_amount: 0, status: Status::Pending }
}

/// Applies a payment of `amount` to `debt`: the amount is added to the paid
/// amount and the status is derived anew. Any sign and size of amount is
/// accepted; the payment is refused only when the sum leaves `i128`.
pub fn apply_payment(debt: &DebtInfo, amount: i128) -> (r: Result<DebtInfo, DebtError>)
    ensures
        payment_fits(*debt, amount) ==> r == Ok::<DebtInfo, DebtError>(paid_after(*debt, amount)),
        !payment_fits(*debt, amount) ==> r == Err::<DebtInfo, DebtError>(DebtError::Overflow),
{
    match debt.paid_amount.checked_add(amount) {
        None => Err(DebtError::Overflow),
        Some(paid) => {
            let status = if paid >= debt.total_amount {
                Status::Paid
            } else if paid > 0 {
                Status::Partial
            } else {
                debt.status.duplicate()
            };
            Ok(
                DebtInfo {
                    debt_id: debt.debt_id,
                    site_id: debt.site_id,
                    customer: debt.customer.clone(),
                    total_amount: debt.total_amount,
                    paid_amount: paid,
                    status,
                },
            )
        },
    }
}

/// What a payment changes: the updated debt record, the position at which
/// the payment is logged, the logged record and the new payment count.
#[derive(Clone, Debug, PartialEq, Eq)]
pub struct PaymentStep {
    pub debt: DebtInfo,
    pub index: u64,
    pub record: PaymentRecord,
    pub count: u64,
}

/// Whether a payment of `amount` can be applied to `debt` when `count`
/// payments are logged for it: the paid amount stays within `i128` and the
/// count within `u64`.
pub open spec fn step_fits(debt: DebtInfo, count: u64, amount: i128) -> bool {
    payment_fits(debt, amount) && count < u64::MAX
}

/// The step of a payment of `amount` on `debt` when `count` payments are
/// logged for it.
pub open spec fn payment_step(debt: DebtInfo, count: u64, amount: i128, payment_type: String, timestamp: u64) -> PaymentStep {
    PaymentStep {
        debt: paid_after(debt, amount),
        index: count,
        record: PaymentRecord { debt_id: debt.debt_id, amount, payment_type, timestamp },
        count: (count + 1) as u64,
    }
}

/// Decides a payment on a debt whose log holds `count` payments: the debt
/// is updated as `apply_payment` says, the payment is logged at position
/// `count`, and the count grows by one. Refused with `Overflow` when the paid
/// amount or the count would leave its integer type.
pub fn record_payment(debt: &DebtInfo, count: u64, amount: i128, payment_type: String, timestamp: u64) -> (r: Result<PaymentStep, DebtError>)
    ensures
        step_fits(*debt, count, amount) ==> r == Ok::<PaymentStep, DebtError>(
            payment_step(*debt, count, amount, payment_type, timestamp),
        ),
        !step_fits(*debt, count, amount) ==> r == Err::<PaymentStep, DebtError>(DebtError::Overflow),
{
    let updated = match apply_payment(debt, amount) {
        Ok(d) => d,
        Err(e) => {
            return Err(e);
        },
    };
    if count == u64::MAX {
        return Err(DebtError::Overflow);
    }
    Ok(
        PaymentStep {
            debt: updated,
            index: count,
            record: PaymentRecord { debt_id: debt.debt_id, amount, payment_type, timestamp },
            count: count + 1,
        },
    )
}

/// The record of `debt` with its status overridden by `status`, taken in its
/// canonical form; the amounts are left alone.
pub open spec fn status_set(debt: DebtInfo, status: Status) -> DebtInfo {
    DebtInfo { status: normal_form(status), ..debt }
}

/// Overrides the status of `debt` with any tag, leaving its amounts alone.
pub fn override_status(debt: &DebtInfo, status: Status) -> (r: DebtInfo)
    ensures
        r == status_set(*debt, status),
{
    DebtInfo { status: status.normalized(), ..debt.duplicate() }
}

} // verus!
