use vstd::prelude::*;

use crate::registry::RegistryView;
use crate::settlement::{next_status, payment_fits};
use crate::types::{normal_form, PaymentRecord, Status};

verus! {

/// The log record of the payment call `p` (amount, payment type, timestamp)
/// on `debt_id`.
pub open spec fn record_of(debt_id: u64, p: (i128, String, u64)) -> PaymentRecord {
    PaymentRecord { debt_id, amount: p.0, payment_type: p.1, timestamp: p.2 }
}

/// The sum of the amounts of a sequence of payment calls.
pub open spec fn amounts_sum(ps: Seq<(i128, String, u64)>) -> int
    decreases ps.len(),
{
    if ps.len() == 0 {
        0
    } else {
        amounts_sum(ps.drop_last()) + ps.last().0
    }
}

/// Whether every running total of `ps`, starting from `start`, fits in `i128`.
pub open spec fn running_totals_fit(start: int, ps: Seq<(i128, String, u64)>) -> bool {
    forall|k: int|
        0 <= k <= ps.len() ==> i128::MIN <= start + #[trigger] amounts_sum(ps.take(k)) <= i128::MAX
}

/// The ledger state after the payment calls `ps` on `debt_id`, in order.
pub open spec fn after_payments(v: RegistryView, debt_id: u64, ps: Seq<(i128, String, u64)>) -> RegistryView
    decreases ps.len(),
{
    if ps.len() == 0 {
        v
    } else {
        let p = ps.last();
        after_payments(v, debt_id, ps.drop_last()).with_payment(debt_id, p.0, p.1, p.2)
    }
}

/// The status that a debt with total `total` has when `paid` was reached by
/// payments that never lowered the balance.
pub open spec fn settled_status(paid: int, total: int) -> Status {
    if paid >= total {
        Status::Paid
    } else if paid > 0 {
        Status::Partial
    } else {
        Status::Pending
    }
}

proof fn lemma_take_drop_last(ps: Seq<(i128, String, u64)>)
    requires
        ps.len() > 0,
    ensures
        forall|k: int| 0 <= k < ps.len() ==> #[trigger] ps.drop_last().take(k) == ps.take(k),
        ps.take(ps.len() as int) == ps,
{
    assert forall|k: int| 0 <= k < ps.len() implies #[trigger] ps.drop_last().take(k) == ps.take(k) by {
        assert(ps.drop_last().take(k) =~= ps.take(k));
    }
    assert(ps.take(ps.len() as int) =~= ps);
}

// Payment calls on an existing debt accumulate into its paid amount, keep
// its total, and are written one by one at the positions that follow its
// count, in call order, touching no other payment record; each of them is
// accepted.
proof fn lemma_after_payments(v: RegistryView, debt_id: u64, ps: Seq<(i128, String, u64)>)
    requires
        v.valid(),
        v.debts.contains_key(debt_id),
        running_totals_fit(v.debts[debt_id].paid_amount as int, ps),
        v.counts[debt_id] + ps.len() <= u64::MAX,
    ensures
        ({
            let w = after_payments(v, debt_id, ps);
            let c0 = v.counts[debt_id];
            &&& w.valid()
            &&& w.debts.contains_key(debt_id)
            &&& w.debts[debt_id].paid_amount == v.debts[debt_id].paid_amount + amounts_sum(ps)
            &&& w.debts[debt_id].total_amount == v.debts[debt_id].total_amount
            &&& w.counts[debt_id] == c0 + ps.len()
            &&& forall|j: u64|
                c0 <= j < c0 + ps.len() ==> w.payments.contains_key((debt_id, j)) && #[trigger] w.payments[(
                    debt_id,
                    j,
                )] == record_of(debt_id, ps[j - c0])
            &&& forall|k: (u64, u64)|
                #[trigger] w.payments.contains_key(k) && !(k.0 == debt_id && c0 <= k.1 < c0 + ps.len())
                    ==> v.payments.contains_key(k) && w.payments[k] == v.payments[k]
            &&& forall|i: int|
                0 <= i < ps.len() ==> #[trigger] after_payments(v, debt_id, ps.take(i)).can_pay(
                    debt_id,
                    ps[i].0,
                )
        }),
    decreases ps.len(),
{
    if ps.len() > 0 {
        let init = ps.drop_last();
        let p = ps.last();
        let n = ps.len() - 1;
        let c0 = v.counts[debt_id];
        lemma_take_drop_last(ps);
        assert(running_totals_fit(v.debts[debt_id].paid_amount as int, init)) by {
            assert forall|k: int| 0 <= k <= init.len() implies i128::MIN <= v.debts[debt_id].paid_amount
                + #[trigger] amounts_sum(init.take(k)) <= i128::MAX by {
                assert(init.take(k) == ps.take(k));
            }
        }
        lemma_after_payments(v, debt_id, init);
        let u = after_payments(v, debt_id, init);
        assert(amounts_sum(ps.take(ps.len() as int)) == amounts_sum(ps));
        assert(init.take(n) =~= init);
        assert(ps.take(n) == init);
        assert(payment_fits(u.debts[debt_id], p.0));
        assert(u.can_pay(debt_id, ps[n].0));
        u.lemma_with_payment_valid(debt_id, p.0, p.1, p.2);
        assert forall|i: int| 0 <= i < ps.len() implies #[trigger] after_payments(
            v,
            debt_id,
            ps.take(i),
        ).can_pay(debt_id, ps[i].0) by {
            if i < n {
                assert(ps.take(i) == init.take(i));
                assert(ps[i] == init[i]);
            }
        }
        let w = after_payments(v, debt_id, ps);
        assert forall|j: u64| c0 <= j < c0 + ps.len() implies w.payments.contains_key((debt_id, j))
            && #[trigger] w.payments[(debt_id, j)] == record_of(debt_id, ps[j - c0]) by {
            if j < c0 + n {
                assert(u.payments[(debt_id, j)] == record_of(debt_id, init[j - c0]));
                assert(init[j - c0] == ps[j - c0]);
            }
        }
        assert forall|k: (u64, u64)|
            #[trigger] w.payments.contains_key(k) && !(k.0 == debt_id && c0 <= k.1 < c0 + ps.len())
                implies v.payments.contains_key(k) && w.payments[k] == v.payments[k] by {
            assert(u.payments.contains_key(k));
        }
    }
}

proof fn lemma_status_on_nonnegative_payments(v: RegistryView, debt_id: u64, ps: Seq<(i128, String, u64)>)
    requires
        v.valid(),
        v.debts.contains_key(debt_id),
        v.debts[debt_id].total_amount > 0,
        v.debts[debt_id].paid_amount >= 0,
        v.debts[debt_id].status == settled_status(
            v.debts[debt_id].paid_amount as int,
            v.debts[debt_id].total_amount as int,
        ),
        forall|i: int| 0 <= i < ps.len() ==> (#[trigger] ps[i]).0 >= 0,
        running_totals_fit(v.debts[debt_id].paid_amount as int, ps),
        v.counts[debt_id] + ps.len() <= u64::MAX,
    ensures
        amounts_sum(ps) >= 0,
        after_payments(v, debt_id, ps).debts[debt_id].status == settled_status(
            v.debts[debt_id].paid_amount + amounts_sum(ps),
            v.debts[debt_id].total_amount as int,
        ),
    decreases ps.len(),
{
    lemma_after_payments(v, debt_id, ps);
    if ps.len() > 0 {
        let init = ps.drop_last();
        lemma_take_drop_last(ps);
        assert(running_totals_fit(v.debts[debt_id].paid_amount as int, init)) by {
            assert forall|k: int| 0 <= k <= init.len() implies i128::MIN <= v.debts[debt_id].paid_amount
                + #[trigger] amounts_sum(init.take(k)) <= i128::MAX by {
                assert(init.take(k) == ps.take(k));
            }
        }
        assert forall|i: int| 0 <= i < init.len() implies (#[trigger] init[i]).0 >= 0 by {
            assert(init[i] == ps[i]);
        }
        lemma_status_on_nonnegative_payments(v, debt_id, init);
        lemma_after_payments(v, debt_id, init);
        assert(ps.last() == ps[ps.len() - 1]);
    }
}

/// On a freshly registered debt with total `total_amount`, any sequence of
/// accepted payments leaves the paid amount equal to the sum of their
/// amounts. Once at least one payment was made, the debt is paid whenever
/// that sum reaches the total, and partial whenever the sum is positive and
/// short of it; with no payment it is still pending.
pub proof fn lemma_payments_accumulate(
    v: RegistryView,
    debt_id: u64,
    site_id: u64,
    customer: String,
    total_amount: i128,
    ps: Seq<(i128, String, u64)>,
)
    requires
        v.valid(),
        running_totals_fit(0, ps),
        ps.len() <= u64::MAX,
    ensures
        ({
            let w = after_payments(v.with_debt(debt_id, site_id, customer, total_amount), debt_id, ps);
            let sum = amounts_sum(ps);
            &&& w.debts[debt_id].paid_amount == sum
            &&& w.debts[debt_id].total_amount == total_amount
            &&& ps.len() == 0 ==> w.debts[debt_id].status == Status::Pending
            &&& ps.len() > 0 && sum >= total_amount ==> w.debts[debt_id].status == Status::Paid
            &&& ps.len() > 0 && 0 < sum < total_amount ==> w.debts[debt_id].status == Status::Partial
        }),
{
    let v0 = v.with_debt(debt_id, site_id, customer, total_amount);
    v.lemma_with_debt_valid(debt_id, site_id, customer, total_amount);
    lemma_after_payments(v0, debt_id, ps);
    if ps.len() > 0 {
        lemma_take_drop_last(ps);
        assert(running_totals_fit(0, ps.drop_last())) by {
            assert forall|k: int| 0 <= k <= ps.drop_last().len() implies i128::MIN <= 0
                + #[trigger] amounts_sum(ps.drop_last().take(k)) <= i128::MAX by {
                assert(ps.drop_last().take(k) == ps.take(k));
            }
        }
        lemma_after_payments(v0, debt_id, ps.drop_last());
    }
}

/// On a freshly registered debt with a positive total, when no payment
/// amount is negative, the status follows the balance exactly: paid if and
/// only if the sum of the payments reaches the total, partial if and only if
/// it is positive and short of the total, pending if and only if it is zero.
pub proof fn lemma_status_follows_balance(
    v: RegistryView,
    debt_id: u64,
    site_id: u64,
    customer: String,
    total_amount: i128,
    ps: Seq<(i128, String, u64)>,
)
    requires
        v.valid(),
        total_amount > 0,
        forall|i: int| 0 <= i < ps.len() ==> (#[trigger] ps[i]).0 >= 0,
        running_totals_fit(0, ps),
        ps.len() <= u64::MAX,
    ensures
        ({
            let w = after_payments(v.with_debt(debt_id, site_id, customer, total_amount), debt_id, ps);
            let sum = amounts_sum(ps);
            &&& w.debts[debt_id].paid_amount == sum
            &&& w.debts[debt_id].status == Status::Paid <==> sum >= total_amount
            &&& w.debts[debt_id].status == Status::Partial <==> 0 < sum < total_amount
            &&& w.debts[debt_id].status == Status::Pending <==> sum == 0
        }),
{
    let v0 = v.with_debt(debt_id, site_id, customer, total_amount);
    v.lemma_with_debt_valid(debt_id, site_id, customer, total_amount);
    lemma_after_payments(v0, debt_id, ps);
    lemma_status_on_nonnegative_payments(v0, debt_id, ps);
}

/// After `n` payment calls on a freshly registered debt, each of them is
/// accepted, the payment count is `n`, and positions `0..n` hold exactly
/// those payments, in call order, with their amounts, types and timestamps.
/// No payment record of any other debt changes; and when the id was never
/// registered before, no record of it exists at position `n` or beyond.
pub proof fn lemma_payment_log_in_call_order(
    v: RegistryView,
    debt_id: u64,
    site_id: u64,
    customer: String,
    total_amount: i128,
    ps: Seq<(i128, String, u64)>,
)
    requires
        v.valid(),
        running_totals_fit(0, ps),
        ps.len() <= u64::MAX,
    ensures
        ({
            let v0 = v.with_debt(debt_id, site_id, customer, total_amount);
            let w = after_payments(v0, debt_id, ps);
            &&& forall|i: int|
                0 <= i < ps.len() ==> #[trigger] after_payments(v0, debt_id, ps.take(i)).can_pay(
                    debt_id,
                    ps[i].0,
                )
            &&& w.payment_count(debt_id) == ps.len()
            &&& forall|j: u64|
                j < ps.len() ==> w.payments.contains_key((debt_id, j)) && #[trigger] w.payments[(debt_id, j)]
                    == record_of(debt_id, ps[j as int])
            &&& forall|k: (u64, u64)|
                k.0 != debt_id && #[trigger] v.payments.contains_key(k) ==> w.payments.contains_key(k)
                    && w.payments[k] == v.payments[k]
            &&& !v.debts.contains_key(debt_id) ==> forall|j: u64|
                j >= ps.len() ==> !#[trigger] w.payments.contains_key((debt_id, j))
        }),
{
    let v0 = v.with_debt(debt_id, site_id, customer, total_amount);
    v.lemma_with_debt_valid(debt_id, site_id, customer, total_amount);
    lemma_after_payments(v0, debt_id, ps);
    let w = after_payments(v0, debt_id, ps);
    assert forall|k: (u64, u64)| k.0 != debt_id && #[trigger] v.payments.contains_key(k) implies w.payments.contains_key(k)
        && w.payments[k] == v.payments[k] by {
        lemma_other_debts_untouched(v0, debt_id, ps, k);
    }
    if !v.debts.contains_key(debt_id) {
        assert forall|j: u64| j >= ps.len() implies !#[trigger] w.payments.contains_key((debt_id, j)) by {
            if w.payments.contains_key((debt_id, j)) {
                assert(v.payments.contains_key((debt_id, j)));
            }
        }
    }
}

// A sequence of payment calls on one debt leaves the payment records of
// every other debt as they were.
proof fn lemma_other_debts_untouched(v: RegistryView, debt_id: u64, ps: Seq<(i128, String, u64)>, k: (u64, u64))
    requires
        k.0 != debt_id,
        v.payments.contains_key(k),
    ensures
        after_payments(v, debt_id, ps).payments.contains_key(k),
        after_payments(v, debt_id, ps).payments[k] == v.payments[k],
    decreases ps.len(),
{
    if ps.len() > 0 {
        lemma_other_debts_untouched(v, debt_id, ps.drop_last(), k);
    }
}

/// A status override changes the status alone, to the canonical form of
/// the given one: paid amount, total, payment count and payment records
/// stay. A payment that follows derives the status anew from the balance,
/// discarding the override, whenever the new balance reaches the total or is
/// positive (on any other balance the derivation keeps the status it finds).
pub proof fn lemma_override_then_payment(
    v: RegistryView,
    debt_id: u64,
    status: Status,
    amount: i128,
    payment_type: String,
    timestamp: u64,
)
    requires
        v.valid(),
        v.debts.contains_key(debt_id),
    ensures
        ({
            let o = v.with_status(debt_id, status);
            let d = v.debts[debt_id];
            let paid = d.paid_amount + amount;
            &&& o.valid()
            &&& o.debts[debt_id].status == normal_form(status)
            &&& o.debts[debt_id].paid_amount == d.paid_amount
            &&& o.debts[debt_id].total_amount == d.total_amount
            &&& o.counts == v.counts
            &&& o.payments == v.payments
            &&& o.can_pay(debt_id, amount) == v.can_pay(debt_id, amount)
            &&& (paid >= d.total_amount || paid > 0) ==> o.with_payment(
                debt_id,
                amount,
                payment_type,
                timestamp,
            ).debts[debt_id] == v.with_payment(debt_id, amount, payment_type, timestamp).debts[debt_id]
            &&& (paid >= d.total_amount || paid > 0) ==> o.with_payment(
                debt_id,
                amount,
                payment_type,
                timestamp,
            ).debts[debt_id].status == next_status(paid, d.total_amount as int, normal_form(status))
        }),
{
    v.lemma_with_status_valid(debt_id, status);
}

} // verus!
