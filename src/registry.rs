use std::collections::HashMap;

use vstd::prelude::*;

use crate::settlement::{
    fresh_debt, new_debt, override_status, payment_step, record_payment, status_set, step_fits,
};
use crate::types::{DataKey, DebtError, DebtInfo, LedgerEvent, PaymentRecord, Status};

verus! {

broadcast use vstd::std_specs::hash::group_hash_axioms;

/// The abstract state of a ledger.
pub struct RegistryView {
    /// The record of each registered debt.
    pub debts: Map<u64, DebtInfo>,
    /// The payment count of each registered debt: the position at which its
    /// next payment is logged.
    pub counts: Map<u64, u64>,
    /// Every payment record written, by debt id and position; never removed.
    pub payments: Map<(u64, u64), PaymentRecord>,
    /// Notifications not yet handed to the event sink, oldest first.
    pub events: Seq<LedgerEvent>,
}

impl RegistryView {
    /// Every registered debt has a count and is stored under its own id;
    /// payment records belong to registered debts; and the positions below a
    /// debt's count all hold a record, with no gap.
    pub open spec fn valid(self) -> bool {
        &&& self.debts.dom() == self.counts.dom()
        &&& forall|id: u64| #[trigger] self.debts.contains_key(id) ==> self.debts[id].debt_id == id
        &&& forall|k: (u64, u64)| #[trigger] self.payments.contains_key(k) ==> self.counts.contains_key(k.0)
        &&& forall|id: u64, i: u64|
            self.counts.contains_key(id) && i < self.counts[id] ==> #[trigger] self.payments.contains_key((id, i))
    }

    /// The payment count of `debt_id`; zero for an unknown id.
    pub open spec fn payment_count(self, debt_id: u64) -> nat {
        if self.counts.contains_key(debt_id) {
            self.counts[debt_id] as nat
        } else {
            0
        }
    }

    /// Whether the ledger holds an entry under `key`.
    pub open spec fn has_key(self, key: DataKey) -> bool {
        match key {
            DataKey::Debt(id) => self.debts.contains_key(id),
            DataKey::PaymentCount(id) => self.counts.contains_key(id),
            DataKey::Payment(id, index) => self.payments.contains_key((id, index)),
        }
    }

    /// The state after registering a debt: a fresh record and a count of
    /// zero are written under that id; payment records are left alone.
    pub open spec fn with_debt(self, debt_id: u64, site_id: u64, customer: String, total_amount: i128) -> RegistryView {
        RegistryView {
            debts: self.debts.insert(debt_id, fresh_debt(debt_id, site_id, customer, total_amount)),
            counts: self.counts.insert(debt_id, 0),
            payments: self.payments,
            events: self.events.push(
                LedgerEvent::DebtRegistered { debt_id, site_id, customer, total_amount },
            ),
        }
    }

    /// Whether a payment of `amount` on `debt_id` can be recorded: the debt
    /// exists, its paid amount stays within `i128` and its count within `u64`.
    pub open spec fn can_pay(self, debt_id: u64, amount: i128) -> bool {
        &&& self.debts.contains_key(debt_id)
        &&& step_fits(self.debts[debt_id], self.counts[debt_id], amount)
    }

    /// The state after a payment on an existing debt: the record is updated,
    /// the payment is written at the position given by the count, and the
    /// count grows by one.
    pub open spec fn with_payment(self, debt_id: u64, amount: i128, payment_type: String, timestamp: u64) -> RegistryView {
        let step = payment_step(self.debts[debt_id], self.counts[debt_id], amount, payment_type, timestamp);
        RegistryView {
            debts: self.debts.insert(debt_id, step.debt),
            counts: self.counts.insert(debt_id, step.count),
            payments: self.payments.insert((debt_id, step.index), step.record),
            events: self.events.push(
                LedgerEvent::PaymentRegistered { debt_id, amount, payment_type, status: step.debt.status },
            ),
        }
    }

    /// The state after overriding the status of an existing debt.
    pub open spec fn with_status(self, debt_id: u64, status: Status) -> RegistryView {
        let debt = status_set(self.debts[debt_id], status);
        RegistryView {
            debts: self.debts.insert(debt_id, debt),
            counts: self.counts,
            payments: self.payments,
            events: self.events.push(LedgerEvent::StatusChanged { debt_id, status: debt.status }),
        }
    }

    /// Registering a debt keeps a ledger valid.
    pub proof fn lemma_with_debt_valid(self, debt_id: u64, site_id: u64, customer: String, total_amount: i128)
        requires
            self.valid(),
        ensures
            self.with_debt(debt_id, site_id, customer, total_amount).valid(),
    {
        let w = self.with_debt(debt_id, site_id, customer, total_amount);
        assert(w.debts.dom() =~= w.counts.dom());
    }

    /// An accepted payment keeps a ledger valid.
    pub proof fn lemma_with_payment_valid(self, debt_id: u64, amount: i128, payment_type: String, timestamp: u64)
        requires
            self.valid(),
            self.can_pay(debt_id, amount),
        ensures
            self.with_payment(debt_id, amount, payment_type, timestamp).valid(),
    {
        let w = self.with_payment(debt_id, amount, payment_type, timestamp);
        assert(w.debts.dom() =~= w.counts.dom());
        assert forall|id: u64, i: u64|
            w.counts.contains_key(id) && i < w.counts[id] implies #[trigger] w.payments.contains_key((id, i)) by {
            if id != debt_id || i < self.counts[debt_id] {
                assert(self.payments.contains_key((id, i)));
            }
        }
    }

    /// A status override keeps a ledger valid.
    pub proof fn lemma_with_status_valid(self, debt_id: u64, status: Status)
        requires
            self.valid(),
            self.debts.contains_key(debt_id),
        ensures
            self.with_status(debt_id, status).valid(),
    {
        let w = self.with_status(debt_id, status);
        assert(w.debts.dom() =~= w.counts.dom());
    }
}

/// A ledger of debts, their payment records and the notifications they raise.
pub struct DebtRegistry {
    debts: HashMap<u64, DebtInfo>,
    counts: HashMap<u64, u64>,
    payments: HashMap<u64, HashMap<u64, PaymentRecord>>,
    events: Vec<LedgerEvent>,
}

impl View for DebtRegistry {
    type V = RegistryView;

    closed spec fn view(&self) -> RegistryView {
        RegistryView {
            debts: self.debts@,
            counts: self.counts@,
            payments: Map::new(
                |k: (u64, u64)| self.payments@.contains_key(k.0) && self.payments@[k.0]@.contains_key(k.1),
                |k: (u64, u64)| self.payments@[k.0]@[k.1],
            ),
            events: self.events@,
        }
    }
}

impl DebtRegistry {
    /// An empty ledger.
    pub fn new() -> (r: DebtRegistry)
        ensures
            r@.valid(),
            r@.debts == Map::<u64, DebtInfo>::empty(),
            r@.counts == Map::<u64, u64>::empty(),
            r@.payments == Map::<(u64, u64), PaymentRecord>::empty(),
            r@.events == Seq::<LedgerEvent>::empty(),
    {
        let r = DebtRegistry {
            debts: HashMap::new(),
            counts: HashMap::new(),
            payments: HashMap::new(),
            events: Vec::new(),
        };
        assert(r@.payments =~= Map::<(u64, u64), PaymentRecord>::empty());
        r
    }

    /// Registers a debt with nothing paid and status pending, and returns its
    /// record. Exactly two entries are written: the record and a payment
    /// count of zero. An id that is already registered is taken over: its
    /// record and count are overwritten, while the payment records already
    /// written for it stay in place (new payments are written over them from
    /// position zero on).
    pub fn register_debt(&mut self, debt_id: u64, site_id: u64, customer: String, total_amount: i128) -> (r: DebtInfo)
        requires
            old(self)@.valid(),
        ensures
            final(self)@.valid(),
            r == fresh_debt(debt_id, site_id, customer, total_amount),
            final(self)@ == old(self)@.with_debt(debt_id, site_id, customer, total_amount),
    {
        let debt = new_debt(debt_id, site_id, customer.clone(), total_amount);
        self.debts.insert(debt_id, debt.duplicate());
        self.counts.insert(debt_id, 0);
        self.events.push(
            LedgerEvent::DebtRegistered { debt_id, site_id, customer, total_amount },
        );
        proof {
            old(self)@.lemma_with_debt_valid(debt_id, site_id, customer, total_amount);
        }
        assert(self@.payments =~= old(self)@.payments);
        debt
    }

    /// Applies a payment of `amount` of kind `payment_type`, stamped with
    /// `timestamp`, to a registered debt, as `record_payment` decides it: the
    /// debt record is updated, the payment is written at the position given
    /// by the count, the count grows by one and a notification is queued.
    /// Fails with `NotFound` when the debt is not registered, and with
    /// `Overflow` when the paid amount or the count would leave its integer
    /// type; a failure changes nothing.
    pub fn register_payment(&mut self, debt_id: u64, amount: i128, payment_type: String, timestamp: u64) -> (r: Result<bool, DebtError>)
        requires
            old(self)@.valid(),
        ensures
            final(self)@.valid(),
            !old(self)@.debts.contains_key(debt_id) ==> r == Err::<bool, DebtError>(DebtError::NotFound),
            old(self)@.debts.contains_key(debt_id) && !old(self)@.can_pay(debt_id, amount) ==> r
                == Err::<bool, DebtError>(DebtError::Overflow),
            old(self)@.can_pay(debt_id, amount) ==> r == Ok::<bool, DebtError>(true),
            r.is_ok() ==> final(self)@ == old(self)@.with_payment(debt_id, amount, payment_type, timestamp),
            r.is_err() ==> final(self)@ == old(self)@,
    {
        let debt = match self.debts.get(&debt_id) {
            Some(d) => d.duplicate(),
            None => {
                return Err(DebtError::NotFound);
            },
        };
        let count: u64 = match self.counts.get(&debt_id) {
            Some(c) => *c,
            None => 0,
        };
        let step = match record_payment(&debt, count, amount, payment_type.clone(), timestamp) {
            Ok(s) => s,
            Err(e) => {
                return Err(e);
            },
        };
        proof {
            old(self)@.lemma_with_payment_valid(debt_id, amount, payment_type, timestamp);
        }
        let status = step.debt.status.duplicate();
        let ghost record = step.record;
        self.debts.insert(debt_id, step.debt);
        let mut log = match self.payments.remove(&debt_id) {
            Some(m) => m,
            None => HashMap::new(),
        };
        log.insert(step.index, step.record);
        self.payments.insert(debt_id, log);
        self.counts.insert(debt_id, step.count);
        self.events.push(LedgerEvent::PaymentRegistered { debt_id, amount, payment_type, status });
        assert(self@.payments =~= old(self)@.payments.insert((debt_id, count), record));
        Ok(true)
    }

    /// The record of a registered debt, or `NotFound`.
    pub fn get_debt(&self, debt_id: u64) -> (r: Result<DebtInfo, DebtError>)
        ensures
            self@.debts.contains_key(debt_id) ==> r == Ok::<DebtInfo, DebtError>(self@.debts[debt_id]),
            !self@.debts.contains_key(debt_id) ==> r == Err::<DebtInfo, DebtError>(DebtError::NotFound),
    {
        match self.debts.get(&debt_id) {
            Some(d) => Ok(d.duplicate()),
            None => Err(DebtError::NotFound),
        }
    }

    /// The payment count of a debt; zero for an id that was never registered.
    pub fn get_payments(&self, debt_id: u64) -> (r: u64)
        ensures
            r == self@.payment_count(debt_id),
    {
        match self.counts.get(&debt_id) {
            Some(c) => *c,
            None => 0,
        }
    }

    /// The payment record written at position `index` for a debt, if any.
    pub fn get_payment(&self, debt_id: u64, index: u64) -> (r: Option<PaymentRecord>)
        ensures
            self@.has_key(DataKey::Payment(debt_id, index)) ==> r == Some(self@.payments[(debt_id, index)]),
            !self@.has_key(DataKey::Payment(debt_id, index)) ==> r == None::<PaymentRecord>,
    {
        match self.payments.get(&debt_id) {
            Some(log) => match log.get(&index) {
                Some(p) => Some(p.duplicate()),
                None => None,
            },
            None => None,
        }
    }

    /// Whether the ledger holds an entry under `key`.
    pub fn contains(&self, key: DataKey) -> (r: bool)
        ensures
            r == self@.has_key(key),
    {
        match key {
            DataKey::Debt(id) => self.debts.contains_key(&id),
            DataKey::PaymentCount(id) => self.counts.contains_key(&id),
            DataKey::Payment(id, index) => self.get_payment(id, index).is_some(),
        }
    }

    /// Overrides the status of a registered debt with any tag (an `Other`
    /// holding a canonical tag is stored as that canonical status), leaving
    /// its amounts alone, and queues a notification; `NotFound` when the debt
    /// is not registered, in which case nothing changes.
    pub fn update_status(&mut self, debt_id: u64, new_status: Status) -> (r: Result<bool, DebtError>)
        requires
            old(self)@.valid(),
        ensures
            final(self)@.valid(),
            old(self)@.debts.contains_key(debt_id) ==> r == Ok::<bool, DebtError>(true)
                && final(self)@ == old(self)@.with_status(debt_id, new_status),
            !old(self)@.debts.contains_key(debt_id) ==> r == Err::<bool, DebtError>(DebtError::NotFound)
                && final(self)@ == old(self)@,
    {
        let debt = match self.debts.get(&debt_id) {
            Some(d) => d.duplicate(),
            None => {
                return Err(DebtError::NotFound);
            },
        };
        let updated = override_status(&debt, new_status);
        let status = updated.status.duplicate();
        self.debts.insert(debt_id, updated);
        self.events.push(LedgerEvent::StatusChanged { debt_id, status });
        proof {
            old(self)@.lemma_with_status_valid(debt_id, new_status);
        }
        assert(self@.payments =~= old(self)@.payments);
        Ok(true)
    }

    /// Hands over the queued notifications, oldest first, and empties the queue.
    pub fn take_events(&mut self) -> (r: Vec<LedgerEvent>)
        requires
            old(self)@.valid(),
        ensures
            final(self)@.valid(),
            r@ == old(self)@.events,
            final(self)@ == (RegistryView { events: Seq::empty(), ..old(self)@ }),
    {
        let mut r: Vec<LedgerEvent> = Vec::new();
        std::mem::swap(&mut r, &mut self.events);
        assert(self@.payments =~= old(self)@.payments);
        r
    }
}

} // verus!
