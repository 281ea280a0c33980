use vstd::prelude::*;
use vstd::string::StringExecFns;

verus! {

/// Lifecycle tag of a debt.
///
/// The four canonical values are derived or set by the ledger; `Other` holds
/// any tag that an explicit status override supplies.
#[derive(Clone, Debug, PartialEq, Eq)]
pub enum Status {
    Pending,
    Partial,
    Paid,
    Cancelled,
    Other(String),
}

/// The tag that names a status.
pub open spec fn status_tag(s: Status) -> Seq<char> {
    match s {
        Status::Pending => "pending"@,
        Status::Partial => "partial"@,
        Status::Paid => "paid"@,
        Status::Cancelled => "cancelled"@,
        Status::Other(tag) => tag@,
    }
}

/// Whether `t` is the tag of one of the four canonical statuses.
pub open spec fn is_canonical_tag(t: Seq<char>) -> bool {
    t == "pending"@ || t == "partial"@ || t == "paid"@ || t == "cancelled"@
}

/// The canonical form of a status: `Other` holding a canonical tag stands
/// for the status that tag names; any other status is its own form.
pub open spec fn normal_form(s: Status) -> Status {
    match s {
        Status::Other(t) => if t@ == "pending"@ {
            Status::Pending
        } else if t@ == "partial"@ {
            Status::Partial
        } else if t@ == "paid"@ {
            Status::Paid
        } else if t@ == "cancelled"@ {
            Status::Cancelled
        } else {
            s
        },
        _ => s,
    }
}

impl Status {
    /// This status in its canonical form: an `Other` whose tag is one of the
    /// four canonical tags becomes that status.
    pub fn normalized(self) -> (r: Status)
        ensures
            r == normal_form(self),
    {
        match self {
            Status::Other(t) => {
                if t == String::from_str("pending") {
                    Status::Pending
                } else if t == String::from_str("partial") {
                    Status::Partial
                } else if t == String::from_str("paid") {
                    Status::Paid
                } else if t == String::from_str("cancelled") {
                    Status::Cancelled
                } else {
                    Status::Other(t)
                }
            },
            other => other,
        }
    }

    /// The status that `tag` names: a canonical one for its own tag, `Other`
    /// for any other text.
    pub fn from_tag(tag: &str) -> (r: Status)
        ensures
            status_tag(r) == tag@,
            matches!(r, Status::Other(_)) <==> !is_canonical_tag(tag@),
    {
        let t = String::from_str(tag);
        if t == String::from_str("pending") {
            Status::Pending
        } else if t == String::from_str("partial") {
            Status::Partial
        } else if t == String::from_str("paid") {
            Status::Paid
        } else if t == String::from_str("cancelled") {
            Status::Cancelled
        } else {
            Status::Other(t)
        }
    }

    /// The tag that names this status.
    pub fn tag(&self) -> (r: String)
        ensures
            r@ == status_tag(*self),
    {
        match self {
            Status::Pending => String::from_str("pending"),
            Status::Partial => String::from_str("partial"),
            Status::Paid => String::from_str("paid"),
            Status::Cancelled => String::from_str("cancelled"),
            Status::Other(tag) => tag.clone(),
        }
    }

    /// A copy of this status.
    pub fn duplicate(&self) -> (r: Status)
        ensures
            r == *self,
    {
        match self {
            Status::Pending => Status::Pending,
            Status::Partial => Status::Partial,
            Status::Paid => Status::Paid,
            Status::Cancelled => Status::Cancelled,
            Status::Other(tag) => Status::Other(tag.clone()),
        }
    }
}

/// The record of one debt.
#[derive(Clone, Debug, PartialEq, Eq)]
pub struct DebtInfo {
    pub debt_id: u64,
    pub site_id: u64,
    pub customer: String,
    pub total_amount: i128,
    pub paid_amount: i128,
    pub status: Status,
}

impl DebtInfo {
    /// A copy of this record.
    pub fn duplicate(&self) -> (r: DebtInfo)
        ensures
            r == *self,
    {
        DebtInfo {
            debt_id: self.debt_id,
            site_id: self.site_id,
            customer: self.customer.clone(),
            total_amount: self.total_amount,
            paid_amount: self.paid_amount,
            status: self.status.duplicate(),
        }
    }
}

/// One applied payment; never changed once logged.
#[derive(Clone, Debug, PartialEq, Eq)]
pub struct PaymentRecord {
    pub debt_id: u64,
    pub amount: i128,
    pub payment_type: String,
    pub timestamp: u64,
}

impl PaymentRecord {
    /// A copy of this record.
    pub fn duplicate(&self) -> (r: PaymentRecord)
        ensures
            r == *self,
    {
        PaymentRecord {
            debt_id: self.debt_id,
            amount: self.amount,
            payment_type: self.payment_type.clone(),
            timestamp: self.timestamp,
        }
    }
}

/// The keys under which the ledger keeps its entries.
#[derive(Clone, Copy, Debug, PartialEq, Eq)]
pub enum DataKey {
    /// The record of a debt.
    Debt(u64),
    /// The number of payments logged for a debt.
    PaymentCount(u64),
    /// A logged payment: debt id and position in that debt's log.
    Payment(u64, u64),
}

/// A notification that an operation leaves for the event sink.
#[derive(Clone, Debug, PartialEq, Eq)]
pub enum LedgerEvent {
    /// A debt was registered.
    DebtRegistered { debt_id: u64, site_id: u64, customer: String, total_amount: i128 },
    /// A payment was applied; `status` is the debt's status after it.
    PaymentRegistered { debt_id: u64, amount: i128, payment_type: String, status: Status },
    /// A debt's status was overridden.
    StatusChanged { debt_id: u64, status: Status },
}

/// Why a ledger operation was refused. A refused operation changes nothing.
#[derive(Clone, Copy, Debug, PartialEq, Eq)]
pub enum DebtError {
    /// No debt is registered under the given id.
    NotFound,
    /// The new paid amount, or the payment count, would not fit its integer type.
    Overflow,
}

} // verus!
