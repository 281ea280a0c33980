//! A ledger of customer debts and of the payments applied against them.
//!
//! Each debt carries a running paid amount and a lifecycle status that is
//! derived from the paid/total relationship on every payment, unless it is
//! overridden explicitly. Each payment is written once, under its debt id and
//! the position given by the debt's payment count, and is never removed.
pub mod registry;
pub mod settlement;
pub mod theorems;
pub mod types;

pub use registry::{DebtRegistry, RegistryView};
pub use settlement::{apply_payment, new_debt, override_status, record_payment, PaymentStep};
pub use types::{DataKey, DebtError, DebtInfo, LedgerEvent, PaymentRecord, Status};
