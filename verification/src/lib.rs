//! Verified core of a small suite of ledger-resident state machines:
//! a proportional payment splitter, an escrowed marketplace, a
//! time-window membership pass, an invoice registry, a name registrar
//! and a badge mint.
//!
//! Each component is a pure state machine. The surrounding ledger
//! runtime (persistent storage, the per-call authorization oracle, the
//! ledger-sequence clock, event publication and the token contract that
//! moves value) stays outside: authorization grants and the current
//! ledger sequence come in as arguments, and the transfers a call must
//! perform come back out as values, so that every decision the
//! components make is verified here.

pub mod ledger;
pub mod shares;
pub mod store;
pub mod split_router;
pub mod marketplace;
pub mod lumen_pass;
pub mod invoice_registry;
pub mod badges;
pub mod registrar;
