//! Permissioned record-access core for a ledger of content-addressed
//! medical documents.
//!
//! Three components cooperate:
//! - a permission registry ([`permissions`]): which grantee may act on which
//!   owner's data;
//! - a record store ([`history`]): creation and lookup of immutable,
//!   hash-addressed records, gated by the registry;
//! - a read-only facade ([`reader`]): "owner or permitted" access to stored
//!   records.
//!
//! The host ledger authenticates callers, totalises the operation order and
//! supplies timestamps; this crate holds the rules that decide each operation
//! and proves them.

pub mod events;
pub mod history;
pub mod permissions;
pub mod reader;
pub mod runtime;
pub mod types;
pub mod weights;
