//! Interactive message-composition-and-delivery workflow of a command-line
//! mail client: the logic that drives a freshly drafted or edited message to
//! one of four terminal outcomes (delivered, saved as a remote draft, kept as
//! a local draft, or discarded), together with the mailbox operations (list,
//! search, copy, move, delete, save, send, read, attachments, forward, reply,
//! mailto, write) that share its flag and mailbox-transition invariants.
//!
//! The mail-store and mail-transport collaborators are abstract interfaces
//! ([`store::MailStore`], [`store::MailTransport`]) specified only at their
//! boundary; in-memory implementations ([`mem::MemStore`],
//! [`mem::MemTransport`]) let every ordering invariant be exercised without a
//! network.

pub mod account;
pub mod compose;
pub mod error;
pub mod flag;
pub mod mbox;
pub mod mem;
pub mod msg;
pub mod ops;
pub mod store;
pub mod textutil;
pub mod uri;
