//! Session-typed communication channels.
//!
//! A conversation between two endpoints is described by a [`Protocol`]
//! value: a grammar of sends, receives, branch points and recursion.  Two
//! paired channel handles always carry mutually dual protocols, so that one
//! side's send is the other side's receive and one side's active choice is
//! the other side's passive offer.  Every operation on a handle consumes it
//! and returns a handle at the successor protocol, and each operation's
//! contract pins down exactly how the remaining protocol and the recursion
//! environment evolve.
//!
//! The protocol is carried as a run-time value, not as a type, so legality
//! of each step rests on the operations' `requires` clauses: a verified
//! caller is held to them statically, while a caller outside verification
//! that breaks them is stopped by the operation's defect path at run time.
//!
//! Two defect paths are deliberately weaker here than a design built on
//! destructors and aborts would make them, because verified code neither
//! panics nor runs destructors of its own:
//!
//! - Dropping a handle whose protocol is not `End` is not trapped at run
//!   time.  The discipline is carried instead by `#[must_use]` on the
//!   handle types and by [`Chan::close`] being the one operation legal at
//!   `End` — for verified callers, abandoning a conversation early is a
//!   contract violation rather than an abort.
//! - A peer that signals a branch past the end of an offer list — a
//!   protocol violation that mutually dual endpoints can never produce —
//!   surfaces as the explicit defect value `OfferError::OutOfRange`
//!   through [`Offers::finish`] rather than as a fatal abort.

pub mod chan;
pub mod mpsc;
pub mod proto;
pub mod state;

pub use chan::Carrier;
pub use chan::OfferError;
pub use chan::Offers;
pub use chan::Chan;
pub use chan::ChannelRecv;
pub use chan::ChannelSend;
pub use chan::Session;

pub use mpsc::Channel;
pub use mpsc::channel_pair;
pub use mpsc::ChannelError;
pub use mpsc::Msg;
pub use mpsc::session_channel;

pub use proto::ProtoList;
pub use proto::Protocol;
