//! Community photo-gallery workflow engine.
//!
//! Groups of users are given timed windows to publish photos; members who
//! miss the window get a personal grace period, and selected workflow steps
//! only take effect after the group approves them by vote. The heart of the
//! crate is the scheduled-event engine: a small closed set of event
//! behaviours (publication, late publication, group voting) selected at run
//! time by an integer variant id, each carrying an opaque serialized payload
//! that only the owning variant knows how to read. Group voting acts as a
//! decorator: it wraps another variant's payload and applies that variant's
//! change only when the vote reaches quorum.
//!
//! Storage, HTTP routing and mail transport are external collaborators; the
//! engine reads and writes through the in-memory data-access model in
//! [`store`] and hands outbound mail to a queue that a driver drains.

pub mod answer;
pub mod answer_types;
pub mod codec;
pub mod events;
pub mod mailer;
pub mod store;
pub mod tally;
pub mod types;
