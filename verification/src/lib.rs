//! Fixed-width binary records for a message bridge.
//!
//! A request carries a structured record; the bridge packs it into a
//! fixed-width byte layout and hands the bytes to a broker producer. This
//! crate holds the codec of the text and boolean fields, the two record
//! layouts, and the decisions of the two ways of publishing.
//!
//! Integers travel in little-endian byte order, whatever the host.

pub mod payloads;
pub mod publisher;
pub mod types;

pub use payloads::{MalformedRecordError, PingFields, PingPayload, PongFields, PongPayload};
pub use publisher::{Action, Event, OutboundMessage, Phase, PublishError, PublishMode};
pub use types::{Bool, CharArray};
