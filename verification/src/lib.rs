//! A typed message-payload model and its conversion contract into a host
//! value representation.
//!
//! The crate defines the closed payload union [`data::Data`] with its
//! per-variant records, the conversion of every variant into the dynamically
//! typed [`host::HostValue`] representation of the embedding runtime, the
//! tagged wire shape (`type` / `content`) with a verified decoder, and the
//! typed extraction used by dispatch code after a message has been routed.

pub mod codec;
pub mod convert;
pub mod data;
pub mod host;
pub mod timestamp;

use vstd::prelude::*;

verus! {

} // verus!
