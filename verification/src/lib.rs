//! Verified pieces of an MLS (Messaging Layer Security) group implementation:
//! the wire codec for integers and byte vectors, the framing structures that
//! are hashed and MAC'ed, the transcript hashes, the membership tag input, and
//! the rules that filter the proposals of a commit.

pub mod codec;
pub mod varint;
pub mod error;
pub mod framing;
pub mod proposal;
pub mod transcript_hash;
pub mod filtering;
pub mod membership_tag;

pub use codec::{MlsDecode, MlsEncode, MlsSize};
