# aws_mls (verified pieces)

Parts of an MLS group implementation, proved with Verus:

- `codec`, `varint`: the MLS encoding of integers, variable-length integers and
  byte vectors, with encode/decode round trip laws.
- `framing`: framed content, authentication data and the group context, with
  their encodings.
- `transcript_hash`: the confirmed and interim transcript hashes; the hash
  itself comes from a user-supplied `CipherSuiteProvider`.
- `membership_tag`: what a membership tag is the MAC of.
- `proposal`, `filtering`: the proposal bundle of a commit and the rules that
  drop invalid proposals or reject the commit.

`app/` holds the error type with its messages and the HMAC of the membership
tag, which the `ferriscrypt` crate computes.
