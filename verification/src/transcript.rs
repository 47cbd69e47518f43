//! The append-only, domain-separated transcript that binds Fiat-Shamir
//! proofs to their protocol run, sub-protocol and sender.
//!
//! The transcript state is opaque: nothing is stated of the challenges it
//! yields, and every function that consumes one takes it as an argument
//! and is verified for every value of it.

use vstd::prelude::*;

verus! {

#[verifier::external_type_specification]
#[verifier::external_body]
pub struct ExTranscript(magikitten::Transcript);

/// Starts a domain-separated transcript.
///
/// Relies on `magikitten::Transcript::new`.
#[verifier::external_body]
pub(crate) fn transcript_new(protocol: &'static str) -> magikitten::Transcript {
    magikitten::Transcript::new(protocol.as_bytes())
}

/// Absorbs one labeled message into the transcript.
///
/// Relies on `magikitten::Transcript::message`.
#[verifier::external_body]
pub(crate) fn transcript_message(
    t: &mut magikitten::Transcript,
    label: &'static str,
    data: &Vec<u8>,
) {
    t.message(label.as_bytes(), data);
}

/// An independent child transcript bound to the given label and data.
///
/// Relies on `magikitten::Transcript::forked`.
#[verifier::external_body]
pub(crate) fn transcript_forked(
    t: &magikitten::Transcript,
    label: &'static str,
    data: &Vec<u8>,
) -> magikitten::Transcript {
    t.forked(label.as_bytes(), data)
}

} // verus!
