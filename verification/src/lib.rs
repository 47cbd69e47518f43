//! A threshold-signature core: distributed key generation, key resharing,
//! the cooperative protocol substrate both run on, and the bit-matrix
//! primitive used for correlated-randomness generation.

pub mod bits;
pub mod commit;
pub mod keygen;
pub mod curve;
pub mod math;
pub mod participants;
pub mod proofs;
pub mod protocol;
pub mod reshare;
pub mod transcript;

pub use bits::{BitMatrix, BitVector, SquareBitMatrix};
pub use commit::Commitment;
pub use curve::{CurvePoint, CurveScalar};
pub use keygen::{keygen, KeygenMachine, KeygenOutput};
pub use participants::{Participant, ParticipantList, ParticipantMap};
pub use proofs::DlogProof;
pub use reshare::{reshare, run_reshare, ReshareMachine};
pub use protocol::{run_protocol, run_protocol_mpc, Action, AssertionError, InitializationError, Payload, Protocol, ProtocolError};
