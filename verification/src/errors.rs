//! Error taxonomy of the proof protocol: every failure of a public operation
//! is one of these kinds, tagged with a human-readable message.

use vstd::prelude::*;

verus! {

/// Structured error returned by every public operation of the bridge.
///
/// The kinds are disjoint: an unregistered circuit is `CircuitNotFound`;
/// inputs that do not match the circuit's declared signals are
/// `InvalidInput`; inputs that match but cannot yield a witness (for
/// instance a value outside the field) are `WitnessComputation`; a backend
/// fault on either operation — corrupt or unreadable proving-key material,
/// an abort the host caught — is `Proving`; `Verification` is reserved for
/// a proof that does not even decode, a decodable-but-invalid proof being
/// the verdict `false` instead; a proof system or backend that this build
/// does not enable is `NotConfigured`.
#[derive(Debug)]
pub enum MoproError {
    CircuitNotFound(String),
    InvalidInput(String),
    WitnessComputation(String),
    Proving(String),
    Verification(String),
    NotConfigured(String),
}

impl MoproError {
    /// The human-readable message carried by any kind of error.
    pub fn message(&self) -> (r: &String)
        ensures
            r@ == self.spec_message(),
    {
        match self {
            MoproError::CircuitNotFound(m) => m,
            MoproError::InvalidInput(m) => m,
            MoproError::WitnessComputation(m) => m,
            MoproError::Proving(m) => m,
            MoproError::Verification(m) => m,
            MoproError::NotConfigured(m) => m,
        }
    }

    pub open spec fn spec_message(&self) -> Seq<char> {
        match self {
            MoproError::CircuitNotFound(m) => m@,
            MoproError::InvalidInput(m) => m@,
            MoproError::WitnessComputation(m) => m@,
            MoproError::Proving(m) => m@,
            MoproError::Verification(m) => m@,
            MoproError::NotConfigured(m) => m@,
        }
    }
}

} // verus!
