//! Core of a zero-knowledge proof bridge for circom circuits: a registry of
//! circuits keyed by proving-key file name, validation and witness dispatch
//! for named circuit inputs, and the groth16 prove/verify protocol over a
//! pluggable backend library.
#![allow(unused_imports)]

use vstd::prelude::*;

pub mod backend;
pub mod errors;
pub mod extern_types;
pub mod inputs;
pub mod numerals;
pub mod proofdata;
pub mod protocol;
pub mod registry;
pub mod strutil;
pub mod witness;

pub use crate::errors::MoproError;
pub use crate::proofdata::{CircomProofResult, ProofPoints, G1, G2};
pub use crate::protocol::{
    finish_circom_proof, finish_circom_verification, generate_halo2_proof, generate_noir_proof,
    prepare_circom_proof, prepare_circom_verification, verify_halo2_proof, verify_noir_proof,
    CircomProofRequest, CircomVerifyRequest, ProofLib,
};
pub use crate::registry::{
    CircomRegistry, CircomRegistryBuilder, CircuitDescriptor, SignalShape, SignalSpec,
};
pub use crate::witness::compute_witness;

verus! {

/// Greeting used to check that the bridge is wired up across the boundary.
pub fn mopro_hello_world() -> (r: String)
    ensures
        r@ == "Hello, World!"@,
{
    "Hello, World!".to_owned()
}

} // verus!
