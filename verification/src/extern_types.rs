//! Declarations of the outside proving library's types that appear in the
//! bridge's signatures.  Verus treats values of these types as opaque.

use vstd::prelude::*;

verus! {

#[verifier::external_type_specification]
#[verifier::external_body]
pub struct ExWitnessFn(circom_prover::witness::WitnessFn);

#[verifier::external_type_specification]
#[verifier::external_body]
pub struct ExBackendProof(circom_prover::prover::CircomProof);

#[verifier::external_type_specification]
#[verifier::external_body]
pub struct ExPublicInputs(circom_prover::prover::PublicInputs);

#[verifier::external_type_specification]
#[verifier::external_body]
pub struct ExBackendPoints(circom_prover::prover::circom::Proof);

} // verus!
