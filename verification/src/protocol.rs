//! The proof protocol around the backend's two key-file calls, plus the
//! stable stubs of circuit systems this build does not enable.  Both
//! operations are single-shot: every failure is returned at once as a
//! structured error, with no retry and no fallback.
//!
//! The proving library reads the proving-key file from disk and can abort
//! inside arkworks on faults no value check can rule out (an unreadable or
//! truncated key, a point off the curve).  The library therefore splits
//! each operation in two verified halves: `prepare_*` performs every gate
//! that is decided by values — lookup, parsing, validation, witness
//! computation, decodability — and hands the host a request; the host makes
//! the one backend call, converting an abort into an error; `finish_*`
//! turns the backend's outcome into the result, mapping every fault into
//! the error taxonomy.

use vstd::prelude::*;

use crate::backend::{
    artifact_of_backend, backend_inputs_of, backend_points_of, backend_proof_of, convert_point_b,
    convert_points_ac, convert_public_inputs, copy_witness_fn, mk_backend_points, mk_public_inputs,
    points_text, proof_tags, rebuild_backend_proof, tags_text,
};
use crate::errors::MoproError;
use crate::inputs::{backend_json_of, parse_inputs, sp_inputs, to_backend_json};
use crate::proofdata::{
    check_proof_decodable, lemma_decodable_wf, proof_decodable, wf_proof_result,
    CircomProofResult, ProofPoints,
};
use crate::registry::CircomRegistry;
use crate::strutil::{file_name_of, zkey_file_name};
use crate::witness::{
    compute_witness, lemma_wf_entries_from_match, matches_signals, names_offender,
    values_in_range,
};

verus! {

/// The proving/verification library a call should use.  Only the arkworks
/// backend is compiled into this build; selecting another fails with
/// `NotConfigured` before anything else is examined.
#[derive(Clone, Copy)]
pub enum ProofLib {
    Arkworks,
    Rapidsnark,
}

/// Everything the host needs for the one proving call: the registered
/// witness generator, the proving-key path, and the canonical input text.
/// The backend recomputes the witness from that text; by the generator's
/// determinism invariant it is the witness already computed during
/// preparation.
pub struct CircomProofRequest {
    pub witness_fn: circom_prover::witness::WitnessFn,
    pub zkey_path: String,
    pub canonical_inputs: String,
}

/// Everything the host needs for the one verification call: the rebuilt
/// backend proof and the key path.
pub struct CircomVerifyRequest {
    pub backend_proof: circom_prover::prover::CircomProof,
    pub zkey_path: String,
}

/// The input text parses and the result matches the declared signals of the
/// circuit registered under `id`.
pub open spec fn inputs_accepted(reg: CircomRegistry, id: Seq<char>, s: Seq<char>) -> bool {
    match sp_inputs(s) {
        Some(es) => matches_signals(es, reg.descriptor_of(id).signals@),
        None => false,
    }
}

/// Every parsed input value lies within the field of the circuit registered
/// under `id`.
pub open spec fn inputs_ranged(reg: CircomRegistry, id: Seq<char>, s: Seq<char>) -> bool {
    match sp_inputs(s) {
        Some(es) => values_in_range(es, reg.descriptor_of(id).field_modulus@),
        None => false,
    }
}

/// The proof decodes under the moduli of the circuit registered under `id`.
pub open spec fn proof_decodable_for(
    reg: CircomRegistry,
    id: Seq<char>,
    pr: CircomProofResult,
) -> bool {
    proof_decodable(pr, reg.descriptor_of(id).base_field_modulus@, reg.descriptor_of(
        id,
    ).field_modulus@)
}

/// Every value-decided gate of proof generation, in order: an unknown
/// circuit is exactly `CircuitNotFound`; unparsable or mismatched inputs
/// are exactly `InvalidInput`, found before any witness work; an input
/// value outside the field is `WitnessComputation`, as is a witness
/// generator that rejects its inputs.  On success the returned request
/// carries the registered generator, the key path unchanged, and the
/// canonical text of the parsed inputs.
pub fn prepare_circom_proof(
    registry: &CircomRegistry,
    zkey_path: String,
    circuit_inputs: String,
    lib: ProofLib,
) -> (r: Result<CircomProofRequest, MoproError>)
    requires
        registry.wf(),
    ensures
        (lib matches ProofLib::Rapidsnark) ==> (r matches Err(e) && e
            matches MoproError::NotConfigured(_)),
        (lib matches ProofLib::Arkworks) ==> {
            let id = file_name_of(zkey_path@);
            &&& ((r matches Err(e) && e matches MoproError::CircuitNotFound(_))
                <==> !registry.contains_id(id))
            &&& ((r matches Err(e) && e matches MoproError::InvalidInput(_))
                <==> (registry.contains_id(id) && !inputs_accepted(*registry, id, circuit_inputs@)))
            &&& (r matches Err(e) ==> (e matches MoproError::InvalidInput(m) ==> (sp_inputs(
                circuit_inputs@,
            ) matches Some(es) ==> names_offender(
                m@,
                es,
                registry.descriptor_of(id).signals@,
            ))))
            &&& (registry.contains_id(id) && inputs_accepted(*registry, id, circuit_inputs@)
                && !inputs_ranged(*registry, id, circuit_inputs@) ==> (r matches Err(e) && e
                matches MoproError::WitnessComputation(_)))
            &&& (r matches Ok(req) ==> {
                &&& registry.contains_id(id)
                &&& inputs_accepted(*registry, id, circuit_inputs@)
                &&& inputs_ranged(*registry, id, circuit_inputs@)
                &&& req.zkey_path@ == zkey_path@
                &&& req.witness_fn == registry.descriptor_of(id).witness_fn
                &&& (sp_inputs(circuit_inputs@) matches Some(es) && req.canonical_inputs@
                    == backend_json_of(es))
            })
            &&& (registry.contains_id(id) && inputs_accepted(*registry, id, circuit_inputs@)
                && inputs_ranged(*registry, id, circuit_inputs@) ==> ((r matches Ok(_)) || (
            r matches Err(e) && e matches MoproError::WitnessComputation(_))))
        },
{
    match lib {
        ProofLib::Rapidsnark => {
            return Err(
                MoproError::NotConfigured(
                    "the rapidsnark backend is not enabled in this build".to_owned(),
                ),
            );
        },
        ProofLib::Arkworks => {},
    }
    let id = zkey_file_name(zkey_path.as_str());
    let d = match registry.lookup(id.as_str()) {
        None => {
            return Err(
                MoproError::CircuitNotFound(
                    "no circuit is registered under ".to_owned().concat(id.as_str()),
                ),
            );
        },
        Some(d) => d,
    };
    let ci = match parse_inputs(circuit_inputs.as_str()) {
        None => {
            return Err(
                MoproError::InvalidInput(
                    "circuit inputs are not a well-formed input object".to_owned(),
                ),
            );
        },
        Some(ci) => ci,
    };
    match compute_witness(d, &ci) {
        Err(e) => {
            return Err(e);
        },
        Ok(_witness) => {},
    }
    let json = to_backend_json(&ci);
    proof {
        lemma_wf_entries_from_match(ci@, *d);
        assert(json@ == backend_json_of(ci@));
    }
    Ok(
        CircomProofRequest {
            witness_fn: copy_witness_fn(&d.witness_fn),
            zkey_path,
            canonical_inputs: json,
        },
    )
}

/// Turns the backend's proving outcome into the protocol's result: a proof
/// is converted into its textual artifact with the public outputs; a
/// backend fault — a corrupt or unreadable proving key, an abort the host
/// caught — is `ProvingError` with the fault's message.
pub fn finish_circom_proof(outcome: Result<circom_prover::prover::CircomProof, String>) -> (r:
    Result<CircomProofResult, MoproError>)
    ensures
        (r matches Ok(pr)) == (outcome matches Ok(_)),
        r matches Ok(pr) ==> wf_proof_result(pr),
        outcome matches Ok(cp) ==> (r matches Ok(pr) ==> artifact_of_backend(cp, pr)),
        outcome matches Err(m) ==> (r matches Err(e) && e matches MoproError::Proving(m2) && m2@
            == m@),
{
    match outcome {
        Ok(cp) => {
            let (a, c) = convert_points_ac(&cp);
            let b = convert_point_b(&cp);
            let (protocol, curve) = proof_tags(&cp);
            let outputs = convert_public_inputs(&cp);
            Ok(
                CircomProofResult {
                    proof_points: ProofPoints { a, b, c, protocol, curve },
                    inputs: outputs,
                },
            )
        },
        Err(m) => Err(MoproError::Proving(m)),
    }
}

/// Every value-decided gate of proof verification: an unknown circuit is
/// exactly `CircuitNotFound`; a proof that does not decode under the
/// registered moduli — a coordinate that is no numeral or at least the
/// base-field modulus, an extension coordinate without exactly two limbs,
/// a public input at least the scalar-field modulus — is exactly
/// `VerificationError`, and nothing else ever is.  On success the request
/// carries the rebuilt backend proof and the key path unchanged; the
/// backend's later verdict on such a decodable proof is a boolean, a
/// decodable-but-invalid proof yielding `false`, not an error.
pub fn prepare_circom_verification(
    registry: &CircomRegistry,
    zkey_path: String,
    proof_result: CircomProofResult,
    lib: ProofLib,
) -> (r: Result<CircomVerifyRequest, MoproError>)
    requires
        registry.wf(),
    ensures
        (lib matches ProofLib::Rapidsnark) ==> (r matches Err(e) && e
            matches MoproError::NotConfigured(_)),
        (lib matches ProofLib::Arkworks) ==> {
            let id = file_name_of(zkey_path@);
            &&& ((r matches Err(e) && e matches MoproError::CircuitNotFound(_))
                <==> !registry.contains_id(id))
            &&& (registry.contains_id(id) ==> ((r matches Err(e) && e
                matches MoproError::Verification(_)) <==> !proof_decodable_for(
                *registry,
                id,
                proof_result,
            )))
            &&& ((r matches Ok(req)) <==> (registry.contains_id(id) && proof_decodable_for(
                *registry,
                id,
                proof_result,
            )))
            &&& (r matches Ok(req) ==> req.zkey_path@ == zkey_path@ && req.backend_proof
                == backend_proof_of(
                backend_points_of(
                    points_text(proof_result.proof_points),
                    tags_text(proof_result.proof_points),
                ),
                backend_inputs_of(proof_result.inputs@.map_values(|s: String| s@)),
            ))
        },
{
    match lib {
        ProofLib::Rapidsnark => {
            return Err(
                MoproError::NotConfigured(
                    "the rapidsnark backend is not enabled in this build".to_owned(),
                ),
            );
        },
        ProofLib::Arkworks => {},
    }
    let id = zkey_file_name(zkey_path.as_str());
    let d = match registry.lookup(id.as_str()) {
        None => {
            return Err(
                MoproError::CircuitNotFound(
                    "no circuit is registered under ".to_owned().concat(id.as_str()),
                ),
            );
        },
        Some(d) => d,
    };
    if !check_proof_decodable(
        &proof_result,
        d.base_field_modulus.as_str(),
        d.field_modulus.as_str(),
    ) {
        return Err(
            MoproError::Verification(
                "the proof does not decode under the circuit's field moduli".to_owned(),
            ),
        );
    }
    proof {
        lemma_decodable_wf(proof_result, d.base_field_modulus@, d.field_modulus@);
    }
    let pf = mk_backend_points(&proof_result.proof_points);
    let pi = mk_public_inputs(&proof_result.inputs);
    let bp = rebuild_backend_proof(pf, pi);
    Ok(CircomVerifyRequest { backend_proof: bp, zkey_path })
}

/// Turns the backend's verification outcome into the protocol's result: the
/// boolean verdict passes through unchanged, so a decodable-but-invalid
/// proof stays `Ok(false)`; a backend fault — corrupt or unreadable key
/// material, an abort the host caught — is `ProvingError`, never
/// `VerificationError`, which is reserved for proofs that do not decode.
pub fn finish_circom_verification(outcome: Result<bool, String>) -> (r: Result<bool, MoproError>)
    ensures
        outcome matches Ok(b) ==> (r matches Ok(b2) && b2 == b),
        outcome matches Err(m) ==> (r matches Err(e) && e matches MoproError::Proving(m2) && m2@
            == m@),
{
    match outcome {
        Ok(b) => Ok(b),
        Err(m) => Err(MoproError::Proving(m)),
    }
}

/// Stable stub of the halo2 circuit system, which this build does not
/// enable: same name and shape, but it fails at once.
pub fn generate_halo2_proof(
    srs_path: String,
    pk_path: String,
    circuit_inputs: String,
) -> (r: Result<(Vec<u8>, Vec<u8>), MoproError>)
    ensures
        r matches Err(e) && e matches MoproError::NotConfigured(_),
{
    Err(MoproError::NotConfigured("the halo2 circuit system is not enabled in this build".to_owned()))
}

/// Stable stub of halo2 verification; see `generate_halo2_proof`.
pub fn verify_halo2_proof(
    srs_path: String,
    vk_path: String,
    proof_bytes: Vec<u8>,
    public_inputs: Vec<u8>,
) -> (r: Result<bool, MoproError>)
    ensures
        r matches Err(e) && e matches MoproError::NotConfigured(_),
{
    Err(MoproError::NotConfigured("the halo2 circuit system is not enabled in this build".to_owned()))
}

/// Stable stub of the noir circuit system, which this build does not
/// enable: same name and shape, but it fails at once.
pub fn generate_noir_proof(circuit_path: String, witness_values: Vec<String>) -> (r: Result<
    Vec<u8>,
    MoproError,
>)
    ensures
        r matches Err(e) && e matches MoproError::NotConfigured(_),
{
    Err(MoproError::NotConfigured("the noir circuit system is not enabled in this build".to_owned()))
}

/// Stable stub of noir verification; see `generate_noir_proof`.
pub fn verify_noir_proof(circuit_path: String, proof_bytes: Vec<u8>) -> (r: Result<
    bool,
    MoproError,
>)
    ensures
        r matches Err(e) && e matches MoproError::NotConfigured(_),
{
    Err(MoproError::NotConfigured("the noir circuit system is not enabled in this build".to_owned()))
}

} // verus!
