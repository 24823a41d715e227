//! The boundary to the outside proving library (circom-prover): wrappers
//! for the witness generator and for the conversions between the library's
//! textual proof artifact and the backend's types.  Each wrapper's contract
//! states only what the library's source shows.  The backend's two
//! key-file-reading calls are not wrapped here: they can abort inside the
//! proving library, so the host performs them between the protocol's
//! prepare and finish halves.

use vstd::prelude::*;

use circom_prover::prover::circom::{G1 as CG1, G2 as CG2, Proof as CProof};
use circom_prover::prover::{CircomProof as BackendProof, PublicInputs};
use num_bigint::BigUint;

use crate::inputs::{backend_json_of, wf_entries, InputValueV};
use crate::numerals::is_numeral;
use crate::proofdata::{
    wf_g1, wf_g2, wf_inputs_list, wf_proof_points, CircomProofResult, ProofPoints, G1, G2,
};

verus! {

/// Text in the canonical backend form that `crate::inputs::to_backend_json`
/// writes for well-formed entries: always a valid input object, so the
/// backend's own parser cannot reject it.
pub open spec fn is_backend_json(s: Seq<char>) -> bool {
    exists|es: Seq<(Seq<char>, InputValueV)>| wf_entries(es) && s == backend_json_of(es)
}

/// The outcome of running a witness generator on an input text: the
/// witness vector as decimal numerals, or a failure.  A function of its
/// arguments alone, by the generators' determinism invariant: a registered
/// generator always maps the same inputs to the same witness.
pub uninterp spec fn witness_outcome_of(
    wit_fn: circom_prover::witness::WitnessFn,
    json: Seq<char>,
) -> Result<Seq<Seq<char>>, Seq<char>>;

/// The observable content of a witness run's result.
pub open spec fn witness_outcome_view(r: Result<Vec<String>, String>) -> Result<
    Seq<Seq<char>>,
    Seq<char>,
> {
    match r {
        Ok(w) => Ok(w@.map_values(|s: String| s@)),
        Err(m) => Err(m@),
    }
}

/// Relies on circom_prover::witness::generate_witness: runs the circuit's
/// witness generator on the canonical input text in a worker thread and
/// joins it, so a generator that rejects its inputs (an unsatisfiable
/// constraint, an out-of-field value) becomes an error, not a crash.  Each
/// witness element is written by BigUint's decimal Display, a canonical
/// numeral.  The outcome is named `witness_outcome_of`, resting on the
/// generator's determinism invariant.
#[verifier::external_body]
pub(crate) fn run_native_witness(wit_fn: &circom_prover::witness::WitnessFn, json: &str) -> (r:
    Result<Vec<String>, String>)
    requires
        is_backend_json(json@),
    ensures
        r matches Ok(w) ==> wf_inputs_list(w@),
        witness_outcome_view(r) == witness_outcome_of(*wit_fn, json@),
{
    let handle = circom_prover::witness::generate_witness(*wit_fn, json.to_string());
    match handle.join() {
        Ok(w) => Ok(w.iter().map(|b| b.to_string()).collect()),
        Err(_) => Err("witness computation failed for the given inputs".to_string()),
    }
}

/// Relies on WitnessFn being Copy (a tag over plain function pointers):
/// hands out the registered generator so the host can run the backend's
/// proving call with it.
#[verifier::external_body]
pub(crate) fn copy_witness_fn(wf: &circom_prover::witness::WitnessFn) -> (r:
    circom_prover::witness::WitnessFn)
    ensures
        r == *wf,
{
    *wf
}

/// The textual form of a backend proof's first-group points `a` and `c`:
/// the six coordinates, in order, as decimal numerals.  A function of the
/// proof value alone (BigUint's decimal Display).
pub uninterp spec fn points_ac_text_of(cp: circom_prover::prover::CircomProof) -> Seq<Seq<char>>;

/// Relies on the public field layout of circom_prover's CircomProof and on
/// BigUint's decimal Display: the proof's first-group points `a` and `c`,
/// every coordinate a canonical numeral, named by `points_ac_text_of`.
#[verifier::external_body]
pub(crate) fn convert_points_ac(cp: &circom_prover::prover::CircomProof) -> (r: (G1, G1))
    ensures
        wf_g1(r.0) && wf_g1(r.1),
        r.0.x@ == points_ac_text_of(*cp)[0],
        r.0.y@ == points_ac_text_of(*cp)[1],
        r.0.z@ == points_ac_text_of(*cp)[2],
        r.1.x@ == points_ac_text_of(*cp)[3],
        r.1.y@ == points_ac_text_of(*cp)[4],
        r.1.z@ == points_ac_text_of(*cp)[5],
{
    let s = |b: &BigUint| b.to_string();
    let p = &cp.proof;
    (
        G1 { x: s(&p.a.x), y: s(&p.a.y), z: s(&p.a.z) },
        G1 { x: s(&p.c.x), y: s(&p.c.y), z: s(&p.c.z) },
    )
}

/// The textual form of a backend proof's second-group point `b`: the six
/// limbs x0, x1, y0, y1, z0, z1, in order, as decimal numerals.  A function
/// of the proof value alone.
pub uninterp spec fn point_b_text_of(cp: circom_prover::prover::CircomProof) -> Seq<Seq<char>>;

/// Relies on the public field layout of circom_prover's CircomProof and on
/// BigUint's decimal Display: the proof's second-group point `b`, every
/// coordinate a two-limb array of canonical numerals, named by
/// `point_b_text_of`.
#[verifier::external_body]
pub(crate) fn convert_point_b(cp: &circom_prover::prover::CircomProof) -> (r: G2)
    ensures
        wf_g2(r),
        r.x@[0]@ == point_b_text_of(*cp)[0],
        r.x@[1]@ == point_b_text_of(*cp)[1],
        r.y@[0]@ == point_b_text_of(*cp)[2],
        r.y@[1]@ == point_b_text_of(*cp)[3],
        r.z@[0]@ == point_b_text_of(*cp)[4],
        r.z@[1]@ == point_b_text_of(*cp)[5],
{
    let s = |b: &BigUint| b.to_string();
    let q = |v: &[BigUint; 2]| vec![s(&v[0]), s(&v[1])];
    let p = &cp.proof;
    G2 { x: q(&p.b.x), y: q(&p.b.y), z: q(&p.b.z) }
}

/// The backend proof's protocol and curve tags, in that order.  A function
/// of the proof value alone.
pub uninterp spec fn proof_tags_of(cp: circom_prover::prover::CircomProof) -> Seq<Seq<char>>;

/// Relies on the public field layout of circom_prover's CircomProof: the
/// proof's protocol and curve tags, carried over unchanged, named by
/// `proof_tags_of`.
#[verifier::external_body]
pub(crate) fn proof_tags(cp: &circom_prover::prover::CircomProof) -> (r: (String, String))
    ensures
        r.0@ == proof_tags_of(*cp)[0],
        r.1@ == proof_tags_of(*cp)[1],
{
    (cp.proof.protocol.clone(), cp.proof.curve.clone())
}

/// The textual form of a backend proof's public inputs, in order, as
/// decimal numerals.  A function of the proof value alone.
pub uninterp spec fn public_inputs_text_of(cp: circom_prover::prover::CircomProof) -> Seq<
    Seq<char>,
>;

/// Relies on the public field layout of circom_prover's CircomProof and on
/// BigUint's decimal Display: the proof's public inputs, in order, as
/// canonical numerals, named by `public_inputs_text_of`.
#[verifier::external_body]
pub(crate) fn convert_public_inputs(cp: &circom_prover::prover::CircomProof) -> (r: Vec<String>)
    ensures
        wf_inputs_list(r@),
        r@.map_values(|s: String| s@) == public_inputs_text_of(*cp),
{
    cp.pub_inputs.0.iter().map(|v| v.to_string()).collect()
}

/// The backend value of a list of public inputs given as decimal numerals.
/// A function of the texts alone (BigUint's FromStr).
pub uninterp spec fn backend_inputs_of(ins: Seq<Seq<char>>) -> circom_prover::prover::PublicInputs;

/// Relies on BigUint's FromStr, which accepts every decimal numeral: the
/// proof's public inputs rebuilt from their textual form, named by
/// `backend_inputs_of`.
#[verifier::external_body]
pub(crate) fn mk_public_inputs(ins: &Vec<String>) -> (r: circom_prover::prover::PublicInputs)
    requires
        wf_inputs_list(ins@),
    ensures
        r == backend_inputs_of(ins@.map_values(|s: String| s@)),
{
    PublicInputs(ins.iter().map(|s| s.parse().unwrap()).collect())
}

/// The backend value of three proof points and two tags given as decimal
/// numerals (the twelve coordinates in the order a, b-limbs, c; then
/// protocol and curve).  A function of the texts alone.
pub uninterp spec fn backend_points_of(
    coords: Seq<Seq<char>>,
    tags: Seq<Seq<char>>,
) -> circom_prover::prover::circom::Proof;

/// The twelve coordinate texts of a proof artifact, in the fixed order
/// a.x, a.y, a.z, b.x0, b.x1, b.y0, b.y1, b.z0, b.z1, c.x, c.y, c.z.
pub open spec fn points_text(p: ProofPoints) -> Seq<Seq<char>> {
    seq![
        p.a.x@,
        p.a.y@,
        p.a.z@,
        p.b.x@[0]@,
        p.b.x@[1]@,
        p.b.y@[0]@,
        p.b.y@[1]@,
        p.b.z@[0]@,
        p.b.z@[1]@,
        p.c.x@,
        p.c.y@,
        p.c.z@,
    ]
}

/// The two tag texts of a proof artifact: protocol, then curve.
pub open spec fn tags_text(p: ProofPoints) -> Seq<Seq<char>> {
    seq![p.protocol@, p.curve@]
}

/// Relies on BigUint's FromStr, which accepts every decimal numeral, and on
/// the public constructors of circom_prover's proof types: rebuilds the
/// backend's three proof points and tags from their textual form, named by
/// `backend_points_of`.
#[verifier::external_body]
pub(crate) fn mk_backend_points(p: &ProofPoints) -> (r: CProof)
    requires
        wf_proof_points(*p),
    ensures
        r == backend_points_of(points_text(*p), tags_text(*p)),
{
    let g = |s: &String| s.parse().unwrap();
    let q = |v: &Vec<String>| [g(&v[0]), g(&v[1])];
    CProof {
        a: CG1 { x: g(&p.a.x), y: g(&p.a.y), z: g(&p.a.z) },
        b: CG2 { x: q(&p.b.x), y: q(&p.b.y), z: q(&p.b.z) },
        c: CG1 { x: g(&p.c.x), y: g(&p.c.y), z: g(&p.c.z) },
        protocol: p.protocol.clone(),
        curve: p.curve.clone(),
    }
}

/// The backend proof value pairing given points with given public inputs.
/// A function of its arguments alone (a struct literal).
pub uninterp spec fn backend_proof_of(
    pf: circom_prover::prover::circom::Proof,
    pi: circom_prover::prover::PublicInputs,
) -> circom_prover::prover::CircomProof;

/// Relies on the public constructors of circom_prover's proof types: pairs
/// the rebuilt points with the rebuilt public inputs, named by
/// `backend_proof_of`.
#[verifier::external_body]
pub(crate) fn rebuild_backend_proof(pf: CProof, pi: PublicInputs) -> (r: BackendProof)
    ensures
        r == backend_proof_of(pf, pi),
{
    BackendProof { proof: pf, pub_inputs: pi }
}

/// The textual artifact `pr` is exactly the conversion of the backend
/// proof `cp`: every coordinate, tag and public input equals the named
/// text of `cp`.
pub open spec fn artifact_of_backend(
    cp: circom_prover::prover::CircomProof,
    pr: CircomProofResult,
) -> bool {
    &&& pr.proof_points.a.x@ == points_ac_text_of(cp)[0]
    &&& pr.proof_points.a.y@ == points_ac_text_of(cp)[1]
    &&& pr.proof_points.a.z@ == points_ac_text_of(cp)[2]
    &&& pr.proof_points.c.x@ == points_ac_text_of(cp)[3]
    &&& pr.proof_points.c.y@ == points_ac_text_of(cp)[4]
    &&& pr.proof_points.c.z@ == points_ac_text_of(cp)[5]
    &&& pr.proof_points.b.x@.len() == 2
    &&& pr.proof_points.b.y@.len() == 2
    &&& pr.proof_points.b.z@.len() == 2
    &&& pr.proof_points.b.x@[0]@ == point_b_text_of(cp)[0]
    &&& pr.proof_points.b.x@[1]@ == point_b_text_of(cp)[1]
    &&& pr.proof_points.b.y@[0]@ == point_b_text_of(cp)[2]
    &&& pr.proof_points.b.y@[1]@ == point_b_text_of(cp)[3]
    &&& pr.proof_points.b.z@[0]@ == point_b_text_of(cp)[4]
    &&& pr.proof_points.b.z@[1]@ == point_b_text_of(cp)[5]
    &&& pr.proof_points.protocol@ == proof_tags_of(cp)[0]
    &&& pr.proof_points.curve@ == proof_tags_of(cp)[1]
    &&& pr.inputs@.map_values(|s: String| s@) == public_inputs_text_of(cp)
}

} // verus!
