//! The proof artifact as it crosses the boundary: groth16 curve points in
//! affine/projective coordinates, every coordinate an exact decimal numeral,
//! plus the ordered public outputs of the witness.

use vstd::prelude::*;

use crate::numerals::{check_numeral, dec_val, is_numeral, numeral_lt};

verus! {

/// A point of the first curve group, coordinates as decimal numerals.
pub struct G1 {
    pub x: String,
    pub y: String,
    pub z: String,
}

/// A point of the second curve group; each coordinate is a two-element
/// extension-field value.
pub struct G2 {
    pub x: Vec<String>,
    pub y: Vec<String>,
    pub z: Vec<String>,
}

/// A groth16 proof: the three points and the protocol/curve tags.
pub struct ProofPoints {
    pub a: G1,
    pub b: G2,
    pub c: G1,
    pub protocol: String,
    pub curve: String,
}

/// What `generate_circom_proof` returns: the proof and the public outputs
/// (the witness's designated public subset, in declared order).
pub struct CircomProofResult {
    pub proof_points: ProofPoints,
    pub inputs: Vec<String>,
}

pub open spec fn wf_g1(g: G1) -> bool {
    is_numeral(g.x@) && is_numeral(g.y@) && is_numeral(g.z@)
}

pub open spec fn wf_coord2(v: Seq<String>) -> bool {
    v.len() == 2 && is_numeral(v[0]@) && is_numeral(v[1]@)
}

pub open spec fn wf_g2(g: G2) -> bool {
    wf_coord2(g.x@) && wf_coord2(g.y@) && wf_coord2(g.z@)
}

/// Structural well-formedness of a proof: every coordinate decodes as a
/// decimal numeral and the extension-field coordinates have exactly two
/// limbs.  A proof that fails this cannot even be handed to the backend.
pub open spec fn wf_proof_points(p: ProofPoints) -> bool {
    wf_g1(p.a) && wf_g2(p.b) && wf_g1(p.c)
}

pub open spec fn wf_inputs_list(v: Seq<String>) -> bool {
    forall|i: int| 0 <= i < v.len() ==> is_numeral(#[trigger] v[i]@)
}

pub open spec fn wf_proof_result(r: CircomProofResult) -> bool {
    wf_proof_points(r.proof_points) && wf_inputs_list(r.inputs@)
}

/// A numeral that decodes into the field of modulus `m`: the backend can
/// turn it into a field element without fault.
pub open spec fn coord_in_field(s: Seq<char>, m: Seq<char>) -> bool {
    is_numeral(s) && dec_val(s) < dec_val(m)
}

pub open spec fn g1_decodable(g: G1, q: Seq<char>) -> bool {
    coord_in_field(g.x@, q) && coord_in_field(g.y@, q) && coord_in_field(g.z@, q)
}

pub open spec fn coord2_decodable(v: Seq<String>, q: Seq<char>) -> bool {
    v.len() == 2 && coord_in_field(v[0]@, q) && coord_in_field(v[1]@, q)
}

pub open spec fn g2_decodable(g: G2, q: Seq<char>) -> bool {
    coord2_decodable(g.x@, q) && coord2_decodable(g.y@, q) && coord2_decodable(g.z@, q)
}

/// A proof artifact the backend can decode: every point coordinate is a
/// numeral below the curve's base-field modulus `q`, and every public
/// input a numeral below the scalar-field modulus `m`.  A proof that fails
/// this cannot be turned into field elements at all.
pub open spec fn proof_decodable(r: CircomProofResult, q: Seq<char>, m: Seq<char>) -> bool {
    &&& g1_decodable(r.proof_points.a, q)
    &&& g2_decodable(r.proof_points.b, q)
    &&& g1_decodable(r.proof_points.c, q)
    &&& forall|i: int|
        0 <= i < r.inputs@.len() ==> coord_in_field((#[trigger] r.inputs@[i])@, m)
}

/// A decodable proof is in particular structurally well formed.
pub proof fn lemma_decodable_wf(r: CircomProofResult, q: Seq<char>, m: Seq<char>)
    requires
        proof_decodable(r, q, m),
    ensures
        wf_proof_result(r),
{
    assert forall|i: int| 0 <= i < r.inputs@.len() implies is_numeral(
        #[trigger] r.inputs@[i]@,
    ) by {
        assert(coord_in_field(r.inputs@[i]@, m));
    };
}

fn check_coord(s: &str, m: &str) -> (r: bool)
    requires
        is_numeral(m@),
    ensures
        r == coord_in_field(s@, m@),
{
    check_numeral(s) && numeral_lt(s, m)
}

fn check_g1_decodable(g: &G1, q: &str) -> (r: bool)
    requires
        is_numeral(q@),
    ensures
        r == g1_decodable(*g, q@),
{
    check_coord(g.x.as_str(), q) && check_coord(g.y.as_str(), q) && check_coord(g.z.as_str(), q)
}

fn check_coord2_decodable(v: &Vec<String>, q: &str) -> (r: bool)
    requires
        is_numeral(q@),
    ensures
        r == coord2_decodable(v@, q@),
{
    v.len() == 2 && check_coord(v[0].as_str(), q) && check_coord(v[1].as_str(), q)
}

fn check_g2_decodable(g: &G2, q: &str) -> (r: bool)
    requires
        is_numeral(q@),
    ensures
        r == g2_decodable(*g, q@),
{
    check_coord2_decodable(&g.x, q) && check_coord2_decodable(&g.y, q) && check_coord2_decodable(
        &g.z,
        q,
    )
}

/// Decodability check of a proof artifact, exactly `proof_decodable`.
pub fn check_proof_decodable(r: &CircomProofResult, q: &str, m: &str) -> (ok: bool)
    requires
        is_numeral(q@),
        is_numeral(m@),
    ensures
        ok == proof_decodable(*r, q@, m@),
{
    if !(check_g1_decodable(&r.proof_points.a, q) && check_g2_decodable(&r.proof_points.b, q)
        && check_g1_decodable(&r.proof_points.c, q)) {
        return false;
    }
    let mut i: usize = 0;
    while i < r.inputs.len()
        invariant
            0 <= i <= r.inputs@.len(),
            is_numeral(m@),
            forall|j: int| 0 <= j < i ==> coord_in_field((#[trigger] r.inputs@[j])@, m@),
        decreases r.inputs@.len() - i,
    {
        if !check_coord(r.inputs[i].as_str(), m) {
            return false;
        }
        i += 1;
    }
    true
}

} // verus!
