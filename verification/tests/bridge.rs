use std::collections::HashMap;

use circom_bridge::inputs::{parse_inputs, to_backend_json, InputValue};
use circom_bridge::numerals::{check_numeral, numeral_lt};
use circom_bridge::proofdata::{CircomProofResult, ProofPoints, G1, G2};
use circom_bridge::registry::{
    CircomRegistry, CircomRegistryBuilder, CircuitDescriptor, SignalShape, SignalSpec,
};
use circom_bridge::strutil::zkey_file_name;
use circom_bridge::witness::{compute_witness, validate_inputs};
use circom_bridge::{
    finish_circom_proof, finish_circom_verification, prepare_circom_proof,
    prepare_circom_verification, MoproError, ProofLib,
};

use circom_prover::prover::circom::{G1 as CG1, G2 as CG2, Proof as CProof};
use circom_prover::prover::{CircomProof as BackendProof, PublicInputs};
use circom_prover::witness::WitnessFn;
use num_bigint::{BigInt, BigUint};

const BN254_R: &str =
    "21888242871839275222246405745257275088548364400416034343698204186575808495617";

const BN254_Q: &str =
    "21888242871839275222246405745257275088696311157297823662689037894645226208583";

const ZKEY_PATH: &str = "./test-vectors/circom/guess_0001.zkey";

/// Deterministic stand-in witness generator for the guess circuit:
/// wire layout [1, equal, x, h, y] with equal = (x == y).
fn guess_witness(inputs: HashMap<String, Vec<BigInt>>) -> Vec<BigInt> {
    let x = inputs["x"][0].clone();
    let h = inputs["h"][0].clone();
    let y = inputs["y"][0].clone();
    let equal = if x == y { 1 } else { 0 };
    vec![BigInt::from(1), BigInt::from(equal), x, h, y]
}

/// A witness generator whose constraints always fail.
fn failing_witness(_inputs: HashMap<String, Vec<BigInt>>) -> Vec<BigInt> {
    panic!("constraint system is unsatisfiable");
}

fn scalar(name: &str) -> SignalSpec {
    SignalSpec { name: name.to_string(), shape: SignalShape::Scalar }
}

fn guess_descriptor() -> CircuitDescriptor {
    CircuitDescriptor {
        circuit_id: "guess_0001.zkey".to_string(),
        signals: vec![scalar("x"), scalar("h"), scalar("y")],
        field_modulus: BN254_R.to_string(),
        base_field_modulus: BN254_Q.to_string(),
        witness_fn: WitnessFn::RustWitness(guess_witness),
    }
}

fn guess_registry() -> CircomRegistry {
    let mut b = CircomRegistryBuilder::new();
    b.register(guess_descriptor()).unwrap();
    b.build()
}

fn failing_registry() -> CircomRegistry {
    let mut b = CircomRegistryBuilder::new();
    let mut d = guess_descriptor();
    d.witness_fn = WitnessFn::RustWitness(failing_witness);
    b.register(d).unwrap();
    b.build()
}

#[test]
fn test_mopro_hello_world() {
    assert_eq!(circom_bridge::mopro_hello_world(), "Hello, World!");
}

#[test]
fn test_parse_inputs_all_value_forms() {
    let ci = parse_inputs("{\"x\": 2, \"h\": \"3\", \"y\": [4, \"5\"]}").unwrap();
    assert_eq!(ci.entries.len(), 3);
    assert_eq!(ci.entries[0].0, "x");
    assert!(matches!(&ci.entries[0].1, InputValue::Scalar(s) if s == "2"));
    assert_eq!(ci.entries[1].0, "h");
    assert!(matches!(&ci.entries[1].1, InputValue::Scalar(s) if s == "3"));
    assert_eq!(ci.entries[2].0, "y");
    match &ci.entries[2].1 {
        InputValue::Array(vs) => assert_eq!(vs, &vec!["4".to_string(), "5".to_string()]),
        InputValue::Scalar(_) => panic!("y should be an array"),
    }
}

#[test]
fn test_parse_inputs_empty_object() {
    let ci = parse_inputs(" { } ").unwrap();
    assert_eq!(ci.entries.len(), 0);
    let ci2 = parse_inputs("{\"a\":[]}").unwrap();
    assert!(matches!(&ci2.entries[0].1, InputValue::Array(vs) if vs.is_empty()));
}

#[test]
fn test_parse_inputs_rejects_malformed_text() {
    assert!(parse_inputs("").is_none());
    assert!(parse_inputs("{").is_none());
    assert!(parse_inputs("{\"x\": 2").is_none());
    assert!(parse_inputs("{\"x\": 01}").is_none());
    assert!(parse_inputs("{\"x\": -2}").is_none());
    assert!(parse_inputs("{\"x\": 2,}").is_none());
    assert!(parse_inputs("{\"x\": 2} trailing").is_none());
    assert!(parse_inputs("[1, 2]").is_none());
    assert!(parse_inputs("{\"\": 2}").is_none());
    assert!(parse_inputs("{\"x\": }").is_none());
    assert!(parse_inputs("{\"x\": \"2a\"}").is_none());
}

#[test]
fn test_backend_json_is_canonical() {
    let ci = parse_inputs("{\"x\": 2, \"h\": 3, \"y\": 4}").unwrap();
    assert_eq!(to_backend_json(&ci), "{\"x\":[\"2\"],\"h\":[\"3\"],\"y\":[\"4\"]}");
    let ci2 = parse_inputs("{\"a\": [\"1\", 2]}").unwrap();
    assert_eq!(to_backend_json(&ci2), "{\"a\":[\"1\",\"2\"]}");
}

#[test]
fn test_check_numeral_canonical_forms() {
    assert!(check_numeral("0"));
    assert!(check_numeral("7"));
    assert!(check_numeral(BN254_R));
    assert!(!check_numeral(""));
    assert!(!check_numeral("01"));
    assert!(!check_numeral("12a"));
    assert!(!check_numeral("-3"));
}

#[test]
fn test_numeral_ordering() {
    assert!(numeral_lt("9", "10"));
    assert!(!numeral_lt("10", "9"));
    assert!(!numeral_lt("7", "7"));
    assert!(numeral_lt("99999999999999999999999999", BN254_R));
    assert!(!numeral_lt(BN254_R, BN254_R));
    assert!(numeral_lt(BN254_R, BN254_Q));
}

#[test]
fn test_zkey_file_name_extraction() {
    assert_eq!(zkey_file_name(ZKEY_PATH), "guess_0001.zkey");
    assert_eq!(zkey_file_name("guess_0001.zkey"), "guess_0001.zkey");
    assert_eq!(zkey_file_name("a/b/"), "");
}

#[test]
fn test_registry_rejects_duplicates_and_bad_descriptors() {
    let mut b = CircomRegistryBuilder::new();
    assert!(b.register(guess_descriptor()).is_ok());
    assert!(b.register(guess_descriptor()).is_err());
    let mut bad = guess_descriptor();
    bad.circuit_id = "other.zkey".to_string();
    bad.field_modulus = "12x".to_string();
    assert!(b.register(bad).is_err());
    let mut bad_base = guess_descriptor();
    bad_base.circuit_id = "other.zkey".to_string();
    bad_base.base_field_modulus = "".to_string();
    assert!(b.register(bad_base).is_err());
    let mut dup_sig = guess_descriptor();
    dup_sig.circuit_id = "third.zkey".to_string();
    dup_sig.signals.push(scalar("x"));
    assert!(b.register(dup_sig).is_err());
    let mut bad_name = guess_descriptor();
    bad_name.circuit_id = "fourth.zkey".to_string();
    bad_name.signals.push(scalar("a\"b"));
    assert!(b.register(bad_name).is_err());
    let reg = b.build();
    assert!(reg.lookup("guess_0001.zkey").is_some());
    assert!(reg.lookup("other.zkey").is_none());
}

#[test]
fn test_unknown_circuit_always_circuit_not_found() {
    let reg = guess_registry();
    let r = prepare_circom_proof(
        &reg,
        "./test-vectors/circom/missing.zkey".to_string(),
        "{\"x\": 2, \"h\": 3, \"y\": 4}".to_string(),
        ProofLib::Arkworks,
    );
    assert!(matches!(r, Err(MoproError::CircuitNotFound(_))));
    // Regardless of input validity: the same outcome on garbage inputs.
    let r2 = prepare_circom_proof(
        &reg,
        "./test-vectors/circom/missing.zkey".to_string(),
        "not inputs at all".to_string(),
        ProofLib::Arkworks,
    );
    assert!(matches!(r2, Err(MoproError::CircuitNotFound(_))));
    let r3 = prepare_circom_verification(
        &reg,
        "./test-vectors/circom/missing.zkey".to_string(),
        well_formed_proof(),
        ProofLib::Arkworks,
    );
    assert!(matches!(r3, Err(MoproError::CircuitNotFound(_))));
}

#[test]
fn test_invalid_inputs_never_reach_the_prover() {
    // The registered witness generator panics if ever invoked, so a clean
    // InvalidInput also witnesses that validation precedes computation.
    let reg = failing_registry();
    let cases = [
        "{\"x\": 2, \"h\": 3}",                          // missing signal
        "{\"x\": 2, \"h\": 3, \"y\": 4, \"z\": 5}",      // extra signal
        "{\"x\": 2, \"h\": 3, \"y\": [4]}",              // array where scalar expected
        "{\"x\": 2, \"x\": 2, \"y\": 4}",                // duplicate signal
        "{\"x\": 2, \"h\": 3, \"y\": 4",                 // unparsable
    ];
    for inputs in cases {
        let r = prepare_circom_proof(
            &reg,
            ZKEY_PATH.to_string(),
            inputs.to_string(),
            ProofLib::Arkworks,
        );
        assert!(matches!(r, Err(MoproError::InvalidInput(_))), "case: {}", inputs);
    }
}

#[test]
fn test_validate_names_offending_signal() {
    let d = guess_descriptor();
    let missing = parse_inputs("{\"x\": 2, \"h\": 3}").unwrap();
    assert_eq!(validate_inputs(&d.signals, &missing), Some("y".to_string()));
    let extra = parse_inputs("{\"x\": 2, \"h\": 3, \"y\": 4, \"z\": 5}").unwrap();
    assert_eq!(validate_inputs(&d.signals, &extra), Some("z".to_string()));
    let wrong_shape = parse_inputs("{\"x\": 2, \"h\": 3, \"y\": [4]}").unwrap();
    assert_eq!(validate_inputs(&d.signals, &wrong_shape), Some("y".to_string()));
    let duplicated = parse_inputs("{\"x\": 2, \"x\": 2, \"y\": 4}").unwrap();
    assert_eq!(validate_inputs(&d.signals, &duplicated), Some("x".to_string()));
    let good = parse_inputs("{\"x\": 2, \"h\": 3, \"y\": 4}").unwrap();
    assert_eq!(validate_inputs(&d.signals, &good), None);
}

#[test]
fn test_invalid_input_message_names_offender() {
    let d = guess_descriptor();
    let missing = parse_inputs("{\"x\": 2, \"h\": 3}").unwrap();
    match compute_witness(&d, &missing) {
        Err(MoproError::InvalidInput(m)) => {
            assert_eq!(m, "inputs do not match the declared signal y");
        },
        _ => panic!("expected InvalidInput"),
    }
    let reg = guess_registry();
    let r = prepare_circom_proof(
        &reg,
        ZKEY_PATH.to_string(),
        "{\"x\": 2, \"h\": 3, \"y\": 4, \"z\": 5}".to_string(),
        ProofLib::Arkworks,
    );
    match r {
        Err(MoproError::InvalidInput(m)) => {
            assert!(m.ends_with("z"), "message should name the extra signal: {}", m);
        },
        _ => panic!("expected InvalidInput"),
    }
}

#[test]
fn test_witness_determinism() {
    let d = guess_descriptor();
    let ci = parse_inputs("{\"x\": 2, \"h\": 3, \"y\": 4}").unwrap();
    let w1 = compute_witness(&d, &ci).unwrap();
    let ci2 = parse_inputs("{\"x\": 2, \"h\": 3, \"y\": 4}").unwrap();
    let w2 = compute_witness(&d, &ci2).unwrap();
    assert_eq!(w1, w2);
    assert_eq!(w1, vec!["1", "0", "2", "3", "4"]);
}

#[test]
fn test_out_of_field_value_is_witness_error() {
    let mut d = guess_descriptor();
    d.field_modulus = "97".to_string();
    let ci = parse_inputs("{\"x\": 2, \"h\": 3, \"y\": 100}").unwrap();
    let r = compute_witness(&d, &ci);
    assert!(matches!(r, Err(MoproError::WitnessComputation(_))));
    // The modulus itself is already out of range (values must be below it).
    let ci2 = parse_inputs("{\"x\": 2, \"h\": 3, \"y\": 97}").unwrap();
    assert!(matches!(compute_witness(&d, &ci2), Err(MoproError::WitnessComputation(_))));
    // In range, the witness is computed.
    let ci3 = parse_inputs("{\"x\": 2, \"h\": 3, \"y\": 96}").unwrap();
    assert!(compute_witness(&d, &ci3).is_ok());
}

#[test]
fn test_unsatisfiable_constraints_are_witness_error() {
    let reg = failing_registry();
    let r = prepare_circom_proof(
        &reg,
        ZKEY_PATH.to_string(),
        "{\"x\": 2, \"h\": 3, \"y\": 4}".to_string(),
        ProofLib::Arkworks,
    );
    assert!(matches!(r, Err(MoproError::WitnessComputation(_))));
}

#[test]
fn test_prepare_proof_builds_canonical_request() {
    let reg = guess_registry();
    let req = prepare_circom_proof(
        &reg,
        ZKEY_PATH.to_string(),
        "{\"x\": 2, \"h\": 3, \"y\": 4}".to_string(),
        ProofLib::Arkworks,
    )
    .unwrap();
    assert_eq!(req.zkey_path, ZKEY_PATH);
    assert_eq!(req.canonical_inputs, "{\"x\":[\"2\"],\"h\":[\"3\"],\"y\":[\"4\"]}");
}

fn well_formed_proof() -> CircomProofResult {
    let a = G1 { x: "1".to_string(), y: "2".to_string(), z: "1".to_string() };
    let b = G2 {
        x: vec!["3".to_string(), "4".to_string()],
        y: vec!["5".to_string(), "6".to_string()],
        z: vec!["1".to_string(), "0".to_string()],
    };
    let c = G1 { x: "7".to_string(), y: "8".to_string(), z: "1".to_string() };
    let points = ProofPoints {
        a,
        b,
        c,
        protocol: "groth16".to_string(),
        curve: "bn128".to_string(),
    };
    CircomProofResult { proof_points: points, inputs: vec!["9".to_string(), "10".to_string()] }
}

#[test]
fn test_undecodable_proof_is_verification_error() {
    let reg = guess_registry();
    let mut tampered = well_formed_proof();
    tampered.proof_points.a.x = "12x".to_string();
    let r = prepare_circom_verification(&reg, ZKEY_PATH.to_string(), tampered, ProofLib::Arkworks);
    assert!(matches!(r, Err(MoproError::Verification(_))));

    let mut short_limb = well_formed_proof();
    short_limb.proof_points.b.y = vec!["5".to_string()];
    let r2 = prepare_circom_verification(
        &reg,
        ZKEY_PATH.to_string(),
        short_limb,
        ProofLib::Arkworks,
    );
    assert!(matches!(r2, Err(MoproError::Verification(_))));

    // A coordinate at the base-field modulus does not decode.
    let mut out_of_field = well_formed_proof();
    out_of_field.proof_points.c.y = BN254_Q.to_string();
    let r3 = prepare_circom_verification(
        &reg,
        ZKEY_PATH.to_string(),
        out_of_field,
        ProofLib::Arkworks,
    );
    assert!(matches!(r3, Err(MoproError::Verification(_))));

    // A public input at the scalar-field modulus does not decode.
    let mut bad_output = well_formed_proof();
    bad_output.inputs = vec![BN254_R.to_string()];
    let r4 = prepare_circom_verification(
        &reg,
        ZKEY_PATH.to_string(),
        bad_output,
        ProofLib::Arkworks,
    );
    assert!(matches!(r4, Err(MoproError::Verification(_))));

    // The untampered proof decodes and yields a request.
    let r5 = prepare_circom_verification(
        &reg,
        ZKEY_PATH.to_string(),
        well_formed_proof(),
        ProofLib::Arkworks,
    );
    assert_eq!(r5.unwrap().zkey_path, ZKEY_PATH);
}

fn backend_proof_fixture() -> BackendProof {
    let bu = |v: u32| BigUint::from(v);
    BackendProof {
        proof: CProof {
            a: CG1 { x: bu(1), y: bu(2), z: bu(1) },
            b: CG2 { x: [bu(3), bu(4)], y: [bu(5), bu(6)], z: [bu(1), bu(0)] },
            c: CG1 { x: bu(7), y: bu(8), z: bu(1) },
            protocol: "groth16".to_string(),
            curve: "bn128".to_string(),
        },
        pub_inputs: PublicInputs(vec![bu(9), bu(10)]),
    }
}

#[test]
fn test_finish_proof_converts_backend_values() {
    let pr = finish_circom_proof(Ok(backend_proof_fixture())).unwrap();
    assert_eq!(pr.proof_points.a.x, "1");
    assert_eq!(pr.proof_points.a.y, "2");
    assert_eq!(pr.proof_points.a.z, "1");
    assert_eq!(pr.proof_points.b.x, vec!["3".to_string(), "4".to_string()]);
    assert_eq!(pr.proof_points.b.y, vec!["5".to_string(), "6".to_string()]);
    assert_eq!(pr.proof_points.b.z, vec!["1".to_string(), "0".to_string()]);
    assert_eq!(pr.proof_points.c.x, "7");
    assert_eq!(pr.proof_points.c.y, "8");
    assert_eq!(pr.proof_points.c.z, "1");
    assert_eq!(pr.proof_points.protocol, "groth16");
    assert_eq!(pr.proof_points.curve, "bn128");
    assert_eq!(pr.inputs, vec!["9".to_string(), "10".to_string()]);

    let r = finish_circom_proof(Err("zkey file is corrupt".to_string()));
    match r {
        Err(MoproError::Proving(m)) => assert_eq!(m, "zkey file is corrupt"),
        _ => panic!("expected a proving error"),
    }
}

#[test]
fn test_finish_verification_passes_verdicts() {
    assert!(matches!(finish_circom_verification(Ok(true)), Ok(true)));
    assert!(matches!(finish_circom_verification(Ok(false)), Ok(false)));
    let r = finish_circom_verification(Err("zkey file is missing".to_string()));
    match r {
        Err(MoproError::Proving(m)) => assert_eq!(m, "zkey file is missing"),
        _ => panic!("expected a proving error"),
    }
}

#[test]
fn test_unconfigured_backends_and_systems() {
    let reg = guess_registry();
    let r = prepare_circom_proof(
        &reg,
        ZKEY_PATH.to_string(),
        "{\"x\": 2, \"h\": 3, \"y\": 4}".to_string(),
        ProofLib::Rapidsnark,
    );
    assert!(matches!(r, Err(MoproError::NotConfigured(_))));
    let r2 = prepare_circom_verification(
        &reg,
        ZKEY_PATH.to_string(),
        well_formed_proof(),
        ProofLib::Rapidsnark,
    );
    assert!(matches!(r2, Err(MoproError::NotConfigured(_))));
    assert!(matches!(
        circom_bridge::generate_halo2_proof("srs".to_string(), "pk".to_string(), "{}".to_string()),
        Err(MoproError::NotConfigured(_))
    ));
    assert!(matches!(
        circom_bridge::verify_halo2_proof(
            "srs".to_string(),
            "vk".to_string(),
            vec![1u8],
            vec![2u8]
        ),
        Err(MoproError::NotConfigured(_))
    ));
    assert!(matches!(
        circom_bridge::generate_noir_proof("c".to_string(), vec!["1".to_string()]),
        Err(MoproError::NotConfigured(_))
    ));
    assert!(matches!(
        circom_bridge::verify_noir_proof("c".to_string(), vec![1u8]),
        Err(MoproError::NotConfigured(_))
    ));
}

#[test]
fn test_error_messages_carried() {
    let e = MoproError::CircuitNotFound("missing".to_string());
    assert_eq!(e.message(), "missing");
    let reg = guess_registry();
    let r = prepare_circom_proof(
        &reg,
        "nowhere.zkey".to_string(),
        "{}".to_string(),
        ProofLib::Arkworks,
    );
    match r {
        Err(e) => assert_eq!(e.message(), "no circuit is registered under nowhere.zkey"),
        Ok(_) => panic!("expected an error"),
    }
}
