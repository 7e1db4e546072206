use ark_bn254::{Bn254, Fr};
use ark_ff::{BigInt, PrimeField};
use ark_groth16::Groth16;
use ark_r1cs_std::alloc::AllocVar;
use ark_r1cs_std::eq::EqGadget;
use ark_r1cs_std::fields::fp::FpVar;
use ark_relations::r1cs::{ConstraintSynthesizer, ConstraintSystemRef, SynthesisError};
use ark_snark::SNARK;
use ark_std::rand::SeedableRng;
use ark_std::UniformRand;
use ibc_mini::circuit::AddCircuit;
use ibc_mini::field::FieldElement;

// The constraint-system encoding of the library's addition relation, as the
// curve library wants it.
#[derive(Clone)]
struct AdditionCircuit {
    a: Option<Fr>,
    c: Option<Fr>,
    b: Option<Fr>,
}

impl ConstraintSynthesizer<Fr> for AdditionCircuit {
    fn generate_constraints(self, cs: ConstraintSystemRef<Fr>) -> Result<(), SynthesisError> {
        let a_var = FpVar::new_input(cs.clone(), || self.a.ok_or(SynthesisError::AssignmentMissing))?;
        let b_var = FpVar::new_witness(cs.clone(), || self.b.ok_or(SynthesisError::AssignmentMissing))?;
        let c_var = FpVar::new_input(cs.clone(), || self.c.ok_or(SynthesisError::AssignmentMissing))?;
        let sum = a_var + b_var;
        c_var.enforce_equal(&sum)?;
        Ok(())
    }
}

fn fr_to_element(x: &Fr) -> FieldElement {
    let limbs = x.into_bigint().0;
    FieldElement::from_limbs(limbs[0], limbs[1], limbs[2], limbs[3])
        .expect("a canonical representation is reduced")
}

fn element_to_fr(x: &FieldElement) -> Fr {
    let (l0, l1, l2, l3) = x.limbs();
    Fr::from_bigint(BigInt::new([l0, l1, l2, l3])).expect("a reduced value fits the field")
}

// The library's assignment, mapped onto the curve library's circuit.
fn to_ark_circuit(circuit: &AddCircuit) -> AdditionCircuit {
    AdditionCircuit {
        a: circuit.a.as_ref().map(element_to_fr),
        c: circuit.c.as_ref().map(element_to_fr),
        b: circuit.b.as_ref().map(element_to_fr),
    }
}

#[test]
fn test_zk_circuit_setup_and_prove() {
    let mut rng = ark_std::rand::rngs::StdRng::seed_from_u64(42);

    let shape = to_ark_circuit(&AddCircuit::setup_shape());
    let keys = Groth16::<Bn254>::circuit_specific_setup(shape, &mut rng);
    assert!(keys.is_ok(), "Setup should succeed");
    let (pk, vk) = keys.unwrap();

    let a = Fr::rand(&mut rng);
    let b = Fr::rand(&mut rng);
    let assignment = AddCircuit::prove_assignment(fr_to_element(&a), fr_to_element(&b));
    let c = element_to_fr(assignment.c.as_ref().unwrap());
    let proof = Groth16::<Bn254>::prove(&pk, to_ark_circuit(&assignment), &mut rng).unwrap();

    let pvk = Groth16::<Bn254>::process_vk(&vk).unwrap();
    let valid_proof = Groth16::<Bn254>::verify_with_processed_vk(&pvk, &[a, c], &proof).unwrap();

    assert!(valid_proof, "Proof verification should succeed");
}

// The library's field addition agrees with the curve library's on random
// elements: the modelled limbs are the same numbers the curve crate holds.
#[test]
fn test_field_add_matches_curve_library() {
    let mut rng = ark_std::rand::rngs::StdRng::seed_from_u64(7);
    for _ in 0..32 {
        let a = Fr::rand(&mut rng);
        let b = Fr::rand(&mut rng);
        let expected = a + b;
        let got = fr_to_element(&a).add(&fr_to_element(&b));
        assert_eq!(element_to_fr(&got), expected);
        assert!(got.equals(&fr_to_element(&expected)));
    }
}

// Tampering with a public input of an otherwise-valid proof makes
// verification fail.
#[test]
fn test_tampered_public_input_rejected() {
    let mut rng = ark_std::rand::rngs::StdRng::seed_from_u64(42);
    let shape = to_ark_circuit(&AddCircuit::setup_shape());
    let (pk, vk) = Groth16::<Bn254>::circuit_specific_setup(shape, &mut rng).unwrap();

    let a = Fr::rand(&mut rng);
    let b = Fr::rand(&mut rng);
    let assignment = AddCircuit::prove_assignment(fr_to_element(&a), fr_to_element(&b));
    let c = element_to_fr(assignment.c.as_ref().unwrap());
    let proof = Groth16::<Bn254>::prove(&pk, to_ark_circuit(&assignment), &mut rng).unwrap();
    let pvk = Groth16::<Bn254>::process_vk(&vk).unwrap();

    assert!(Groth16::<Bn254>::verify_with_processed_vk(&pvk, &[a, c], &proof).unwrap());
    let one = Fr::from(1u64);
    assert!(
        !Groth16::<Bn254>::verify_with_processed_vk(&pvk, &[a, c + one], &proof).unwrap(),
        "a changed public output must be rejected"
    );
    assert!(
        !Groth16::<Bn254>::verify_with_processed_vk(&pvk, &[a + one, c], &proof).unwrap(),
        "a changed public input must be rejected"
    );
}

// A proof is bound to the verifying key of the setup that produced its
// proving key: an independently generated key for the same circuit shape
// rejects it.
#[test]
fn test_proof_bound_to_its_setup() {
    let mut rng = ark_std::rand::rngs::StdRng::seed_from_u64(42);
    let shape_a = to_ark_circuit(&AddCircuit::setup_shape());
    let (pk_a, vk_a) = Groth16::<Bn254>::circuit_specific_setup(shape_a, &mut rng).unwrap();
    let shape_b = to_ark_circuit(&AddCircuit::setup_shape());
    let (_pk_b, vk_b) = Groth16::<Bn254>::circuit_specific_setup(shape_b, &mut rng).unwrap();

    let a = Fr::rand(&mut rng);
    let b = Fr::rand(&mut rng);
    let assignment = AddCircuit::prove_assignment(fr_to_element(&a), fr_to_element(&b));
    let c = element_to_fr(assignment.c.as_ref().unwrap());
    let proof = Groth16::<Bn254>::prove(&pk_a, to_ark_circuit(&assignment), &mut rng).unwrap();

    let pvk_a = Groth16::<Bn254>::process_vk(&vk_a).unwrap();
    let pvk_b = Groth16::<Bn254>::process_vk(&vk_b).unwrap();
    assert!(Groth16::<Bn254>::verify_with_processed_vk(&pvk_a, &[a, c], &proof).unwrap());
    assert!(
        !Groth16::<Bn254>::verify_with_processed_vk(&pvk_b, &[a, c], &proof).unwrap(),
        "an independently generated verifying key must reject the proof"
    );
}
