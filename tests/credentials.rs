use ark_bls12_381::Fr;
use ark_ff::PrimeField;
use ark_serialize::CanonicalSerialize;
use ark_std::rand::rngs::StdRng;
use ark_std::rand::SeedableRng;
use fua_mcp_zkp::algebra::{G1Point, Scalar};
use fua_mcp_zkp::bbs_plus::{BBSPlusKeypair, BBSPlusSignature};
use fua_mcp_zkp::codec::{deserialize_presentation, serialize_presentation};
use fua_mcp_zkp::nullifier::{compute_nullifier_coefficient, generate_nullifier};
use fua_mcp_zkp::replay::ReplayCache;
use fua_mcp_zkp::zkp::VerifiablePresentation;
use fua_mcp_zkp::{estimate_gas, CredentialError, FuaMcpSystem, ATTRIBUTE_COUNT};
use sha2::{Digest, Sha256};

const SERVER_ID: &[u8] = b"did:example:mcp-server-12345";
const EPOCH: u64 = 1234567890;

fn rng(seed: u64) -> StdRng {
    StdRng::seed_from_u64(seed)
}

fn scalar_of(f: Fr) -> Scalar {
    let mut bytes = [0u8; 32];
    f.serialize_compressed(&mut bytes[..]).unwrap();
    Scalar { bytes }
}

fn fr_of(s: &Scalar) -> Fr {
    Fr::from_le_bytes_mod_order(&s.bytes)
}

fn demo_attributes(r: &mut StdRng) -> Vec<Scalar> {
    vec![
        Scalar::random(r),
        Scalar::from_u64(100),
        Scalar::from_u64(200),
        Scalar::from_u64(999999),
        Scalar::from_u64(1),
    ]
}

fn presentation(seed: u64, disclosed: &[usize]) -> (FuaMcpSystem, Vec<Scalar>, VerifiablePresentation) {
    let mut r = rng(seed);
    let system = FuaMcpSystem::new(&mut r);
    let attributes = demo_attributes(&mut r);
    let signature = system.issue_credential(&mut r, &attributes).unwrap();
    let vp = system
        .generate_presentation(&mut r, &signature, &attributes, disclosed, EPOCH, SERVER_ID)
        .unwrap();
    (system, attributes, vp)
}

#[test]
fn test_full_flow() {
    let mut r = rng(1);
    let system = FuaMcpSystem::new(&mut r);
    let attributes = vec![
        Scalar::random(&mut r),
        Scalar::from_u64(1),
        Scalar::from_u64(2),
        Scalar::from_u64(100),
        Scalar::from_u64(1),
    ];
    let signature = system.issue_credential(&mut r, &attributes).unwrap();
    let disclosed_indices = vec![1];
    let vp = system
        .generate_presentation(&mut r, &signature, &attributes, &disclosed_indices, EPOCH, SERVER_ID)
        .unwrap();
    let mut seen_nullifiers = ReplayCache::new();
    let valid = system.verify_presentation(&vp, EPOCH, SERVER_ID, &mut seen_nullifiers);
    assert!(valid.is_ok());
    let size = serialize_presentation(&vp).len();
    println!("Proof size: {} bytes", size);
    println!("Gas estimate: {} units", estimate_gas(size));
}

#[test]
fn end_to_end_then_replay_rejected() {
    let (system, attributes, vp) = presentation(2, &[1]);
    assert_eq!(vp.disclosed_attributes, vec![(1usize, attributes[1])]);
    assert_eq!(vp.proof.response.len(), ATTRIBUTE_COUNT - 1);
    let mut cache = ReplayCache::new();
    assert_eq!(system.verify_presentation(&vp, EPOCH, SERVER_ID, &mut cache), Ok(()));
    assert_eq!(cache.len(), 1);
    assert!(cache.contains(&vp.nullifier));
    assert_eq!(
        system.verify_presentation(&vp, EPOCH, SERVER_ID, &mut cache),
        Err(CredentialError::ReplayDetected)
    );
    assert_eq!(cache.len(), 1);
}

#[test]
fn signature_verifies_on_signed_attributes() {
    let mut r = rng(3);
    let keypair = BBSPlusKeypair::generate(&mut r, 4);
    for _ in 0..3 {
        let attributes: Vec<Scalar> = (0..4).map(|_| Scalar::random(&mut r)).collect();
        let signature = keypair.sign(&mut r, &attributes).unwrap();
        assert!(keypair.verify(&signature, &attributes));
        assert!(keypair.public_key.verify_signature(&signature, &attributes));
    }
}

#[test]
fn tampered_attribute_fails_verification() {
    let mut r = rng(4);
    let keypair = BBSPlusKeypair::generate(&mut r, 5);
    let attributes = demo_attributes(&mut r);
    let signature = keypair.sign(&mut r, &attributes).unwrap();
    for i in 0..attributes.len() {
        let mut changed = attributes.clone();
        changed[i] = scalar_of(fr_of(&changed[i]) + Fr::from(1u64));
        assert!(!keypair.verify(&signature, &changed));
    }
}

#[test]
fn tampered_signature_fails_verification() {
    let mut r = rng(5);
    let keypair = BBSPlusKeypair::generate(&mut r, 5);
    let attributes = demo_attributes(&mut r);
    let signature = keypair.sign(&mut r, &attributes).unwrap();
    let other_e = BBSPlusSignature { e: Scalar::from_u64(7), ..signature };
    assert!(!keypair.verify(&other_e, &attributes));
    let other_s = BBSPlusSignature { s: Scalar::from_u64(7), ..signature };
    assert!(!keypair.verify(&other_s, &attributes));
    let mut bad_a = signature;
    bad_a.a = G1Point { bytes: [0xffu8; 48] };
    assert!(!keypair.verify(&bad_a, &attributes));
    assert!(!keypair.verify(&signature, &attributes[..4]));
}

#[test]
fn forged_hidden_attribute_is_rejected() {
    let mut r = rng(6);
    let system = FuaMcpSystem::new(&mut r);
    let attributes = demo_attributes(&mut r);
    let signature = system.issue_credential(&mut r, &attributes).unwrap();
    let mut flipped = attributes.clone();
    flipped[3] = Scalar::from_u64(1_000_000);
    let vp = system
        .generate_presentation(&mut r, &signature, &flipped, &[1], EPOCH, SERVER_ID)
        .unwrap();
    let mut cache = ReplayCache::new();
    assert_eq!(
        system.verify_presentation(&vp, EPOCH, SERVER_ID, &mut cache),
        Err(CredentialError::ProofInvalid)
    );
    assert_eq!(cache.len(), 0);
}

#[test]
fn altered_response_is_rejected() {
    let (system, _attributes, vp) = presentation(7, &[1]);
    let mut forged = vp.clone();
    forged.proof.response[0] = scalar_of(fr_of(&forged.proof.response[0]) + Fr::from(1u64));
    let mut cache = ReplayCache::new();
    assert_eq!(
        system.verify_presentation(&forged, EPOCH, SERVER_ID, &mut cache),
        Err(CredentialError::ProofInvalid)
    );
    let mut short = vp.clone();
    short.proof.response.pop();
    assert_eq!(
        system.verify_presentation(&short, EPOCH, SERVER_ID, &mut cache),
        Err(CredentialError::ProofInvalid)
    );
    assert_eq!(cache.len(), 0);
    assert_eq!(system.verify_presentation(&vp, EPOCH, SERVER_ID, &mut cache), Ok(()));
}

#[test]
fn altered_disclosed_value_is_rejected() {
    let (system, _attributes, vp) = presentation(8, &[1, 3]);
    let mut forged = vp.clone();
    forged.disclosed_attributes[1].1 = Scalar::from_u64(5);
    let mut cache = ReplayCache::new();
    assert_eq!(
        system.verify_presentation(&forged, EPOCH, SERVER_ID, &mut cache),
        Err(CredentialError::ProofInvalid)
    );
    assert_eq!(system.verify_presentation(&vp, EPOCH, SERVER_ID, &mut cache), Ok(()));
}

#[test]
fn presentation_is_bound_to_verifier_and_epoch() {
    let (system, _attributes, vp) = presentation(9, &[1]);
    let mut cache = ReplayCache::new();
    assert_eq!(
        system.verify_presentation(&vp, EPOCH + 1, SERVER_ID, &mut cache),
        Err(CredentialError::ProofInvalid)
    );
    assert_eq!(
        system.verify_presentation(&vp, EPOCH, b"did:example:other", &mut cache),
        Err(CredentialError::ProofInvalid)
    );
    let mut other_nullifier = vp.clone();
    other_nullifier.nullifier[0] ^= 1;
    assert_eq!(
        system.verify_presentation(&other_nullifier, EPOCH, SERVER_ID, &mut cache),
        Err(CredentialError::ProofInvalid)
    );
    assert_eq!(cache.len(), 0);
}

#[test]
fn all_or_no_attributes_disclosed() {
    let (system, attributes, vp) = presentation(10, &[]);
    assert_eq!(vp.proof.response.len(), 5);
    assert!(vp.disclosed_attributes.is_empty());
    let mut cache = ReplayCache::new();
    assert_eq!(system.verify_presentation(&vp, EPOCH, SERVER_ID, &mut cache), Ok(()));
    let mut r = rng(11);
    let signature = system.issue_credential(&mut r, &attributes).unwrap();
    let all = system
        .generate_presentation(&mut r, &signature, &attributes, &[0, 1, 2, 3, 4], EPOCH + 1, SERVER_ID)
        .unwrap();
    assert!(all.proof.response.is_empty());
    assert_eq!(system.verify_presentation(&all, EPOCH + 1, SERVER_ID, &mut cache), Ok(()));
    assert_eq!(cache.len(), 2);
}

#[test]
fn presentations_are_unlinkable_but_share_nullifier() {
    let mut r = rng(12);
    let system = FuaMcpSystem::new(&mut r);
    let attributes = demo_attributes(&mut r);
    let signature = system.issue_credential(&mut r, &attributes).unwrap();
    let a = system.generate_presentation(&mut r, &signature, &attributes, &[1], EPOCH, SERVER_ID).unwrap();
    let b = system.generate_presentation(&mut r, &signature, &attributes, &[1], EPOCH, SERVER_ID).unwrap();
    assert_ne!(a.randomized_signature.a_prime, b.randomized_signature.a_prime);
    assert_ne!(a.randomized_signature.a_prime, signature.a);
    assert_eq!(a.nullifier, b.nullifier);
    let mut cache = ReplayCache::new();
    assert_eq!(system.verify_presentation(&a, EPOCH, SERVER_ID, &mut cache), Ok(()));
    assert_eq!(
        system.verify_presentation(&b, EPOCH, SERVER_ID, &mut cache),
        Err(CredentialError::ReplayDetected)
    );
}

#[test]
fn nullifier_is_deterministic_and_scoped() {
    let id = Scalar::from_u64(42);
    let base = generate_nullifier(&id, SERVER_ID, EPOCH, 0);
    assert_eq!(base, generate_nullifier(&id, SERVER_ID, EPOCH, 0));
    assert_ne!(base, generate_nullifier(&Scalar::from_u64(43), SERVER_ID, EPOCH, 0));
    assert_ne!(base, generate_nullifier(&id, b"did:example:mcp-server-12346", EPOCH, 0));
    assert_ne!(base, generate_nullifier(&id, SERVER_ID, EPOCH + 1, 0));
    assert_ne!(base, generate_nullifier(&id, SERVER_ID, EPOCH, 1));
}

#[test]
fn nullifier_depends_on_the_field_element_not_its_encoding() {
    let unreduced = Scalar { bytes: [0xffu8; 32] };
    let reduced = scalar_of(Fr::from_le_bytes_mod_order(&[0xffu8; 32]));
    assert_ne!(unreduced.bytes, reduced.bytes);
    assert_eq!(
        generate_nullifier(&unreduced, SERVER_ID, EPOCH, 0),
        generate_nullifier(&reduced, SERVER_ID, EPOCH, 0)
    );
}

#[test]
fn nullifier_is_sha256_of_its_inputs() {
    let id = Scalar::from_u64(258);
    assert_eq!(id.bytes[0], 2);
    assert_eq!(id.bytes[1], 1);
    assert!(id.bytes[2..].iter().all(|b| *b == 0));
    let mut data = Vec::new();
    data.extend_from_slice(&id.bytes);
    data.extend_from_slice(SERVER_ID);
    data.extend_from_slice(&EPOCH.to_le_bytes());
    data.extend_from_slice(&7u32.to_le_bytes());
    let expected: [u8; 32] = Sha256::digest(&data).into();
    assert_eq!(generate_nullifier(&id, SERVER_ID, EPOCH, 7), expected);
    let coefficient = compute_nullifier_coefficient(&id, SERVER_ID, EPOCH, 7);
    assert_eq!(coefficient, scalar_of(Fr::from_le_bytes_mod_order(&expected)));
    assert_ne!(coefficient.bytes, expected);
}

#[test]
fn presentation_round_trip() {
    let (_system, _attributes, vp) = presentation(13, &[1, 4]);
    let bytes = serialize_presentation(&vp);
    assert_eq!(bytes.len(), 352 + 32 * vp.proof.response.len() + 40 * vp.disclosed_attributes.len());
    let back = deserialize_presentation(&bytes).unwrap();
    assert_eq!(back, vp);
}

#[test]
fn malformed_encoding_is_refused() {
    let (_system, _attributes, vp) = presentation(14, &[2]);
    let bytes = serialize_presentation(&vp);
    assert!(deserialize_presentation(&bytes[..bytes.len() - 1]).is_none());
    assert!(deserialize_presentation(&bytes[..100]).is_none());
    let mut longer = bytes.clone();
    longer.push(0);
    assert!(deserialize_presentation(&longer).is_none());
    let mut bad_count = bytes.clone();
    bad_count[336] = 200;
    assert!(deserialize_presentation(&bad_count).is_none());
}

#[test]
fn wrong_attribute_count_is_invalid_input() {
    let mut r = rng(15);
    let system = FuaMcpSystem::new(&mut r);
    let attributes = demo_attributes(&mut r);
    assert_eq!(
        system.issue_credential(&mut r, &attributes[..4]).unwrap_err(),
        CredentialError::InvalidInput
    );
    let signature = system.issue_credential(&mut r, &attributes).unwrap();
    assert_eq!(
        system
            .generate_presentation(&mut r, &signature, &attributes[..4], &[1], EPOCH, SERVER_ID)
            .unwrap_err(),
        CredentialError::InvalidInput
    );
}

#[test]
fn out_of_range_disclosed_index_is_invalid_input() {
    let mut r = rng(16);
    let system = FuaMcpSystem::new(&mut r);
    let attributes = demo_attributes(&mut r);
    let signature = system.issue_credential(&mut r, &attributes).unwrap();
    for disclosed in [vec![5usize], vec![1, 7]] {
        assert_eq!(
            system
                .generate_presentation(&mut r, &signature, &attributes, &disclosed, EPOCH, SERVER_ID)
                .unwrap_err(),
            CredentialError::InvalidInput
        );
    }
}

#[test]
fn disclosed_indices_are_taken_as_a_set() {
    let mut r = rng(19);
    let system = FuaMcpSystem::new(&mut r);
    let attributes = demo_attributes(&mut r);
    let signature = system.issue_credential(&mut r, &attributes).unwrap();
    let mut cache = ReplayCache::new();
    let unsorted = system
        .generate_presentation(&mut r, &signature, &attributes, &[3, 1, 3], EPOCH, SERVER_ID)
        .unwrap();
    assert_eq!(unsorted.disclosed_attributes, vec![(1usize, attributes[1]), (3usize, attributes[3])]);
    assert_eq!(unsorted.proof.response.len(), 3);
    assert_eq!(system.verify_presentation(&unsorted, EPOCH, SERVER_ID, &mut cache), Ok(()));
    let repeated = system
        .generate_presentation(&mut r, &signature, &attributes, &[2, 2], EPOCH + 1, SERVER_ID)
        .unwrap();
    assert_eq!(repeated.disclosed_attributes, vec![(2usize, attributes[2])]);
    assert_eq!(system.verify_presentation(&repeated, EPOCH + 1, SERVER_ID, &mut cache), Ok(()));
}

#[test]
fn degenerate_signing_scalar_is_key_error() {
    let mut r = rng(17);
    let keypair = BBSPlusKeypair::generate(&mut r, 5);
    let attributes = demo_attributes(&mut r);
    let e = scalar_of(-fr_of(&keypair.secret_key));
    let s = Scalar::from_u64(3);
    assert_eq!(keypair.sign_with(&e, &s, &attributes), Err(CredentialError::KeyError));
    let ok = keypair.sign_with(&Scalar::from_u64(9), &s, &attributes).unwrap();
    assert_eq!(ok.e, Scalar::from_u64(9));
    assert_eq!(ok.s, s);
    assert!(keypair.verify(&ok, &attributes));
}

#[test]
fn randomization_errors() {
    let mut r = rng(18);
    let keypair = BBSPlusKeypair::generate(&mut r, 5);
    let attributes = demo_attributes(&mut r);
    let signature = keypair.sign(&mut r, &attributes).unwrap();
    let zero = Scalar::from_u64(0);
    let one = Scalar::from_u64(1);
    assert_eq!(
        signature.randomize_with(&keypair.public_key, &attributes, &zero, &one).unwrap_err(),
        CredentialError::KeyError
    );
    let (rs, sec) = signature.randomize_with(&keypair.public_key, &attributes, &one, &zero).unwrap();
    assert_eq!(rs.a_prime, signature.a);
    assert_eq!(sec.r3, one);
    assert_eq!(sec.s_prime, signature.s);
    let mut identity = [0u8; 48];
    identity[0] = 0xc0;
    let degenerate = BBSPlusSignature { a: G1Point { bytes: identity }, ..signature };
    assert_eq!(
        degenerate.randomize_with(&keypair.public_key, &attributes, &one, &one).unwrap_err(),
        CredentialError::InvalidInput
    );
    identity[1] = 0x01;
    let other_identity = BBSPlusSignature { a: G1Point { bytes: identity }, ..signature };
    assert!(!other_identity.a.bytes.iter().skip(1).all(|b| *b == 0));
    assert_eq!(
        other_identity.randomize_with(&keypair.public_key, &attributes, &one, &one).unwrap_err(),
        CredentialError::InvalidInput
    );
    let system = FuaMcpSystem { issuer_keypair: keypair };
    assert_eq!(
        system
            .generate_presentation(&mut r, &other_identity, &attributes, &[1], EPOCH, SERVER_ID)
            .unwrap_err(),
        CredentialError::InvalidInput
    );
}

#[test]
fn gas_estimate_is_exact() {
    assert_eq!(estimate_gas(0), 521000);
    assert_eq!(estimate_gas(100), 522600);
    let largest = ((u64::MAX - 521000) / 16) as usize;
    assert_eq!(estimate_gas(largest), 521000 + 16 * largest as u64);
}

#[test]
fn replay_cache_records_each_nullifier_once() {
    let mut cache = ReplayCache::new();
    assert!(!cache.contains(&[1u8; 32]));
    cache.insert([1u8; 32]);
    cache.insert([2u8; 32]);
    assert!(cache.contains(&[1u8; 32]));
    assert!(cache.contains(&[2u8; 32]));
    assert!(!cache.contains(&[3u8; 32]));
    assert_eq!(cache.len(), 2);
}
