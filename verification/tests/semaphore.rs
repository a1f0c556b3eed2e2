//! End-to-end exercises of the protocol core, with a deterministic
//! stand-in for the backend's two-to-one hash: the proving backend itself
//! cannot be linked here, so everything downstream of its hash outputs is
//! driven with a toy combining function.

use semaphore::access_set::verification_result;
use semaphore::access_set::AccessSet;
use semaphore::access_set::ProverRun;
use semaphore::circuit::Constraint;
use semaphore::field::Digest;
use semaphore::field::FIELD_ORDER;
use semaphore::merkle::index_bits;
use semaphore::merkle::TreeBuilder;
use semaphore::signal::SemaphoreError;

/// A deterministic toy stand-in for the backend's two-to-one hash.
fn toy_combine(a: &Digest, b: &Digest) -> Digest {
    let mut elements = [0u64; 4];
    let mut i: usize = 0;
    while i < 4 {
        let mixed = (a.elements[i] as u128)
            .wrapping_mul(6364136223846793005)
            .wrapping_add(b.elements[i] as u128)
            .wrapping_mul(2654435761)
            .wrapping_add(i as u128 + 1);
        elements[i] = (mixed % (FIELD_ORDER as u128)) as u64;
        i += 1;
    }
    Digest { elements }
}

/// A deterministic toy stand-in for the backend's variable-length hash,
/// used for nullifier preimages.
fn toy_hash_many(input: &[u64]) -> Digest {
    let mut state = Digest { elements: [11, 22, 33, 44] };
    for chunk in input.chunks(4) {
        let mut block = [0u64; 4];
        for (i, v) in chunk.iter().enumerate() {
            block[i] = *v;
        }
        state = toy_combine(&state, &Digest { elements: block });
    }
    state
}

/// A small deterministic generator of canonical field elements.
fn next_element(state: &mut u64) -> u64 {
    *state = state
        .wrapping_mul(6364136223846793005)
        .wrapping_add(1442695040888963407);
    *state % FIELD_ORDER
}

fn make_key(state: &mut u64) -> Digest {
    Digest {
        elements: [
            next_element(state),
            next_element(state),
            next_element(state),
            next_element(state),
        ],
    }
}

/// Drives a builder to completion with the toy hash.
fn grow_tree(mut builder: TreeBuilder) -> AccessSet {
    while let Some((left, right)) = builder.next_pair() {
        let parent = toy_combine(&left, &right);
        builder.supply_parent(parent);
    }
    builder.finish().unwrap()
}

fn build_set(keys: Vec<Digest>) -> AccessSet {
    grow_tree(AccessSet::build(keys).unwrap())
}

fn keys_of(n: usize, seed: u64) -> Vec<Digest> {
    let mut state = seed;
    let mut keys = Vec::new();
    for _ in 0..n {
        keys.push(make_key(&mut state));
    }
    keys
}

#[test]
fn power_of_two_validation() {
    for bad in [0usize, 3, 5, 6, 7, 12, 1000] {
        let r = AccessSet::build(keys_of(bad, 7));
        assert!(matches!(r, Err(SemaphoreError::InvalidSetSize)));
    }
    for good in [1usize, 2, 4, 8, 16, 1024] {
        assert!(AccessSet::build(keys_of(good, 7)).is_ok());
    }
}

#[test]
fn single_leaf_set() {
    let key = Digest {
        elements: [10, 20, 30, 40],
    };
    let builder = AccessSet::build(vec![key]).unwrap();
    assert!(builder.next_pair().is_none());
    let set = builder.finish().unwrap();
    assert_eq!(set.tree_height(), 0);
    assert_eq!(set.leaf_count(), 1);
    assert_eq!(set.root_commitment().elements, key.elements);
    let path = set.authentication_path(0).unwrap();
    assert_eq!(path.len(), 0);
    assert!(matches!(
        set.authentication_path(1),
        Err(SemaphoreError::IndexOutOfRange)
    ));
}

#[test]
fn tree_height_and_root() {
    let keys = keys_of(8, 99);
    let set = build_set(keys.clone());
    assert_eq!(set.tree_height(), 3);
    assert_eq!(set.leaf_count(), 8);

    // recompute the root independently, bottom up
    let mut level: Vec<Digest> = keys;
    while level.len() > 1 {
        let mut next = Vec::new();
        for pair in level.chunks(2) {
            next.push(toy_combine(&pair[0], &pair[1]));
        }
        level = next;
    }
    assert_eq!(set.root_commitment().elements, level[0].elements);
}

#[test]
fn authentication_path_values() {
    let keys = keys_of(4, 5);
    let set = build_set(keys.clone());
    let parent01 = toy_combine(&keys[0], &keys[1]);
    let parent23 = toy_combine(&keys[2], &keys[3]);

    let path2 = set.authentication_path(2).unwrap();
    assert_eq!(path2.len(), 2);
    assert_eq!(path2[0].elements, keys[3].elements);
    assert_eq!(path2[1].elements, parent01.elements);

    let path1 = set.authentication_path(1).unwrap();
    assert_eq!(path1[0].elements, keys[0].elements);
    assert_eq!(path1[1].elements, parent23.elements);

    assert!(matches!(
        set.authentication_path(4),
        Err(SemaphoreError::IndexOutOfRange)
    ));
}

#[test]
fn fold_reconstructs_root_concretely() {
    let keys = keys_of(8, 123);
    let set = build_set(keys.clone());
    let root = set.root_commitment();
    for index in 0..8usize {
        let path = set.authentication_path(index).unwrap();
        let mut current = keys[index];
        let mut i = index;
        for sibling in &path {
            current = if i % 2 == 0 {
                toy_combine(&current, sibling)
            } else {
                toy_combine(sibling, &current)
            };
            i /= 2;
        }
        assert_eq!(current.elements, root.elements);
    }
}

#[test]
fn index_bits_exhaustive_small_heights() {
    assert_eq!(index_bits(0, 0), Vec::<bool>::new());
    for index in 0..8usize {
        let bits = index_bits(index, 3);
        assert_eq!(
            bits,
            vec![index & 1 == 1, (index >> 1) & 1 == 1, (index >> 2) & 1 == 1]
        );
    }
    // least-significant bit first
    assert_eq!(index_bits(1, 3), vec![true, false, false]);
    assert_eq!(index_bits(4, 3), vec![false, false, true]);
}

#[test]
fn circuit_layout() {
    let set = build_set(keys_of(4, 1));
    let (system, targets) = set.semaphore_circuit();

    // public inputs: root ‖ nullifier ‖ topic, in that exact order
    let mut expected = Vec::new();
    expected.extend_from_slice(&targets.merkle_root);
    expected.extend_from_slice(&targets.nullifier);
    expected.extend_from_slice(&targets.topic);
    assert_eq!(system.public_inputs, expected);
    assert_eq!(system.public_inputs.len(), 12);

    // the leaf index and private key are never public
    assert!(!system.public_inputs.contains(&targets.public_key_index));
    for t in &targets.private_key {
        assert!(!system.public_inputs.contains(t));
    }

    assert_eq!(targets.merkle_proof_siblings.len(), 2);
    assert_eq!(system.constraints.len(), 3);
    match &system.constraints[0] {
        Constraint::ConstantZero { target } => assert_eq!(*target, targets.zero),
        _ => panic!("expected the zero-constant constraint first"),
    }
    match &system.constraints[1] {
        Constraint::MerkleMembership {
            leaf_data,
            index,
            num_index_bits,
            root,
            siblings,
        } => {
            let mut expected_leaf = targets.private_key.to_vec();
            expected_leaf.extend_from_slice(&[targets.zero; 4]);
            assert_eq!(*leaf_data, expected_leaf);
            assert_eq!(*index, targets.public_key_index);
            assert_eq!(*num_index_bits, 2);
            assert_eq!(*root, targets.merkle_root);
            assert_eq!(*siblings, targets.merkle_proof_siblings);
        }
        _ => panic!("expected the membership constraint second"),
    }
    match &system.constraints[2] {
        Constraint::HashEquals { inputs, output } => {
            let mut expected_inputs = targets.private_key.to_vec();
            expected_inputs.extend_from_slice(&targets.topic);
            assert_eq!(*inputs, expected_inputs);
            assert_eq!(*output, targets.nullifier);
        }
        _ => panic!("expected the nullifier-consistency constraint third"),
    }
}

#[test]
fn witness_assignment_values() {
    let keys = keys_of(4, 2);
    let set = build_set(keys.clone());
    let private_key = Digest {
        elements: [100, 200, 300, 400],
    };
    let topic = Digest {
        elements: [7, 8, 9, 10],
    };
    let witness = set.fill_semaphore_targets(private_key, topic, 1).unwrap();
    assert_eq!(
        witness.merkle_root.elements,
        set.root_commitment().elements
    );
    assert_eq!(witness.private_key.elements, private_key.elements);
    assert_eq!(witness.topic.elements, topic.elements);
    assert_eq!(witness.public_key_index_value, 1);
    let path = set.authentication_path(1).unwrap();
    assert_eq!(witness.merkle_proof_siblings.len(), path.len());
    for (a, b) in witness.merkle_proof_siblings.iter().zip(path.iter()) {
        assert_eq!(a.elements, b.elements);
    }

    assert!(matches!(
        set.fill_semaphore_targets(private_key, topic, 4),
        Err(SemaphoreError::IndexOutOfRange)
    ));
}

#[test]
fn make_signal_prepares_the_prover() {
    let set = build_set(keys_of(4, 3));
    let private_key = Digest {
        elements: [1, 2, 3, 4],
    };
    let topic = Digest {
        elements: [5, 6, 7, 8],
    };
    let run: ProverRun = set.make_signal(private_key, topic, 2).unwrap();
    assert_eq!(
        run.nullifier_preimage,
        vec![1u64, 2, 3, 4, 5, 6, 7, 8]
    );
    assert_eq!(run.witness.public_key_index_value, 2);
    assert_eq!(run.targets.merkle_proof_siblings.len(), 2);
    assert_eq!(run.system.public_inputs.len(), 12);

    assert!(matches!(
        set.make_signal(private_key, topic, 4),
        Err(SemaphoreError::IndexOutOfRange)
    ));
}

#[test]
fn accept_proof_checks_consistency() {
    let set = build_set(keys_of(2, 4));
    let topic = Digest {
        elements: [1, 1, 2, 2],
    };
    let nullifier = Digest {
        elements: [3, 3, 4, 4],
    };
    let root = set.root_commitment();
    let mut honest = Vec::new();
    honest.extend_from_slice(&root.elements);
    honest.extend_from_slice(&nullifier.elements);
    honest.extend_from_slice(&topic.elements);

    let proof_bytes = vec![0xABu8, 0xCD, 0xEF];
    let signal = set
        .accept_proof(topic, nullifier, proof_bytes.clone(), &honest)
        .unwrap();
    assert_eq!(signal.nullifier.elements, nullifier.elements);
    assert_eq!(signal.proof, proof_bytes);

    let mut tampered = honest.clone();
    tampered[4] ^= 1;
    assert!(matches!(
        set.accept_proof(topic, nullifier, proof_bytes.clone(), &tampered),
        Err(SemaphoreError::ProofConstruction)
    ));

    let mut truncated = honest.clone();
    truncated.pop();
    assert!(matches!(
        set.accept_proof(topic, nullifier, proof_bytes, &truncated),
        Err(SemaphoreError::ProofConstruction)
    ));
}

#[test]
fn verification_vector_is_exact() {
    let key = Digest {
        elements: [21, 22, 23, 24],
    };
    let set = build_set(vec![key]);
    let topic = Digest {
        elements: [31, 32, 33, 34],
    };
    let nullifier = Digest {
        elements: [41, 42, 43, 44],
    };
    let signal = {
        let mut honest = Vec::new();
        honest.extend_from_slice(&key.elements);
        honest.extend_from_slice(&nullifier.elements);
        honest.extend_from_slice(&topic.elements);
        set.accept_proof(topic, nullifier, vec![9u8], &honest).unwrap()
    };
    let vector = set.verify_signal(topic, &signal);
    assert_eq!(
        vector,
        vec![21u64, 22, 23, 24, 41, 42, 43, 44, 31, 32, 33, 34]
    );
}

#[test]
fn verification_result_mapping() {
    assert!(verification_result(true).is_ok());
    assert!(matches!(
        verification_result(false),
        Err(SemaphoreError::Verification)
    ));
}

#[test]
fn nullifier_is_deterministic_and_topic_sensitive() {
    let set = build_set(keys_of(4, 8));
    let private_key = Digest {
        elements: [17, 18, 19, 20],
    };
    let topic = Digest {
        elements: [90, 91, 92, 93],
    };

    let run1 = set.make_signal(private_key, topic, 0).unwrap();
    let run2 = set.make_signal(private_key, topic, 0).unwrap();
    assert_eq!(run1.nullifier_preimage, run2.nullifier_preimage);
    let n1 = toy_hash_many(&run1.nullifier_preimage);
    let n2 = toy_hash_many(&run2.nullifier_preimage);
    assert_eq!(n1.elements, n2.elements);

    // distinct topics give distinct nullifiers, checked over many pairs
    let mut state = 424242u64;
    let mut seen = Vec::new();
    for _ in 0..50 {
        let t = make_key(&mut state);
        let run = set.make_signal(private_key, t, 0).unwrap();
        let n = toy_hash_many(&run.nullifier_preimage);
        for previous in &seen {
            assert_ne!(*previous, n.elements);
        }
        seen.push(n.elements);
    }
}

#[test]
fn tampering_changes_the_checked_vector() {
    let keys = keys_of(4, 10);
    let set = build_set(keys.clone());
    let other_set = build_set(keys_of(4, 11));
    let private_key = Digest {
        elements: [2, 4, 6, 8],
    };
    let topic = Digest {
        elements: [1, 3, 5, 7],
    };
    let run = set.make_signal(private_key, topic, 3).unwrap();
    let nullifier = toy_hash_many(&run.nullifier_preimage);
    let root = set.root_commitment();
    let mut honest = Vec::new();
    honest.extend_from_slice(&root.elements);
    honest.extend_from_slice(&nullifier.elements);
    honest.extend_from_slice(&topic.elements);
    let signal = set
        .accept_proof(topic, nullifier, vec![1u8, 2, 3], &honest)
        .unwrap();

    // the honest verification vector matches what the prover attested
    assert_eq!(set.verify_signal(topic, &signal), honest);

    // a tampered nullifier changes the vector
    let mut forged = signal.clone();
    forged.nullifier.elements[0] ^= 1;
    assert_ne!(set.verify_signal(topic, &forged), honest);

    // a different topic changes the vector
    let other_topic = Digest {
        elements: [1, 3, 5, 9],
    };
    assert_ne!(set.verify_signal(other_topic, &signal), honest);

    // a different access set (different root) changes the vector
    assert_ne!(other_set.verify_signal(topic, &signal), honest);
}

#[test]
fn digest_constructor_requires_canonical_elements() {
    assert!(Digest::new([0, 1, 2, 3]).is_some());
    assert!(Digest::new([FIELD_ORDER - 1, 0, 0, 0]).is_some());
    assert!(Digest::new([FIELD_ORDER, 0, 0, 0]).is_none());
    assert!(Digest::new([0, 0, 0, u64::MAX]).is_none());
    assert_eq!(Digest::zero().elements, [0, 0, 0, 0]);
}

#[test]
fn error_descriptions() {
    assert_eq!(
        SemaphoreError::InvalidSetSize.describe(),
        "leaf count is not a power of two"
    );
    assert_eq!(
        SemaphoreError::IndexOutOfRange.describe(),
        "leaf index out of range"
    );
    assert_eq!(
        SemaphoreError::ProofConstruction.describe(),
        "proof construction failed"
    );
    assert_eq!(
        SemaphoreError::Verification.describe(),
        "proof verification failed"
    );
}

#[test]
fn test_semaphore() {
    // 2^20 members, as in the original scenario; the member at index 12
    // signals on a topic, and the signal is checked
    let n: usize = 1 << 20;
    let mut state = 0xC0FFEEu64;
    let mut private_keys = Vec::with_capacity(n);
    for _ in 0..n {
        private_keys.push(make_key(&mut state));
    }
    let mut public_keys = Vec::with_capacity(n);
    for sk in &private_keys {
        let mut preimage = sk.elements.to_vec();
        preimage.extend_from_slice(&[0u64; 4]);
        public_keys.push(toy_hash_many(&preimage));
    }

    let access_set = build_set(public_keys);
    assert_eq!(access_set.tree_height(), 20);

    let i: usize = 12;
    let topic = make_key(&mut state);

    // prover side
    let run = access_set.make_signal(private_keys[i], topic, i).unwrap();
    let nullifier = toy_hash_many(&run.nullifier_preimage);
    let root = access_set.root_commitment();
    let mut reported = Vec::new();
    reported.extend_from_slice(&root.elements);
    reported.extend_from_slice(&nullifier.elements);
    reported.extend_from_slice(&topic.elements);
    let signal = access_set
        .accept_proof(topic, nullifier, vec![7u8, 7, 7], &reported)
        .unwrap();

    // verifier side: the reconstructed vector matches the attested one
    let vector = access_set.verify_signal(topic, &signal);
    assert_eq!(vector, reported);
    assert!(verification_result(vector == reported).is_ok());

    // verification under a different topic checks a different vector
    let other_topic = make_key(&mut state);
    assert_ne!(access_set.verify_signal(other_topic, &signal), reported);

    // a second signal for the same (key, topic) yields the same nullifier
    let run_again = access_set.make_signal(private_keys[i], topic, i).unwrap();
    let nullifier_again = toy_hash_many(&run_again.nullifier_preimage);
    assert_eq!(nullifier.elements, nullifier_again.elements);
}
