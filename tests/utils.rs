use routing::{closer_to_target, public_key_to_client_name};
use routing::{NameType, RoutingError};
use sodiumoxide::crypto::hash::sha512;

const GROUP_SIZE: usize = 23;

fn random_name() -> NameType {
    let _ = sodiumoxide::init();
    let mut id = [0u8; 64];
    sodiumoxide::randombytes::randombytes_into(&mut id);
    NameType::new(id)
}

fn name_with_first_byte(b: u8) -> NameType {
    let mut id = [0u8; 64];
    id[0] = b;
    NameType::new(id)
}

fn hash_of(names: &[NameType]) -> NameType {
    let mut combined: Vec<u8> = Vec::new();
    for name in names {
        combined.extend_from_slice(&name.get_id());
    }
    NameType::new(sha512::hash(&combined).0)
}

fn sort_by_closeness(nodes: &mut Vec<NameType>, target: &NameType) {
    nodes.sort_by(|a, b| {
        if closer_to_target(a, b, target) {
            std::cmp::Ordering::Less
        } else {
            std::cmp::Ordering::Greater
        }
    });
}

#[test]
fn calculate_relocated_name() {
    let original_name = random_name();

    // empty close nodes
    assert!(routing::calculate_relocated_name(Vec::new(), &original_name).is_err());

    // one entry
    let mut close_nodes_one_entry: Vec<NameType> = Vec::new();
    close_nodes_one_entry.push(random_name());
    let actual_relocated_name_one_entry =
        routing::calculate_relocated_name(close_nodes_one_entry.clone(), &original_name).unwrap();
    assert!(original_name != actual_relocated_name_one_entry);

    let mut combined_one_node: Vec<u8> = Vec::new();
    for node_id in [original_name, close_nodes_one_entry[0]] {
        for i in node_id.get_id().iter() {
            combined_one_node.push(*i);
        }
    }
    let expected_relocated_name_one_node = NameType::new(sha512::hash(&combined_one_node).0);
    assert_eq!(actual_relocated_name_one_entry, expected_relocated_name_one_node);

    // populated close nodes
    let mut close_nodes: Vec<NameType> = Vec::new();
    for _ in 0..GROUP_SIZE {
        close_nodes.push(random_name());
    }
    let actual_relocated_name =
        routing::calculate_relocated_name(close_nodes.clone(), &original_name).unwrap();
    assert!(original_name != actual_relocated_name);
    sort_by_closeness(&mut close_nodes, &original_name);
    let first_closest = close_nodes[0];
    let second_closest = close_nodes[1];
    let mut combined: Vec<u8> = Vec::new();
    for i in original_name.get_id().iter() {
        combined.push(*i);
    }
    for i in first_closest.get_id().iter() {
        combined.push(*i);
    }
    for i in second_closest.get_id().iter() {
        combined.push(*i);
    }
    let expected_relocated_name = NameType::new(sha512::hash(&combined).0);
    assert_eq!(expected_relocated_name, actual_relocated_name);

    let mut invalid_combined: Vec<u8> = Vec::new();
    for i in first_closest.get_id().iter() {
        invalid_combined.push(*i);
    }
    for i in second_closest.get_id().iter() {
        invalid_combined.push(*i);
    }
    for i in original_name.get_id().iter() {
        invalid_combined.push(*i);
    }
    let invalid_relocated_name = NameType::new(sha512::hash(&invalid_combined).0);
    assert!(invalid_relocated_name != actual_relocated_name);
}

#[test]
fn closer_to_target_is_strict() {
    let a = random_name();
    let t = random_name();
    assert!(!closer_to_target(&a, &a, &t));
}

#[test]
fn closer_to_target_target_itself_wins() {
    let t = random_name();
    let other = random_name();
    assert!(closer_to_target(&t, &other, &t));
    assert!(!closer_to_target(&other, &t, &t));
}

#[test]
fn closer_to_target_most_significant_byte_decides() {
    let t = name_with_first_byte(0);
    let mut near = [0xffu8; 64];
    near[0] = 0x01;
    let far = name_with_first_byte(0x02);
    assert!(closer_to_target(&NameType::new(near), &far, &t));
    assert!(!closer_to_target(&far, &NameType::new(near), &t));
}

#[test]
fn closer_to_target_uses_xor_distance() {
    // 0x80 ^ 0xf0 = 0x70 and 0x10 ^ 0xf0 = 0xe0: 0x80 is closer to 0xf0
    let t = name_with_first_byte(0xf0);
    let a = name_with_first_byte(0x80);
    let b = name_with_first_byte(0x10);
    assert!(closer_to_target(&a, &b, &t));
    assert!(!closer_to_target(&b, &a, &t));
}

#[test]
fn closer_to_target_antisymmetric_on_distinct_names() {
    for _ in 0..50 {
        let a = random_name();
        let b = random_name();
        let t = random_name();
        assert!(a != b);
        assert_ne!(closer_to_target(&a, &b, &t), closer_to_target(&b, &a, &t));
    }
    let t = name_with_first_byte(7);
    let a = name_with_first_byte(1);
    let mut last = [0u8; 64];
    last[63] = 1;
    let b = NameType::new(last);
    assert_ne!(closer_to_target(&a, &b, &t), closer_to_target(&b, &a, &t));
}

#[test]
fn closer_to_target_is_transitive() {
    let t = name_with_first_byte(0x40);
    let a = name_with_first_byte(0x41);
    let b = name_with_first_byte(0x50);
    let c = name_with_first_byte(0xc0);
    assert!(closer_to_target(&a, &b, &t));
    assert!(closer_to_target(&b, &c, &t));
    assert!(closer_to_target(&a, &c, &t));
}

#[test]
fn relocation_without_anchors_fails() {
    let p = random_name();
    assert_eq!(
        routing::calculate_relocated_name(Vec::new(), &p),
        Err(RoutingError::EmptyReferenceSet)
    );
}

#[test]
fn relocation_is_deterministic() {
    let p = random_name();
    let anchors: Vec<NameType> = (0..5).map(|_| random_name()).collect();
    let first = routing::calculate_relocated_name(anchors.clone(), &p).unwrap();
    let second = routing::calculate_relocated_name(anchors.clone(), &p).unwrap();
    assert_eq!(first, second);
}

#[test]
fn relocation_changes_identity() {
    for n in 1..6 {
        let p = random_name();
        let anchors: Vec<NameType> = (0..n).map(|_| random_name()).collect();
        let relocated = routing::calculate_relocated_name(anchors, &p).unwrap();
        assert!(relocated != p);
    }
}

#[test]
fn relocation_single_anchor_hashes_proposal_then_anchor() {
    let p = random_name();
    let a = random_name();
    let relocated = routing::calculate_relocated_name(vec![a], &p).unwrap();
    assert_eq!(relocated, hash_of(&[p, a]));
    assert!(relocated != hash_of(&[a, p]));
}

#[test]
fn relocation_two_anchors_in_either_order() {
    let p = name_with_first_byte(0x10);
    let x = name_with_first_byte(0x11);
    let y = name_with_first_byte(0x90);
    assert!(closer_to_target(&x, &y, &p));
    let expected = hash_of(&[p, x, y]);
    assert_eq!(routing::calculate_relocated_name(vec![x, y], &p).unwrap(), expected);
    assert_eq!(routing::calculate_relocated_name(vec![y, x], &p).unwrap(), expected);
}

#[test]
fn relocation_uses_only_two_closest() {
    let p = name_with_first_byte(0x00);
    let far = name_with_first_byte(0xf0);
    let x = name_with_first_byte(0x01);
    let mid = name_with_first_byte(0x40);
    let y = name_with_first_byte(0x02);
    let relocated = routing::calculate_relocated_name(vec![far, x, mid, y], &p).unwrap();
    assert_eq!(relocated, hash_of(&[p, x, y]));
}

#[test]
fn relocation_with_repeated_anchor() {
    let p = name_with_first_byte(0x00);
    let x = name_with_first_byte(0x01);
    let y = name_with_first_byte(0x02);
    let relocated = routing::calculate_relocated_name(vec![y, x, x], &p).unwrap();
    assert_eq!(relocated, hash_of(&[p, x, x]));
}

#[test]
fn relocation_of_equal_anchors_and_proposal() {
    let p = name_with_first_byte(0x33);
    let relocated = routing::calculate_relocated_name(vec![p, p], &p).unwrap();
    assert_eq!(relocated, hash_of(&[p, p, p]));
}

#[test]
fn hash_input_order_matters() {
    let a = random_name();
    let b = random_name();
    let c = random_name();
    assert!(hash_of(&[a, b, c]) != hash_of(&[b, c, a]));
}

#[test]
fn client_name_is_hash_of_signing_key() {
    let _ = sodiumoxide::init();
    let (public_key, _secret_key) = sodiumoxide::crypto::sign::gen_keypair();
    let name = public_key_to_client_name(&public_key.0);
    assert_eq!(name.get_id(), sha512::hash(&public_key.0).0);
    let mut padded = [0u8; 64];
    padded[..32].copy_from_slice(&public_key.0);
    assert!(name != NameType::new(padded));
}

#[test]
fn client_name_of_known_key() {
    // SHA-512 of 32 zero bytes
    let name = public_key_to_client_name(&[0u8; 32]);
    let id = name.get_id();
    assert_eq!(&id[..4], &[0x50, 0x46, 0xad, 0xc1]);
}
