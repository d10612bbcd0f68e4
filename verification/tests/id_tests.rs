use devbox_core::idgen::{generate_id, generate_nanoid};

#[test]
fn test_generate_id_length() {
    let id = generate_id();
    assert_eq!(id.len(), 8, "ID should be 8 characters long");
}

#[test]
fn test_generate_id_charset() {
    let id = generate_id();
    let alphabet = "_-0123456789abcdefghijklmnopqrstuvwxyz";
    for c in id.chars() {
        assert!(alphabet.contains(c), "ID contains invalid character: {}", c);
    }
}

#[test]
fn test_generate_id_uniqueness() {
    let mut ids = std::collections::HashSet::new();
    for _ in 0..1000 {
        let id = generate_id();
        assert!(ids.insert(id.clone()), "Collision detected: {}", id);
    }
    assert_eq!(ids.len(), 1000, "Should generate 1000 unique IDs");
}

#[test]
fn test_generate_nanoid_custom_length() {
    assert_eq!(generate_nanoid(4).len(), 4);
    assert_eq!(generate_nanoid(8).len(), 8);
    assert_eq!(generate_nanoid(16).len(), 16);
    assert_eq!(generate_nanoid(32).len(), 32);
}

#[test]
fn test_nanoid_alphabet_consistency() {
    let alphabet = b"_-0123456789abcdefghijklmnopqrstuvwxyz";
    for _ in 0..100 {
        let id = generate_id();
        for c in id.chars() {
            assert!(alphabet.contains(&(c as u8)));
        }
    }
}
