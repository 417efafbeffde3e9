use raven::variants::generate_variants;

#[test]
fn generates_separator_variants() {
    let v = generate_variants("john_doe");
    assert!(v.contains(&"johndoe".to_string()));
    assert!(v.contains(&"john.doe".to_string()));
    assert!(v.contains(&"john-doe".to_string()));
}

#[test]
fn generates_suffix_variants() {
    let v = generate_variants("johndoe");
    assert!(v.contains(&"johndoe1".to_string()));
    assert!(v.contains(&"johndoe99".to_string()));
}

#[test]
fn generates_leet() {
    let v = generate_variants("elite");
    assert!(v.contains(&"3l173".to_string()), "leet 'elite' should produce '3l173', got: {v:?}");
}

#[test]
fn removes_original() {
    let v = generate_variants("johndoe");
    assert!(!v.contains(&"johndoe".to_string()));
}

#[test]
fn generates_more_than_10_variants() {
    let v = generate_variants("test");
    assert!(v.len() > 10, "got {} variants", v.len());
}

#[test]
fn variants_have_no_duplicates() {
    let v = generate_variants("john_doe99");
    for i in 0..v.len() {
        for j in (i + 1)..v.len() {
            assert_ne!(v[i], v[j]);
        }
    }
    assert!(!v.contains(&"john_doe99".to_string()));
}

#[test]
fn prefix_and_digitless_variants() {
    let v = generate_variants("alice42");
    assert!(v.contains(&"alice".to_string()));
    assert!(v.contains(&"thealice42".to_string()));
    assert!(v.contains(&"real_alice42".to_string()));
    assert!(v.contains(&"ALICE42".to_string()));
}
