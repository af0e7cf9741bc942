use signer_core::section::{
    append_signed_bytes, append_tmpl_bytes, build_literal_text, build_substitution,
    build_user_message, section_valid,
};

#[test]
fn built_records_are_202_bytes_and_valid() {
    let um = build_user_message(&b"Transfer".to_vec());
    let lt = build_literal_text(&b"Send tokens".to_vec());
    let sb = build_substitution(&b"Amount".to_vec(), &vec![0u8; 8]);
    for r in [&um, &lt, &sb] {
        assert_eq!(r.len(), 202);
        assert!(section_valid(r));
    }
    assert_eq!(um[0], 0);
    assert_eq!(um[1], 8);
    assert_eq!(&um[2..10], b"Transfer");
    assert_eq!(lt[0], 1);
    assert_eq!(sb[0], 2);
    assert_eq!(sb[1], 8);
    assert_eq!(sb[2], 6);
    assert_eq!(&sb[3..9], b"Amount");
}

#[test]
fn undefined_discriminant_is_rejected() {
    let mut r = build_user_message(&b"x".to_vec());
    r[0] = 3;
    assert!(!section_valid(&r));
}

#[test]
fn oversized_substitution_length_is_rejected() {
    let mut r = build_substitution(&b"Amount".to_vec(), &vec![0u8; 8]);
    r[1] = 200;
    assert!(!section_valid(&r));
}

#[test]
fn oversized_text_length_is_rejected() {
    let mut r = build_user_message(&b"x".to_vec());
    r[1] = 200;
    assert!(!section_valid(&r));
    let mut r = build_literal_text(&b"x".to_vec());
    r[1] = 201;
    assert!(!section_valid(&r));
}

#[test]
fn wrong_record_length_is_rejected() {
    assert!(!section_valid(&vec![0u8; 201]));
    assert!(!section_valid(&vec![0u8; 203]));
    assert!(!section_valid(&Vec::new()));
}

#[test]
fn template_bytes_take_whole_record_except_substitution_head() {
    let lt = build_literal_text(&b"hello".to_vec());
    let mut acc = Vec::new();
    append_tmpl_bytes(&mut acc, &lt);
    assert_eq!(acc, lt);

    let sb = build_substitution(&b"T".to_vec(), &b"secret".to_vec());
    let mut acc = Vec::new();
    append_tmpl_bytes(&mut acc, &sb);
    assert_eq!(acc, sb[..19].to_vec());
}

#[test]
fn signed_bytes_per_variant() {
    let um = build_user_message(&b"Transfer".to_vec());
    let mut acc = Vec::new();
    append_signed_bytes(&mut acc, &um);
    assert!(acc.is_empty());

    let lt = build_literal_text(&b"hello".to_vec());
    let mut acc = Vec::new();
    append_signed_bytes(&mut acc, &lt);
    assert_eq!(acc, b"hello".to_vec());

    let sb = build_substitution(&b"T".to_vec(), &b"value".to_vec());
    let mut acc = Vec::new();
    append_signed_bytes(&mut acc, &sb);
    assert_eq!(acc, b"value".to_vec());
}

// Substitution exclusion on concrete records: two records equal except for
// the substituted value share their template bytes but not their signed
// bytes.
#[test]
fn substitution_excluded_from_template_stream() {
    let r1 = build_substitution(&b"Amount".to_vec(), &vec![1, 2, 3, 4]);
    let r2 = build_substitution(&b"Amount".to_vec(), &vec![9, 9, 9, 9]);

    let mut t1 = Vec::new();
    let mut t2 = Vec::new();
    append_tmpl_bytes(&mut t1, &r1);
    append_tmpl_bytes(&mut t2, &r2);
    assert_eq!(t1, t2);

    let mut s1 = Vec::new();
    let mut s2 = Vec::new();
    append_signed_bytes(&mut s1, &r1);
    append_signed_bytes(&mut s2, &r2);
    assert_eq!(s1, vec![1, 2, 3, 4]);
    assert_eq!(s2, vec![9, 9, 9, 9]);
    assert_ne!(s1, s2);
}
