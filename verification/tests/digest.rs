use zenoh_cdn::digest::{hash_path, to_hex_upper};

#[test]
fn hex_is_upper_case_and_two_digits_a_byte() {
    assert_eq!(to_hex_upper(&vec![]), "");
    assert_eq!(to_hex_upper(&vec![0x00]), "00");
    assert_eq!(to_hex_upper(&vec![0x00, 0xab, 0xff, 0x10, 0x09]), "00ABFF1009");
    assert_eq!(to_hex_upper(&vec![0x1a, 0xa1]), "1AA1");
}

#[test]
fn hex_covers_every_byte() {
    for b in 0..=255u8 {
        assert_eq!(to_hex_upper(&vec![b]), format!("{:02X}", b));
    }
}

#[test]
fn hash_path_is_sha256_in_upper_hex() {
    assert_eq!(
        hash_path("abc"),
        "BA7816BF8F01CFEA414140DE5DAE2223B00361A396177A9CB410FF61F20015AD"
    );
    assert_eq!(
        hash_path(""),
        "E3B0C44298FC1C149AFBF4C8996FB92427AE41E4649B934CA495991B7852B855"
    );
    assert_eq!(
        hash_path("The quick brown fox jumps over the lazy dog"),
        "D7A8FBB307D7809469CA9ABCB0082E4F8D5651E46D3CDB762D02D0BF37C9E592"
    );
}

#[test]
fn hash_path_has_a_fixed_length() {
    let long = "x".repeat(100_000);
    for path in ["", "a", "a/b/c", "été", long.as_str()] {
        let name = hash_path(path);
        assert_eq!(name.len(), 64);
        assert!(name.chars().all(|c| c.is_ascii_digit() || ('A'..='F').contains(&c)));
    }
}

#[test]
fn hash_path_depends_on_the_name_alone() {
    assert_eq!(hash_path("a/b/c"), hash_path("a/b/c"));
    let owned = String::from("a/b/c");
    assert_eq!(hash_path(&owned), hash_path("a/b/c"));
    assert_ne!(hash_path("a/b/c"), hash_path("a/b/d"));
    assert_ne!(hash_path("/name"), hash_path("name"));
}
