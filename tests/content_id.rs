use kalamche_upload::content_id::{generate_file_hash, id_from_digest};

#[test]
fn hash_of_abc_is_sha256_prefix() {
    assert_eq!(generate_file_hash("abc"), "ba7816bf8f01cfea");
}

#[test]
fn hash_of_empty_name() {
    assert_eq!(generate_file_hash(""), "e3b0c44298fc1c14");
}

#[test]
fn hash_is_deterministic_sixteen_hex() {
    for name in ["photo.png", "a", "отчёт.pdf", "with space.txt", ""] {
        let a = generate_file_hash(name);
        let b = generate_file_hash(name);
        assert_eq!(a, b);
        assert_eq!(a.len(), 16);
        assert!(a.chars().all(|c| c.is_ascii_hexdigit() && !c.is_ascii_uppercase()));
    }
}

#[test]
fn different_names_differ() {
    assert_ne!(generate_file_hash("a.png"), generate_file_hash("b.png"));
}

#[test]
fn identical_names_share_an_id() {
    assert_eq!(generate_file_hash("report.pdf"), generate_file_hash("report.pdf"));
}

#[test]
fn id_from_digest_takes_first_eight_bytes() {
    let digest: Vec<u8> = vec![0x00, 0x0f, 0x10, 0xab, 0xcd, 0xef, 0x7f, 0xff, 0x12, 0x34];
    assert_eq!(id_from_digest(&digest), "000f10abcdef7fff");
}
