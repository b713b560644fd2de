use docker_storage_proxy_registry::helpers::{
    RegistryPathsHelper, file256sum, parse_u32_decimal, ref_is_valid, split_once_at,
    split_registry_and_container, str_eq, str_starts_with, u64_to_dec_string,
};

#[test]
fn blob_path_layout() {
    let p = RegistryPathsHelper::blob_path("/srv/registry", "library/app", "abc123");
    assert_eq!(p, "/srv/registry/library/app/blobs/abc123");
}

#[test]
fn manifest_path_layout() {
    let p = RegistryPathsHelper::manifest_path("/srv/registry", "library/app", "v1");
    assert_eq!(p, "/srv/registry/library/app/manifests/v1");
}

#[test]
fn manifest_meta_layout() {
    let p = RegistryPathsHelper::manifest_meta("/srv/registry", "library/app", "v1");
    assert_eq!(p, "/srv/registry/library/app/meta/v1");
}

#[test]
fn temporary_blob_path_uses_canonical_uuid() {
    let id = uuid::Uuid::parse_str("67e55044-10b1-426f-9247-bb680e5fe0c8")
        .unwrap()
        .as_u128();
    let p = RegistryPathsHelper::temporary_blob_path("/tmp/reg", id);
    assert_eq!(p, "/tmp/reg/blobs/67e55044-10b1-426f-9247-bb680e5fe0c8");
}

#[test]
fn ref_validity() {
    assert!(ref_is_valid("library/app"));
    assert!(ref_is_valid("v1.2.3"));
    assert!(!ref_is_valid("../escape"));
    assert!(!ref_is_valid("a..b"));
    assert!(!ref_is_valid(""));
    assert!(!ref_is_valid("   "));
    assert!(!ref_is_valid(" \t\r\n"));
    // The full Unicode White_Space set counts as blank.
    assert!(!ref_is_valid("\u{000B}"));
    assert!(!ref_is_valid("\u{000C}"));
    assert!(!ref_is_valid("\u{00A0}\u{2003}\u{3000}"));
    assert!(ref_is_valid("a\u{00A0}"));
}

#[test]
fn split_registry_and_container_accepts_host_and_port() {
    let r = split_registry_and_container("registry.example.com:5000/library/app").unwrap();
    assert_eq!(r.0, "registry.example.com:5000");
    assert_eq!(r.1, "library/app");
}

#[test]
fn split_registry_and_container_accepts_plain_host() {
    let r = split_registry_and_container("registry.example.com/app").unwrap();
    assert_eq!(r.0, "registry.example.com");
    assert_eq!(r.1, "app");
}

#[test]
fn split_registry_and_container_rejects_bad_keys() {
    assert!(split_registry_and_container("nohostpart").is_none());
    assert!(split_registry_and_container("host:toolong1234567/app").is_none());
    assert!(split_registry_and_container("host:/app").is_none());
    assert!(split_registry_and_container("host:123/").is_none());
    assert!(split_registry_and_container("ho_st/app").is_none());
}

#[test]
fn parse_u32_decimal_values() {
    assert_eq!(parse_u32_decimal("0"), Some(0));
    assert_eq!(parse_u32_decimal("123"), Some(123));
    assert_eq!(parse_u32_decimal("004"), Some(4));
    assert_eq!(parse_u32_decimal("4294967295"), Some(u32::MAX));
    assert_eq!(parse_u32_decimal("4294967296"), None);
    assert_eq!(parse_u32_decimal(""), None);
    assert_eq!(parse_u32_decimal("12a"), None);
    assert_eq!(parse_u32_decimal("-1"), None);
}

#[test]
fn sha256_hex_known_vector() {
    // SHA-256("abc"), a standard test vector.
    assert_eq!(
        file256sum(b"abc"),
        "ba7816bf8f01cfea414140de5dae2223b00361a396177a9cb410ff61f20015ad"
    );
    assert_eq!(
        file256sum(b""),
        "e3b0c44298fc1c149afbf4c8996fb92427ae41e4649b934ca495991b7852b855"
    );
}

#[test]
fn decimal_rendering() {
    assert_eq!(u64_to_dec_string(0), "0");
    assert_eq!(u64_to_dec_string(7), "7");
    assert_eq!(u64_to_dec_string(1234567890), "1234567890");
    assert_eq!(u64_to_dec_string(u64::MAX), "18446744073709551615");
}

#[test]
fn string_utilities() {
    assert!(str_eq("abc", "abc"));
    assert!(!str_eq("abc", "abd"));
    assert!(!str_eq("abc", "ab"));
    assert!(str_starts_with("sha256:beef", "sha256:"));
    assert!(!str_starts_with("sha255:beef", "sha256:"));
    let (a, b) = split_once_at("sha256:beef", ':').unwrap();
    assert_eq!(a, "sha256");
    assert_eq!(b, "beef");
    assert!(split_once_at("nocolon", ':').is_none());
}
