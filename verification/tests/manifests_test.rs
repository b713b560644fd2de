use docker_storage_proxy_registry::configuration::Configuration;
use docker_storage_proxy_registry::controllers::{
    fetch_manifest, upload_manifest, RegistryHttpError,
};
use docker_storage_proxy_registry::file_store::FileStore;
use docker_storage_proxy_registry::helpers::file256sum;
use docker_storage_proxy_registry::manifests::{
    Manifest, ManifestMetadata, parse_manifest_metadata,
};

fn test_conf() -> Configuration {
    Configuration {
        registry_storage: "/srv/registry".to_string(),
        temporary_registry_storage: "/srv/tmp".to_string(),
        proxy_storage: "/srv/proxy".to_string(),
    }
}

#[test]
fn metadata_json_rendering() {
    let m = ManifestMetadata { hash: "abcd".to_string(), content_type: "application/json".to_string() };
    assert_eq!(m.to_json(), "{\"hash\":\"abcd\",\"content_type\":\"application/json\"}");
}

#[test]
fn metadata_json_escapes_special_characters() {
    let m = ManifestMetadata { hash: "x".to_string(), content_type: "a\"b\\c\nd".to_string() };
    assert_eq!(m.to_json(), "{\"hash\":\"x\",\"content_type\":\"a\\\"b\\\\c\\nd\"}");
}

#[test]
fn metadata_json_round_trip() {
    let m = ManifestMetadata {
        hash: "deadbeef".to_string(),
        content_type: "application/vnd.oci.image.manifest.v1+json".to_string(),
    };
    let parsed = parse_manifest_metadata(&m.to_json()).expect("rendering must parse back");
    assert_eq!(parsed.hash, m.hash);
    assert_eq!(parsed.content_type, m.content_type);
}

#[test]
fn metadata_parse_rejects_malformed_bodies() {
    assert!(parse_manifest_metadata("").is_none());
    assert!(parse_manifest_metadata("{\"hash\":\"x\"}").is_none());
    let empty_hash = parse_manifest_metadata("{\"hash\":\"\",\"content_type\":\"t\"}").unwrap();
    assert_eq!(empty_hash.hash, "");
    assert!(parse_manifest_metadata("{\"hash\":\"a\\\"b\",\"content_type\":\"t\"}").is_none());
    assert!(parse_manifest_metadata("{\"hash\":\"x\",\"content_type\":\"t\"}trailing").is_none());
}

#[test]
fn manifest_digest_settlement() {
    let m = Manifest::new("/r", "/t", "c", "sha256:feed");
    assert_eq!(m.docker_hash().unwrap(), "sha256:feed");
    let m2 = Manifest::new("/r", "/t", "c", "v1");
    assert!(m2.docker_hash().is_err());
}

#[test]
fn manifest_alias_consistency() {
    // save(repo, "v1", bytes, ct) then fetch by tag and by digest:
    // byte-identical content and identical metadata.
    let conf = test_conf();
    let mut files = FileStore::new();
    let body: &[u8] = b"{\"layers\":[]}";
    let digest = format!("sha256:{}", file256sum(body));

    let put = upload_manifest(
        &mut files,
        &conf,
        "library/app",
        "v1",
        "application/json",
        body,
        42,
    )
    .unwrap();
    assert_eq!(put.status, 201);
    assert_eq!(put.headers[1].1, digest);

    let by_tag = fetch_manifest(&conf, &files, "library/app", "v1").unwrap();
    let by_digest = fetch_manifest(&conf, &files, "library/app", &digest).unwrap();
    assert_eq!(by_tag.status, 200);
    assert_eq!(by_digest.status, 200);
    assert_eq!(by_tag.body, by_digest.body);
    assert_eq!(by_tag.body, Some(body.to_vec()));
    assert_eq!(by_tag.headers, by_digest.headers);
    assert_eq!(by_tag.headers[0].1, digest);
    assert_eq!(by_tag.headers[1].1, "application/json");
}

#[test]
fn manifest_put_by_digest_makes_no_tag_alias() {
    let conf = test_conf();
    let mut files = FileStore::new();
    let body: &[u8] = b"manifest-bytes";
    let digest = format!("sha256:{}", file256sum(body));
    let put = upload_manifest(
        &mut files,
        &conf,
        "library/app",
        &digest,
        "application/json",
        body,
        7,
    )
    .unwrap();
    assert_eq!(put.status, 201);
    let by_digest = fetch_manifest(&conf, &files, "library/app", &digest).unwrap();
    assert_eq!(by_digest.body, Some(body.to_vec()));
}

#[test]
fn fetch_manifest_errors() {
    let conf = test_conf();
    let files = FileStore::new();
    assert!(matches!(
        fetch_manifest(&conf, &files, "..", "v1"),
        Err(RegistryHttpError::InvalidRepositoryName(_))
    ));
    assert!(matches!(
        fetch_manifest(&conf, &files, "r", ".."),
        Err(RegistryHttpError::InvalidTagName(_))
    ));
    assert!(matches!(
        fetch_manifest(&conf, &files, "r", "v1"),
        Err(RegistryHttpError::ManifestNotFound { .. })
    ));
}

#[test]
fn manifest_upload_rejects_bad_names() {
    let conf = test_conf();
    let mut files = FileStore::new();
    assert!(matches!(
        upload_manifest(&mut files, &conf, "", "v1", "t", b"x", 0),
        Err(RegistryHttpError::InvalidRepositoryName(_))
    ));
    assert!(matches!(
        upload_manifest(&mut files, &conf, "r", "a..b", "t", b"x", 0),
        Err(RegistryHttpError::InvalidTagName(_))
    ));
}
