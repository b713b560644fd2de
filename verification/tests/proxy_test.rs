use docker_storage_proxy_registry::client_responses::ProxyManifestResponse;
use docker_storage_proxy_registry::configuration::Configuration;
use docker_storage_proxy_registry::client::DockerClientError;
use docker_storage_proxy_registry::controllers::{
    proxy_alias_manifest, proxy_blob_local, proxy_blob_store, proxy_cache_manifest,
    proxy_manifest_head_decision, proxy_manifest_is_cached, proxy_manifest_response,
    ProxyBlobDecision, ProxyManifestDecision, RegistryHttpError,
};
use docker_storage_proxy_registry::file_store::FileStore;
use docker_storage_proxy_registry::helpers::file256sum;
use docker_storage_proxy_registry::json_registry_error::{
    RegistryJsonErrorRepr, RegistryJsonErrorReprWrapper,
};

fn test_conf() -> Configuration {
    Configuration {
        registry_storage: "/srv/registry".to_string(),
        temporary_registry_storage: "/srv/tmp".to_string(),
        proxy_storage: "/srv/proxy".to_string(),
    }
}

#[test]
fn proxy_blob_miss_then_hit() {
    // First fetch of a digest with an empty proxy store is a MISS that
    // populates the cache; the second is a HIT with identical bytes
    // and no upstream contact.
    let conf = test_conf();
    let mut files = FileStore::new();
    let digest = "sha256:cafe";

    match proxy_blob_local(&conf, &files, "library/app", digest).unwrap() {
        ProxyBlobDecision::Miss => {}
        ProxyBlobDecision::Hit(_) => panic!("empty cache cannot hit"),
    }

    let body: &[u8] = b"layer-bytes";
    let stored =
        proxy_blob_store(&conf, &mut files, "library/app", digest, 200, Some("11"), body)
            .unwrap();
    assert_eq!(stored.status, 200);
    assert_eq!(stored.headers[2].1, "MISS");
    assert_eq!(stored.body, Some(body.to_vec()));

    match proxy_blob_local(&conf, &files, "library/app", digest).unwrap() {
        ProxyBlobDecision::Hit(resp) => {
            assert_eq!(resp.status, 200);
            assert_eq!(resp.headers[2].1, "HIT");
            assert_eq!(resp.body, Some(body.to_vec()));
        }
        ProxyBlobDecision::Miss => panic!("populated cache must hit"),
    }
}

#[test]
fn proxy_blob_upstream_failures() {
    let conf = test_conf();
    let mut files = FileStore::new();
    let r404 = proxy_blob_store(&conf, &mut files, "r", "sha256:x", 404, None, b"").unwrap();
    assert_eq!(r404.status, 404);
    assert!(matches!(
        proxy_blob_store(&conf, &mut files, "r", "sha256:x", 500, None, b""),
        Err(RegistryHttpError::RegistryInternalError(_))
    ));
    assert!(matches!(
        proxy_blob_store(&conf, &mut files, "r", "sha256:x", 200, None, b""),
        Err(RegistryHttpError::RegistryInternalError(_))
    ));
    assert!(matches!(
        proxy_blob_store(&conf, &mut files, "r", "sha256:x", 200, Some("nan"), b""),
        Err(RegistryHttpError::RegistryInternalError(_))
    ));
    assert!(matches!(
        proxy_blob_local(&conf, &files, "..", "sha256:x"),
        Err(RegistryHttpError::InvalidRepositoryName(_))
    ));
    assert!(matches!(
        proxy_blob_local(&conf, &files, "r", ".."),
        Err(RegistryHttpError::InvalidTagName(_))
    ));
}

#[test]
fn proxy_manifest_cache_flow() {
    let conf = test_conf();
    let mut files = FileStore::new();
    let body: &[u8] = b"{\"schemaVersion\":2}";
    let digest = format!("sha256:{}", file256sum(body));

    assert!(!proxy_manifest_is_cached(&conf, &files, "library/app", &digest));
    proxy_cache_manifest(
        &conf,
        &mut files,
        "library/app",
        "latest",
        "application/json",
        body,
        9,
    )
    .unwrap();
    assert!(proxy_manifest_is_cached(&conf, &files, "library/app", &digest));
    assert!(proxy_manifest_is_cached(&conf, &files, "library/app", "latest"));

    let head = ProxyManifestResponse {
        hash: digest.clone(),
        content_type: "application/json".to_string(),
        content_length: body.len() as u32,
    };
    let resp = proxy_manifest_response(&conf, &files, "library/app", "latest", &head).unwrap();
    assert_eq!(resp.status, 200);
    assert_eq!(resp.headers[0].1, "application/json");
    assert_eq!(resp.headers[1].1, digest);
    assert_eq!(resp.body, Some(body.to_vec()));

    let missing = proxy_manifest_response(&conf, &files, "library/app", "absent", &head);
    assert!(matches!(missing, Err(RegistryHttpError::RegistryInternalError(_))));
}

#[test]
fn upstream_manifest_head_judgement() {
    // A 200 HEAD proceeds with its data; an upstream 404 becomes a
    // local 404; anything else is internal.
    let head = ProxyManifestResponse {
        hash: "sha256:x".to_string(),
        content_type: "t".to_string(),
        content_length: 3,
    };
    match proxy_manifest_head_decision(Ok(head)).unwrap() {
        ProxyManifestDecision::Proceed(h) => assert_eq!(h.hash, "sha256:x"),
        ProxyManifestDecision::NotFound(_) => panic!("a 200 HEAD must proceed"),
    }
    match proxy_manifest_head_decision(Err(DockerClientError::UnexpectedStatusCode(404)))
        .unwrap()
    {
        ProxyManifestDecision::NotFound(resp) => assert_eq!(resp.status, 404),
        ProxyManifestDecision::Proceed(_) => panic!("an upstream 404 is a local 404"),
    }
    assert!(matches!(
        proxy_manifest_head_decision(Err(DockerClientError::UnexpectedStatusCode(500))),
        Err(RegistryHttpError::RegistryInternalError(_))
    ));
    assert!(matches!(
        proxy_manifest_head_decision(Err(DockerClientError::MissingProxyHeader(
            "Content-Length".to_string()
        ))),
        Err(RegistryHttpError::RegistryInternalError(_))
    ));
}

#[test]
fn cached_digest_gains_tag_alias() {
    // A manifest already cached under its digest via another tag gets
    // a fresh tag alias without another upstream GET.
    let conf = test_conf();
    let mut files = FileStore::new();
    let body: &[u8] = b"aliased-manifest";
    let digest = format!("sha256:{}", file256sum(body));
    proxy_cache_manifest(&conf, &mut files, "r", "first", "t", body, 1).unwrap();
    assert!(!proxy_manifest_is_cached(&conf, &files, "r", "second"));

    proxy_alias_manifest(&conf, &mut files, "r", "second", &digest).unwrap();
    assert!(proxy_manifest_is_cached(&conf, &files, "r", "second"));
    let head = ProxyManifestResponse {
        hash: digest.clone(),
        content_type: "t".to_string(),
        content_length: body.len() as u32,
    };
    let resp = proxy_manifest_response(&conf, &files, "r", "second", &head).unwrap();
    assert_eq!(resp.body, Some(body.to_vec()));

    assert!(matches!(
        proxy_alias_manifest(&conf, &mut files, "r", "tag", "sha256:absent"),
        Err(RegistryHttpError::RegistryInternalError(_))
    ));
}

#[test]
fn error_status_and_codes() {
    let cases = vec![
        (RegistryHttpError::invalid_repository_name("x"), 400, "NAME_INVALID"),
        (RegistryHttpError::invalid_tag_name("x"), 400, "TAG_INVALID"),
        (RegistryHttpError::invalid_hash_format("x"), 400, "UNSUPPORTED"),
        (RegistryHttpError::upload_id_not_found("x"), 404, "BLOB_UPLOAD_UNKNOWN"),
        (RegistryHttpError::manifest_not_found("c", "m"), 404, "NAME_UNKNOWN"),
        (RegistryHttpError::registry_internal_error("boom"), 500, "UNKNOWN"),
    ];
    for (err, status, code) in cases {
        assert_eq!(err.http_status(), status);
        assert_eq!(err.error_code(), code);
    }
}

#[test]
fn error_messages_and_response_parts() {
    let e = RegistryHttpError::manifest_not_found("library/app", "v9");
    assert_eq!(e.message(), "Manifest v9 in layer library/app not found");
    let (status, wrapper) = e.response_parts();
    assert_eq!(status, 404);
    assert_eq!(wrapper.errors.len(), 1);
    assert_eq!(wrapper.errors[0].code, "NAME_UNKNOWN");
    assert_eq!(wrapper.errors[0].message, "Manifest v9 in layer library/app not found");
    assert_eq!(wrapper.errors[0].detail, "");
    let e2 = RegistryHttpError::invalid_repository_name("..");
    assert_eq!(e2.message(), "Invalid repository name ..");
    assert_eq!(e2.response_parts().0, 400);
}

#[test]
fn json_error_envelopes() {
    let single = RegistryJsonErrorReprWrapper::single("NAME_INVALID", "bad name", "detail");
    assert_eq!(single.errors.len(), 1);
    assert_eq!(single.errors[0].code, "NAME_INVALID");
    assert_eq!(single.errors[0].message, "bad name");
    assert_eq!(single.errors[0].detail, "detail");

    let batch = RegistryJsonErrorReprWrapper::multiple(vec![
        RegistryJsonErrorRepr::new("A", "m1", ""),
        RegistryJsonErrorRepr::new("B", "m2", ""),
    ]);
    assert_eq!(batch.errors.len(), 2);
    assert_eq!(batch.errors[1].code, "B");
}
