use docker_storage_proxy_registry::configuration::Configuration;
use docker_storage_proxy_registry::controllers::{
    check_blob_exists, delete_upload, finalize_blob_upload, initiate_upload,
    process_blob_chunk_upload, RegistryHttpError,
};
use docker_storage_proxy_registry::file_store::FileStore;
use docker_storage_proxy_registry::helpers::{RegistryPathsHelper, file256sum};
use docker_storage_proxy_registry::uploads::UploadsStore;

fn test_conf() -> Configuration {
    Configuration {
        registry_storage: "/srv/registry".to_string(),
        temporary_registry_storage: "/srv/tmp".to_string(),
        proxy_storage: "/srv/proxy".to_string(),
    }
}

fn uuid_of(id: u128) -> String {
    uuid::Uuid::from_u128(id).hyphenated().to_string()
}

#[test]
fn file_store_semantics() {
    let mut files = FileStore::new();
    assert!(!files.is_file("/a"));
    files.write("/a", vec![1, 2, 3]);
    assert!(files.is_file("/a"));
    assert_eq!(files.read_copy("/a"), Some(vec![1, 2, 3]));
    assert_eq!(files.file_size("/a"), Some(3));
    let n = files.append_file("/a", &[4, 5]);
    assert_eq!(n, 5);
    assert_eq!(files.read_copy("/a"), Some(vec![1, 2, 3, 4, 5]));
    let n2 = files.append_file("/fresh", &[9]);
    assert_eq!(n2, 1);
    assert!(files.rename_file("/a", "/b").is_ok());
    assert!(!files.is_file("/a"));
    assert_eq!(files.read_copy("/b"), Some(vec![1, 2, 3, 4, 5]));
    assert!(files.rename_file("/missing", "/c").is_err());
    assert!(files.copy_file("/b", "/c").is_ok());
    assert_eq!(files.read_copy("/c"), Some(vec![1, 2, 3, 4, 5]));
    files.remove_file("/b");
    assert!(!files.is_file("/b"));
    assert!(files.is_file("/c"));
}

#[test]
fn upload_store_crud() {
    let mut uploads = UploadsStore::new();
    let id = uploads.create_upload("library/app", "/srv/tmp", "/srv/registry", 17);
    let u = uploads.fetch_upload(id).expect("created upload must be retrievable");
    assert_eq!(u.id, id);
    assert_eq!(u.container_reference, "library/app");
    assert_eq!(u.last_interacted_with, 17);
    assert_eq!(
        u.temporary_file_path,
        format!("/srv/tmp/blobs/{}", uuid_of(id))
    );
    assert_eq!(u.http_upload_uri(), format!("/v2/library/app/blobs/uploads/{}", uuid_of(id)));

    let found = uploads.fetch_upload_string_uuid(&uuid_of(id)).unwrap();
    assert!(found.is_some());
    assert!(uploads.fetch_upload_string_uuid("not-a-uuid").is_err());

    uploads.delete_upload(id);
    assert!(uploads.fetch_upload(id).is_none());
}

#[test]
fn upload_round_trip() {
    // Upload chunks b1, b2, b3; the finalized blob is their
    // concatenation at the content-addressed path, and the session is
    // no longer retrievable.
    let conf = test_conf();
    let mut uploads = UploadsStore::new();
    let mut files = FileStore::new();

    let resp = initiate_upload(&mut uploads, &conf, "library/app", false, 1).unwrap();
    assert_eq!(resp.status, 202);
    assert_eq!(resp.headers[1].0, "Range");
    assert_eq!(resp.headers[1].1, "0-0");
    let raw_id = resp.headers[2].1.clone();

    let b1: &[u8] = b"hello ";
    let b2: &[u8] = b"verified ";
    let b3: &[u8] = b"registry";
    let r1 = process_blob_chunk_upload(&mut uploads, &mut files, "library/app", &raw_id, b1, 2).unwrap();
    assert_eq!(r1.status, 202);
    assert_eq!(r1.headers[0].1, "0-6");
    let r2 = process_blob_chunk_upload(&mut uploads, &mut files, "library/app", &raw_id, b2, 3).unwrap();
    assert_eq!(r2.headers[0].1, "0-15");

    let mut all: Vec<u8> = Vec::new();
    all.extend_from_slice(b1);
    all.extend_from_slice(b2);
    all.extend_from_slice(b3);
    let digest = format!("sha256:{}", file256sum(&all));

    let r3 =
        finalize_blob_upload(&mut uploads, &mut files, "library/app", &raw_id, &digest, b3)
            .unwrap();
    assert_eq!(r3.status, 201);
    assert_eq!(r3.headers[1].1, digest);

    let blob_path =
        RegistryPathsHelper::blob_path("/srv/registry", "library/app", &digest["sha256:".len()..]);
    assert_eq!(files.read_copy(&blob_path), Some(all.clone()));

    // The session is gone afterwards.
    let again = process_blob_chunk_upload(&mut uploads, &mut files, "library/app", &raw_id, b"x", 4);
    assert!(matches!(again, Err(RegistryHttpError::UploadIdNotFound(_))));

    // A GET serves the content back with the recomputed digest.
    let get = check_blob_exists(&conf, &files, "library/app", &digest, false).unwrap();
    assert_eq!(get.status, 200);
    assert_eq!(get.body, Some(all));
    assert_eq!(get.headers[2].1, digest);
}

#[test]
fn append_only_resumability() {
    // Appending a zero-length chunk leaves the size unchanged;
    // appending the same bytes twice is not deduplicated.
    let mut uploads = UploadsStore::new();
    let mut files = FileStore::new();
    let id = uploads.create_upload("r", "/srv/tmp", "/srv/registry", 0);
    let raw = uuid_of(id);
    let a = process_blob_chunk_upload(&mut uploads, &mut files, "r", &raw, b"data", 1).unwrap();
    assert_eq!(a.headers[0].1, "0-4");
    let b = process_blob_chunk_upload(&mut uploads, &mut files, "r", &raw, b"", 2).unwrap();
    assert_eq!(b.headers[0].1, "0-4");
    let c = process_blob_chunk_upload(&mut uploads, &mut files, "r", &raw, b"data", 3).unwrap();
    assert_eq!(c.headers[0].1, "0-8");
    let u = uploads.fetch_upload(id).unwrap();
    assert_eq!(files.read_copy(&u.temporary_file_path), Some(b"datadata".to_vec()));
    // Each accepted chunk refreshed the last-activity stamp.
    assert_eq!(u.last_interacted_with, 3);
}

#[test]
fn finalize_without_scratch_fails_and_changes_nothing() {
    // Finalize atomicity: on failure the destination stays absent,
    // never partial.
    let mut uploads = UploadsStore::new();
    let mut files = FileStore::new();
    let id = uploads.create_upload("r", "/srv/tmp", "/srv/registry", 0);
    let u = uploads.fetch_upload(id).unwrap();
    let r = u.finalize_upload(&mut files, "deadbeef");
    assert!(r.is_err());
    let dest = RegistryPathsHelper::blob_path("/srv/registry", "r", "deadbeef");
    assert!(!files.is_file(&dest));
}

#[test]
fn prune_removes_only_stale_sessions() {
    // Sessions older than max_age at sweep time are gone together with
    // their scratch files; younger ones are untouched.
    let mut uploads = UploadsStore::new();
    let mut files = FileStore::new();
    let old_id = uploads.create_upload("r", "/srv/tmp", "/srv/registry", 10);
    let new_id = uploads.create_upload("r", "/srv/tmp", "/srv/registry", 100);
    let old_u = uploads.fetch_upload(old_id).unwrap();
    let new_u = uploads.fetch_upload(new_id).unwrap();
    old_u.write_blob(&mut files, b"old");
    new_u.write_blob(&mut files, b"new");

    uploads.prune(&mut files, 200, 150);

    assert!(uploads.fetch_upload(old_id).is_none());
    assert!(uploads.fetch_upload(new_id).is_some());
    assert!(!files.is_file(&old_u.temporary_file_path));
    assert_eq!(files.read_copy(&new_u.temporary_file_path), Some(b"new".to_vec()));

    // A string lookup of the pruned session reports it unknown.
    let gone = uploads.fetch_upload_string_uuid(&uuid_of(old_id)).unwrap();
    assert!(gone.is_none());
}

#[test]
fn active_upload_survives_prune() {
    // A session created long ago but appended to recently is not idle
    // and survives the sweep.
    let mut uploads = UploadsStore::new();
    let mut files = FileStore::new();
    let id = uploads.create_upload("r", "/srv/tmp", "/srv/registry", 10);
    let raw = uuid::Uuid::from_u128(id).hyphenated().to_string();
    process_blob_chunk_upload(&mut uploads, &mut files, "r", &raw, b"chunk", 190).unwrap();
    uploads.prune(&mut files, 200, 150);
    assert!(uploads.fetch_upload(id).is_some());
}

#[test]
fn delete_upload_cleans_scratch_file() {
    let mut uploads = UploadsStore::new();
    let mut files = FileStore::new();
    let id = uploads.create_upload("r", "/srv/tmp", "/srv/registry", 0);
    let u = uploads.fetch_upload(id).unwrap();
    u.write_blob(&mut files, b"zzz");
    let raw = uuid_of(id);
    let resp = delete_upload(&mut uploads, &mut files, "r", &raw).unwrap();
    assert_eq!(resp.status, 204);
    assert!(uploads.fetch_upload(id).is_none());
    assert!(!files.is_file(&u.temporary_file_path));
}

#[test]
fn blob_lookup_ignores_digest_algorithm_prefix() {
    // The lookup keys on the hash part after the first colon; the
    // algorithm prefix is not interpreted.
    let conf = test_conf();
    let mut files = FileStore::new();
    let blob_path = RegistryPathsHelper::blob_path("/srv/registry", "r", "abc");
    files.write(&blob_path, b"blob".to_vec());
    let head = check_blob_exists(&conf, &files, "r", "md5:abc", true).unwrap();
    assert_eq!(head.status, 200);
    assert_eq!(head.headers[0].1, "4");
    assert_eq!(head.headers[1].1, "sha256:abc");
    assert_eq!(head.body, None);
}

#[test]
fn upload_error_cases() {
    let conf = test_conf();
    let mut uploads = UploadsStore::new();
    let mut files = FileStore::new();
    assert!(matches!(
        initiate_upload(&mut uploads, &conf, "..", false, 0),
        Err(RegistryHttpError::InvalidRepositoryName(_))
    ));
    let resp = initiate_upload(&mut uploads, &conf, "r", true, 0).unwrap();
    assert_eq!(resp.status, 501);
    assert!(matches!(
        process_blob_chunk_upload(&mut uploads, &mut files, "r", "bogus", b"x", 0),
        Err(RegistryHttpError::UploadIdNotFound(_))
    ));
    assert!(matches!(
        finalize_blob_upload(&mut uploads, &mut files, "r", "bogus", "nocolon", b""),
        Err(RegistryHttpError::InvalidHashFormat(_))
    ));
    assert!(matches!(
        check_blob_exists(&conf, &files, "r", "nocolon", true),
        Err(RegistryHttpError::InvalidHashFormat(_))
    ));
    let missing = check_blob_exists(&conf, &files, "r", "sha256:na", true).unwrap();
    assert_eq!(missing.status, 404);
}
