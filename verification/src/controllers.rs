//! Registry-facing error taxonomy and request handling decisions.

use vstd::prelude::*;
use vstd::string::StrSliceExecFns;
use vstd::string::StringExecFns;
use crate::clients_store::DockerClientsStore;
use crate::configuration::Configuration;
use crate::file_store::FileStore;
use crate::json_registry_error::RegistryJsonErrorReprWrapper;
use crate::helpers::{
    RegistryPathsHelper, file256sum, find_first, first_occurrence_at, format_uuid, hex_lower_of,
    sha256_of, spec_blob_path, spec_dec_str, spec_ref_is_valid, reject_invalid_container_refs,
    reject_invalid_tags_refs, u64_to_dec_string, uuid_parse_of, uuid_str_of,
};
use crate::client::DockerClientError;
use crate::client_responses::ProxyManifestResponse;
use crate::helpers::{copy_bytes, parse_u32_decimal, spec_digits_value, spec_is_u32_decimal};
use crate::manifests::{
    Manifest, bytes_to_string, parse_manifest_metadata, spec_metadata_json, spec_plain_json,
};
use vstd::utf8::valid_utf8;
use crate::helpers::spec_starts_with;
use crate::helpers::{spec_manifest_meta, spec_manifest_path};
use crate::uploads::{UploadModel, UploadsStore, spec_upload};
use vstd::utf8::encode_utf8;

verus! {

/// Every failure the registry boundary can report, with enough data to
/// render a machine-readable code and message.
#[derive(Debug)]
pub enum RegistryHttpError {
    InvalidRepositoryName(String),
    InvalidTagName(String),
    InvalidHashFormat(String),
    UploadIdNotFound(String),
    ManifestNotFound { container: String, manifest: String },
    RegistryInternalError(String),
}

impl RegistryHttpError {
    pub fn invalid_repository_name(s: &str) -> (r: Self)
        ensures
            r matches RegistryHttpError::InvalidRepositoryName(n) && n@ == s@,
    {
        RegistryHttpError::InvalidRepositoryName(s.to_owned())
    }

    pub fn invalid_tag_name(s: &str) -> (r: Self)
        ensures
            r matches RegistryHttpError::InvalidTagName(n) && n@ == s@,
    {
        RegistryHttpError::InvalidTagName(s.to_owned())
    }

    pub fn invalid_hash_format(s: &str) -> (r: Self)
        ensures
            r matches RegistryHttpError::InvalidHashFormat(n) && n@ == s@,
    {
        RegistryHttpError::InvalidHashFormat(s.to_owned())
    }

    pub fn upload_id_not_found(s: &str) -> (r: Self)
        ensures
            r matches RegistryHttpError::UploadIdNotFound(n) && n@ == s@,
    {
        RegistryHttpError::UploadIdNotFound(s.to_owned())
    }

    pub fn manifest_not_found(container: &str, manifest_ref: &str) -> (r: Self)
        ensures
            r matches RegistryHttpError::ManifestNotFound { container: c, manifest: m } && c@
                == container@ && m@ == manifest_ref@,
    {
        RegistryHttpError::ManifestNotFound {
            container: container.to_owned(),
            manifest: manifest_ref.to_owned(),
        }
    }

    pub fn registry_internal_error(cause: &str) -> (r: Self)
        ensures
            r matches RegistryHttpError::RegistryInternalError(n) && n@ == cause@,
    {
        RegistryHttpError::RegistryInternalError(cause.to_owned())
    }

    /// The HTTP status this error is reported under.
    pub fn http_status(&self) -> (r: u16)
        ensures
            r == self.spec_http_status(),
    {
        match self {
            RegistryHttpError::InvalidRepositoryName(_) => 400,
            RegistryHttpError::InvalidTagName(_) => 400,
            RegistryHttpError::InvalidHashFormat(_) => 400,
            RegistryHttpError::UploadIdNotFound(_) => 404,
            RegistryHttpError::ManifestNotFound { .. } => 404,
            RegistryHttpError::RegistryInternalError(_) => 500,
        }
    }

    pub open spec fn spec_http_status(&self) -> u16 {
        match self {
            RegistryHttpError::InvalidRepositoryName(_) => 400u16,
            RegistryHttpError::InvalidTagName(_) => 400u16,
            RegistryHttpError::InvalidHashFormat(_) => 400u16,
            RegistryHttpError::UploadIdNotFound(_) => 404u16,
            RegistryHttpError::ManifestNotFound { .. } => 404u16,
            RegistryHttpError::RegistryInternalError(_) => 500u16,
        }
    }

    /// The registry error code rendered in the JSON body.
    pub fn error_code(&self) -> (r: &'static str)
        ensures
            r@ == self.spec_error_code(),
    {
        match self {
            RegistryHttpError::InvalidRepositoryName(_) => "NAME_INVALID",
            RegistryHttpError::InvalidTagName(_) => "TAG_INVALID",
            RegistryHttpError::InvalidHashFormat(_) => "UNSUPPORTED",
            RegistryHttpError::UploadIdNotFound(_) => "BLOB_UPLOAD_UNKNOWN",
            RegistryHttpError::ManifestNotFound { .. } => "NAME_UNKNOWN",
            RegistryHttpError::RegistryInternalError(_) => "UNKNOWN",
        }
    }

    pub open spec fn spec_error_code(&self) -> Seq<char> {
        match self {
            RegistryHttpError::InvalidRepositoryName(_) => "NAME_INVALID"@,
            RegistryHttpError::InvalidTagName(_) => "TAG_INVALID"@,
            RegistryHttpError::InvalidHashFormat(_) => "UNSUPPORTED"@,
            RegistryHttpError::UploadIdNotFound(_) => "BLOB_UPLOAD_UNKNOWN"@,
            RegistryHttpError::ManifestNotFound { .. } => "NAME_UNKNOWN"@,
            RegistryHttpError::RegistryInternalError(_) => "UNKNOWN"@,
        }
    }

    pub open spec fn spec_message(&self) -> Seq<char> {
        match self {
            RegistryHttpError::InvalidRepositoryName(n) => "Invalid repository name "@ + n@,
            RegistryHttpError::InvalidTagName(n) => "Invalid tag name "@ + n@,
            RegistryHttpError::InvalidHashFormat(n) => "Invalid hash format "@ + n@,
            RegistryHttpError::UploadIdNotFound(n) => "Upload ID "@ + n@
                + " not found or invalid"@,
            RegistryHttpError::ManifestNotFound { container, manifest } => "Manifest "@
                + manifest@ + " in layer "@ + container@ + " not found"@,
            RegistryHttpError::RegistryInternalError(n) => "Internal server error: "@ + n@,
        }
    }

    /// The human-readable message rendered beside the error code.
    pub fn message(&self) -> (r: String)
        ensures
            r@ == self.spec_message(),
    {
        match self {
            RegistryHttpError::InvalidRepositoryName(n) => {
                let mut out = "Invalid repository name ".to_owned();
                out.append(n.as_str());
                out
            },
            RegistryHttpError::InvalidTagName(n) => {
                let mut out = "Invalid tag name ".to_owned();
                out.append(n.as_str());
                out
            },
            RegistryHttpError::InvalidHashFormat(n) => {
                let mut out = "Invalid hash format ".to_owned();
                out.append(n.as_str());
                out
            },
            RegistryHttpError::UploadIdNotFound(n) => {
                let mut out = "Upload ID ".to_owned();
                out.append(n.as_str());
                out.append(" not found or invalid");
                out
            },
            RegistryHttpError::ManifestNotFound { container, manifest } => {
                let mut out = "Manifest ".to_owned();
                out.append(manifest.as_str());
                out.append(" in layer ");
                out.append(container.as_str());
                out.append(" not found");
                out
            },
            RegistryHttpError::RegistryInternalError(n) => {
                let mut out = "Internal server error: ".to_owned();
                out.append(n.as_str());
                out
            },
        }
    }

    /// What the boundary renders for this error: its HTTP status and
    /// the single-error envelope of code, message, and empty detail.
    pub fn response_parts(&self) -> (r: (u16, RegistryJsonErrorReprWrapper))
        ensures
            r.0 == self.spec_http_status(),
            r.1.errors@.len() == 1,
            r.1.errors@[0].code@ == self.spec_error_code(),
            r.1.errors@[0].message@ == self.spec_message(),
            r.1.errors@[0].detail@.len() == 0,
    {
        let message = self.message();
        let wrapper = RegistryJsonErrorReprWrapper::single(
            self.error_code(),
            message.as_str(),
            "",
        );
        proof {
            reveal_strlit("");
        }
        (self.http_status(), wrapper)
    }
}



// ------------------------------------------------------------------
// Responses and shared state
// ------------------------------------------------------------------

/// What a handler answers: a status, a header set, and an optional
/// body. The transport layer turns this into a raw response.
pub struct RegistryResponse {
    pub status: u16,
    pub headers: Vec<(String, String)>,
    pub body: Option<Vec<u8>>,
}

/// The `digest` query parameter of upload requests.
pub struct DigestQueryString {
    pub digest: String,
}

/// Everything the handlers share: configuration and the two caches.
pub struct ApplicationState {
    pub conf: Configuration,
    pub docker_clients: DockerClientsStore,
    pub uploads: UploadsStore,
}

/// A response of the given status with no headers and no body.
pub open spec fn spec_empty_response(resp: RegistryResponse, status: u16) -> bool {
    &&& resp.status == status
    &&& resp.headers@.len() == 0
    &&& resp.body is None
}

// ------------------------------------------------------------------
// Blob reads
// ------------------------------------------------------------------

/// The headers of a blob HEAD answer.
pub open spec fn spec_blob_head_headers(len: int, hash: Seq<char>) -> Seq<(Seq<char>, Seq<char>)> {
    seq![
        ("Content-Length"@, spec_dec_str(len)),
        ("Docker-Content-Digest"@, "sha256:"@ + hash),
    ]
}

/// The headers of a blob GET answer, with the digest recomputed from
/// the stored content.
pub open spec fn spec_blob_get_headers(len: int, content: Seq<u8>) -> Seq<(Seq<char>, Seq<char>)> {
    seq![
        ("Content-Type"@, "application/octet-stream"@),
        ("Content-Length"@, spec_dec_str(len)),
        ("Docker-Content-Digest"@, "sha256:"@ + hex_lower_of(sha256_of(content))),
    ]
}

/// What serving a stored blob answers, given the hash part of the
/// requested digest.
pub open spec fn spec_blob_found(
    files: Map<Seq<char>, Seq<u8>>,
    root: Seq<char>,
    container: Seq<char>,
    hash: Seq<char>,
    is_head: bool,
    resp: RegistryResponse,
) -> bool {
    let path = spec_blob_path(root, container, hash);
    if !files.contains_key(path) {
        spec_empty_response(resp, 404)
    } else {
        let content = files[path];
        if is_head {
            &&& resp.status == 200
            &&& resp.headers.deep_view() == spec_blob_head_headers(content.len() as int, hash)
            &&& resp.body is None
        } else {
            &&& resp.status == 200
            &&& resp.headers.deep_view() == spec_blob_get_headers(content.len() as int, content)
            &&& resp.body matches Some(b) && b@ == content
        }
    }
}

/// Serves a blob HEAD or GET from local storage: 404 when the blob is
/// absent, the size and digest headers on HEAD, and the full content
/// with its recomputed digest on GET.
pub fn check_blob_exists(
    conf: &Configuration,
    files: &FileStore,
    container_ref: &str,
    digest: &str,
    is_head: bool,
) -> (r: Result<RegistryResponse, RegistryHttpError>)
    ensures
        match r {
            Err(e) => {
                ||| (!spec_ref_is_valid(container_ref@) && (e
                    matches RegistryHttpError::InvalidRepositoryName(n) && n@ == container_ref@))
                ||| (spec_ref_is_valid(container_ref@) && (forall|j: int|
                    0 <= j < digest@.len() ==> digest@[j] != ':') && (e
                    matches RegistryHttpError::InvalidHashFormat(n) && n@ == digest@))
            },
            Ok(resp) => {
                &&& spec_ref_is_valid(container_ref@)
                &&& exists|i: int|
                    first_occurrence_at(digest@, ':', i) && spec_blob_found(
                        files@,
                        conf.registry_storage@,
                        container_ref@,
                        digest@.skip(i + 1),
                        is_head,
                        resp,
                    )
            },
        },
{
    if let Err(e) = reject_invalid_container_refs(container_ref) {
        return Err(e);
    }
    let dlen: usize = digest.unicode_len();
    let colon = match find_first(digest, ':') {
        Some(i) => i,
        None => {
            return Err(RegistryHttpError::invalid_hash_format(digest));
        },
    };
    let hash = digest.substring_char(colon + 1, dlen);
    proof {
        assert(hash@ =~= digest@.skip(colon as int + 1));
    }
    let file_path = RegistryPathsHelper::blob_path(
        conf.registry_storage.as_str(),
        container_ref,
        hash,
    );
    let content = match files.read_copy(file_path.as_str()) {
        Some(c) => c,
        None => {
            return Ok(RegistryResponse { status: 404, headers: Vec::new(), body: None });
        },
    };
    let blob_size: u64 = content.len() as u64;
    if is_head {
        let mut digest_header = "sha256:".to_owned();
        digest_header.append(hash);
        let mut headers: Vec<(String, String)> = Vec::new();
        headers.push(("Content-Length".to_owned(), u64_to_dec_string(blob_size)));
        headers.push(("Docker-Content-Digest".to_owned(), digest_header));
        proof {
            assert(headers.deep_view() =~= spec_blob_head_headers(blob_size as int, hash@));
        }
        return Ok(RegistryResponse { status: 200, headers, body: None });
    }
    let blob_sha256 = file256sum(content.as_slice());
    let mut digest_header = "sha256:".to_owned();
    digest_header.append(blob_sha256.as_str());
    let mut headers: Vec<(String, String)> = Vec::new();
    headers.push(("Content-Type".to_owned(), "application/octet-stream".to_owned()));
    headers.push(("Content-Length".to_owned(), u64_to_dec_string(blob_size)));
    headers.push(("Docker-Content-Digest".to_owned(), digest_header));
    proof {
        assert(headers.deep_view() =~= spec_blob_get_headers(blob_size as int, content@));
    }
    Ok(RegistryResponse { status: 200, headers, body: Some(content) })
}

// ------------------------------------------------------------------
// Upload handlers
// ------------------------------------------------------------------

/// The headers answering a freshly started upload.
pub open spec fn spec_initiate_headers(container: Seq<char>, id: u128) -> Seq<
    (Seq<char>, Seq<char>),
> {
    seq![
        ("Location"@, "/v2/"@ + container + "/blobs/uploads/"@ + uuid_str_of(id)),
        ("Range"@, "0-0"@),
        ("Docker-Upload-UUID"@, uuid_str_of(id)),
    ]
}

/// A fresh session under `id` was registered and announced.
pub open spec fn spec_initiated(
    pre: Map<u128, UploadModel>,
    post: Map<u128, UploadModel>,
    conf: Configuration,
    container: Seq<char>,
    now: u64,
    id: u128,
    resp: RegistryResponse,
) -> bool {
    &&& post == pre.insert(
        id,
        spec_upload(id, container, conf.temporary_registry_storage@, conf.registry_storage@, now),
    )
    &&& resp.status == 202
    &&& resp.headers.deep_view() == spec_initiate_headers(container, id)
    &&& resp.body is None
}

/// Starts a chunked upload: registers a fresh session and answers 202
/// with its location, range and identifier. A digest query (monolithic
/// upload) is not implemented and answers 501.
pub fn initiate_upload(
    uploads: &mut UploadsStore,
    conf: &Configuration,
    container_ref: &str,
    has_digest_query: bool,
    now: u64,
) -> (r: Result<RegistryResponse, RegistryHttpError>)
    ensures
        match r {
            Err(e) => {
                &&& !spec_ref_is_valid(container_ref@)
                &&& e matches RegistryHttpError::InvalidRepositoryName(n) && n@ == container_ref@
                &&& final(uploads)@ == old(uploads)@
            },
            Ok(resp) => {
                &&& spec_ref_is_valid(container_ref@)
                &&& (has_digest_query ==> spec_empty_response(resp, 501) && final(uploads)@
                    == old(uploads)@)
                &&& (!has_digest_query ==> exists|id: u128|
                    spec_initiated(
                        old(uploads)@,
                        final(uploads)@,
                        *conf,
                        container_ref@,
                        now,
                        id,
                        resp,
                    ))
            },
        },
{
    if let Err(e) = reject_invalid_container_refs(container_ref) {
        return Err(e);
    }
    if has_digest_query {
        return Ok(RegistryResponse { status: 501, headers: Vec::new(), body: None });
    }
    let id = uploads.create_upload(
        container_ref,
        conf.temporary_registry_storage.as_str(),
        conf.registry_storage.as_str(),
        now,
    );
    let upload = match uploads.fetch_upload(id) {
        Some(u) => u,
        None => {
            // Unreachable: the session was just inserted.
            proof {
                assert(false);
            }
            return Ok(RegistryResponse { status: 500, headers: Vec::new(), body: None });
        },
    };
    let location = upload.http_upload_uri();
    let uuid_string = format_uuid(id);
    let mut headers: Vec<(String, String)> = Vec::new();
    headers.push(("Location".to_owned(), location));
    headers.push(("Range".to_owned(), "0-0".to_owned()));
    headers.push(("Docker-Upload-UUID".to_owned(), uuid_string));
    proof {
        assert(headers.deep_view() =~= spec_initiate_headers(container_ref@, id));
    }
    let resp = RegistryResponse { status: 202, headers, body: None };
    proof {
        assert(spec_initiated(old(uploads)@, uploads@, *conf, container_ref@, now, id, resp));
    }
    Ok(resp)
}

/// The session named by the raw identifier cannot be served: either it
/// does not parse, or no session carries it.
pub open spec fn spec_upload_unknown(uploads: Map<u128, UploadModel>, raw: Seq<char>) -> bool {
    match uuid_parse_of(raw) {
        Some(id) => !uploads.contains_key(id),
        None => true,
    }
}

/// Cancels an upload: deletes its scratch file and removes the
/// session. An unknown or unparsable identifier answers as
/// UploadIdNotFound.
pub fn delete_upload(
    uploads: &mut UploadsStore,
    files: &mut FileStore,
    container_ref: &str,
    raw_upload_uuid: &str,
) -> (r: Result<RegistryResponse, RegistryHttpError>)
    ensures
        match r {
            Err(e) => {
                &&& final(uploads)@ == old(uploads)@
                &&& final(files)@ == old(files)@
                &&& (!spec_ref_is_valid(container_ref@) ==> (e
                    matches RegistryHttpError::InvalidRepositoryName(n) && n@ == container_ref@))
                &&& (spec_ref_is_valid(container_ref@) ==> (e
                    matches RegistryHttpError::UploadIdNotFound(n) && n@ == raw_upload_uuid@)
                    && spec_upload_unknown(old(uploads)@, raw_upload_uuid@))
            },
            Ok(resp) => {
                &&& spec_ref_is_valid(container_ref@)
                &&& uuid_parse_of(raw_upload_uuid@) matches Some(id) && {
                    &&& old(uploads)@.contains_key(id)
                    &&& final(uploads)@ == old(uploads)@.remove(id)
                    &&& final(files)@ == old(files)@.remove(old(uploads)@[id].temp_path)
                    &&& spec_empty_response(resp, 204)
                }
            },
        },
{
    if let Err(e) = reject_invalid_container_refs(container_ref) {
        return Err(e);
    }
    let upload = match uploads.fetch_upload_string_uuid(raw_upload_uuid) {
        Ok(Some(u)) => u,
        Ok(None) => {
            return Err(RegistryHttpError::upload_id_not_found(raw_upload_uuid));
        },
        Err(_) => {
            return Err(RegistryHttpError::upload_id_not_found(raw_upload_uuid));
        },
    };
    upload.cleanup_upload(files);
    uploads.delete_upload(upload.id);
    Ok(RegistryResponse { status: 204, headers: Vec::new(), body: None })
}


/// The headers acknowledging an accepted chunk.
pub open spec fn spec_chunk_headers(container: Seq<char>, id: u128, new_size: int) -> Seq<
    (Seq<char>, Seq<char>),
> {
    seq![
        ("Range"@, "0-"@ + spec_dec_str(new_size)),
        ("Docker-Upload-UUID"@, uuid_str_of(id)),
        ("Location"@, "/v2/"@ + container + "/blobs/uploads/"@ + uuid_str_of(id)),
        ("Docker-Distribution-Api-Version"@, "registry/2.0"@),
    ]
}

/// The chunk was appended to the session's scratch file and announced.
pub open spec fn spec_chunk_appended(
    files_pre: Map<Seq<char>, Seq<u8>>,
    files_post: Map<Seq<char>, Seq<u8>>,
    u: UploadModel,
    layer: Seq<u8>,
    resp: RegistryResponse,
) -> bool {
    let prev = if files_pre.contains_key(u.temp_path) {
        files_pre[u.temp_path]
    } else {
        Seq::<u8>::empty()
    };
    &&& files_post == files_pre.insert(u.temp_path, prev + layer)
    &&& resp.status == 202
    &&& resp.headers.deep_view() == spec_chunk_headers(
        u.container,
        u.id,
        prev.len() + layer.len() as int,
    )
    &&& resp.body is None
}

/// The session's scratch file cannot take the chunk without the total
/// overflowing the address space.
pub open spec fn spec_chunk_overflow(
    uploads: Map<u128, UploadModel>,
    files: Map<Seq<char>, Seq<u8>>,
    raw: Seq<char>,
    layer: Seq<u8>,
) -> bool {
    match uuid_parse_of(raw) {
        Some(id) => uploads.contains_key(id) && {
            let tp = uploads[id].temp_path;
            let prev = if files.contains_key(tp) {
                files[tp]
            } else {
                Seq::<u8>::empty()
            };
            prev.len() + layer.len() > usize::MAX
        },
        None => false,
    }
}

/// Appends one chunk to an upload session and refreshes its
/// last-activity stamp, so an active upload is never swept as idle.
/// Appending is strictly sequential and never truncates: each call
/// extends the current tail.
pub fn process_blob_chunk_upload(
    uploads: &mut UploadsStore,
    files: &mut FileStore,
    container_ref: &str,
    raw_upload_uuid: &str,
    layer: &[u8],
    now: u64,
) -> (r: Result<RegistryResponse, RegistryHttpError>)
    ensures
        match r {
            Err(e) => {
                &&& final(files)@ == old(files)@
                &&& final(uploads)@ == old(uploads)@
                &&& (!spec_ref_is_valid(container_ref@) ==> (e
                    matches RegistryHttpError::InvalidRepositoryName(n) && n@ == container_ref@))
                &&& (spec_ref_is_valid(container_ref@) && spec_upload_unknown(
                    old(uploads)@,
                    raw_upload_uuid@,
                ) ==> (e matches RegistryHttpError::UploadIdNotFound(n) && n@
                    == raw_upload_uuid@))
                &&& (spec_ref_is_valid(container_ref@) && !spec_upload_unknown(
                    old(uploads)@,
                    raw_upload_uuid@,
                ) ==> (e matches RegistryHttpError::RegistryInternalError(_))
                    && spec_chunk_overflow(old(uploads)@, old(files)@, raw_upload_uuid@, layer@))
            },
            Ok(resp) => {
                &&& spec_ref_is_valid(container_ref@)
                &&& uuid_parse_of(raw_upload_uuid@) matches Some(id) && old(
                    uploads,
                )@.contains_key(id) && spec_chunk_appended(
                    old(files)@,
                    final(files)@,
                    old(uploads)@[id],
                    layer@,
                    resp,
                ) && final(uploads)@ == old(uploads)@.insert(
                    id,
                    (UploadModel { last: now, ..old(uploads)@[id] }),
                )
            },
        },
{
    if let Err(e) = reject_invalid_container_refs(container_ref) {
        return Err(e);
    }
    let upload = match uploads.fetch_upload_string_uuid(raw_upload_uuid) {
        Ok(Some(u)) => u,
        Ok(None) => {
            return Err(RegistryHttpError::upload_id_not_found(raw_upload_uuid));
        },
        Err(_) => {
            return Err(RegistryHttpError::upload_id_not_found(raw_upload_uuid));
        },
    };
    let existing: usize = match files.file_size(upload.temporary_file_path.as_str()) {
        Some(n) => n,
        None => 0,
    };
    if layer.len() > usize::MAX - existing {
        return Err(
            RegistryHttpError::registry_internal_error("upload would exceed addressable size"),
        );
    }
    let new_size = upload.write_blob(files, layer);
    uploads.touch(upload.id, now);
    let mut range = "0-".to_owned();
    let size_str = u64_to_dec_string(new_size);
    range.append(size_str.as_str());
    let uuid_string = format_uuid(upload.id);
    let location = upload.http_upload_uri();
    let mut headers: Vec<(String, String)> = Vec::new();
    headers.push(("Range".to_owned(), range));
    headers.push(("Docker-Upload-UUID".to_owned(), uuid_string));
    headers.push(("Location".to_owned(), location));
    headers.push(
        ("Docker-Distribution-Api-Version".to_owned(), "registry/2.0".to_owned()),
    );
    proof {
        assert(headers.deep_view() =~= spec_chunk_headers(
            upload@.container,
            upload@.id,
            new_size as int,
        ));
    }
    Ok(RegistryResponse { status: 202, headers, body: None })
}

/// The headers announcing a completed blob.
pub open spec fn spec_finalize_headers(container: Seq<char>, digest: Seq<char>) -> Seq<
    (Seq<char>, Seq<char>),
> {
    seq![
        ("Location"@, "/v2/"@ + container + "/blobs/"@ + digest),
        ("Docker-Content-Digest"@, digest),
    ]
}

/// The final chunk was appended and the scratch file moved, whole, to
/// the content-addressed blob path; nothing ever exists at that path
/// in partial form.
pub open spec fn spec_finalized(
    files_pre: Map<Seq<char>, Seq<u8>>,
    files_post: Map<Seq<char>, Seq<u8>>,
    u: UploadModel,
    req_container: Seq<char>,
    layer: Seq<u8>,
    hash: Seq<char>,
    digest_full: Seq<char>,
    resp: RegistryResponse,
) -> bool {
    let prev = if files_pre.contains_key(u.temp_path) {
        files_pre[u.temp_path]
    } else {
        Seq::<u8>::empty()
    };
    let content = prev + layer;
    let dest = spec_blob_path(u.registry_root, u.container, hash);
    &&& files_post == files_pre.remove(u.temp_path).insert(dest, content)
    &&& resp.status == 201
    &&& resp.headers.deep_view() == spec_finalize_headers(req_container, digest_full)
    &&& resp.body is None
}

/// Completes an upload: appends the closing chunk, atomically moves
/// the scratch file to the blob path named by the digest's hash part,
/// and drops the session, which is no longer retrievable afterwards.
pub fn finalize_blob_upload(
    uploads: &mut UploadsStore,
    files: &mut FileStore,
    container_ref: &str,
    raw_upload_uuid: &str,
    docker_digest: &str,
    layer: &[u8],
) -> (r: Result<RegistryResponse, RegistryHttpError>)
    ensures
        match r {
            Err(e) => {
                &&& final(files)@ == old(files)@
                &&& final(uploads)@ == old(uploads)@
                &&& (!spec_ref_is_valid(container_ref@) ==> (e
                    matches RegistryHttpError::InvalidRepositoryName(n) && n@ == container_ref@))
                &&& ((spec_ref_is_valid(container_ref@) && (forall|j: int|
                    0 <= j < docker_digest@.len() ==> docker_digest@[j] != ':')) ==> (e
                    matches RegistryHttpError::InvalidHashFormat(n) && n@ == docker_digest@))
                &&& ((spec_ref_is_valid(container_ref@) && (exists|i: int|
                    first_occurrence_at(docker_digest@, ':', i)) && spec_upload_unknown(
                    old(uploads)@,
                    raw_upload_uuid@,
                )) ==> (e matches RegistryHttpError::UploadIdNotFound(n) && n@
                    == raw_upload_uuid@))
                &&& ((spec_ref_is_valid(container_ref@) && (exists|i: int|
                    first_occurrence_at(docker_digest@, ':', i)) && !spec_upload_unknown(
                    old(uploads)@,
                    raw_upload_uuid@,
                )) ==> (e matches RegistryHttpError::RegistryInternalError(_))
                    && spec_chunk_overflow(old(uploads)@, old(files)@, raw_upload_uuid@, layer@))
            },
            Ok(resp) => {
                &&& spec_ref_is_valid(container_ref@)
                &&& uuid_parse_of(raw_upload_uuid@) matches Some(id) && old(
                    uploads,
                )@.contains_key(id) && (exists|i: int|
                    first_occurrence_at(docker_digest@, ':', i) && spec_finalized(
                        old(files)@,
                        final(files)@,
                        old(uploads)@[id],
                        container_ref@,
                        layer@,
                        docker_digest@.skip(i + 1),
                        docker_digest@,
                        resp,
                    ))
                &&& uuid_parse_of(raw_upload_uuid@) matches Some(id) && final(uploads)@ == old(
                    uploads,
                )@.remove(id)
            },
        },
{
    if let Err(e) = reject_invalid_container_refs(container_ref) {
        return Err(e);
    }
    let dlen: usize = docker_digest.unicode_len();
    let colon = match find_first(docker_digest, ':') {
        Some(i) => i,
        None => {
            return Err(RegistryHttpError::invalid_hash_format(docker_digest));
        },
    };
    let hash = docker_digest.substring_char(colon + 1, dlen);
    proof {
        assert(hash@ =~= docker_digest@.skip(colon as int + 1));
    }
    let upload = match uploads.fetch_upload_string_uuid(raw_upload_uuid) {
        Ok(Some(u)) => u,
        Ok(None) => {
            return Err(RegistryHttpError::upload_id_not_found(raw_upload_uuid));
        },
        Err(_) => {
            return Err(RegistryHttpError::upload_id_not_found(raw_upload_uuid));
        },
    };
    let existing: usize = match files.file_size(upload.temporary_file_path.as_str()) {
        Some(n) => n,
        None => 0,
    };
    if layer.len() > usize::MAX - existing {
        return Err(
            RegistryHttpError::registry_internal_error("upload would exceed addressable size"),
        );
    }
    upload.write_blob(files, layer);
    let ghost mid_files = files@;
    match upload.finalize_upload(files, hash) {
        Ok(_) => {},
        Err(_) => {
            // Unreachable: the scratch file exists after the append.
            proof {
                assert(false);
            }
        },
    }
    uploads.delete_upload(upload.id);
    let mut location = "/v2/".to_owned();
    location.append(container_ref);
    location.append("/blobs/");
    location.append(docker_digest);
    let mut headers: Vec<(String, String)> = Vec::new();
    headers.push(("Location".to_owned(), location));
    headers.push(("Docker-Content-Digest".to_owned(), docker_digest.to_owned()));
    let resp = RegistryResponse { status: 201, headers, body: None };
    proof {
        assert(resp.headers.deep_view() =~= spec_finalize_headers(
            container_ref@,
            docker_digest@,
        ));
        let u = upload@;
        let prev = if old(files)@.contains_key(u.temp_path) {
            old(files)@[u.temp_path]
        } else {
            Seq::<u8>::empty()
        };
        let content = prev + layer@;
        let dest = spec_blob_path(u.registry_root, u.container, hash@);
        assert(files@ =~= old(files)@.remove(u.temp_path).insert(dest, content));
    }
    Ok(resp)
}


// ------------------------------------------------------------------
// Manifest handlers
// ------------------------------------------------------------------

/// The digest a manifest PUT settles on: the reference itself when it
/// already is a digest, else the SHA-256 of the body.
pub open spec fn spec_manifest_digest_of(manifest_ref: Seq<char>, content: Seq<u8>) -> Seq<char> {
    if spec_starts_with(manifest_ref, "sha256:"@) {
        manifest_ref
    } else {
        "sha256:"@ + hex_lower_of(sha256_of(content))
    }
}

/// The manifest body and its metadata sidecar were published under the
/// digest name, and mirrored under the tag name when the reference is
/// not itself the digest.
pub open spec fn spec_manifest_saved(
    files_pre: Map<Seq<char>, Seq<u8>>,
    files_post: Map<Seq<char>, Seq<u8>>,
    root: Seq<char>,
    temp_root: Seq<char>,
    container: Seq<char>,
    manifest_ref: Seq<char>,
    content: Seq<u8>,
    ctype: Seq<char>,
    temp_id: u128,
) -> bool {
    let digest = spec_manifest_digest_of(manifest_ref, content);
    let t = temp_root + "/"@ + uuid_str_of(temp_id);
    let hp = spec_manifest_path(root, container, digest);
    let tp = spec_manifest_path(root, container, manifest_ref);
    let stripped = if spec_starts_with(digest, "sha256:"@) {
        digest.skip(7)
    } else {
        digest
    };
    let meta = encode_utf8(spec_metadata_json(stripped, ctype));
    let hm = spec_manifest_meta(root, container, digest);
    let tm = spec_manifest_meta(root, container, manifest_ref);
    if spec_starts_with(manifest_ref, "sha256:"@) {
        files_post == files_pre.remove(t).insert(hp, content).insert(hm, meta)
    } else {
        files_post == files_pre.remove(t).insert(hp, content).insert(tp, content).insert(
            hm,
            meta,
        ).insert(tm, meta)
    }
}

/// The headers announcing a published manifest.
pub open spec fn spec_manifest_put_headers(
    container: Seq<char>,
    manifest_ref: Seq<char>,
    digest: Seq<char>,
) -> Seq<(Seq<char>, Seq<char>)> {
    seq![
        ("Location"@, "/v2/"@ + container + "/manifests/"@ + manifest_ref),
        ("Docker-Content-Digest"@, digest),
    ]
}

/// Receives a manifest PUT: stages the body, publishes it and its
/// metadata under the digest name and then under the tag name, and
/// announces the digest.
pub fn upload_manifest(
    files: &mut FileStore,
    conf: &Configuration,
    container_ref: &str,
    manifest_ref: &str,
    content_type: &str,
    body: &[u8],
    temp_id: u128,
) -> (r: Result<RegistryResponse, RegistryHttpError>)
    ensures
        match r {
            Err(e) => {
                &&& final(files)@ == old(files)@
                &&& (!spec_ref_is_valid(container_ref@) ==> (e
                    matches RegistryHttpError::InvalidRepositoryName(n) && n@ == container_ref@))
                &&& ((spec_ref_is_valid(container_ref@) && !spec_ref_is_valid(manifest_ref@))
                    ==> (e matches RegistryHttpError::InvalidTagName(n) && n@ == manifest_ref@))
                &&& (!spec_ref_is_valid(container_ref@) || !spec_ref_is_valid(manifest_ref@))
            },
            Ok(resp) => {
                &&& spec_ref_is_valid(container_ref@)
                &&& spec_ref_is_valid(manifest_ref@)
                &&& spec_manifest_saved(
                    old(files)@,
                    final(files)@,
                    conf.registry_storage@,
                    conf.temporary_registry_storage@,
                    container_ref@,
                    manifest_ref@,
                    body@,
                    content_type@,
                    temp_id,
                )
                &&& resp.status == 201
                &&& resp.headers.deep_view() == spec_manifest_put_headers(
                    container_ref@,
                    manifest_ref@,
                    spec_manifest_digest_of(manifest_ref@, body@),
                )
                &&& resp.body is None
            },
        },
{
    if let Err(e) = reject_invalid_container_refs(container_ref) {
        return Err(e);
    }
    if let Err(e) = reject_invalid_tags_refs(manifest_ref) {
        return Err(e);
    }
    let mut manifest = Manifest::new(
        conf.registry_storage.as_str(),
        conf.temporary_registry_storage.as_str(),
        container_ref,
        manifest_ref,
    );
    manifest.save_manifest(files, body, temp_id);
    match manifest.save_manifest_metadata(files, content_type) {
        Ok(_) => {},
        Err(_) => {
            // Unreachable: the save settled the digest.
            proof {
                assert(false);
            }
        },
    }
    let digest: &String = match manifest.docker_hash() {
        Ok(h) => h,
        Err(_) => {
            // Unreachable: the save settled the digest.
            proof {
                assert(false);
            }
            return Err(RegistryHttpError::registry_internal_error("digest missing"));
        },
    };
    let mut location = "/v2/".to_owned();
    location.append(container_ref);
    location.append("/manifests/");
    location.append(manifest_ref);
    let mut headers: Vec<(String, String)> = Vec::new();
    headers.push(("Location".to_owned(), location));
    headers.push(("Docker-Content-Digest".to_owned(), digest.clone()));
    let resp = RegistryResponse { status: 201, headers, body: None };
    proof {
        let dg = spec_manifest_digest_of(manifest_ref@, body@);
        assert(resp.headers.deep_view() =~= spec_manifest_put_headers(
            container_ref@,
            manifest_ref@,
            dg,
        ));
        let t = conf.temporary_registry_storage@ + "/"@ + uuid_str_of(temp_id);
        let hp = spec_manifest_path(conf.registry_storage@, container_ref@, dg);
        let tp = spec_manifest_path(conf.registry_storage@, container_ref@, manifest_ref@);
        let stripped = if spec_starts_with(dg, "sha256:"@) {
            dg.skip(7)
        } else {
            dg
        };
        let meta = encode_utf8(spec_metadata_json(stripped, content_type@));
        let hm = spec_manifest_meta(conf.registry_storage@, container_ref@, dg);
        let tm = spec_manifest_meta(conf.registry_storage@, container_ref@, manifest_ref@);
        if spec_starts_with(manifest_ref@, "sha256:"@) {
            assert(files@ =~= old(files)@.remove(t).insert(hp, body@).insert(hm, meta));
        } else {
            assert(files@ =~= old(files)@.remove(t).insert(hp, body@).insert(tp, body@).insert(
                hm,
                meta,
            ).insert(tm, meta));
        }
    }
    Ok(resp)
}


/// The stored metadata bytes decode to the record (h, ct).
pub open spec fn spec_meta_decodes(meta: Seq<u8>, h: Seq<char>, ct: Seq<char>) -> bool {
    &&& spec_plain_json(h)
    &&& spec_plain_json(ct)
    &&& meta == encode_utf8(spec_metadata_json(h, ct))
}

/// The headers of a served manifest.
pub open spec fn spec_fetch_manifest_headers(h: Seq<char>, ct: Seq<char>, len: int) -> Seq<
    (Seq<char>, Seq<char>),
> {
    seq![
        ("Docker-Content-Digest"@, "sha256:"@ + h),
        ("Content-Type"@, ct),
        ("Content-Length"@, spec_dec_str(len)),
    ]
}

/// Serves a manifest by reference: the stored body with the digest and
/// content type recorded in its metadata sidecar. A missing body or
/// sidecar is ManifestNotFound; an unreadable sidecar is internal.
pub fn fetch_manifest(
    conf: &Configuration,
    files: &FileStore,
    container_ref: &str,
    manifest_ref: &str,
) -> (r: Result<RegistryResponse, RegistryHttpError>)
    ensures
        ({
            let mp = spec_manifest_path(conf.registry_storage@, container_ref@, manifest_ref@);
            let metap = spec_manifest_meta(conf.registry_storage@, container_ref@, manifest_ref@);
            match r {
                Err(e) => {
                    &&& (!spec_ref_is_valid(container_ref@) ==> (e
                        matches RegistryHttpError::InvalidRepositoryName(n) && n@
                        == container_ref@))
                    &&& ((spec_ref_is_valid(container_ref@) && !spec_ref_is_valid(manifest_ref@))
                        ==> (e matches RegistryHttpError::InvalidTagName(n) && n@
                        == manifest_ref@))
                    &&& ((spec_ref_is_valid(container_ref@) && spec_ref_is_valid(manifest_ref@)
                        && (!files@.contains_key(mp) || !files@.contains_key(metap))) ==> (e
                        matches RegistryHttpError::ManifestNotFound { container, manifest }
                        && container@ == container_ref@ && manifest@ == manifest_ref@))
                    &&& ((spec_ref_is_valid(container_ref@) && spec_ref_is_valid(manifest_ref@)
                        && files@.contains_key(mp) && files@.contains_key(metap)) ==> (e
                        matches RegistryHttpError::RegistryInternalError(_)) && !(exists|
                        h: Seq<char>,
                        ct: Seq<char>,
                    | spec_meta_decodes(files@[metap], h, ct)))
                },
                Ok(resp) => {
                    &&& spec_ref_is_valid(container_ref@)
                    &&& spec_ref_is_valid(manifest_ref@)
                    &&& files@.contains_key(mp)
                    &&& files@.contains_key(metap)
                    &&& exists|h: Seq<char>, ct: Seq<char>|
                        spec_meta_decodes(files@[metap], h, ct) && resp.headers.deep_view()
                            == spec_fetch_manifest_headers(h, ct, files@[mp].len() as int)
                    &&& resp.status == 200
                    &&& resp.body matches Some(b) && b@ == files@[mp]
                },
            }
        }),
{
    if let Err(e) = reject_invalid_container_refs(container_ref) {
        return Err(e);
    }
    if let Err(e) = reject_invalid_tags_refs(manifest_ref) {
        return Err(e);
    }
    let manifest_path = RegistryPathsHelper::manifest_path(
        conf.registry_storage.as_str(),
        container_ref,
        manifest_ref,
    );
    let content = match files.read_copy(manifest_path.as_str()) {
        Some(c) => c,
        None => {
            return Err(RegistryHttpError::manifest_not_found(container_ref, manifest_ref));
        },
    };
    let meta_path = RegistryPathsHelper::manifest_meta(
        conf.registry_storage.as_str(),
        container_ref,
        manifest_ref,
    );
    let meta_bytes = match files.read_copy(meta_path.as_str()) {
        Some(c) => c,
        None => {
            return Err(RegistryHttpError::manifest_not_found(container_ref, manifest_ref));
        },
    };
    let ghost meta_seq = meta_bytes@;
    let meta_string = match bytes_to_string(meta_bytes) {
        Some(s) => s,
        None => {
            proof {
                broadcast use vstd::utf8::encode_utf8_valid_utf8;

                assert forall|h: Seq<char>, ct: Seq<char>|
                    !spec_meta_decodes(meta_seq, h, ct) by {
                    if spec_meta_decodes(meta_seq, h, ct) {
                        assert(valid_utf8(encode_utf8(spec_metadata_json(h, ct))));
                    }
                }
            }
            return Err(
                RegistryHttpError::registry_internal_error("manifest metadata is unreadable"),
            );
        },
    };
    let meta = match parse_manifest_metadata(meta_string.as_str()) {
        Some(m) => m,
        None => {
            proof {
                broadcast use vstd::utf8::encode_utf8_decode_utf8;

                assert forall|h: Seq<char>, ct: Seq<char>|
                    !spec_meta_decodes(meta_seq, h, ct) by {
                    if spec_meta_decodes(meta_seq, h, ct) {
                        assert(vstd::utf8::decode_utf8(encode_utf8(meta_string@))
                            == meta_string@);
                        assert(vstd::utf8::decode_utf8(encode_utf8(spec_metadata_json(h, ct)))
                            == spec_metadata_json(h, ct));
                        assert(meta_string@ == spec_metadata_json(h, ct));
                    }
                }
            }
            return Err(
                RegistryHttpError::registry_internal_error("manifest metadata is unreadable"),
            );
        },
    };
    let manifest_size: u64 = content.len() as u64;
    let mut digest_header = "sha256:".to_owned();
    digest_header.append(meta.hash.as_str());
    let mut headers: Vec<(String, String)> = Vec::new();
    headers.push(("Docker-Content-Digest".to_owned(), digest_header));
    headers.push(("Content-Type".to_owned(), meta.content_type));
    headers.push(("Content-Length".to_owned(), u64_to_dec_string(manifest_size)));
    proof {
        assert(headers.deep_view() =~= spec_fetch_manifest_headers(
            meta.hash@,
            headers.deep_view()[1].1,
            manifest_size as int,
        ));
        assert(spec_meta_decodes(meta_seq, meta.hash@, headers.deep_view()[1].1));
    }
    Ok(RegistryResponse { status: 200, headers, body: Some(content) })
}

// ------------------------------------------------------------------
// Proxy fetch decisions
// ------------------------------------------------------------------

/// What the proxy read path found locally.
pub enum ProxyBlobDecision {
    /// Served from the cache, upstream never contacted.
    Hit(RegistryResponse),
    /// Nothing cached: the caller must fetch upstream and store.
    Miss,
}

/// The headers of a cache hit.
pub open spec fn spec_proxy_hit_headers(len: int) -> Seq<(Seq<char>, Seq<char>)> {
    seq![
        ("Content-Type"@, "application/octet-stream"@),
        ("Content-Length"@, spec_dec_str(len)),
        ("Proxy-Docker-Cache"@, "HIT"@),
    ]
}

/// The headers of a freshly proxied blob.
pub open spec fn spec_proxy_miss_headers(len: int) -> Seq<(Seq<char>, Seq<char>)> {
    seq![
        ("Content-Type"@, "application/octet-stream"@),
        ("Content-Length"@, spec_dec_str(len)),
        ("Proxy-Docker-Cache"@, "MISS"@),
    ]
}

/// The proxy read path: serves a cached blob as a HIT without any
/// upstream contact, or reports a miss. Cached objects are
/// content-addressed and never revalidated.
pub fn proxy_blob_local(
    conf: &Configuration,
    files: &FileStore,
    container_ref: &str,
    digest: &str,
) -> (r: Result<ProxyBlobDecision, RegistryHttpError>)
    ensures
        ({
            let path = spec_blob_path(conf.proxy_storage@, container_ref@, digest@);
            match r {
                Err(e) => {
                    &&& (!spec_ref_is_valid(container_ref@) ==> (e
                        matches RegistryHttpError::InvalidRepositoryName(n) && n@
                        == container_ref@))
                    &&& ((spec_ref_is_valid(container_ref@) && !spec_ref_is_valid(digest@)) ==> (
                    e matches RegistryHttpError::InvalidTagName(n) && n@ == digest@))
                    &&& (!spec_ref_is_valid(container_ref@) || !spec_ref_is_valid(digest@))
                },
                Ok(d) => {
                    &&& spec_ref_is_valid(container_ref@)
                    &&& spec_ref_is_valid(digest@)
                    &&& (match d {
                        ProxyBlobDecision::Hit(resp) => {
                            &&& files@.contains_key(path)
                            &&& resp.status == 200
                            &&& resp.headers.deep_view() == spec_proxy_hit_headers(
                                files@[path].len() as int,
                            )
                            &&& resp.body matches Some(b) && b@ == files@[path]
                        },
                        ProxyBlobDecision::Miss => !files@.contains_key(path),
                    })
                },
            }
        }),
{
    if let Err(e) = reject_invalid_container_refs(container_ref) {
        return Err(e);
    }
    if let Err(e) = reject_invalid_tags_refs(digest) {
        return Err(e);
    }
    let blob_path = RegistryPathsHelper::blob_path(
        conf.proxy_storage.as_str(),
        container_ref,
        digest,
    );
    let content = match files.read_copy(blob_path.as_str()) {
        Some(c) => c,
        None => {
            return Ok(ProxyBlobDecision::Miss);
        },
    };
    let blob_size: u64 = content.len() as u64;
    let mut headers: Vec<(String, String)> = Vec::new();
    headers.push(("Content-Type".to_owned(), "application/octet-stream".to_owned()));
    headers.push(("Content-Length".to_owned(), u64_to_dec_string(blob_size)));
    headers.push(("Proxy-Docker-Cache".to_owned(), "HIT".to_owned()));
    proof {
        assert(headers.deep_view() =~= spec_proxy_hit_headers(blob_size as int));
    }
    Ok(ProxyBlobDecision::Hit(RegistryResponse { status: 200, headers, body: Some(content) }))
}

/// Applies the upstream's answer to a proxy miss: 404 passes through
/// as a local 404; any other non-200 or a missing length is internal;
/// on 200 the full body is cached under its content-addressed path and
/// forwarded as a MISS. A failed transfer caches nothing: the path
/// only ever holds the complete content.
pub fn proxy_blob_store(
    conf: &Configuration,
    files: &mut FileStore,
    container_ref: &str,
    digest: &str,
    status: u16,
    content_length: Option<&str>,
    body: &[u8],
) -> (r: Result<RegistryResponse, RegistryHttpError>)
    ensures
        ({
            let path = spec_blob_path(conf.proxy_storage@, container_ref@, digest@);
            match r {
                Err(e) => {
                    &&& final(files)@ == old(files)@
                    &&& e matches RegistryHttpError::RegistryInternalError(_)
                    &&& ((status != 200 && status != 404) || (status == 200 && (match
                        content_length {
                        Some(cl) => !spec_is_u32_decimal(cl@),
                        None => true,
                    })))
                },
                Ok(resp) => {
                    if status == 404 {
                        &&& spec_empty_response(resp, 404)
                        &&& final(files)@ == old(files)@
                    } else {
                        &&& status == 200
                        &&& content_length matches Some(cl) && spec_is_u32_decimal(cl@)
                            && resp.headers.deep_view() == spec_proxy_miss_headers(
                            spec_digits_value(cl@),
                        )
                        &&& final(files)@ == old(files)@.insert(path, body@)
                        &&& resp.status == 200
                        &&& resp.body matches Some(b) && b@ == body@
                    }
                },
            }
        }),
{
    if status == 404 {
        return Ok(RegistryResponse { status: 404, headers: Vec::new(), body: None });
    }
    if status != 200 {
        return Err(
            RegistryHttpError::registry_internal_error("unexpected upstream status"),
        );
    }
    let clen: u32 = match content_length {
        Some(cl) => match parse_u32_decimal(cl) {
            Some(n) => n,
            None => {
                return Err(
                    RegistryHttpError::registry_internal_error(
                        "upstream content length is not a number",
                    ),
                );
            },
        },
        None => {
            return Err(
                RegistryHttpError::registry_internal_error("upstream content length is missing"),
            );
        },
    };
    let blob_path = RegistryPathsHelper::blob_path(
        conf.proxy_storage.as_str(),
        container_ref,
        digest,
    );
    files.write(blob_path.as_str(), copy_bytes(body));
    let mut headers: Vec<(String, String)> = Vec::new();
    headers.push(("Content-Type".to_owned(), "application/octet-stream".to_owned()));
    headers.push(("Content-Length".to_owned(), u64_to_dec_string(clen as u64)));
    headers.push(("Proxy-Docker-Cache".to_owned(), "MISS".to_owned()));
    proof {
        assert(headers.deep_view() =~= spec_proxy_miss_headers(clen as int));
    }
    Ok(RegistryResponse { status: 200, headers, body: Some(copy_bytes(body)) })
}

/// Whether the proxy already holds the manifest the upstream HEAD
/// named.
pub fn proxy_manifest_is_cached(
    conf: &Configuration,
    files: &FileStore,
    container_ref: &str,
    hash: &str,
) -> (r: bool)
    ensures
        r == files@.contains_key(
            spec_manifest_path(conf.proxy_storage@, container_ref@, hash@),
        ),
{
    let path = RegistryPathsHelper::manifest_path(
        conf.proxy_storage.as_str(),
        container_ref,
        hash,
    );
    files.is_file(path.as_str())
}

/// Stores an upstream manifest in the proxy cache under its tag and
/// digest names, body and metadata sidecar alike.
pub fn proxy_cache_manifest(
    conf: &Configuration,
    files: &mut FileStore,
    container_ref: &str,
    manifest_ref: &str,
    content_type: &str,
    body: &[u8],
    temp_id: u128,
) -> (r: Result<(), RegistryHttpError>)
    ensures
        r is Ok,
        spec_manifest_saved(
            old(files)@,
            final(files)@,
            conf.proxy_storage@,
            conf.temporary_registry_storage@,
            container_ref@,
            manifest_ref@,
            body@,
            content_type@,
            temp_id,
        ),
{
    let mut manifest = Manifest::new(
        conf.proxy_storage.as_str(),
        conf.temporary_registry_storage.as_str(),
        container_ref,
        manifest_ref,
    );
    manifest.save_manifest(files, body, temp_id);
    match manifest.save_manifest_metadata(files, content_type) {
        Ok(_) => {},
        Err(_) => {
            // Unreachable: the save settled the digest.
            proof {
                assert(false);
            }
        },
    }
    proof {
        let dg = spec_manifest_digest_of(manifest_ref@, body@);
        let t = conf.temporary_registry_storage@ + "/"@ + uuid_str_of(temp_id);
        let hp = spec_manifest_path(conf.proxy_storage@, container_ref@, dg);
        let tp = spec_manifest_path(conf.proxy_storage@, container_ref@, manifest_ref@);
        let stripped = if spec_starts_with(dg, "sha256:"@) {
            dg.skip(7)
        } else {
            dg
        };
        let meta = encode_utf8(spec_metadata_json(stripped, content_type@));
        let hm = spec_manifest_meta(conf.proxy_storage@, container_ref@, dg);
        let tm = spec_manifest_meta(conf.proxy_storage@, container_ref@, manifest_ref@);
        if spec_starts_with(manifest_ref@, "sha256:"@) {
            assert(files@ =~= old(files)@.remove(t).insert(hp, body@).insert(hm, meta));
        } else {
            assert(files@ =~= old(files)@.remove(t).insert(hp, body@).insert(tp, body@).insert(
                hm,
                meta,
            ).insert(tm, meta));
        }
    }
    Ok(())
}

/// Builds the final answer of a proxied manifest fetch from the cached
/// tag file and the upstream HEAD's metadata; a missing cache file is
/// internal.
pub fn proxy_manifest_response(
    conf: &Configuration,
    files: &FileStore,
    container_ref: &str,
    manifest_ref: &str,
    head: &ProxyManifestResponse,
) -> (r: Result<RegistryResponse, RegistryHttpError>)
    ensures
        ({
            let path = spec_manifest_path(conf.proxy_storage@, container_ref@, manifest_ref@);
            match r {
                Err(e) => {
                    &&& !files@.contains_key(path)
                    &&& e matches RegistryHttpError::RegistryInternalError(_)
                },
                Ok(resp) => {
                    &&& files@.contains_key(path)
                    &&& resp.status == 200
                    &&& resp.headers.deep_view() == seq![
                        ("Content-Type"@, head.content_type@),
                        ("Docker-Content-Digest"@, head.hash@),
                        ("Content-Length"@, spec_dec_str(head.content_length as int)),
                    ]
                    &&& resp.body matches Some(b) && b@ == files@[path]
                },
            }
        }),
{
    let path = RegistryPathsHelper::manifest_path(
        conf.proxy_storage.as_str(),
        container_ref,
        manifest_ref,
    );
    let content = match files.read_copy(path.as_str()) {
        Some(c) => c,
        None => {
            return Err(
                RegistryHttpError::registry_internal_error("proxied manifest is not cached"),
            );
        },
    };
    let mut headers: Vec<(String, String)> = Vec::new();
    headers.push(("Content-Type".to_owned(), head.content_type.clone()));
    headers.push(("Docker-Content-Digest".to_owned(), head.hash.clone()));
    headers.push(
        ("Content-Length".to_owned(), u64_to_dec_string(head.content_length as u64)),
    );
    proof {
        assert(headers.deep_view() =~= seq![
            ("Content-Type"@, head.content_type@),
            ("Docker-Content-Digest"@, head.hash@),
            ("Content-Length"@, spec_dec_str(head.content_length as int)),
        ]);
    }
    Ok(RegistryResponse { status: 200, headers, body: Some(content) })
}


/// What the proxy's tee stage does with one upstream chunk.
pub enum TeeStep {
    /// The chunk was written to the cache file; forward these bytes
    /// downstream.
    Forward(Vec<u8>),
    /// The transfer is over; signal the end of the stream.
    Finished,
    /// Reading or caching failed; abort both sides with this error.
    Fail(RegistryHttpError),
}

/// The per-chunk decision of the proxy's tee stage: each upstream
/// chunk is written to the cache first and forwarded downstream only
/// when that write succeeded; the first failure on either side aborts
/// the transfer.
pub fn tee_step(chunk: Option<Result<Vec<u8>, String>>, write_ok: bool) -> (r: TeeStep)
    ensures
        match chunk {
            None => r matches TeeStep::Finished,
            Some(Err(_)) => r matches TeeStep::Fail(e) && (e
                matches RegistryHttpError::RegistryInternalError(_)),
            Some(Ok(bytes)) => {
                if write_ok {
                    r matches TeeStep::Forward(b) && b@ == bytes@
                } else {
                    r matches TeeStep::Fail(e) && (e
                        matches RegistryHttpError::RegistryInternalError(_))
                }
            },
        },
{
    match chunk {
        None => TeeStep::Finished,
        Some(Err(cause)) => TeeStep::Fail(RegistryHttpError::RegistryInternalError(cause)),
        Some(Ok(bytes)) => {
            if write_ok {
                TeeStep::Forward(bytes)
            } else {
                TeeStep::Fail(
                    RegistryHttpError::registry_internal_error(
                        "writing the cache file failed mid-stream",
                    ),
                )
            }
        },
    }
}


/// What the upstream HEAD of a proxied manifest decided.
pub enum ProxyManifestDecision {
    /// The upstream knows the manifest: continue with its HEAD data.
    Proceed(ProxyManifestResponse),
    /// The upstream answered 404: a local not-found answer.
    NotFound(RegistryResponse),
}

/// Translates the upstream HEAD's judgement for a proxied manifest:
/// success proceeds with the HEAD's data, an upstream 404 becomes a
/// local 404, and every other failure is internal.
pub fn proxy_manifest_head_decision(head: Result<ProxyManifestResponse, DockerClientError>) -> (r:
    Result<ProxyManifestDecision, RegistryHttpError>)
    ensures
        match head {
            Ok(h) => r matches Ok(d) && (d matches ProxyManifestDecision::Proceed(h2) && h2 == h),
            Err(e) => {
                if e matches DockerClientError::UnexpectedStatusCode(c) && c == 404 {
                    r matches Ok(d) && (d matches ProxyManifestDecision::NotFound(resp)
                        && spec_empty_response(resp, 404))
                } else {
                    r matches Err(e2) && (e2 matches RegistryHttpError::RegistryInternalError(_))
                }
            },
        },
{
    match head {
        Ok(h) => Ok(ProxyManifestDecision::Proceed(h)),
        Err(e) => match e {
            DockerClientError::UnexpectedStatusCode(c) => {
                if c == 404 {
                    Ok(
                        ProxyManifestDecision::NotFound(
                            RegistryResponse { status: 404, headers: Vec::new(), body: None },
                        ),
                    )
                } else {
                    Err(
                        RegistryHttpError::registry_internal_error(
                            "unexpected upstream status for the proxied manifest",
                        ),
                    )
                }
            },
            _ => Err(
                RegistryHttpError::registry_internal_error(
                    "upstream manifest query failed",
                ),
            ),
        },
    }
}

/// Writes the tag-named alias of a manifest the proxy already caches
/// under its digest: body and metadata sidecar are copied to the tag
/// names, so the tag resolves locally from then on. An uncached digest
/// changes nothing and is internal.
pub fn proxy_alias_manifest(
    conf: &Configuration,
    files: &mut FileStore,
    container_ref: &str,
    manifest_ref: &str,
    hash: &str,
) -> (r: Result<(), RegistryHttpError>)
    ensures
        ({
            let hp = spec_manifest_path(conf.proxy_storage@, container_ref@, hash@);
            let hm = spec_manifest_meta(conf.proxy_storage@, container_ref@, hash@);
            let tp = spec_manifest_path(conf.proxy_storage@, container_ref@, manifest_ref@);
            let tm = spec_manifest_meta(conf.proxy_storage@, container_ref@, manifest_ref@);
            match r {
                Ok(_) => {
                    &&& old(files)@.contains_key(hp)
                    &&& old(files)@.contains_key(hm)
                    &&& final(files)@ == old(files)@.insert(tp, old(files)@[hp]).insert(
                        tm,
                        old(files)@[hm],
                    )
                },
                Err(e) => {
                    &&& (!old(files)@.contains_key(hp) || !old(files)@.contains_key(hm))
                    &&& final(files)@ == old(files)@
                    &&& e matches RegistryHttpError::RegistryInternalError(_)
                },
            }
        }),
{
    let hash_path = RegistryPathsHelper::manifest_path(
        conf.proxy_storage.as_str(),
        container_ref,
        hash,
    );
    let hash_meta = RegistryPathsHelper::manifest_meta(
        conf.proxy_storage.as_str(),
        container_ref,
        hash,
    );
    let body = match files.read_copy(hash_path.as_str()) {
        Some(b) => b,
        None => {
            return Err(
                RegistryHttpError::registry_internal_error("proxied manifest is not cached"),
            );
        },
    };
    let meta = match files.read_copy(hash_meta.as_str()) {
        Some(m) => m,
        None => {
            return Err(
                RegistryHttpError::registry_internal_error(
                    "proxied manifest metadata is not cached",
                ),
            );
        },
    };
    let tag_path = RegistryPathsHelper::manifest_path(
        conf.proxy_storage.as_str(),
        container_ref,
        manifest_ref,
    );
    let tag_meta = RegistryPathsHelper::manifest_meta(
        conf.proxy_storage.as_str(),
        container_ref,
        manifest_ref,
    );
    files.write(tag_path.as_str(), body);
    files.write(tag_meta.as_str(), meta);
    Ok(())
}

} // verus!
