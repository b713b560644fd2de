//! The manifest store: hash/tag dual-addressed manifests with atomic
//! publish semantics.
//!
//! A manifest body is staged under a private temporary name, its digest
//! computed once the full body is known, and the digest-named files are
//! published before any tag-named alias, so a reader resolving by tag
//! never sees a tag pointing at a missing or partial digest file.

use vstd::prelude::*;
use vstd::string::StrSliceExecFns;
use vstd::string::StringExecFns;

use crate::controllers::RegistryHttpError;
use crate::file_store::FileStore;
use crate::helpers::{
    RegistryPathsHelper, copy_bytes, file256sum, find_first, first_occurrence_at, format_uuid,
    hex_lower_of, lemma_first_occurrence_unique, sha256_of, spec_manifest_meta,
    spec_manifest_path, spec_starts_with, str_eq, str_starts_with, uuid_str_of,
};
use vstd::utf8::{encode_utf8, valid_utf8};

verus! {

// ------------------------------------------------------------------
// Metadata sidecar serialization
// ------------------------------------------------------------------

/// How one character is rendered inside a JSON string literal.
pub open spec fn esc_char(c: char) -> Seq<char> {
    if c == '"' {
        "\\\""@
    } else if c == '\\' {
        "\\\\"@
    } else if c == '\n' {
        "\\n"@
    } else if c == '\r' {
        "\\r"@
    } else if c == '\t' {
        "\\t"@
    } else {
        seq![c]
    }
}

/// JSON string-literal escaping, character by character.
pub open spec fn spec_json_escape(s: Seq<char>) -> Seq<char>
    decreases s.len(),
{
    if s.len() == 0 {
        Seq::empty()
    } else {
        esc_char(s[0]) + spec_json_escape(s.drop_first())
    }
}

proof fn lemma_json_escape_push(s: Seq<char>, c: char)
    ensures
        spec_json_escape(s.push(c)) == spec_json_escape(s) + esc_char(c),
    decreases s.len(),
{
    if s.len() == 0 {
        assert(s.push(c)[0] == c);
        assert(s.push(c).drop_first() =~= Seq::<char>::empty());
        assert(spec_json_escape(s.push(c)) == esc_char(c) + spec_json_escape(
            Seq::<char>::empty(),
        ));
        assert(s =~= Seq::<char>::empty());
        assert(spec_json_escape(s.push(c)) =~= spec_json_escape(s) + esc_char(c));
    } else {
        assert(s.push(c).drop_first() =~= s.drop_first().push(c));
        lemma_json_escape_push(s.drop_first(), c);
        assert(spec_json_escape(s.push(c)) =~= spec_json_escape(s) + esc_char(c));
    }
}

/// Escapes a string for inclusion in a JSON string literal.
fn json_escape(s: &str) -> (r: String)
    ensures
        r@ == spec_json_escape(s@),
{
    let len: usize = s.unicode_len();
    let mut out = String::new();
    let mut i: usize = 0;
    while i < len
        invariant
            len == s@.len(),
            i <= len,
            out@ == spec_json_escape(s@.take(i as int)),
        decreases len - i,
    {
        let c = s.get_char(i);
        if c == '"' {
            out.append("\\\"");
        } else if c == '\\' {
            out.append("\\\\");
        } else if c == '\n' {
            out.append("\\n");
        } else if c == '\r' {
            out.append("\\r");
        } else if c == '\t' {
            out.append("\\t");
        } else {
            let piece = s.substring_char(i, i + 1);
            proof {
                assert(piece@ =~= seq![s@[i as int]]);
            }
            out.append(piece);
        }
        proof {
            assert(s@.take(i as int + 1) =~= s@.take(i as int).push(s@[i as int]));
            lemma_json_escape_push(s@.take(i as int), s@[i as int]);
        }
        i = i + 1;
    }
    proof {
        assert(s@.take(len as int) =~= s@);
    }
    out
}

/// The metadata sidecar body for a manifest: its digest (without the
/// algorithm prefix) and its declared content type.
pub open spec fn spec_metadata_json(hash: Seq<char>, content_type: Seq<char>) -> Seq<char> {
    "{\"hash\":\""@ + spec_json_escape(hash) + "\",\"content_type\":\""@ + spec_json_escape(
        content_type,
    ) + "\"}"@
}

/// A character that JSON string escaping leaves as it is.
pub open spec fn is_plain_json_char(c: char) -> bool {
    c != '"' && c != '\\' && c != '\n' && c != '\r' && c != '\t'
}

/// A string that JSON string escaping leaves as it is.
pub open spec fn spec_plain_json(s: Seq<char>) -> bool {
    forall|i: int| 0 <= i < s.len() ==> is_plain_json_char(#[trigger] s[i])
}

pub proof fn lemma_plain_escape_id(s: Seq<char>)
    requires
        spec_plain_json(s),
    ensures
        spec_json_escape(s) == s,
    decreases s.len(),
{
    if s.len() == 0 {
        assert(spec_json_escape(s) =~= s);
    } else {
        lemma_plain_escape_id(s.drop_first());
        assert(esc_char(s[0]) == seq![s[0]]);
        assert(spec_json_escape(s) =~= s);
    }
}

fn chars_all_plain(s: &str) -> (r: bool)
    ensures
        r == spec_plain_json(s@),
{
    let len: usize = s.unicode_len();
    let mut i: usize = 0;
    while i < len
        invariant
            len == s@.len(),
            i <= len,
            forall|j: int| 0 <= j < i ==> is_plain_json_char(#[trigger] s@[j]),
        decreases len - i,
    {
        let c = s.get_char(i);
        if c == '"' || c == '\\' || c == '\n' || c == '\r' || c == '\t' {
            return false;
        }
        i = i + 1;
    }
    true
}

/// A manifest's sidecar record: digest and declared content type.
pub struct ManifestMetadata {
    pub hash: String,
    pub content_type: String,
}

impl ManifestMetadata {
    /// Renders the record as its JSON sidecar body.
    pub fn to_json(&self) -> (r: String)
        ensures
            r@ == spec_metadata_json(self.hash@, self.content_type@),
    {
        let mut out = "{\"hash\":\"".to_owned();
        let h = json_escape(self.hash.as_str());
        out.append(h.as_str());
        out.append("\",\"content_type\":\"");
        let c = json_escape(self.content_type.as_str());
        out.append(c.as_str());
        out.append("\"}");
        out
    }
}

// ------------------------------------------------------------------
// The manifest store
// ------------------------------------------------------------------

/// The mathematical state of a manifest being saved.
pub ghost struct ManifestModel {
    pub docker_hash: Option<Seq<char>>,
    pub manifest_reference: Seq<char>,
    pub container_ref: Seq<char>,
    pub registry_root: Seq<char>,
    pub registry_temp_root: Seq<char>,
}

/// One manifest being received and published.
pub struct Manifest {
    docker_hash: Option<String>,
    manifest_reference: String,
    container_ref: String,
    registry_root: String,
    registry_temp_root: String,
}

impl View for Manifest {
    type V = ManifestModel;

    closed spec fn view(&self) -> ManifestModel {
        ManifestModel {
            docker_hash: match self.docker_hash {
                Some(h) => Some(h@),
                None => None,
            },
            manifest_reference: self.manifest_reference@,
            container_ref: self.container_ref@,
            registry_root: self.registry_root@,
            registry_temp_root: self.registry_temp_root@,
        }
    }
}

/// The digest a save settles on: the reference itself when it already
/// is a digest, else the SHA-256 of the body.
pub open spec fn spec_manifest_digest(m: ManifestModel, content: Seq<u8>) -> Seq<char> {
    match m.docker_hash {
        Some(h) => h,
        None => "sha256:"@ + hex_lower_of(sha256_of(content)),
    }
}

impl Manifest {
    /// Starts a save: the reference is taken as the digest when it
    /// already carries the `sha256:` prefix.
    pub fn new(
        registry_root: &str,
        registry_temp_root: &str,
        container_ref: &str,
        manifest_reference: &str,
    ) -> (r: Self)
        ensures
            r@ == (ManifestModel {
                docker_hash: if spec_starts_with(manifest_reference@, "sha256:"@) {
                    Some(manifest_reference@)
                } else {
                    None
                },
                manifest_reference: manifest_reference@,
                container_ref: container_ref@,
                registry_root: registry_root@,
                registry_temp_root: registry_temp_root@,
            }),
    {
        let docker_hash = if str_starts_with(manifest_reference, "sha256:") {
            Some(manifest_reference.to_owned())
        } else {
            None
        };
        Manifest {
            docker_hash,
            manifest_reference: manifest_reference.to_owned(),
            container_ref: container_ref.to_owned(),
            registry_root: registry_root.to_owned(),
            registry_temp_root: registry_temp_root.to_owned(),
        }
    }

    /// Publishes the manifest body: stages it under a temporary name
    /// drawn from `temp_id`, settles the digest, moves the staged file
    /// to the digest-named path, and only then copies it to the
    /// tag-named path when the reference is not itself the digest.
    pub fn save_manifest(&mut self, files: &mut FileStore, content: &[u8], temp_id: u128)
        ensures
            ({
                let m = old(self)@;
                let digest = spec_manifest_digest(m, content@);
                let t = m.registry_temp_root + "/"@ + uuid_str_of(temp_id);
                let hash_path = spec_manifest_path(m.registry_root, m.container_ref, digest);
                let tag_path = spec_manifest_path(
                    m.registry_root,
                    m.container_ref,
                    m.manifest_reference,
                );
                &&& final(self)@ == (ManifestModel { docker_hash: Some(digest), ..m })
                &&& final(files)@ == (if m.docker_hash is Some {
                    old(files)@.remove(t).insert(hash_path, content@)
                } else {
                    old(files)@.remove(t).insert(hash_path, content@).insert(tag_path, content@)
                })
            }),
    {
        let manifest_is_a_docker_hash = self.docker_hash.is_some();
        let mut temp_path = self.registry_temp_root.clone();
        temp_path.append("/");
        let tid = format_uuid(temp_id);
        temp_path.append(tid.as_str());
        files.write(temp_path.as_str(), copy_bytes(content));

        let digest: String = match &self.docker_hash {
            Some(h) => h.clone(),
            None => {
                let mut d = "sha256:".to_owned();
                let sum = file256sum(content);
                d.append(sum.as_str());
                d
            },
        };
        self.docker_hash = Some(digest.clone());

        let hash_path = RegistryPathsHelper::manifest_path(
            self.registry_root.as_str(),
            self.container_ref.as_str(),
            digest.as_str(),
        );
        match files.rename_file(temp_path.as_str(), hash_path.as_str()) {
            Ok(_) => {},
            Err(_) => {
                // Unreachable: the staged file was just written.
                proof {
                    assert(false);
                }
            },
        }
        if !manifest_is_a_docker_hash {
            let tag_path = RegistryPathsHelper::manifest_path(
                self.registry_root.as_str(),
                self.container_ref.as_str(),
                self.manifest_reference.as_str(),
            );
            match files.copy_file(hash_path.as_str(), tag_path.as_str()) {
                Ok(_) => {},
                Err(_) => {
                    // Unreachable: the digest-named file was just moved
                    // into place.
                    proof {
                        assert(false);
                    }
                },
            }
        }
        proof {
            let m = old(self)@;
            let digest_s = spec_manifest_digest(m, content@);
            let t = m.registry_temp_root + "/"@ + uuid_str_of(temp_id);
            let hp = spec_manifest_path(m.registry_root, m.container_ref, digest_s);
            let tp = spec_manifest_path(m.registry_root, m.container_ref, m.manifest_reference);
            if m.docker_hash is Some {
                assert(files@ =~= old(files)@.remove(t).insert(hp, content@));
            } else {
                assert(files@ =~= old(files)@.remove(t).insert(hp, content@).insert(
                    tp,
                    content@,
                ));
            }
        }
    }

    /// Writes the metadata sidecar to the digest-named meta path, and
    /// mirrors it under the tag name when the reference is not itself a
    /// digest. Fails when no digest has been settled yet.
    pub fn save_manifest_metadata(&self, files: &mut FileStore, content_type: &str) -> (r: Result<
        (),
        RegistryHttpError,
    >)
        ensures
            ({
                let m = self@;
                match r {
                    Ok(_) => m.docker_hash matches Some(h) && {
                        let stripped = if spec_starts_with(h, "sha256:"@) {
                            h.skip(7)
                        } else {
                            h
                        };
                        let body = encode_utf8(spec_metadata_json(stripped, content_type@));
                        let hash_meta = spec_manifest_meta(m.registry_root, m.container_ref, h);
                        let tag_meta = spec_manifest_meta(
                            m.registry_root,
                            m.container_ref,
                            m.manifest_reference,
                        );
                        final(files)@ == (if spec_starts_with(m.manifest_reference, "sha256:"@) {
                            old(files)@.insert(hash_meta, body)
                        } else {
                            old(files)@.insert(hash_meta, body).insert(tag_meta, body)
                        })
                    },
                    Err(e) => {
                        &&& m.docker_hash is None
                        &&& final(files)@ == old(files)@
                        &&& e matches RegistryHttpError::RegistryInternalError(_)
                    },
                }
            }),
    {
        let docker_hash: &String = match &self.docker_hash {
            Some(h) => h,
            None => {
                return Err(
                    RegistryHttpError::registry_internal_error(
                        "manifest digest has not been computed yet",
                    ),
                );
            },
        };
        let stripped: String = if str_starts_with(docker_hash.as_str(), "sha256:") {
            proof {
                reveal_strlit("sha256:");
            }
            let len: usize = docker_hash.as_str().unicode_len();
            docker_hash.as_str().substring_char(7, len).to_owned()
        } else {
            docker_hash.clone()
        };
        proof {
            reveal_strlit("sha256:");
            if spec_starts_with(docker_hash@, "sha256:"@) {
                assert(stripped@ =~= docker_hash@.skip(7));
            }
        }
        let metadata = ManifestMetadata { hash: stripped, content_type: content_type.to_owned() };
        let body = metadata.to_json();
        let hash_meta_path = RegistryPathsHelper::manifest_meta(
            self.registry_root.as_str(),
            self.container_ref.as_str(),
            docker_hash.as_str(),
        );
        files.write(hash_meta_path.as_str(), body.as_str().as_bytes_vec());
        if !str_starts_with(self.manifest_reference.as_str(), "sha256:") {
            let tag_meta_path = RegistryPathsHelper::manifest_meta(
                self.registry_root.as_str(),
                self.container_ref.as_str(),
                self.manifest_reference.as_str(),
            );
            match files.copy_file(hash_meta_path.as_str(), tag_meta_path.as_str()) {
                Ok(_) => {},
                Err(_) => {
                    // Unreachable: the digest-named sidecar was just
                    // written.
                    proof {
                        assert(false);
                    }
                },
            }
        }
        Ok(())
    }

    /// The digest this manifest was published under; an error until a
    /// save has settled it.
    pub fn docker_hash(&self) -> (r: Result<&String, RegistryHttpError>)
        ensures
            match r {
                Ok(h) => self@.docker_hash matches Some(s) && h@ == s,
                Err(e) => self@.docker_hash is None && e
                    matches RegistryHttpError::RegistryInternalError(_),
            },
    {
        match &self.docker_hash {
            Some(h) => Ok(h),
            None => Err(
                RegistryHttpError::registry_internal_error(
                    "manifest digest has not been computed yet",
                ),
            ),
        }
    }
}


proof fn lemma_metadata_literals()
    ensures
        "{\"hash\":\""@.len() == 9,
        "\",\"content_type\":\""@.len() == 18,
        "\"}"@.len() == 2,
        "\",\"content_type\":\""@[0] == '"',
        "\"}"@[0] == '"',
{
    reveal_strlit("{\"hash\":\"");
    reveal_strlit("\",\"content_type\":\"");
    reveal_strlit("\"}");
}

proof fn lemma_metadata_shape(h: Seq<char>, ct: Seq<char>)
    requires
        spec_plain_json(h),
        spec_plain_json(ct),
    ensures
        spec_metadata_json(h, ct) == "{\"hash\":\""@ + h + "\",\"content_type\":\""@ + ct
            + "\"}"@,
{
    lemma_plain_escape_id(h);
    lemma_plain_escape_id(ct);
}

/// Reads a metadata sidecar body back. The parse succeeds exactly on
/// the renderings of records whose fields escaping leaves unchanged,
/// and returns that record.
#[verifier::rlimit(100)]
#[verifier::spinoff_prover]
pub fn parse_manifest_metadata(s: &str) -> (r: Option<ManifestMetadata>)
    ensures
        match r {
            Some(m) => {
                &&& spec_plain_json(m.hash@)
                &&& spec_plain_json(m.content_type@)
                &&& s@ == spec_metadata_json(m.hash@, m.content_type@)
            },
            None => forall|h: Seq<char>, ct: Seq<char>|
                !(spec_plain_json(h) && spec_plain_json(ct) && s@ == #[trigger] spec_metadata_json(
                    h,
                    ct,
                )),
        },
{
    let len: usize = s.unicode_len();
    if !str_starts_with(s, "{\"hash\":\"") {
        proof {
            assert forall|h: Seq<char>, ct: Seq<char>|
                !(spec_plain_json(h) && spec_plain_json(ct) && s@
                    == #[trigger] spec_metadata_json(h, ct)) by {
                if spec_plain_json(h) && spec_plain_json(ct) && s@ == spec_metadata_json(h, ct) {
                    lemma_metadata_shape(h, ct);
                    lemma_metadata_literals();
                    assert(s@.take(9) =~= "{\"hash\":\""@);
                }
            }
        }
        return None;
    }
    proof {
        lemma_metadata_literals();
    }
    let rest1 = s.substring_char(9, len);
    proof {
        assert(rest1@ =~= s@.skip(9));
    }
    let q1 = match find_first(rest1, '"') {
        Some(q) => q,
        None => {
            proof {
                assert forall|h: Seq<char>, ct: Seq<char>|
                    !(spec_plain_json(h) && spec_plain_json(ct) && s@
                        == #[trigger] spec_metadata_json(h, ct)) by {
                    if spec_plain_json(h) && spec_plain_json(ct) && s@ == spec_metadata_json(
                        h,
                        ct,
                    ) {
                        lemma_metadata_shape(h, ct);
                        lemma_metadata_literals();
                        assert(rest1@ =~= h + "\",\"content_type\":\""@ + ct + "\"}"@);
                        assert(rest1@[h.len() as int] == '"');
                    }
                }
            }
            return None;
        },
    };
    let h_str = rest1.substring_char(0, q1);
    proof {
        assert(h_str@ =~= rest1@.take(q1 as int));
    }
    if !chars_all_plain(h_str) {
        proof {
            assert forall|h: Seq<char>, ct: Seq<char>|
                !(spec_plain_json(h) && spec_plain_json(ct) && s@
                    == #[trigger] spec_metadata_json(h, ct)) by {
                if spec_plain_json(h) && spec_plain_json(ct) && s@ == spec_metadata_json(h, ct) {
                    lemma_metadata_shape(h, ct);
                    lemma_metadata_literals();
                    assert(rest1@ =~= h + "\",\"content_type\":\""@ + ct + "\"}"@);
                    assert(rest1@[h.len() as int] == '"');
                    assert(first_occurrence_at(rest1@, '"', h.len() as int));
                    lemma_first_occurrence_unique(rest1@, '"', q1 as int, h.len() as int);
                    assert(h_str@ =~= h);
                }
            }
        }
        return None;
    }
    let rlen1: usize = rest1.unicode_len();
    let rest2 = rest1.substring_char(q1, rlen1);
    proof {
        assert(rest2@ =~= rest1@.skip(q1 as int));
    }
    if !str_starts_with(rest2, "\",\"content_type\":\"") {
        proof {
            assert forall|h: Seq<char>, ct: Seq<char>|
                !(spec_plain_json(h) && spec_plain_json(ct) && s@
                    == #[trigger] spec_metadata_json(h, ct)) by {
                if spec_plain_json(h) && spec_plain_json(ct) && s@ == spec_metadata_json(h, ct) {
                    lemma_metadata_shape(h, ct);
                    lemma_metadata_literals();
                    assert(rest1@ =~= h + "\",\"content_type\":\""@ + ct + "\"}"@);
                    assert(rest1@[h.len() as int] == '"');
                    assert(first_occurrence_at(rest1@, '"', h.len() as int));
                    lemma_first_occurrence_unique(rest1@, '"', q1 as int, h.len() as int);
                    assert(rest2@ =~= "\",\"content_type\":\""@ + ct + "\"}"@);
                    assert(rest2@.take(18) =~= "\",\"content_type\":\""@);
                }
            }
        }
        return None;
    }
    let rlen2: usize = rest2.unicode_len();
    let rest3 = rest2.substring_char(18, rlen2);
    proof {
        assert(rest3@ =~= rest2@.skip(18));
    }
    let q2 = match find_first(rest3, '"') {
        Some(q) => q,
        None => {
            proof {
                assert forall|h: Seq<char>, ct: Seq<char>|
                    !(spec_plain_json(h) && spec_plain_json(ct) && s@
                        == #[trigger] spec_metadata_json(h, ct)) by {
                    if spec_plain_json(h) && spec_plain_json(ct) && s@ == spec_metadata_json(
                        h,
                        ct,
                    ) {
                        lemma_metadata_shape(h, ct);
                        lemma_metadata_literals();
                        assert(rest1@ =~= h + "\",\"content_type\":\""@ + ct + "\"}"@);
                        assert(rest1@[h.len() as int] == '"');
                        assert(first_occurrence_at(rest1@, '"', h.len() as int));
                        lemma_first_occurrence_unique(rest1@, '"', q1 as int, h.len() as int);
                        assert(rest2@ =~= "\",\"content_type\":\""@ + ct + "\"}"@);
                        assert(rest3@ =~= ct + "\"}"@);
                        assert(rest3@[ct.len() as int] == '"');
                    }
                }
            }
            return None;
        },
    };
    let ct_str = rest3.substring_char(0, q2);
    proof {
        assert(ct_str@ =~= rest3@.take(q2 as int));
    }
    if !chars_all_plain(ct_str) {
        proof {
            assert forall|h: Seq<char>, ct: Seq<char>|
                !(spec_plain_json(h) && spec_plain_json(ct) && s@
                    == #[trigger] spec_metadata_json(h, ct)) by {
                if spec_plain_json(h) && spec_plain_json(ct) && s@ == spec_metadata_json(h, ct) {
                    lemma_metadata_shape(h, ct);
                    lemma_metadata_literals();
                    assert(rest1@ =~= h + "\",\"content_type\":\""@ + ct + "\"}"@);
                    assert(rest1@[h.len() as int] == '"');
                    assert(first_occurrence_at(rest1@, '"', h.len() as int));
                    lemma_first_occurrence_unique(rest1@, '"', q1 as int, h.len() as int);
                    assert(rest2@ =~= "\",\"content_type\":\""@ + ct + "\"}"@);
                    assert(rest3@ =~= ct + "\"}"@);
                    assert(rest3@[ct.len() as int] == '"');
                    assert(first_occurrence_at(rest3@, '"', ct.len() as int));
                    lemma_first_occurrence_unique(rest3@, '"', q2 as int, ct.len() as int);
                    assert(ct_str@ =~= ct);
                }
            }
        }
        return None;
    }
    let rlen3: usize = rest3.unicode_len();
    let rest4 = rest3.substring_char(q2, rlen3);
    proof {
        assert(rest4@ =~= rest3@.skip(q2 as int));
    }
    if !str_eq(rest4, "\"}") {
        proof {
            assert forall|h: Seq<char>, ct: Seq<char>|
                !(spec_plain_json(h) && spec_plain_json(ct) && s@
                    == #[trigger] spec_metadata_json(h, ct)) by {
                if spec_plain_json(h) && spec_plain_json(ct) && s@ == spec_metadata_json(h, ct) {
                    lemma_metadata_shape(h, ct);
                    lemma_metadata_literals();
                    assert(rest1@ =~= h + "\",\"content_type\":\""@ + ct + "\"}"@);
                    assert(rest1@[h.len() as int] == '"');
                    assert(first_occurrence_at(rest1@, '"', h.len() as int));
                    lemma_first_occurrence_unique(rest1@, '"', q1 as int, h.len() as int);
                    assert(rest2@ =~= "\",\"content_type\":\""@ + ct + "\"}"@);
                    assert(rest3@ =~= ct + "\"}"@);
                    assert(rest3@[ct.len() as int] == '"');
                    assert(first_occurrence_at(rest3@, '"', ct.len() as int));
                    lemma_first_occurrence_unique(rest3@, '"', q2 as int, ct.len() as int);
                    assert(rest4@ =~= "\"}"@);
                }
            }
        }
        return None;
    }
    let m = ManifestMetadata { hash: h_str.to_owned(), content_type: ct_str.to_owned() };
    proof {
        lemma_metadata_literals();
        lemma_metadata_shape(h_str@, ct_str@);
        assert(s@.take(9) =~= "{\"hash\":\""@);
        assert(s@ =~= s@.take(9) + rest1@);
        assert(rest1@ =~= h_str@ + rest2@);
        assert(rest2@.take(18) =~= "\",\"content_type\":\""@);
        assert(rest2@ =~= rest2@.take(18) + rest3@);
        assert(rest3@ =~= ct_str@ + rest4@);
        assert(s@ =~= spec_metadata_json(m.hash@, m.content_type@));
    }
    Some(m)
}

/// Relies on String::from_utf8: the decoded string's UTF-8 encoding is
/// exactly the input bytes; invalid UTF-8 is rejected.
#[verifier::external_body]
pub(crate) fn bytes_to_string(v: Vec<u8>) -> (r: Option<String>)
    ensures
        match r {
            Some(s) => v@ == encode_utf8(s@),
            None => !valid_utf8(v@),
        },
{
    match String::from_utf8(v) {
        Ok(s) => Some(s),
        Err(_) => None,
    }
}

} // verus!
