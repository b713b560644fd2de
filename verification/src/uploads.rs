//! The upload session store: resumable, chunked blob ingestion.
//!
//! A session is identified by a 128-bit token; its scratch file path is
//! a pure function of that token and the temporary storage root, so it
//! can always be recomputed from the token alone. Appending writes to
//! the scratch file; finalizing atomically moves the scratch file to
//! the content-addressed blob path and removes the session.

use vstd::prelude::*;
use vstd::string::StringExecFns;
use crate::controllers::RegistryHttpError;
use crate::file_store::FileStore;
use crate::helpers::{
    RegistryPathsHelper, fresh_upload_id, format_uuid, parse_uuid, spec_blob_path,
    spec_temporary_blob_path, uuid_parse_of, uuid_str_of,
};

verus! {

/// The mathematical state of one upload session.
pub ghost struct UploadModel {
    pub id: u128,
    pub temp_path: Seq<char>,
    pub container: Seq<char>,
    pub registry_root: Seq<char>,
    pub last: u64,
}

/// One in-flight chunked upload.
pub struct Upload {
    pub id: u128,
    pub temporary_file_path: String,
    pub container_reference: String,
    pub registry_root: String,
    pub last_interacted_with: u64,
}

impl View for Upload {
    type V = UploadModel;

    open spec fn view(&self) -> UploadModel {
        UploadModel {
            id: self.id,
            temp_path: self.temporary_file_path@,
            container: self.container_reference@,
            registry_root: self.registry_root@,
            last: self.last_interacted_with,
        }
    }
}

/// The session a fresh upload starts in.
pub open spec fn spec_upload(
    id: u128,
    container: Seq<char>,
    temp_root: Seq<char>,
    registry_root: Seq<char>,
    now: u64,
) -> UploadModel {
    UploadModel {
        id,
        temp_path: spec_temporary_blob_path(temp_root, id),
        container,
        registry_root,
        last: now,
    }
}

impl Upload {
    /// A fresh session for the given identifier, created at time `now`.
    pub fn new(
        container_reference: &str,
        temporary_root: &str,
        registry_root: &str,
        id: u128,
        now: u64,
    ) -> (r: Self)
        ensures
            r@ == spec_upload(id, container_reference@, temporary_root@, registry_root@, now),
    {
        Upload {
            id,
            temporary_file_path: RegistryPathsHelper::temporary_blob_path(temporary_root, id),
            container_reference: container_reference.to_owned(),
            registry_root: registry_root.to_owned(),
            last_interacted_with: now,
        }
    }

    /// Appends a chunk to the session's scratch file, creating it when
    /// absent, and returns the resulting size. Never truncates.
    pub fn write_blob(&self, files: &mut FileStore, layer: &[u8]) -> (r: u64)
        requires
            (if old(files)@.contains_key(self@.temp_path) {
                old(files)@[self@.temp_path].len()
            } else {
                0
            }) + layer@.len() <= usize::MAX,
        ensures
            ({
                let prev = if old(files)@.contains_key(self@.temp_path) {
                    old(files)@[self@.temp_path]
                } else {
                    Seq::<u8>::empty()
                };
                &&& final(files)@ == old(files)@.insert(self@.temp_path, prev + layer@)
                &&& r == prev.len() + layer@.len()
            }),
    {
        let n = files.append_file(self.temporary_file_path.as_str(), layer);
        n as u64
    }

    /// Deletes the session's scratch file if it exists.
    pub fn cleanup_upload(&self, files: &mut FileStore)
        ensures
            final(files)@ == old(files)@.remove(self@.temp_path),
    {
        files.remove_file(self.temporary_file_path.as_str());
    }

    /// Atomically moves the scratch file to the content-addressed blob
    /// path for `hash`. The destination either holds the complete
    /// content or nothing; on failure the store is unchanged.
    pub fn finalize_upload(&self, files: &mut FileStore, hash: &str) -> (r: Result<
        (),
        RegistryHttpError,
    >)
        ensures
            ({
                let dest = spec_blob_path(self@.registry_root, self@.container, hash@);
                match r {
                    Ok(_) => old(files)@.contains_key(self@.temp_path) && final(files)@ == old(
                        files,
                    )@.remove(self@.temp_path).insert(dest, old(files)@[self@.temp_path]),
                    Err(e) => {
                        &&& !old(files)@.contains_key(self@.temp_path)
                        &&& final(files)@ == old(files)@
                        &&& e matches RegistryHttpError::RegistryInternalError(_)
                    },
                }
            }),
    {
        let final_blob_path = RegistryPathsHelper::blob_path(
            self.registry_root.as_str(),
            self.container_reference.as_str(),
            hash,
        );
        match files.rename_file(self.temporary_file_path.as_str(), final_blob_path.as_str()) {
            Ok(_) => Ok(()),
            Err(_) => Err(
                RegistryHttpError::registry_internal_error("upload scratch file is missing"),
            ),
        }
    }

    /// The upload's location URI: `/v2/<container>/blobs/uploads/<id>`.
    pub fn http_upload_uri(&self) -> (r: String)
        ensures
            r@ == "/v2/"@ + self@.container + "/blobs/uploads/"@ + uuid_str_of(self@.id),
    {
        let mut out = "/v2/".to_owned();
        out.append(self.container_reference.as_str());
        out.append("/blobs/uploads/");
        let id = format_uuid(self.id);
        out.append(id.as_str());
        out
    }

    /// Refreshes the session's last-activity stamp.
    pub fn update_last_interacted(&mut self, now: u64)
        ensures
            final(self)@ == (UploadModel { last: now, ..old(self)@ }),
    {
        self.last_interacted_with = now;
    }
}

/// The scratch-file paths of the sessions a sweep at `now` removes.
pub open spec fn spec_pruned_paths(m: Map<u128, UploadModel>, now: u64, max_age: u64) -> Set<
    Seq<char>,
> {
    Set::new(
        |p: Seq<char>|
            exists|id: u128|
                #![auto]
                m.contains_key(id) && now >= m[id].last + max_age && m[id].temp_path == p,
    )
}

/// The map of in-flight sessions, keyed by identifier.
pub struct UploadsStore {
    uploads: Vec<Upload>,
}

spec fn uploads_map(s: Seq<Upload>) -> Map<u128, UploadModel> {
    Map::new(
        |id: u128| exists|i: int| 0 <= i < s.len() && (#[trigger] s[i].id) == id,
        |id: u128|
            {
                let i = choose|i: int| 0 <= i < s.len() && (#[trigger] s[i].id) == id;
                s[i]@
            },
    )
}

/// The identifiers among the first `n` collected stale entries.
spec fn stale_ids_prefix(r: Seq<(u128, String)>, n: int) -> Set<u128> {
    Set::new(|id: u128| exists|k: int| 0 <= k < n && (#[trigger] r[k]).0 == id)
}

/// The scratch paths among the first `n` collected stale entries.
spec fn stale_paths_prefix(r: Seq<(u128, String)>, n: int) -> Set<Seq<char>> {
    Set::new(|p: Seq<char>| exists|k: int| 0 <= k < n && (#[trigger] r[k]).1@ == p)
}

proof fn lemma_remove_keys_insert<K, V>(m: Map<K, V>, s: Set<K>, p: K)
    ensures
        m.remove_keys(s).remove(p) == m.remove_keys(s.insert(p)),
{
    assert(m.remove_keys(s).remove(p) =~= m.remove_keys(s.insert(p)));
}

impl View for UploadsStore {
    type V = Map<u128, UploadModel>;

    closed spec fn view(&self) -> Map<u128, UploadModel> {
        uploads_map(self.uploads@)
    }
}

impl UploadsStore {
    #[verifier::type_invariant]
    closed spec fn wf(&self) -> bool {
        forall|i: int, j: int|
            0 <= i < j < self.uploads@.len() ==> (#[trigger] self.uploads@[i].id) != (
            #[trigger] self.uploads@[j].id)
    }

    /// An empty store.
    pub fn new() -> (r: Self)
        ensures
            r@ == Map::<u128, UploadModel>::empty(),
    {
        let r = UploadsStore { uploads: Vec::new() };
        proof {
            assert(r@ =~= Map::<u128, UploadModel>::empty());
        }
        r
    }

    fn find(&self, id: u128) -> (r: Option<usize>)
        ensures
            match r {
                Some(i) => i < self.uploads@.len() && self.uploads@[i as int].id == id,
                None => forall|i: int|
                    0 <= i < self.uploads@.len() ==> (#[trigger] self.uploads@[i].id) != id,
            },
    {
        let len: usize = self.uploads.len();
        let mut i: usize = 0;
        while i < len
            invariant
                len == self.uploads@.len(),
                i <= len,
                forall|j: int| 0 <= j < i ==> (#[trigger] self.uploads@[j].id) != id,
            decreases len - i,
        {
            if self.uploads[i].id == id {
                return Some(i);
            }
            i = i + 1;
        }
        None
    }

    fn remove_entry(&mut self, id: u128)
        ensures
            final(self)@ == old(self)@.remove(id),
    {
        proof {
            use_type_invariant(&*self);
        }
        let found = self.find(id);
        let mut uploads: Vec<Upload> = Vec::new();
        core::mem::swap(&mut uploads, &mut self.uploads);
        match found {
            Some(i) => {
                let ghost pre = uploads@;
                uploads.remove(i);
                core::mem::swap(&mut uploads, &mut self.uploads);
                proof {
                    assert(forall|j: int| 0 <= j < i ==> self.uploads@[j] == pre[j]);
                    assert(forall|j: int|
                        i <= j < self.uploads@.len() ==> self.uploads@[j] == pre[j + 1]);
                    assert(self@ =~= old(self)@.remove(id)) by {
                        assert forall|q: u128| #![auto]
                            self@.contains_key(q) == old(self)@.remove(id).contains_key(q) by {
                            if q == id {
                                if exists|k: int|
                                    0 <= k < self.uploads@.len() && (#[trigger] self.uploads@[k].id)
                                        == q {
                                    let k = choose|k: int|
                                        0 <= k < self.uploads@.len() && (
                                        #[trigger] self.uploads@[k].id) == q;
                                    if k < i {
                                        assert(pre[k].id == q);
                                    } else {
                                        assert(pre[k + 1].id == q);
                                    }
                                    assert(false);
                                }
                            } else {
                                if exists|k: int| 0 <= k < pre.len() && (#[trigger] pre[k].id)
                                    == q {
                                    let k = choose|k: int|
                                        0 <= k < pre.len() && (#[trigger] pre[k].id) == q;
                                    assert(k != i);
                                    if k < i {
                                        assert(self.uploads@[k].id == q);
                                    } else {
                                        assert(self.uploads@[k - 1].id == q);
                                    }
                                }
                                if exists|k: int|
                                    0 <= k < self.uploads@.len() && (#[trigger] self.uploads@[k].id)
                                        == q {
                                    let k = choose|k: int|
                                        0 <= k < self.uploads@.len() && (
                                        #[trigger] self.uploads@[k].id) == q;
                                    if k < i {
                                        assert(pre[k].id == q);
                                    } else {
                                        assert(pre[k + 1].id == q);
                                    }
                                }
                            }
                        }
                        assert forall|q: u128|
                            self@.contains_key(q) && old(self)@.remove(id).contains_key(
                                q,
                            ) implies self@[q] == old(self)@.remove(id)[q] by {
                            let k = choose|k: int|
                                0 <= k < self.uploads@.len() && (#[trigger] self.uploads@[k].id)
                                    == q;
                            let k2 = choose|k2: int|
                                0 <= k2 < pre.len() && (#[trigger] pre[k2].id) == q;
                            if k < i {
                                assert(pre[k].id == q);
                                assert(k2 == k);
                            } else {
                                assert(pre[k + 1].id == q);
                                assert(k2 == k + 1);
                            }
                        }
                    }
                }
            },
            None => {
                core::mem::swap(&mut uploads, &mut self.uploads);
                proof {
                    assert(self@ =~= old(self)@.remove(id)) by {
                        assert(!self@.contains_key(id));
                    }
                }
            },
        }
    }

    fn push_entry(&mut self, upload: Upload)
        requires
            !old(self)@.contains_key(upload.id),
        ensures
            final(self)@ == old(self)@.insert(upload.id, upload@),
    {
        proof {
            use_type_invariant(&*self);
        }
        let mut uploads: Vec<Upload> = Vec::new();
        core::mem::swap(&mut uploads, &mut self.uploads);
        let ghost pre = uploads@;
        let ghost id = upload.id;
        let ghost m = upload@;
        uploads.push(upload);
        core::mem::swap(&mut uploads, &mut self.uploads);
        proof {
            assert(forall|j: int| 0 <= j < pre.len() ==> self.uploads@[j] == pre[j]);
            assert(self.uploads@[pre.len() as int].id == id);
            assert forall|i: int, j: int|
                0 <= i < j < self.uploads@.len() implies (#[trigger] self.uploads@[i].id) != (
            #[trigger] self.uploads@[j].id) by {
                if j == pre.len() as int {
                    if self.uploads@[i].id == id {
                        assert(pre[i].id == id);
                        assert(false);
                    }
                }
            }
            assert(self@ =~= old(self)@.insert(id, m)) by {
                assert forall|q: u128| #![auto]
                    self@.contains_key(q) == old(self)@.insert(id, m).contains_key(q) by {
                    if q == id {
                        assert(self.uploads@[pre.len() as int].id == q);
                    } else {
                        if exists|k: int|
                            0 <= k < self.uploads@.len() && (#[trigger] self.uploads@[k].id) == q {
                            let k = choose|k: int|
                                0 <= k < self.uploads@.len() && (#[trigger] self.uploads@[k].id)
                                    == q;
                            assert(k < pre.len());
                            assert(pre[k].id == q);
                        }
                    }
                }
                assert forall|q: u128|
                    self@.contains_key(q) && old(self)@.insert(id, m).contains_key(
                        q,
                    ) implies self@[q] == old(self)@.insert(id, m)[q] by {
                    let k = choose|k: int|
                        0 <= k < self.uploads@.len() && (#[trigger] self.uploads@[k].id) == q;
                    if q == id {
                        assert(k == pre.len() as int);
                    } else {
                        assert(k < pre.len());
                        assert(pre[k].id == q);
                        let k2 = choose|k2: int| 0 <= k2 < pre.len() && (#[trigger] pre[k2].id)
                            == q;
                        assert(k2 == k);
                    }
                }
            }
        }
    }

    fn insert_upload(&mut self, upload: Upload)
        ensures
            final(self)@ == old(self)@.insert(upload.id, upload@),
    {
        let ghost id = upload.id;
        let ghost m = upload@;
        self.remove_entry(upload.id);
        self.push_entry(upload);
        proof {
            assert(old(self)@.remove(id).insert(id, m) =~= old(self)@.insert(id, m));
        }
    }

    /// Registers a fresh session for `container_ref` under a newly drawn
    /// identifier, which is returned.
    pub fn create_upload(
        &mut self,
        container_ref: &str,
        temporary_files_root: &str,
        registry_root: &str,
        now: u64,
    ) -> (id: u128)
        ensures
            final(self)@ == old(self)@.insert(
                id,
                spec_upload(id, container_ref@, temporary_files_root@, registry_root@, now),
            ),
    {
        let id = fresh_upload_id();
        let upload = Upload::new(container_ref, temporary_files_root, registry_root, id, now);
        self.insert_upload(upload);
        id
    }

    /// Looks the session up; None when the identifier is unknown.
    pub fn fetch_upload(&self, upload: u128) -> (r: Option<Upload>)
        ensures
            match r {
                Some(u) => self@.contains_key(upload) && u@ == self@[upload] && u.id == upload,
                None => !self@.contains_key(upload),
            },
    {
        proof {
            use_type_invariant(&*self);
        }
        match self.find(upload) {
            Some(i) => {
                let e = &self.uploads[i];
                let copy = Upload {
                    id: e.id,
                    temporary_file_path: e.temporary_file_path.clone(),
                    container_reference: e.container_reference.clone(),
                    registry_root: e.registry_root.clone(),
                    last_interacted_with: e.last_interacted_with,
                };
                proof {
                    let k = choose|k: int|
                        0 <= k < self.uploads@.len() && (#[trigger] self.uploads@[k].id) == upload;
                    assert(k == i as int);
                }
                Some(copy)
            },
            None => None,
        }
    }

    /// Looks a session up by its string identifier; an unparsable
    /// identifier is an error, a parsable but unknown one is None.
    pub fn fetch_upload_string_uuid(&self, upload: &str) -> (r: Result<Option<Upload>, ()>)
        ensures
            match r {
                Ok(o) => uuid_parse_of(upload@) matches Some(id) && (match o {
                    Some(u) => self@.contains_key(id) && u@ == self@[id] && u.id == id,
                    None => !self@.contains_key(id),
                }),
                Err(_) => uuid_parse_of(upload@) is None,
            },
    {
        match parse_uuid(upload) {
            Some(id) => Ok(self.fetch_upload(id)),
            None => Err(()),
        }
    }

    /// Refreshes a session's last-activity stamp to `now`; unknown
    /// identifiers change nothing.
    pub fn touch(&mut self, id: u128, now: u64)
        ensures
            old(self)@.contains_key(id) ==> final(self)@ == old(self)@.insert(
                id,
                (UploadModel { last: now, ..old(self)@[id] }),
            ),
            !old(self)@.contains_key(id) ==> final(self)@ == old(self)@,
    {
        match self.fetch_upload(id) {
            Some(mut u) => {
                u.update_last_interacted(now);
                self.insert_upload(u);
            },
            None => {},
        }
    }

    /// Removes the session; unknown identifiers change nothing.
    pub fn delete_upload(&mut self, upload: u128)
        ensures
            final(self)@ == old(self)@.remove(upload),
    {
        self.remove_entry(upload);
    }

    fn collect_stale(&self, now: u64, max_age: u64) -> (r: Vec<(u128, String)>)
        ensures
            forall|k: int|
                #![trigger r@[k]]
                0 <= k < r@.len() ==> self@.contains_key(r@[k].0) && now >= self@[r@[k].0].last
                    + max_age && r@[k].1@ == self@[r@[k].0].temp_path,
            forall|id: u128|
                #![auto]
                self@.contains_key(id) && now >= self@[id].last + max_age ==> exists|k: int|
                    0 <= k < r@.len() && (#[trigger] r@[k]).0 == id,
            forall|k1: int, k2: int|
                0 <= k1 < k2 < r@.len() ==> (#[trigger] r@[k1].0) != (#[trigger] r@[k2].0),
    {
        proof {
            use_type_invariant(&*self);
        }
        let len: usize = self.uploads.len();
        let mut out: Vec<(u128, String)> = Vec::new();
        let mut i: usize = 0;
        while i < len
            invariant
                len == self.uploads@.len(),
                i <= len,
                forall|a: int, b: int|
                    0 <= a < b < self.uploads@.len() ==> (#[trigger] self.uploads@[a].id) != (
                    #[trigger] self.uploads@[b].id),
                forall|k: int|
                    #![trigger out@[k]]
                    0 <= k < out@.len() ==> self@.contains_key(out@[k].0) && now
                        >= self@[out@[k].0].last + max_age && out@[k].1@
                        == self@[out@[k].0].temp_path,
                forall|k: int|
                    #![trigger out@[k]]
                    0 <= k < out@.len() ==> exists|l: int|
                        0 <= l < i && (#[trigger] self.uploads@[l]).id == out@[k].0,
                forall|l: int|
                    0 <= l < i && now >= (#[trigger] self.uploads@[l])@.last + max_age
                        ==> exists|k: int| 0 <= k < out@.len() && (#[trigger] out@[k]).0
                        == self.uploads@[l].id,
                forall|k1: int, k2: int|
                    0 <= k1 < k2 < out@.len() ==> (#[trigger] out@[k1].0) != (
                    #[trigger] out@[k2].0),
            decreases len - i,
        {
            let u = &self.uploads[i];
            proof {
                assert(self@.contains_key(u.id));
                let k = choose|k: int|
                    0 <= k < self.uploads@.len() && (#[trigger] self.uploads@[k].id) == u.id;
                assert(k == i as int);
                assert(self@[u.id] == u@);
            }
            let stale = if now >= u.last_interacted_with {
                (now - u.last_interacted_with) >= max_age
            } else {
                false
            };
            if stale {
                let ghost opre = out@;
                out.push((u.id, u.temporary_file_path.clone()));
                proof {
                    assert(out@[opre.len() as int].0 == self.uploads@[i as int].id);
                    assert forall|l: int|
                        0 <= l < i + 1 && now >= (#[trigger] self.uploads@[l])@.last
                            + max_age implies exists|k: int|
                        0 <= k < out@.len() && (#[trigger] out@[k]).0
                            == self.uploads@[l].id by {
                        if l == i as int {
                            assert(out@[opre.len() as int].0 == self.uploads@[l].id);
                        } else {
                            let k = choose|k: int|
                                0 <= k < opre.len() && (#[trigger] opre[k]).0
                                    == self.uploads@[l].id;
                            assert(out@[k].0 == self.uploads@[l].id);
                        }
                    }
                    assert forall|k1: int, k2: int|
                        0 <= k1 < k2 < out@.len() implies (#[trigger] out@[k1].0) != (
                    #[trigger] out@[k2].0) by {
                        if k2 == opre.len() as int {
                            let l = choose|l: int|
                                0 <= l < i && (#[trigger] self.uploads@[l]).id == out@[k1].0;
                            assert(self.uploads@[l].id != self.uploads@[i as int].id);
                        }
                    }
                }
            }
            i = i + 1;
        }
        out
    }

    /// Sweeps out every session whose last activity lies `max_age` or
    /// more before `now`, deleting its scratch file; younger sessions
    /// are untouched.
    #[verifier::rlimit(60)]
    pub fn prune(&mut self, files: &mut FileStore, now: u64, max_age: u64)
        ensures
            forall|id: u128|
                #![auto]
                final(self)@.contains_key(id) <==> (old(self)@.contains_key(id) && now < old(
                    self,
                )@[id].last + max_age),
            forall|id: u128|
                #![auto]
                final(self)@.contains_key(id) ==> final(self)@[id] == old(self)@[id],
            final(files)@ == old(files)@.remove_keys(
                spec_pruned_paths(old(self)@, now, max_age),
            ),
    {
        let stale_list = self.collect_stale(now, max_age);
        let ghost r = stale_list@;
        let ghost m0 = self@;
        let len: usize = stale_list.len();
        let mut i: usize = 0;
        while i < len
            invariant
                len == r.len(),
                i <= len,
                stale_list@ == r,
                m0 == old(self)@,
                self@ == m0.remove_keys(stale_ids_prefix(r, i as int)),
                files@ == old(files)@.remove_keys(stale_paths_prefix(r, i as int)),
                forall|k: int|
                    #![trigger r[k]]
                    0 <= k < r.len() ==> m0.contains_key(r[k].0) && now >= m0[r[k].0].last
                        + max_age && r[k].1@ == m0[r[k].0].temp_path,
                forall|id: u128|
                    #![auto]
                    m0.contains_key(id) && now >= m0[id].last + max_age ==> exists|k: int|
                        0 <= k < r.len() && (#[trigger] r[k]).0 == id,
                forall|k1: int, k2: int|
                    0 <= k1 < k2 < r.len() ==> (#[trigger] r[k1].0) != (#[trigger] r[k2].0),
            decreases len - i,
        {
            let id = stale_list[i].0;
            files.remove_file(stale_list[i].1.as_str());
            self.delete_upload(id);
            proof {
                assert(stale_ids_prefix(r, i as int + 1) =~= stale_ids_prefix(r, i as int).insert(
                    r[i as int].0,
                )) by {
                    assert forall|q: u128|
                        stale_ids_prefix(r, i as int + 1).contains(q) implies stale_ids_prefix(
                        r,
                        i as int,
                    ).insert(r[i as int].0).contains(q) by {
                        let k = choose|k: int| 0 <= k < i + 1 && (#[trigger] r[k]).0 == q;
                        if k < i as int {
                            assert(stale_ids_prefix(r, i as int).contains(q));
                        }
                    }
                }
                lemma_remove_keys_insert(m0, stale_ids_prefix(r, i as int), r[i as int].0);
                assert(stale_paths_prefix(r, i as int + 1) =~= stale_paths_prefix(
                    r,
                    i as int,
                ).insert(r[i as int].1@)) by {
                    assert forall|q: Seq<char>|
                        stale_paths_prefix(r, i as int + 1).contains(q) implies stale_paths_prefix(
                        r,
                        i as int,
                    ).insert(r[i as int].1@).contains(q) by {
                        let k = choose|k: int| 0 <= k < i + 1 && (#[trigger] r[k]).1@ == q;
                        if k < i as int {
                            assert(stale_paths_prefix(r, i as int).contains(q));
                        }
                    }
                }
                lemma_remove_keys_insert(old(files)@, stale_paths_prefix(r, i as int), r[i as int].1@);
            }
            i = i + 1;
        }
        proof {
            let ids = stale_ids_prefix(r, r.len() as int);
            assert forall|id: u128| #![auto]
                self@.contains_key(id) <==> (m0.contains_key(id) && now < m0[id].last
                    + max_age) by {
                if m0.contains_key(id) {
                    if now >= m0[id].last + max_age {
                        let k = choose|k: int| 0 <= k < r.len() && (#[trigger] r[k]).0 == id;
                        assert(ids.contains(id));
                    } else {
                        if ids.contains(id) {
                            let k = choose|k: int| 0 <= k < r.len() && (#[trigger] r[k]).0 == id;
                            assert(now >= m0[id].last + max_age);
                        }
                    }
                }
            }
            assert(stale_paths_prefix(r, r.len() as int) =~= spec_pruned_paths(
                m0,
                now,
                max_age,
            )) by {
                assert forall|p: Seq<char>|
                    stale_paths_prefix(r, r.len() as int).contains(p) implies spec_pruned_paths(
                    m0,
                    now,
                    max_age,
                ).contains(p) by {
                    let k = choose|k: int| 0 <= k < r.len() && (#[trigger] r[k]).1@ == p;
                    assert(m0.contains_key(r[k].0) && now >= m0[r[k].0].last + max_age
                        && m0[r[k].0].temp_path == p);
                }
                assert forall|p: Seq<char>|
                    spec_pruned_paths(m0, now, max_age).contains(p) implies stale_paths_prefix(
                    r,
                    r.len() as int,
                ).contains(p) by {
                    let id = choose|id: u128|
                        #![auto]
                        m0.contains_key(id) && now >= m0[id].last + max_age && m0[id].temp_path
                            == p;
                    let k = choose|k: int| 0 <= k < r.len() && (#[trigger] r[k]).0 == id;
                    assert(r[k].1@ == p);
                }
            }
        }
    }

    /// Removes the session named by a string identifier; an unparsable
    /// identifier is an error and changes nothing.
    pub fn delete_upload_uuid(&mut self, upload: &str) -> (r: Result<(), ()>)
        ensures
            match r {
                Ok(_) => uuid_parse_of(upload@) matches Some(id) && final(self)@ == old(
                    self,
                )@.remove(id),
                Err(_) => uuid_parse_of(upload@) is None && final(self)@ == old(self)@,
            },
    {
        match parse_uuid(upload) {
            Some(id) => {
                self.delete_upload(id);
                Ok(())
            },
            None => Err(()),
        }
    }
}

impl Default for UploadsStore {
    /// An empty store.
    fn default() -> (r: Self)
        ensures
            r@ == Map::<u128, UploadModel>::empty(),
    {
        UploadsStore::new()
    }
}

} // verus!
