//! The library's laws: properties that hold across several operations,
//! stated over the same models the operations' contracts use and
//! proved once and for all.

use vstd::prelude::*;
use crate::authentication_strategies::{AuthStrategy, BearerTokenAuthStrategy, spec_needs_reauth};
use crate::helpers::{spec_blob_path, spec_manifest_meta, spec_manifest_path, spec_starts_with,
    spec_temporary_blob_path};
use crate::controllers::spec_manifest_digest_of;
use crate::manifests::spec_metadata_json;
use crate::uploads::{UploadModel, spec_upload};
use vstd::utf8::encode_utf8;

verus! {

/// Law: starting a session, appending chunks `b1`, `b2`, `b3` in
/// sequence and finalizing under `hash` leaves the blob path holding
/// exactly `b1 + b2 + b3`, the scratch path holding nothing, and the
/// session no longer present in the store.
pub proof fn lemma_upload_round_trip(
    uploads0: Map<u128, UploadModel>,
    files0: Map<Seq<char>, Seq<u8>>,
    id: u128,
    container: Seq<char>,
    temp_root: Seq<char>,
    root: Seq<char>,
    now: u64,
    b1: Seq<u8>,
    b2: Seq<u8>,
    b3: Seq<u8>,
    hash: Seq<char>,
)
    requires
        !files0.contains_key(spec_temporary_blob_path(temp_root, id)),
        spec_blob_path(root, container, hash) != spec_temporary_blob_path(temp_root, id),
    ensures
        ({
            let u = spec_upload(id, container, temp_root, root, now);
            let dest = spec_blob_path(root, container, hash);
            let uploads1 = uploads0.insert(id, u);
            let f1 = files0.insert(u.temp_path, Seq::<u8>::empty() + b1);
            let f2 = f1.insert(u.temp_path, f1[u.temp_path] + b2);
            let f3 = f2.insert(u.temp_path, f2[u.temp_path] + b3);
            let f4 = f3.remove(u.temp_path).insert(dest, f3[u.temp_path]);
            let uploads2 = uploads1.remove(id);
            &&& f4.contains_key(dest)
            &&& f4[dest] == b1 + b2 + b3
            &&& !f4.contains_key(u.temp_path)
            &&& !uploads2.contains_key(id)
        }),
{
    let u = spec_upload(id, container, temp_root, root, now);
    let f1 = files0.insert(u.temp_path, Seq::<u8>::empty() + b1);
    let f2 = f1.insert(u.temp_path, f1[u.temp_path] + b2);
    let f3 = f2.insert(u.temp_path, f2[u.temp_path] + b3);
    assert(f3[u.temp_path] =~= b1 + b2 + b3);
}

/// Law: appending a zero-length chunk leaves the session's scratch
/// content, and so its size, unchanged; and appending the same bytes
/// twice appends them twice. The store is append-only, not
/// offset-aware: no deduplication of retried chunks takes place.
pub proof fn lemma_append_idempotence(
    files0: Map<Seq<char>, Seq<u8>>,
    u: UploadModel,
    b: Seq<u8>,
)
    ensures
        ({
            let prev = if files0.contains_key(u.temp_path) {
                files0[u.temp_path]
            } else {
                Seq::<u8>::empty()
            };
            let f_empty = files0.insert(u.temp_path, prev + Seq::<u8>::empty());
            let f_once = files0.insert(u.temp_path, prev + b);
            let f_twice = f_once.insert(u.temp_path, f_once[u.temp_path] + b);
            &&& f_empty[u.temp_path] == prev
            &&& f_empty[u.temp_path].len() == prev.len()
            &&& (files0.contains_key(u.temp_path) ==> f_empty == files0)
            &&& f_twice[u.temp_path] == prev + b + b
        }),
{
    let prev = if files0.contains_key(u.temp_path) {
        files0[u.temp_path]
    } else {
        Seq::<u8>::empty()
    };
    assert(prev + Seq::<u8>::empty() =~= prev);
    if files0.contains_key(u.temp_path) {
        assert(files0.insert(u.temp_path, prev + Seq::<u8>::empty()) =~= files0);
    }
}

/// Law: finalizing is atomic. Afterwards the destination holds the
/// complete staged content and the scratch path holds nothing, while
/// every other path is exactly as before; at no point does the
/// destination hold a partial file, since the store maps a path either
/// to a complete content or to nothing.
pub proof fn lemma_finalize_atomic(
    files0: Map<Seq<char>, Seq<u8>>,
    u: UploadModel,
    hash: Seq<char>,
)
    requires
        files0.contains_key(u.temp_path),
        spec_blob_path(u.registry_root, u.container, hash) != u.temp_path,
    ensures
        ({
            let dest = spec_blob_path(u.registry_root, u.container, hash);
            let f1 = files0.remove(u.temp_path).insert(dest, files0[u.temp_path]);
            &&& f1.contains_key(dest)
            &&& f1[dest] == files0[u.temp_path]
            &&& !f1.contains_key(u.temp_path)
            &&& forall|p: Seq<char>|
                p != dest && p != u.temp_path ==> (#[trigger] f1.contains_key(p)
                    == files0.contains_key(p)) && (f1.contains_key(p) ==> f1[p] == files0[p])
        }),
{
}

proof fn lemma_same_prefix_distinct(p: Seq<char>, x: Seq<char>, y: Seq<char>)
    requires
        x != y,
    ensures
        p + x != p + y,
{
    if p + x == p + y {
        assert((p + x).skip(p.len() as int) =~= x);
        assert((p + y).skip(p.len() as int) =~= y);
    }
}

proof fn lemma_manifest_meta_paths_distinct(
    root: Seq<char>,
    container: Seq<char>,
    x: Seq<char>,
    y: Seq<char>,
)
    ensures
        spec_manifest_path(root, container, x) != spec_manifest_meta(root, container, y),
{
    reveal_strlit("/manifests/");
    reveal_strlit("/meta/");
    let p1 = root + "/"@ + container;
    let mp = spec_manifest_path(root, container, x);
    let tp = spec_manifest_meta(root, container, y);
    assert(mp =~= p1 + "/manifests/"@ + x);
    assert(tp =~= p1 + "/meta/"@ + y);
    let pos = p1.len() + 2;
    assert("/manifests/"@[2] == 'a');
    assert("/meta/"@[2] == 'e');
    assert(mp[pos as int] == 'a');
    assert(tp[pos as int] == 'e');
}

/// Law: after `save(repo, tag, bytes, ctype)` with a tag that is not
/// itself a digest, the tag-named and digest-named manifest files hold
/// byte-identical content, and the tag-named and digest-named metadata
/// sidecars hold identical bytes.
pub proof fn lemma_manifest_alias_consistency(
    files0: Map<Seq<char>, Seq<u8>>,
    root: Seq<char>,
    temp_root: Seq<char>,
    container: Seq<char>,
    tag: Seq<char>,
    body: Seq<u8>,
    ctype: Seq<char>,
    temp_id: u128,
)
    requires
        !spec_starts_with(tag, "sha256:"@),
    ensures
        ({
            let digest = spec_manifest_digest_of(tag, body);
            let t = temp_root + "/"@ + crate::helpers::uuid_str_of(temp_id);
            let hp = spec_manifest_path(root, container, digest);
            let tp = spec_manifest_path(root, container, tag);
            let stripped = digest.skip(7);
            let meta = encode_utf8(spec_metadata_json(stripped, ctype));
            let hm = spec_manifest_meta(root, container, digest);
            let tm = spec_manifest_meta(root, container, tag);
            let post = files0.remove(t).insert(hp, body).insert(tp, body).insert(
                hm,
                meta,
            ).insert(tm, meta);
            &&& post.contains_key(hp) && post.contains_key(tp)
            &&& post[hp] == body && post[tp] == body
            &&& post.contains_key(hm) && post.contains_key(tm)
            &&& post[hm] == post[tm] && post[hm] == meta
        }),
{
    let digest = spec_manifest_digest_of(tag, body);
    reveal_strlit("sha256:");
    assert(digest.len() >= 7);
    assert(spec_starts_with(digest, "sha256:"@)) by {
        assert(("sha256:"@ + crate::helpers::hex_lower_of(crate::helpers::sha256_of(body))).take(
            7,
        ) =~= "sha256:"@);
    }
    assert(digest != tag);
    lemma_same_prefix_distinct(root + "/"@ + container + "/manifests/"@, digest, tag);
    let hp = spec_manifest_path(root, container, digest);
    let tp = spec_manifest_path(root, container, tag);
    assert(root + "/"@ + container + "/manifests/"@ + digest =~= (root + "/"@ + container
        + "/manifests/"@) + digest);
    assert(root + "/"@ + container + "/manifests/"@ + tag =~= (root + "/"@ + container
        + "/manifests/"@) + tag);
    assert(hp != tp);
    lemma_same_prefix_distinct(root + "/"@ + container + "/meta/"@, digest, tag);
    let hm = spec_manifest_meta(root, container, digest);
    let tm = spec_manifest_meta(root, container, tag);
    assert(root + "/"@ + container + "/meta/"@ + digest =~= (root + "/"@ + container
        + "/meta/"@) + digest);
    assert(root + "/"@ + container + "/meta/"@ + tag =~= (root + "/"@ + container + "/meta/"@)
        + tag);
    assert(hm != tm);
    lemma_manifest_meta_paths_distinct(root, container, digest, digest);
    lemma_manifest_meta_paths_distinct(root, container, digest, tag);
    lemma_manifest_meta_paths_distinct(root, container, tag, digest);
    lemma_manifest_meta_paths_distinct(root, container, tag, tag);
}

/// Law: a prune sweep at time `now` removes exactly the sessions whose
/// last activity lies `max_age` or more in the past: every such
/// session is gone afterwards (a lookup reports it unknown), and every
/// younger session is present, unchanged.
pub proof fn lemma_prune_invariant(
    pre: Map<u128, UploadModel>,
    post: Map<u128, UploadModel>,
    now: u64,
    max_age: u64,
)
    requires
        forall|id: u128|
            #![auto]
            post.contains_key(id) <==> (pre.contains_key(id) && now < pre[id].last + max_age),
        forall|id: u128| #![auto] post.contains_key(id) ==> post[id] == pre[id],
    ensures
        forall|id: u128|
            #![auto]
            pre.contains_key(id) && now >= pre[id].last + max_age ==> !post.contains_key(id),
        forall|id: u128|
            #![auto]
            pre.contains_key(id) && now < pre[id].last + max_age ==> post.contains_key(id)
                && post[id] == pre[id],
{
}

/// Law: a bearer token granted at time `now` needs re-authentication
/// at a later time `t` exactly when `t - now` has reached its
/// lifetime: never right at the grant for a positive lifetime, and
/// always once the lifetime has elapsed. Anonymous and Basic
/// credentials never need it.
pub proof fn lemma_bearer_freshness(b: BearerTokenAuthStrategy, now: i64, t: i64)
    requires
        b.created_at == now,
    ensures
        spec_needs_reauth(AuthStrategy::Bearer(b), t) <==> t - now >= b.expires_in,
        b.expires_in > 0 ==> !spec_needs_reauth(AuthStrategy::Bearer(b), now),
{
}

/// Law: with an empty proxy cache, the first fetch of a digest misses
/// and caching the upstream bytes fills the blob path with exactly
/// those bytes, so a second fetch of the same digest hits and serves
/// identical bytes without consulting the upstream again.
pub proof fn lemma_proxy_hit_after_miss(
    files0: Map<Seq<char>, Seq<u8>>,
    proxy_root: Seq<char>,
    container: Seq<char>,
    digest: Seq<char>,
    body: Seq<u8>,
)
    requires
        !files0.contains_key(spec_blob_path(proxy_root, container, digest)),
    ensures
        ({
            let path = spec_blob_path(proxy_root, container, digest);
            let f1 = files0.insert(path, body);
            &&& f1.contains_key(path)
            &&& f1[path] == body
        }),
{
}

} // verus!
