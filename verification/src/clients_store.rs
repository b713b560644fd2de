//! The client cache: one authenticated upstream client per
//! registry/repository key, replaced rather than mutated when its
//! credentials need renewal.

use vstd::prelude::*;
use crate::client::DockerClient;
use crate::authentication_strategies::spec_needs_reauth;
use crate::helpers::str_eq;

verus! {

/// Whether a cached client's credentials are stale at time `now`.
pub open spec fn spec_client_needs_revalidation(c: DockerClient, now: i64) -> bool {
    match c.auth_strat {
        Some(s) => spec_needs_reauth(s, now),
        None => false,
    }
}

/// A cache of upstream clients keyed by the combined
/// "registry/container" string.
pub struct DockerClientsStore {
    clients: Vec<(String, DockerClient)>,
}

impl View for DockerClientsStore {
    type V = Map<Seq<char>, DockerClient>;

    closed spec fn view(&self) -> Map<Seq<char>, DockerClient> {
        Map::new(
            |k: Seq<char>|
                exists|i: int|
                    0 <= i < self.clients@.len() && (#[trigger] self.clients@[i].0@) == k,
            |k: Seq<char>|
                {
                    let i = choose|i: int|
                        0 <= i < self.clients@.len() && (#[trigger] self.clients@[i].0@) == k;
                    self.clients@[i].1
                },
        )
    }
}

impl DockerClientsStore {
    #[verifier::type_invariant]
    closed spec fn wf(&self) -> bool {
        &&& forall|i: int, j: int|
            0 <= i < j < self.clients@.len() ==> (#[trigger] self.clients@[i].0@) != (
            #[trigger] self.clients@[j].0@)
        &&& forall|i: int|
            0 <= i < self.clients@.len() ==> (#[trigger] self.clients@[i].1).auth_strat is Some
    }

    /// An empty cache.
    pub fn new() -> (r: Self)
        ensures
            r@ == Map::<Seq<char>, DockerClient>::empty(),
    {
        let r = DockerClientsStore { clients: Vec::new() };
        proof {
            assert(r@ =~= Map::<Seq<char>, DockerClient>::empty());
        }
        r
    }

    fn find(&self, key: &str) -> (r: Option<usize>)
        ensures
            match r {
                Some(i) => i < self.clients@.len() && self.clients@[i as int].0@ == key@,
                None => forall|i: int|
                    0 <= i < self.clients@.len() ==> (#[trigger] self.clients@[i].0@) != key@,
            },
    {
        let len: usize = self.clients.len();
        let mut i: usize = 0;
        while i < len
            invariant
                len == self.clients@.len(),
                i <= len,
                forall|j: int| 0 <= j < i ==> (#[trigger] self.clients@[j].0@) != key@,
            decreases len - i,
        {
            if str_eq(self.clients[i].0.as_str(), key) {
                return Some(i);
            }
            i = i + 1;
        }
        None
    }

    /// The cheap read path of the cache: the cached client, provided
    /// one exists for the key and its credentials are still fresh at
    /// `now`; otherwise the caller must build, authenticate and insert
    /// a replacement. A served client is always authenticated: only
    /// authenticated clients can enter the cache.
    pub fn get_client(&self, registry_container_key: &str, now: i64) -> (r: Option<&DockerClient>)
        ensures
            match r {
                Some(c) => {
                    &&& self@.contains_key(registry_container_key@)
                    &&& *c == self@[registry_container_key@]
                    &&& c.auth_strat is Some
                    &&& !spec_client_needs_revalidation(*c, now)
                },
                None => !self@.contains_key(registry_container_key@)
                    || spec_client_needs_revalidation(self@[registry_container_key@], now),
            },
    {
        proof {
            use_type_invariant(&*self);
        }
        match self.find(registry_container_key) {
            Some(i) => {
                let c = &self.clients[i].1;
                proof {
                    let k = choose|k: int|
                        0 <= k < self.clients@.len() && (#[trigger] self.clients@[k].0@)
                            == registry_container_key@;
                    assert(k == i as int);
                }
                if c.authentication_needs_revalidation(now) {
                    None
                } else {
                    Some(c)
                }
            },
            None => None,
        }
    }

    fn remove_entry(&mut self, key: &str)
        ensures
            final(self)@ == old(self)@.remove(key@),
    {
        proof {
            use_type_invariant(&*self);
        }
        let found = self.find(key);
        let mut clients: Vec<(String, DockerClient)> = Vec::new();
        core::mem::swap(&mut clients, &mut self.clients);
        match found {
            Some(i) => {
                let ghost pre = clients@;
                clients.remove(i);
                core::mem::swap(&mut clients, &mut self.clients);
                proof {
                    assert(forall|j: int| 0 <= j < i ==> self.clients@[j] == pre[j]);
                    assert(forall|j: int|
                        i <= j < self.clients@.len() ==> self.clients@[j] == pre[j + 1]);
                    assert(self@ =~= old(self)@.remove(key@)) by {
                        assert forall|q: Seq<char>| #![auto]
                            self@.contains_key(q) == old(self)@.remove(key@).contains_key(q) by {
                            if q == key@ {
                                if exists|k: int|
                                    0 <= k < self.clients@.len() && (
                                    #[trigger] self.clients@[k].0@) == q {
                                    let k = choose|k: int|
                                        0 <= k < self.clients@.len() && (
                                        #[trigger] self.clients@[k].0@) == q;
                                    if k < i {
                                        assert(pre[k].0@ == q);
                                    } else {
                                        assert(pre[k + 1].0@ == q);
                                    }
                                    assert(false);
                                }
                            } else {
                                if exists|k: int| 0 <= k < pre.len() && (#[trigger] pre[k].0@)
                                    == q {
                                    let k = choose|k: int|
                                        0 <= k < pre.len() && (#[trigger] pre[k].0@) == q;
                                    assert(k != i);
                                    if k < i {
                                        assert(self.clients@[k].0@ == q);
                                    } else {
                                        assert(self.clients@[k - 1].0@ == q);
                                    }
                                }
                                if exists|k: int|
                                    0 <= k < self.clients@.len() && (
                                    #[trigger] self.clients@[k].0@) == q {
                                    let k = choose|k: int|
                                        0 <= k < self.clients@.len() && (
                                        #[trigger] self.clients@[k].0@) == q;
                                    if k < i {
                                        assert(pre[k].0@ == q);
                                    } else {
                                        assert(pre[k + 1].0@ == q);
                                    }
                                }
                            }
                        }
                        assert forall|q: Seq<char>|
                            self@.contains_key(q) && old(self)@.remove(key@).contains_key(
                                q,
                            ) implies self@[q] == old(self)@.remove(key@)[q] by {
                            let k = choose|k: int|
                                0 <= k < self.clients@.len() && (#[trigger] self.clients@[k].0@)
                                    == q;
                            let k2 = choose|k2: int|
                                0 <= k2 < pre.len() && (#[trigger] pre[k2].0@) == q;
                            if k < i {
                                assert(pre[k].0@ == q);
                                assert(k2 == k);
                            } else {
                                assert(pre[k + 1].0@ == q);
                                assert(k2 == k + 1);
                            }
                        }
                    }
                }
            },
            None => {
                core::mem::swap(&mut clients, &mut self.clients);
                proof {
                    assert(self@ =~= old(self)@.remove(key@)) by {
                        assert(!self@.contains_key(key@));
                    }
                }
            },
        }
    }

    /// Inserts or replaces the client cached under the key. Only a
    /// client that has completed authentication may enter the cache,
    /// so a lookup never serves an unauthenticated one.
    pub fn insert_client(&mut self, registry_container_key: &str, client: DockerClient)
        requires
            client.auth_strat is Some,
        ensures
            final(self)@ == old(self)@.insert(registry_container_key@, client),
    {
        self.remove_entry(registry_container_key);
        let ghost mid = self@;
        proof {
            use_type_invariant(&*self);
            assert(!self@.contains_key(registry_container_key@));
            assert forall|i: int|
                0 <= i < self.clients@.len() implies (#[trigger] self.clients@[i].0@)
                != registry_container_key@ by {
                if self.clients@[i].0@ == registry_container_key@ {
                    assert(self@.contains_key(registry_container_key@));
                }
            }
        }
        let ghost c = client;
        let mut clients: Vec<(String, DockerClient)> = Vec::new();
        core::mem::swap(&mut clients, &mut self.clients);
        let ghost pre = clients@;
        clients.push((registry_container_key.to_owned(), client));
        core::mem::swap(&mut clients, &mut self.clients);
        proof {
            assert(forall|j: int| 0 <= j < pre.len() ==> self.clients@[j] == pre[j]);
            assert(self.clients@[pre.len() as int].0@ == registry_container_key@);
            assert(!mid.contains_key(registry_container_key@));
            assert forall|i: int, j: int|
                0 <= i < j < self.clients@.len() implies (#[trigger] self.clients@[i].0@) != (
            #[trigger] self.clients@[j].0@) by {
                if j == pre.len() as int {
                    if self.clients@[i].0@ == registry_container_key@ {
                        assert(pre[i].0@ == registry_container_key@);
                        assert(false);
                    }
                }
            }
            assert(self@ =~= mid.insert(registry_container_key@, c)) by {
                assert forall|q: Seq<char>| #![auto]
                    self@.contains_key(q) == mid.insert(registry_container_key@, c).contains_key(
                        q,
                    ) by {
                    if q == registry_container_key@ {
                        assert(self.clients@[pre.len() as int].0@ == q);
                    } else {
                        if exists|k: int|
                            0 <= k < self.clients@.len() && (#[trigger] self.clients@[k].0@)
                                == q {
                            let k = choose|k: int|
                                0 <= k < self.clients@.len() && (#[trigger] self.clients@[k].0@)
                                    == q;
                            assert(k < pre.len());
                            assert(pre[k].0@ == q);
                        }
                    }
                }
                assert forall|q: Seq<char>|
                    self@.contains_key(q) && mid.insert(registry_container_key@, c).contains_key(
                        q,
                    ) implies self@[q] == mid.insert(registry_container_key@, c)[q] by {
                    let k = choose|k: int|
                        0 <= k < self.clients@.len() && (#[trigger] self.clients@[k].0@) == q;
                    if q == registry_container_key@ {
                        assert(k == pre.len() as int);
                    } else {
                        assert(k < pre.len());
                        assert(pre[k].0@ == q);
                        let k2 = choose|k2: int| 0 <= k2 < pre.len() && (#[trigger] pre[k2].0@)
                            == q;
                        assert(k2 == k);
                    }
                }
            }
            assert(old(self)@.remove(registry_container_key@).insert(registry_container_key@, c)
                =~= old(self)@.insert(registry_container_key@, c));
        }
    }
}

} // verus!
