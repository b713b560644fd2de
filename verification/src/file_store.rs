//! The storage model: a table of files keyed by path.
//!
//! The registry's verified logic reads and writes this table; its view
//! is a map from path to file content, and every operation states its
//! exact effect on that map. Renaming is atomic here by construction:
//! a path either holds a complete file or nothing.

use vstd::prelude::*;
use crate::helpers::{str_eq, copy_bytes, push_all};

verus! {

struct FileEntry {
    path: String,
    data: Vec<u8>,
}

/// A flat table of complete files keyed by their path string.
pub struct FileStore {
    files: Vec<FileEntry>,
}

impl View for FileStore {
    type V = Map<Seq<char>, Seq<u8>>;

    closed spec fn view(&self) -> Map<Seq<char>, Seq<u8>> {
        Map::new(
            |p: Seq<char>|
                exists|i: int|
                    0 <= i < self.files@.len() && (#[trigger] self.files@[i].path@) == p,
            |p: Seq<char>|
                {
                    let i = choose|i: int|
                        0 <= i < self.files@.len() && (#[trigger] self.files@[i].path@) == p;
                    self.files@[i].data@
                },
        )
    }
}

impl FileStore {
    #[verifier::type_invariant]
    closed spec fn wf(&self) -> bool {
        forall|i: int, j: int|
            0 <= i < j < self.files@.len() ==> (#[trigger] self.files@[i].path@) != (
            #[trigger] self.files@[j].path@)
    }

    /// An empty store.
    pub fn new() -> (r: Self)
        ensures
            r@ == Map::<Seq<char>, Seq<u8>>::empty(),
    {
        let r = FileStore { files: Vec::new() };
        proof {
            assert(r@ =~= Map::<Seq<char>, Seq<u8>>::empty());
        }
        r
    }

    fn find(&self, path: &str) -> (r: Option<usize>)
        ensures
            match r {
                Some(i) => i < self.files@.len() && self.files@[i as int].path@ == path@,
                None => forall|i: int|
                    0 <= i < self.files@.len() ==> (#[trigger] self.files@[i].path@) != path@,
            },
    {
        let len: usize = self.files.len();
        let mut i: usize = 0;
        while i < len
            invariant
                len == self.files@.len(),
                i <= len,
                forall|j: int| 0 <= j < i ==> (#[trigger] self.files@[j].path@) != path@,
            decreases len - i,
        {
            if str_eq(self.files[i].path.as_str(), path) {
                return Some(i);
            }
            i = i + 1;
        }
        None
    }

    /// Whether a complete file exists at this path.
    pub fn is_file(&self, path: &str) -> (r: bool)
        ensures
            r == self@.contains_key(path@),
    {
        match self.find(path) {
            Some(_) => true,
            None => false,
        }
    }

    /// The content stored at this path, if any.
    pub fn read(&self, path: &str) -> (r: Option<&Vec<u8>>)
        ensures
            match r {
                Some(d) => self@.contains_key(path@) && d@ == self@[path@],
                None => !self@.contains_key(path@),
            },
    {
        proof {
            use_type_invariant(&*self);
        }
        match self.find(path) {
            Some(i) => {
                let d = &self.files[i].data;
                proof {
                    let k = choose|k: int|
                        0 <= k < self.files@.len() && (#[trigger] self.files@[k].path@) == path@;
                    assert(k == i as int);
                }
                Some(d)
            },
            None => None,
        }
    }

    /// An owned copy of the content stored at this path, if any.
    pub fn read_copy(&self, path: &str) -> (r: Option<Vec<u8>>)
        ensures
            match r {
                Some(d) => self@.contains_key(path@) && d@ == self@[path@],
                None => !self@.contains_key(path@),
            },
    {
        match self.read(path) {
            Some(d) => Some(copy_bytes(d.as_slice())),
            None => None,
        }
    }

    /// The size of the file at this path, if any.
    pub fn file_size(&self, path: &str) -> (r: Option<usize>)
        ensures
            match r {
                Some(n) => self@.contains_key(path@) && n == self@[path@].len(),
                None => !self@.contains_key(path@),
            },
    {
        match self.read(path) {
            Some(d) => Some(d.len()),
            None => None,
        }
    }

    fn remove_entry(&mut self, path: &str)
        ensures
            final(self)@ == old(self)@.remove(path@),
    {
        proof {
            use_type_invariant(&*self);
        }
        let found = self.find(path);
        let mut files: Vec<FileEntry> = Vec::new();
        core::mem::swap(&mut files, &mut self.files);
        match found {
            Some(i) => {
                let ghost pre = files@;
                files.remove(i);
                core::mem::swap(&mut files, &mut self.files);
                proof {
                    assert(forall|j: int| 0 <= j < i ==> self.files@[j] == pre[j]);
                    assert(forall|j: int|
                        i <= j < self.files@.len() ==> self.files@[j] == pre[j + 1]);
                    assert(self@ =~= old(self)@.remove(path@)) by {
                        assert forall|p: Seq<char>| #![auto]
                            self@.contains_key(p) == old(self)@.remove(path@).contains_key(
                                p,
                            ) by {
                            if p == path@ {
                                if exists|k: int|
                                    0 <= k < self.files@.len() && (#[trigger] self.files@[k].path@)
                                        == p {
                                    let k = choose|k: int|
                                        0 <= k < self.files@.len() && (
                                        #[trigger] self.files@[k].path@) == p;
                                    if k < i {
                                        assert(pre[k].path@ == p);
                                    } else {
                                        assert(pre[k + 1].path@ == p);
                                    }
                                    assert(false);
                                }
                            } else {
                                if exists|k: int|
                                    0 <= k < pre.len() && (#[trigger] pre[k].path@) == p {
                                    let k = choose|k: int|
                                        0 <= k < pre.len() && (#[trigger] pre[k].path@) == p;
                                    assert(k != i);
                                    if k < i {
                                        assert(self.files@[k].path@ == p);
                                    } else {
                                        assert(self.files@[k - 1].path@ == p);
                                    }
                                }
                                if exists|k: int|
                                    0 <= k < self.files@.len() && (#[trigger] self.files@[k].path@)
                                        == p {
                                    let k = choose|k: int|
                                        0 <= k < self.files@.len() && (
                                        #[trigger] self.files@[k].path@) == p;
                                    if k < i {
                                        assert(pre[k].path@ == p);
                                    } else {
                                        assert(pre[k + 1].path@ == p);
                                    }
                                }
                            }
                        }
                        assert forall|p: Seq<char>|
                            self@.contains_key(p) && old(self)@.remove(path@).contains_key(
                                p,
                            ) implies self@[p] == old(self)@.remove(path@)[p] by {
                            let k = choose|k: int|
                                0 <= k < self.files@.len() && (#[trigger] self.files@[k].path@)
                                    == p;
                            let k2 = choose|k2: int|
                                0 <= k2 < pre.len() && (#[trigger] pre[k2].path@) == p;
                            if k < i {
                                assert(pre[k].path@ == p);
                                assert(k2 == k);
                            } else {
                                assert(pre[k + 1].path@ == p);
                                assert(k2 == k + 1);
                            }
                        }
                    }
                }
            },
            None => {
                core::mem::swap(&mut files, &mut self.files);
                proof {
                    assert(self@ =~= old(self)@.remove(path@)) by {
                        assert(!self@.contains_key(path@));
                    }
                }
            },
        }
    }

    fn push_entry(&mut self, path: &str, data: Vec<u8>)
        requires
            !old(self)@.contains_key(path@),
        ensures
            final(self)@ == old(self)@.insert(path@, data@),
    {
        proof {
            use_type_invariant(&*self);
        }
        let mut files: Vec<FileEntry> = Vec::new();
        core::mem::swap(&mut files, &mut self.files);
        let ghost pre = files@;
        let entry = FileEntry { path: path.to_owned(), data };
        let ghost d = entry.data@;
        files.push(entry);
        core::mem::swap(&mut files, &mut self.files);
        proof {
            assert(forall|j: int| 0 <= j < pre.len() ==> self.files@[j] == pre[j]);
            assert(self.files@[pre.len() as int].path@ == path@);
            assert forall|i: int, j: int|
                0 <= i < j < self.files@.len() implies (#[trigger] self.files@[i].path@) != (
            #[trigger] self.files@[j].path@) by {
                if j == pre.len() as int {
                    if self.files@[i].path@ == path@ {
                        assert(pre[i].path@ == path@);
                        assert(false);
                    }
                }
            }
            assert(self@ =~= old(self)@.insert(path@, d)) by {
                assert forall|p: Seq<char>| #![auto]
                    self@.contains_key(p) == old(self)@.insert(path@, d).contains_key(p) by {
                    if p == path@ {
                        assert(self.files@[pre.len() as int].path@ == p);
                    } else {
                        if exists|k: int|
                            0 <= k < self.files@.len() && (#[trigger] self.files@[k].path@) == p {
                            let k = choose|k: int|
                                0 <= k < self.files@.len() && (#[trigger] self.files@[k].path@)
                                    == p;
                            assert(k < pre.len());
                            assert(pre[k].path@ == p);
                        }
                    }
                }
                assert forall|p: Seq<char>|
                    self@.contains_key(p) && old(self)@.insert(path@, d).contains_key(
                        p,
                    ) implies self@[p] == old(self)@.insert(path@, d)[p] by {
                    let k = choose|k: int|
                        0 <= k < self.files@.len() && (#[trigger] self.files@[k].path@) == p;
                    if p == path@ {
                        assert(k == pre.len() as int);
                    } else {
                        assert(k < pre.len());
                        assert(pre[k].path@ == p);
                        let k2 = choose|k2: int| 0 <= k2 < pre.len() && (#[trigger] pre[k2].path@)
                            == p;
                        assert(k2 == k);
                    }
                }
            }
        }
    }

    /// Creates or replaces the file at this path with the given content.
    pub fn write(&mut self, path: &str, data: Vec<u8>)
        ensures
            final(self)@ == old(self)@.insert(path@, data@),
    {
        self.remove_entry(path);
        self.push_entry(path, data);
        proof {
            assert(old(self)@.remove(path@).insert(path@, data@) =~= old(self)@.insert(
                path@,
                data@,
            ));
        }
    }

    /// Deletes the file at this path; absent paths are left as they are.
    pub fn remove_file(&mut self, path: &str)
        ensures
            final(self)@ == old(self)@.remove(path@),
    {
        self.remove_entry(path);
    }

    /// Appends bytes to the file at this path, creating it when absent;
    /// the resulting size is returned. Appending never truncates.
    pub fn append_file(&mut self, path: &str, data: &[u8]) -> (r: usize)
        requires
            (if old(self)@.contains_key(path@) {
                old(self)@[path@].len()
            } else {
                0
            }) + data@.len() <= usize::MAX,
        ensures
            ({
                let prev = if old(self)@.contains_key(path@) {
                    old(self)@[path@]
                } else {
                    Seq::<u8>::empty()
                };
                &&& final(self)@ == old(self)@.insert(path@, prev + data@)
                &&& r == prev.len() + data@.len()
            }),
    {
        let prev: Option<Vec<u8>> = self.read_copy(path);
        match prev {
            Some(mut content) => {
                push_all(&mut content, data);
                let n = content.len();
                self.write(path, content);
                n
            },
            None => {
                let content = copy_bytes(data);
                let n = content.len();
                self.write(path, content);
                proof {
                    assert(Seq::<u8>::empty() + data@ =~= data@);
                }
                n
            },
        }
    }

    /// Atomically moves the file at `from` to `to`; fails, changing
    /// nothing, when `from` holds no file.
    pub fn rename_file(&mut self, from: &str, to: &str) -> (r: Result<(), ()>)
        ensures
            match r {
                Ok(_) => old(self)@.contains_key(from@) && final(self)@ == old(self)@.remove(
                    from@,
                ).insert(to@, old(self)@[from@]),
                Err(_) => !old(self)@.contains_key(from@) && final(self)@ == old(self)@,
            },
    {
        match self.read_copy(from) {
            Some(d) => {
                self.remove_entry(from);
                self.write(to, d);
                proof {
                    assert(old(self)@.remove(from@).insert(to@, old(self)@[from@]) =~= self@);
                }
                Ok(())
            },
            None => Err(()),
        }
    }

    /// Copies the file at `from` to `to`; fails, changing nothing, when
    /// `from` holds no file.
    pub fn copy_file(&mut self, from: &str, to: &str) -> (r: Result<(), ()>)
        ensures
            match r {
                Ok(_) => old(self)@.contains_key(from@) && final(self)@ == old(self)@.insert(
                    to@,
                    old(self)@[from@],
                ),
                Err(_) => !old(self)@.contains_key(from@) && final(self)@ == old(self)@,
            },
    {
        match self.read_copy(from) {
            Some(d) => {
                self.write(to, d);
                Ok(())
            },
            None => Err(()),
        }
    }
}

} // verus!
