//! An in-process backend: a map from keys to bytes, with hierarchical
//! listing over its flat key space.
use crate::error::{Cause, ErrorKind, ObjectError, Operation};
use crate::metadata::{mode_of_key, AccessorMetadata, DirEntry, ObjectMetadata, ObjectMode, Scheme};
use crate::ops::{OpCreate, OpDelete, OpList, OpRead, OpStat, OpWrite};
use crate::text::{ends_with_slash, has_prefix, same_text, slash_at_end};
use vstd::prelude::*;
use vstd::slice::{slice_subrange, slice_to_vec};
use vstd::string::*;

verus! {

/// The prefix that listing a directory path matches keys against: the
/// root `/` lists from the empty prefix.
pub open spec fn list_prefix(p: Seq<char>) -> Seq<char> {
    if p == "/"@ {
        Seq::empty()
    } else {
        p
    }
}

/// Whether `k` is an immediate child of the prefix `p`: it extends `p`,
/// and holds no slash after `p` but possibly as its last character.
pub open spec fn is_child(p: Seq<char>, k: Seq<char>) -> bool {
    &&& p.len() < k.len()
    &&& k.subrange(0, p.len() as int) == p
    &&& forall|j: int| p.len() <= j < k.len() - 1 ==> k[j] != '/'
}

/// The outcome of reading the window `offset`, `size` of `data`: the
/// offset must lie inside the data, the size must not reach past its end.
pub open spec fn read_window(data: Seq<u8>, offset: Option<u64>, size: Option<u64>) -> Result<
    Seq<u8>,
    Cause,
> {
    let o: int = match offset {
        Some(o) => o as int,
        None => 0,
    };
    if offset is Some && o >= data.len() {
        Err(Cause::OffsetOutOfBound)
    } else {
        let rest = data.subrange(o, data.len() as int);
        match size {
            Some(s) => if s > rest.len() {
                Err(Cause::SizeOutOfBound)
            } else {
                Ok(rest.subrange(0, s as int))
            },
            None => Ok(rest),
        }
    }
}

/// Creating a file and then deleting it: right after `create` the key
/// holds zero bytes (so `stat` reports a file of length 0), and after
/// `delete` it is gone (so `stat` reports it missing).
pub proof fn lemma_create_then_delete(store: Map<Seq<char>, Seq<u8>>, p: Seq<char>)
    ensures
        store.insert(p, Seq::empty()).contains_key(p),
        store.insert(p, Seq::empty())[p].len() == 0,
        !store.insert(p, Seq::empty()).remove(p).contains_key(p),
{
}

/// A write of `b` under `p` followed by a read of the whole object gives `b`.
pub proof fn lemma_write_then_read(store: Map<Seq<char>, Seq<u8>>, p: Seq<char>, b: Seq<u8>)
    ensures
        store.insert(p, b).contains_key(p),
        read_window(store.insert(p, b)[p], None, None) == Ok::<Seq<u8>, Cause>(b),
{
    assert(b.subrange(0, b.len() as int) =~= b);
}

/// A window inside the data reads exactly those bytes.
pub proof fn lemma_read_in_range(b: Seq<u8>, o: u64, s: u64)
    requires
        o < b.len(),
        0 < s <= b.len() - o,
    ensures
        read_window(b, Some(o), Some(s)) == Ok::<Seq<u8>, Cause>(b.subrange(o as int, o + s)),
{
    assert(b.subrange(o as int, b.len() as int).subrange(0, s as int) =~= b.subrange(
        o as int,
        o + s,
    ));
}

/// A window that starts at or past the end, or reaches past it, fails
/// (and `read` reports such a failure with kind `Other`).
pub proof fn lemma_read_out_of_range(b: Seq<u8>, o: u64, s: u64)
    requires
        o >= b.len() || s > b.len() - o,
    ensures
        o >= b.len() ==> read_window(b, Some(o), Some(s)) == Err::<Seq<u8>, Cause>(
            Cause::OffsetOutOfBound,
        ),
        o < b.len() ==> read_window(b, Some(o), Some(s)) == Err::<Seq<u8>, Cause>(
            Cause::SizeOutOfBound,
        ),
{
}

/// Deleting a key that is not stored leaves the store as it was.
pub proof fn lemma_delete_absent(store: Map<Seq<char>, Seq<u8>>, p: Seq<char>)
    requires
        !store.contains_key(p),
    ensures
        store.remove(p) == store,
{
    assert(store.remove(p) =~= store);
}

/// Builder for the memory backend.
#[derive(Clone, Debug, Default)]
pub struct Builder {}

impl Builder {
    /// A new, empty memory backend.
    pub fn finish(&mut self) -> (r: Backend)
        ensures
            r.wf(),
            r@ == Map::<Seq<char>, Seq<u8>>::empty(),
    {
        Backend::new()
    }
}

#[derive(Clone, Debug)]
struct Entry {
    key: String,
    data: Vec<u8>,
}

/// The memory backend: each key is stored once, with its bytes.
#[derive(Clone, Debug)]
pub struct Backend {
    entries: Vec<Entry>,
}

impl View for Backend {
    type V = Map<Seq<char>, Seq<u8>>;

    closed spec fn view(&self) -> Map<Seq<char>, Seq<u8>> {
        Map::new(
            |k: Seq<char>| exists|i: int| 0 <= i < self.entries@.len() && self.entries@[i].key@ == k,
            |k: Seq<char>|
                self.entries@[choose|i: int|
                    0 <= i < self.entries@.len() && self.entries@[i].key@ == k].data@,
        )
    }
}

impl Backend {
    /// No key is stored twice.
    pub closed spec fn wf(&self) -> bool {
        forall|i: int, j: int|
            0 <= i < j < self.entries@.len() ==> self.entries@[i].key@ != self.entries@[j].key@
    }

    proof fn lemma_view_at(&self, i: int)
        requires
            self.wf(),
            0 <= i < self.entries@.len(),
        ensures
            self@.contains_key(self.entries@[i].key@),
            self@[self.entries@[i].key@] == self.entries@[i].data@,
    {
        let k = self.entries@[i].key@;
        assert(self@.contains_key(k));
        let j = choose|j: int| 0 <= j < self.entries@.len() && self.entries@[j].key@ == k;
        assert(j == i);
    }

    /// A memory backend that holds no key.
    pub fn new() -> (r: Backend)
        ensures
            r.wf(),
            r@ == Map::<Seq<char>, Seq<u8>>::empty(),
    {
        let r = Backend { entries: Vec::new() };
        assert(r@ =~= Map::<Seq<char>, Seq<u8>>::empty());
        r
    }

    /// A builder of memory backends.
    pub fn build() -> (r: Builder) {
        Builder {}
    }

    /// The memory backend's identity: scheme `memory`, root `/`, name `memory`.
    pub fn metadata(&self) -> (r: AccessorMetadata)
        ensures
            r.scheme == Scheme::Memory,
            r.root@ == "/"@,
            r.name@ == "memory"@,
    {
        AccessorMetadata {
            scheme: Scheme::Memory,
            root: String::from_str("/"),
            name: String::from_str("memory"),
        }
    }

    fn find(&self, key: &str) -> (r: Option<usize>)
        requires
            self.wf(),
        ensures
            match r {
                Some(i) => i < self.entries@.len() && self.entries@[i as int].key@ == key@,
                None => !self@.contains_key(key@),
            },
    {
        let mut i: usize = 0;
        while i < self.entries.len()
            invariant
                i <= self.entries@.len(),
                forall|j: int| 0 <= j < i ==> self.entries@[j].key@ != key@,
            decreases self.entries@.len() - i,
        {
            if same_text(self.entries[i].key.as_str(), key) {
                return Some(i);
            }
            i = i + 1;
        }
        None
    }

    /// Stores `data` under `key`, replacing what was there.
    fn put(&mut self, key: &str, data: Vec<u8>)
        requires
            old(self).wf(),
        ensures
            final(self).wf(),
            final(self)@ == old(self)@.insert(key@, data@),
    {
        let ghost before = *self;
        match self.find(key) {
            Some(i) => {
                self.entries.set(i, Entry { key: key.to_owned(), data });
                proof {
                    assert forall|k: Seq<char>| #[trigger]
                        self@.contains_key(k) == before@.insert(key@, data@).contains_key(k) by {
                        if before@.contains_key(k) {
                            let t = choose|t: int|
                                0 <= t < before.entries@.len() && before.entries@[t].key@ == k;
                            assert(self.entries@[t].key@ == k);
                        }
                        if self@.contains_key(k) {
                            let t = choose|t: int|
                                0 <= t < self.entries@.len() && self.entries@[t].key@ == k;
                            if t != i {
                                assert(before.entries@[t].key@ == k);
                            }
                        }
                    }
                    assert forall|k: Seq<char>| #[trigger] self@.contains_key(k) implies self@[k]
                        == before@.insert(key@, data@)[k] by {
                        let t = choose|t: int|
                            0 <= t < self.entries@.len() && self.entries@[t].key@ == k;
                        self.lemma_view_at(t);
                        if t != i {
                            before.lemma_view_at(t);
                        }
                    }
                    assert(self@ =~= before@.insert(key@, data@));
                }
            },
            None => {
                self.entries.push(Entry { key: key.to_owned(), data });
                proof {
                    let n = before.entries@.len() as int;
                    assert forall|k: Seq<char>| #[trigger]
                        self@.contains_key(k) == before@.insert(key@, data@).contains_key(k) by {
                        if before@.contains_key(k) {
                            let t = choose|t: int|
                                0 <= t < before.entries@.len() && before.entries@[t].key@ == k;
                            assert(self.entries@[t].key@ == k);
                        }
                        if k == key@ {
                            assert(self.entries@[n].key@ == k);
                        }
                        if self@.contains_key(k) {
                            let t = choose|t: int|
                                0 <= t < self.entries@.len() && self.entries@[t].key@ == k;
                            if t != n {
                                assert(before.entries@[t].key@ == k);
                            }
                        }
                    }
                    assert forall|k: Seq<char>| #[trigger] self@.contains_key(k) implies self@[k]
                        == before@.insert(key@, data@)[k] by {
                        let t = choose|t: int|
                            0 <= t < self.entries@.len() && self.entries@[t].key@ == k;
                        self.lemma_view_at(t);
                        if t != n {
                            before.lemma_view_at(t);
                        }
                    }
                    assert(self@ =~= before@.insert(key@, data@));
                }
            },
        }
    }

    /// Removes `key` if it is stored.
    fn remove_key(&mut self, key: &str)
        requires
            old(self).wf(),
        ensures
            final(self).wf(),
            final(self)@ == old(self)@.remove(key@),
    {
        let ghost before = *self;
        match self.find(key) {
            Some(i) => {
                self.entries.remove(i);
                proof {
                    let ii = i as int;
                    assert forall|t: int| 0 <= t < self.entries@.len() implies #[trigger]
                        self.entries@[t] == before.entries@[if t < ii { t } else { t + 1 }] by {}
                    assert forall|k: Seq<char>| #[trigger]
                        self@.contains_key(k) == before@.remove(key@).contains_key(k) by {
                        if before@.contains_key(k) && k != key@ {
                            let t = choose|t: int|
                                0 <= t < before.entries@.len() && before.entries@[t].key@ == k;
                            assert(t != ii);
                            if t < ii {
                                assert(self.entries@[t].key@ == k);
                            } else {
                                assert(self.entries@[t - 1].key@ == k);
                            }
                        }
                        if self@.contains_key(k) {
                            let t = choose|t: int|
                                0 <= t < self.entries@.len() && self.entries@[t].key@ == k;
                            let u = if t < ii { t } else { t + 1 };
                            assert(before.entries@[u].key@ == k);
                            assert(u != ii);
                        }
                    }
                    assert forall|k: Seq<char>| #[trigger] self@.contains_key(k) implies self@[k]
                        == before@.remove(key@)[k] by {
                        let t = choose|t: int|
                            0 <= t < self.entries@.len() && self.entries@[t].key@ == k;
                        self.lemma_view_at(t);
                        before.lemma_view_at(if t < ii { t } else { t + 1 });
                    }
                    assert(self@ =~= before@.remove(key@));
                }
            },
            None => {
                assert(self@ =~= before@.remove(key@));
            },
        }
    }

    /// Creates an empty object at the path as given; the path's form tells
    /// a directory from a file.
    pub fn create(&mut self, args: &OpCreate) -> (r: Result<(), ObjectError>)
        requires
            old(self).wf(),
        ensures
            final(self).wf(),
            r is Ok,
            final(self)@ == old(self)@.insert(args.path@, Seq::<u8>::empty()),
    {
        self.put(args.path.as_str(), Vec::new());
        Ok(())
    }

    /// The bytes of the requested window of an object.
    pub fn read(&self, args: &OpRead) -> (r: Result<Vec<u8>, ObjectError>)
        requires
            self.wf(),
        ensures
            !self@.contains_key(args.path@) ==> (r matches Err(e) && e.spec_is(
                ErrorKind::NotFound,
                Operation::Read,
                args.path@,
                Cause::KeyMissing,
            )),
            self@.contains_key(args.path@) ==> match read_window(
                self@[args.path@],
                args.offset,
                args.size,
            ) {
                Ok(w) => r matches Ok(v) && v@ == w,
                Err(c) => r matches Err(e) && e.spec_is(ErrorKind::Other, Operation::Read, args.path@, c),
            },
    {
        let path = args.path.as_str();
        let i = match self.find(path) {
            Some(i) => i,
            None => {
                return Err(ObjectError::new(ErrorKind::NotFound, Operation::Read, path, Cause::KeyMissing));
            },
        };
        proof {
            self.lemma_view_at(i as int);
        }
        let data = self.entries[i].data.as_slice();
        let n = data.len();
        let mut start: usize = 0;
        if let Some(offset) = args.offset {
            if offset >= n as u64 {
                return Err(
                    ObjectError::new(ErrorKind::Other, Operation::Read, path, Cause::OffsetOutOfBound),
                );
            }
            start = offset as usize;
        }
        let mut end: usize = n;
        if let Some(size) = args.size {
            if size > (n - start) as u64 {
                return Err(
                    ObjectError::new(ErrorKind::Other, Operation::Read, path, Cause::SizeOutOfBound),
                );
            }
            end = start + size as usize;
        }
        let out = slice_to_vec(slice_subrange(data, start, end));
        proof {
            let d = self@[args.path@];
            let rest = d.subrange(start as int, n as int);
            if let Some(s) = args.size {
                assert(out@ =~= rest.subrange(0, s as int));
            } else {
                assert(out@ =~= rest);
            }
        }
        Ok(out)
    }

    /// A writer that commits exactly `args.size` bytes at the path on close.
    pub fn write(&self, args: &OpWrite) -> (r: MapWriter)
        ensures
            r.path()@ == args.path@,
            r.size() == args.size,
            r.buffered() == Seq::<u8>::empty(),
    {
        MapWriter { path: args.path.clone(), size: args.size, buf: Vec::new() }
    }

    /// Metadata of an object: a path that ends with a slash is a directory
    /// and needs no lookup; a file reports its length.
    pub fn stat(&self, args: &OpStat) -> (r: Result<ObjectMetadata, ObjectError>)
        requires
            self.wf(),
        ensures
            ends_with_slash(args.path@) ==> (r matches Ok(m) && m.is_bare(ObjectMode::DIR)),
            !ends_with_slash(args.path@) && !self@.contains_key(args.path@) ==> (r matches Err(e)
                && e.spec_is(ErrorKind::NotFound, Operation::Stat, args.path@, Cause::KeyMissing)),
            !ends_with_slash(args.path@) && self@.contains_key(args.path@) ==> (r matches Ok(m)
                && m.mode == ObjectMode::FILE && m.content_length == Some(
                self@[args.path@].len() as u64,
            ) && m.etag is None && m.content_md5 is None && m.last_modified is None),
    {
        let path = args.path.as_str();
        if slash_at_end(path) {
            return Ok(ObjectMetadata::new(ObjectMode::DIR));
        }
        match self.find(path) {
            None => Err(ObjectError::new(ErrorKind::NotFound, Operation::Stat, path, Cause::KeyMissing)),
            Some(i) => {
                proof {
                    self.lemma_view_at(i as int);
                }
                let mut m = ObjectMetadata::new(ObjectMode::FILE);
                m.content_length = Some(self.entries[i].data.len() as u64);
                Ok(m)
            },
        }
    }

    /// Removes an object; a missing key is no error.
    pub fn delete(&mut self, args: &OpDelete) -> (r: Result<(), ObjectError>)
        requires
            old(self).wf(),
        ensures
            final(self).wf(),
            r is Ok,
            final(self)@ == old(self)@.remove(args.path@),
    {
        self.remove_key(args.path.as_str());
        Ok(())
    }
}

/// Whether `k` is an immediate child of the prefix `p`.
fn child_of(p: &str, k: &str) -> (r: bool)
    ensures
        r == is_child(p@, k@),
{
    let m = p.unicode_len();
    let n = k.unicode_len();
    if m >= n || !has_prefix(k, p) {
        return false;
    }
    let mut j: usize = m;
    while j + 1 < n
        invariant
            m == p@.len(),
            n == k@.len(),
            m <= j,
            j < n,
            forall|t: int| m <= t < j ==> k@[t] != '/',
        decreases n - j,
    {
        if k.get_char(j) == '/' {
            return false;
        }
        j = j + 1;
    }
    true
}

impl Backend {
    /// The immediate children of a directory path, each once; `/` lists
    /// the whole store's top level. Keys are matched as given: a path
    /// without a trailing slash, such as `a`, also lists the placeholder
    /// `a/` when it is stored, and a directory is listed only when its
    /// placeholder key is stored.
    pub fn list(&self, args: &OpList) -> (r: DirStream)
        requires
            self.wf(),
        ensures
            r.wf(),
            forall|i: int, j: int| 0 <= i < j < r@.len() ==> r@[i].0 != r@[j].0,
            forall|i: int|
                0 <= i < r@.len() ==> {
                    &&& self@.contains_key(#[trigger] r@[i].0)
                    &&& is_child(list_prefix(args.path@), r@[i].0)
                    &&& r@[i].1 == mode_of_key(r@[i].0)
                },
            forall|k: Seq<char>|
                self@.contains_key(k) && is_child(list_prefix(args.path@), k) ==> exists|i: int|
                    0 <= i < r@.len() && #[trigger] r@[i].0 == k,
    {
        proof {
            reveal_strlit("/");
        }
        let prefix: &str = if same_text(args.path.as_str(), "/") {
            ""
        } else {
            args.path.as_str()
        };
        proof {
            reveal_strlit("");
        }
        assert(prefix@ == list_prefix(args.path@));
        let mut out: Vec<DirEntry> = Vec::new();
        let ghost mut src: Seq<int> = Seq::empty();
        let mut i: usize = 0;
        while i < self.entries.len()
            invariant
                self.wf(),
                prefix@ == list_prefix(args.path@),
                i <= self.entries@.len(),
                src.len() == out@.len(),
                forall|a: int| 0 <= a < src.len() ==> 0 <= #[trigger] src[a] < i,
                forall|a: int, b: int| 0 <= a < b < src.len() ==> #[trigger] src[a] < #[trigger] src[b],
                forall|a: int|
                    0 <= a < out@.len() ==> {
                        &&& #[trigger] out@[a].path@ == self.entries@[src[a]].key@
                        &&& is_child(prefix@, out@[a].path@)
                        &&& out@[a].mode == mode_of_key(out@[a].path@)
                    },
                forall|t: int|
                    0 <= t < i && is_child(prefix@, #[trigger] self.entries@[t].key@) ==> exists|
                        a: int,
                    | 0 <= a < src.len() && src[a] == t,
            decreases self.entries@.len() - i,
        {
            let key = self.entries[i].key.as_str();
            let ghost src0 = src;
            if child_of(prefix, key) {
                out.push(DirEntry::from_key(key));
                proof {
                    src = src.push(i as int);
                }
            }
            proof {
                assert forall|t: int|
                    0 <= t < i + 1 && is_child(prefix@, #[trigger] self.entries@[t].key@) implies exists|
                        a: int,
                    | 0 <= a < src.len() && src[a] == t by {
                    if t < i {
                        let a = choose|a: int| 0 <= a < src0.len() && src0[a] == t;
                        assert(src[a] == t);
                    } else {
                        assert(src[src.len() - 1] == t);
                    }
                }
            }
            i = i + 1;
        }
        let r = DirStream { entries: out, idx: 0 };
        proof {
            assert(r.entries@.subrange(0, r.entries@.len() as int) =~= r.entries@);
            assert forall|a: int| 0 <= a < r@.len() implies self@.contains_key(#[trigger] r@[a].0) by {
                self.lemma_view_at(src[a]);
            }
            assert forall|a: int, b: int| 0 <= a < b < r@.len() implies r@[a].0 != r@[b].0 by {
                assert(src[a] < src[b]);
            }
            assert forall|k: Seq<char>|
                self@.contains_key(k) && is_child(list_prefix(args.path@), k) implies exists|a: int|
                    0 <= a < r@.len() && #[trigger] r@[a].0 == k by {
                let t = choose|t: int| 0 <= t < self.entries@.len() && self.entries@[t].key@ == k;
                assert(is_child(prefix@, self.entries@[t].key@));
                let a = choose|a: int| 0 <= a < src.len() && src[a] == t;
                assert(r@[a].0 == k);
            }
        }
        r
    }
}

/// The entries of one listing, handed out one at a time.
#[derive(Debug)]
pub struct DirStream {
    entries: Vec<DirEntry>,
    idx: usize,
}

impl View for DirStream {
    /// The entries not yet handed out, as path and mode.
    type V = Seq<(Seq<char>, ObjectMode)>;

    closed spec fn view(&self) -> Seq<(Seq<char>, ObjectMode)> {
        self.entries@.subrange(self.idx as int, self.entries@.len() as int).map_values(
            |e: DirEntry| (e.path@, e.mode),
        )
    }
}

impl DirStream {
    /// The position lies within the entries, and each entry's mode is the
    /// one its path's form tells.
    pub closed spec fn wf(&self) -> bool {
        &&& self.idx <= self.entries@.len()
        &&& forall|i: int|
            0 <= i < self.entries@.len() ==> (#[trigger] self.entries@[i]).mode == mode_of_key(
                self.entries@[i].path@,
            )
    }

    /// The next entry, or `None` once all have been handed out.
    pub fn next(&mut self) -> (r: Option<DirEntry>)
        requires
            old(self).wf(),
        ensures
            final(self).wf(),
            old(self)@.len() == 0 ==> r is None && final(self)@ == old(self)@,
            old(self)@.len() > 0 ==> (r matches Some(e) && (e.path@, e.mode) == old(self)@[0]),
            r matches Some(e) ==> e.mode == mode_of_key(e.path@),
            old(self)@.len() > 0 ==> final(self)@ == old(self)@.drop_first(),
    {
        if self.idx >= self.entries.len() {
            return None;
        }
        let cur = &self.entries[self.idx];
        let e = DirEntry { mode: cur.mode, path: cur.path.clone() };
        self.idx = self.idx + 1;
        assert(self@ =~= old(self)@.drop_first());
        Some(e)
    }
}

/// A writer that buffers bytes and commits them to a memory backend on close.
#[derive(Debug)]
pub struct MapWriter {
    path: String,
    size: u64,
    buf: Vec<u8>,
}

impl MapWriter {
    pub closed spec fn path(&self) -> String {
        self.path
    }

    pub closed spec fn size(&self) -> u64 {
        self.size
    }

    pub closed spec fn buffered(&self) -> Seq<u8> {
        self.buf@
    }

    /// Buffers `chunk` and reports it written in full.
    pub fn write(&mut self, chunk: &[u8]) -> (r: usize)
        ensures
            r == chunk@.len(),
            final(self).path() == old(self).path(),
            final(self).size() == old(self).size(),
            final(self).buffered() == old(self).buffered() + chunk@,
    {
        self.buf.extend_from_slice(chunk);
        assert(self.buf@ =~= old(self).buf@ + chunk@);
        chunk.len()
    }

    /// Commits the buffer at the writer's path when it holds exactly the
    /// declared number of bytes; otherwise fails and leaves the store as it was.
    pub fn close(self, backend: &mut Backend) -> (r: Result<(), ObjectError>)
        requires
            old(backend).wf(),
        ensures
            final(backend).wf(),
            self.buffered().len() == self.size() ==> r is Ok && final(backend)@ == old(
                backend,
            )@.insert(self.path()@, self.buffered()),
            self.buffered().len() != self.size() ==> (r matches Err(e) && e.spec_is(
                ErrorKind::Other,
                Operation::Write,
                self.path()@,
                Cause::ShortWrite,
            )),
            self.buffered().len() != self.size() ==> final(backend)@ == old(backend)@,
    {
        if self.buf.len() as u64 != self.size {
            return Err(
                ObjectError::new(ErrorKind::Other, Operation::Write, self.path.as_str(), Cause::ShortWrite),
            );
        }
        backend.put(self.path.as_str(), self.buf);
        Ok(())
    }
}

} // verus!
