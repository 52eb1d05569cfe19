use vstd::prelude::*;

use crate::config::StorageType;
use crate::utils::{basename_of, joined, path_basename};

pub mod local;
pub mod webdav;

pub use local::LocalStorage;
pub use webdav::WebdavStorage;

verus! {

/// One file that the hub asks this node to host. Files are identified by
/// `hash`: two descriptors with one hash stand for the same content.
#[derive(Clone, Debug)]
pub struct BMCLAPIFile {
    pub path: String,
    pub hash: String,
    pub size: usize,
    pub mtime: u64,
}

impl BMCLAPIFile {
    /// A copy with equal fields.
    pub fn duplicate(&self) -> (r: BMCLAPIFile)
        ensures
            r == *self,
    {
        BMCLAPIFile {
            path: self.path.clone(),
            hash: self.hash.clone(),
            size: self.size,
            mtime: self.mtime,
        }
    }
}

/// A file that a backend listing reported: where it lies and its byte size.
#[derive(Clone, Debug)]
pub struct RemoteFile {
    pub href: String,
    pub size: u64,
}

/// An entry of a shallow listing of the backend's base location.
#[derive(Clone, Debug)]
pub struct ListEntry {
    pub href: String,
    pub is_folder: bool,
}

/// One confirmed file: the hash it is known by, where it lies, its size.
pub struct IndexEntry {
    pub hash: String,
    pub path: String,
    pub size: usize,
}

/// The files confirmed present in a backend, keyed by content hash.
pub struct VerifiedIndex {
    entries: Vec<IndexEntry>,
    contents: Ghost<Map<Seq<char>, (Seq<char>, nat)>>,
}

impl View for VerifiedIndex {
    type V = Map<Seq<char>, (Seq<char>, nat)>;

    closed spec fn view(&self) -> Map<Seq<char>, (Seq<char>, nat)> {
        self.contents@
    }
}

impl VerifiedIndex {
    /// One entry per hash, and the entries are exactly the map's contents.
    pub closed spec fn wf(&self) -> bool {
        &&& forall|i: int, j: int|
            0 <= i < j < self.entries@.len() ==> self.entries@[i].hash@
                != self.entries@[j].hash@
        &&& forall|i: int|
            0 <= i < self.entries@.len() ==> #[trigger] self.contents@.contains_key(
                self.entries@[i].hash@,
            ) && self.contents@[self.entries@[i].hash@] == (
                self.entries@[i].path@,
                self.entries@[i].size as nat,
            )
        &&& forall|h: Seq<char>|
            #[trigger] self.contents@.contains_key(h) ==> exists|i: int|
                0 <= i < self.entries@.len() && self.entries@[i].hash@ == h
    }

    pub fn new() -> (r: VerifiedIndex)
        ensures
            r.wf(),
            r@ == Map::<Seq<char>, (Seq<char>, nat)>::empty(),
    {
        VerifiedIndex { entries: Vec::new(), contents: Ghost(Map::empty()) }
    }

    fn position(&self, hash: &String) -> (r: Option<usize>)
        requires
            self.wf(),
        ensures
            r matches Some(i) ==> i < self.entries@.len() && self.entries@[i as int].hash@
                == hash@,
            r is None ==> !self@.contains_key(hash@),
    {
        let mut i: usize = 0;
        while i < self.entries.len()
            invariant
                i <= self.entries@.len(),
                forall|k: int| 0 <= k < i ==> self.entries@[k].hash@ != hash@,
            decreases self.entries.len() - i,
        {
            if self.entries[i].hash == *hash {
                return Some(i);
            }
            i = i + 1;
        }
        None
    }

    /// Whether a file of this hash is confirmed.
    pub fn contains(&self, hash: &String) -> (r: bool)
        requires
            self.wf(),
        ensures
            r == self@.contains_key(hash@),
    {
        self.position(hash).is_some()
    }

    /// The confirmed size of the file of this hash, if any.
    pub fn size_of(&self, hash: &String) -> (r: Option<usize>)
        requires
            self.wf(),
        ensures
            r matches Some(s) ==> self@.contains_key(hash@) && self@[hash@].1 == s as nat,
            r is None ==> !self@.contains_key(hash@),
    {
        match self.position(hash) {
            Some(i) => {
                assert(self.contents@.contains_key(self.entries@[i as int].hash@));
                Some(self.entries[i].size)
            },
            None => None,
        }
    }

    /// Records (or replaces) the file of this hash.
    pub fn insert(&mut self, hash: String, path: String, size: usize)
        requires
            old(self).wf(),
        ensures
            final(self).wf(),
            final(self)@ == old(self)@.insert(hash@, (path@, size as nat)),
    {
        self.remove(&hash);
        let ghost before = self.entries@;
        let ghost m = self.contents@;
        self.entries.push(IndexEntry { hash, path, size });
        self.contents = Ghost(m.insert(hash@, (path@, size as nat)));
        proof {
            let n = self.entries@.len() - 1;
            assert(!m.contains_key(hash@));
            assert forall|a: int, b: int|
                0 <= a < b < self.entries@.len() implies self.entries@[a].hash@
                != self.entries@[b].hash@ by {
                assert(self.entries@[a] == before[a]);
                assert(m.contains_key(before[a].hash@));
                if b < n {
                    assert(self.entries@[b] == before[b]);
                }
            }
            assert forall|i: int| 0 <= i < self.entries@.len() implies #[trigger] self.contents@.contains_key(
                self.entries@[i].hash@,
            ) && self.contents@[self.entries@[i].hash@] == (
                self.entries@[i].path@,
                self.entries@[i].size as nat,
            ) by {
                if i < n {
                    assert(self.entries@[i] == before[i]);
                    assert(m.contains_key(before[i].hash@));
                }
            }
            assert forall|h: Seq<char>| #[trigger] self.contents@.contains_key(h) implies exists|
                i: int,
            | 0 <= i < self.entries@.len() && self.entries@[i].hash@ == h by {
                if h == hash@ {
                    assert(self.entries@[n].hash@ == h);
                } else {
                    assert(m.contains_key(h));
                    let i = choose|i: int| 0 <= i < before.len() && before[i].hash@ == h;
                    assert(self.entries@[i] == before[i]);
                }
            }
            assert(self.contents@ =~= old(self)@.insert(hash@, (path@, size as nat)));
        }
    }

    /// Forgets the file of this hash, if it was recorded.
    pub fn remove(&mut self, hash: &String)
        requires
            old(self).wf(),
        ensures
            final(self).wf(),
            final(self)@ == old(self)@.remove(hash@),
    {
        match self.position(hash) {
            None => {
                assert(self.contents@ =~= old(self)@.remove(hash@));
                assert(self.wf());
            },
            Some(i) => {
                let ghost before = self.entries@;
                let ghost m = self.contents@;
                self.entries.remove(i);
                self.contents = Ghost(m.remove(hash@));
                proof {
                    assert forall|a: int, b: int|
                        0 <= a < b < self.entries@.len() implies self.entries@[a].hash@
                        != self.entries@[b].hash@ by {
                        let a0 = if a < i { a } else { a + 1 };
                        let b0 = if b < i { b } else { b + 1 };
                        assert(self.entries@[a] == before[a0]);
                        assert(self.entries@[b] == before[b0]);
                        assert(a0 < b0);
                    }
                    assert forall|k: int| 0 <= k < self.entries@.len() implies #[trigger] self.contents@.contains_key(
                        self.entries@[k].hash@,
                    ) && self.contents@[self.entries@[k].hash@] == (
                        self.entries@[k].path@,
                        self.entries@[k].size as nat,
                    ) by {
                        let k0 = if k < i { k } else { k + 1 };
                        assert(self.entries@[k] == before[k0]);
                        assert(m.contains_key(before[k0].hash@));
                        assert(before[k0].hash@ != hash@);
                    }
                    assert forall|h: Seq<char>| #[trigger] self.contents@.contains_key(h) implies exists|
                        k: int,
                    | 0 <= k < self.entries@.len() && self.entries@[k].hash@ == h by {
                        assert(m.contains_key(h));
                        assert(h != hash@);
                        let k0 = choose|k0: int| 0 <= k0 < before.len() && before[k0].hash@ == h;
                        assert(k0 != i);
                        let k = if k0 < i { k0 } else { k0 - 1 };
                        assert(self.entries@[k] == before[k0]);
                    }
                    assert(self.wf());
                }
            },
        }
    }
}

/// The listed file `r` stands for the descriptor `d`: its name is `d`'s hash
/// and its size is `d`'s size.
pub open spec fn stands_for(r: RemoteFile, d: BMCLAPIFile) -> bool {
    basename_of(r.href@) == Some(d.hash@) && r.size as int == d.size as int
}

/// Some file of the listing stands for `d`.
pub open spec fn listed(d: BMCLAPIFile, l: Seq<RemoteFile>) -> bool {
    exists|i: int| 0 <= i < l.len() && stands_for(l[i], d)
}

/// `d` is neither confirmed in `v` nor found in the listing.
pub open spec fn is_missing(
    v: Map<Seq<char>, (Seq<char>, nat)>,
    d: BMCLAPIFile,
    l: Seq<RemoteFile>,
) -> bool {
    !v.contains_key(d.hash@) && !listed(d, l)
}

/// The descriptors of `m` that are missing, in the order of `m`.
pub open spec fn missing_files(
    v: Map<Seq<char>, (Seq<char>, nat)>,
    m: Seq<BMCLAPIFile>,
    l: Seq<RemoteFile>,
) -> Seq<BMCLAPIFile>
    decreases m.len(),
{
    if m.len() == 0 {
        Seq::empty()
    } else {
        let rest = missing_files(v, m.drop_last(), l);
        if is_missing(v, m.last(), l) {
            rest.push(m.last())
        } else {
            rest
        }
    }
}

/// `h` was not confirmed in `v`, and the listing holds a file that stands
/// for a descriptor of `m` with hash `h`.
pub open spec fn newly_confirmed(
    v: Map<Seq<char>, (Seq<char>, nat)>,
    m: Seq<BMCLAPIFile>,
    l: Seq<RemoteFile>,
    h: Seq<char>,
) -> bool {
    !v.contains_key(h) && exists|j: int| 0 <= j < m.len() && m[j].hash@ == h && listed(m[j], l)
}

/// The entry of `v` for `h` is a listed file that stands for a descriptor
/// of `m` with hash `h`: its location, and the size that both share.
pub open spec fn confirmed_by_listing(
    v: Map<Seq<char>, (Seq<char>, nat)>,
    h: Seq<char>,
    m: Seq<BMCLAPIFile>,
    l: Seq<RemoteFile>,
) -> bool {
    exists|i: int, j: int|
        0 <= i < l.len() && 0 <= j < m.len() && m[j].hash@ == h && stands_for(l[i], m[j]) && v[h]
            == (l[i].href@, m[j].size as nat)
}

/// Some descriptor of `m` has hash `h`.
pub open spec fn in_manifest(m: Seq<BMCLAPIFile>, h: Seq<char>) -> bool {
    exists|j: int| 0 <= j < m.len() && m[j].hash@ == h
}

/// The listed file has a name, and no descriptor of `m` has it as hash.
pub open spec fn is_unused(m: Seq<BMCLAPIFile>, r: RemoteFile) -> bool {
    match basename_of(r.href@) {
        Some(h) => !in_manifest(m, h),
        None => false,
    }
}

/// The locations of the unused files of the listing, in its order.
pub open spec fn unused_files(m: Seq<BMCLAPIFile>, l: Seq<RemoteFile>) -> Seq<Seq<char>>
    decreases l.len(),
{
    if l.len() == 0 {
        Seq::empty()
    } else {
        let rest = unused_files(m, l.drop_last());
        if is_unused(m, l.last()) {
            rest.push(l.last().href@)
        } else {
            rest
        }
    }
}

/// The names of the unused files of the listing.
pub open spec fn unused_names(m: Seq<BMCLAPIFile>, l: Seq<RemoteFile>) -> Set<Seq<char>> {
    Set::new(
        |h: Seq<char>|
            !in_manifest(m, h) && exists|i: int|
                0 <= i < l.len() && basename_of(l[i].href@) == Some(h),
    )
}

/// `o` holds the name `b` describes.
pub open spec fn name_is(o: Option<String>, b: Option<Seq<char>>) -> bool {
    match o {
        Some(n) => b == Some(n@),
        None => b is None,
    }
}

/// The names of the listed files, one for each.
fn basenames(l: &Vec<RemoteFile>) -> (r: Vec<Option<String>>)
    ensures
        r@.len() == l@.len(),
        forall|i: int| 0 <= i < l@.len() ==> name_is(#[trigger] r@[i], basename_of(l@[i].href@)),
{
    let mut r: Vec<Option<String>> = Vec::new();
    for i in 0..l.len()
        invariant
            r@.len() == i,
            forall|k: int| 0 <= k < i ==> name_is(#[trigger] r@[k], basename_of(l@[k].href@)),
    {
        r.push(path_basename(l[i].href.as_str()));
    }
    r
}

/// The first listed file that stands for `d`.
fn find_listed(d: &BMCLAPIFile, l: &Vec<RemoteFile>, names: &Vec<Option<String>>) -> (r: Option<
    usize,
>)
    requires
        names@.len() == l@.len(),
        forall|i: int| 0 <= i < l@.len() ==> name_is(#[trigger] names@[i], basename_of(l@[i].href@)),
    ensures
        r matches Some(i) ==> i < l@.len() && stands_for(l@[i as int], *d),
        r is None ==> !listed(*d, l@),
{
    let mut i: usize = 0;
    while i < l.len()
        invariant
            i <= l@.len(),
            names@.len() == l@.len(),
            forall|k: int| 0 <= k < l@.len() ==> name_is(#[trigger] names@[k], basename_of(l@[k].href@)),
            forall|k: int| 0 <= k < i ==> !stands_for(#[trigger] l@[k], *d),
        decreases l.len() - i,
    {
        let hit = match &names[i] {
            Some(n) => *n == d.hash && l[i].size == d.size as u64,
            None => false,
        };
        assert(name_is(names@[i as int], basename_of(l@[i as int].href@)));
        if hit {
            return Some(i);
        }
        i = i + 1;
    }
    None
}

/// Whether some descriptor of `m` has this hash.
fn manifest_has(m: &Vec<BMCLAPIFile>, h: &String) -> (r: bool)
    ensures
        r == in_manifest(m@, h@),
{
    let mut j: usize = 0;
    while j < m.len()
        invariant
            j <= m@.len(),
            forall|k: int| 0 <= k < j ==> m@[k].hash@ != h@,
        decreases m.len() - j,
    {
        if m[j].hash == *h {
            return true;
        }
        j = j + 1;
    }
    false
}

/// What a backend knows of its own contents: the files confirmed present,
/// and the hashes of the empty files it was handed.
pub struct StorageState {
    pub files: VerifiedIndex,
    pub empty_files: Vec<String>,
}

/// `h` is the hash of an empty file recorded in `empties`.
pub open spec fn is_empty_hash(empties: Seq<String>, h: Seq<char>) -> bool {
    exists|i: int| 0 <= i < empties.len() && empties[i]@ == h
}

/// The confirmed files widened with the empty ones (which have no location
/// and size zero): what a pass treats as present without looking.
pub open spec fn known_index(
    v: Map<Seq<char>, (Seq<char>, nat)>,
    empties: Seq<String>,
) -> Map<Seq<char>, (Seq<char>, nat)> {
    Map::new(
        |h: Seq<char>| v.contains_key(h) || is_empty_hash(empties, h),
        |h: Seq<char>|
            if v.contains_key(h) {
                v[h]
            } else {
                (Seq::empty(), 0nat)
            },
    )
}

impl StorageState {
    pub open spec fn wf(&self) -> bool {
        self.files.wf()
    }

    /// What this state treats as present without looking.
    pub open spec fn known(&self) -> Map<Seq<char>, (Seq<char>, nat)> {
        known_index(self.files@, self.empty_files@)
    }

    /// Whether an empty file of this hash was recorded.
    pub fn is_empty_file(&self, hash: &String) -> (r: bool)
        ensures
            r == is_empty_hash(self.empty_files@, hash@),
    {
        let mut i: usize = 0;
        while i < self.empty_files.len()
            invariant
                i <= self.empty_files@.len(),
                forall|k: int| 0 <= k < i ==> self.empty_files@[k]@ != hash@,
            decreases self.empty_files.len() - i,
        {
            if self.empty_files[i] == *hash {
                return true;
            }
            i = i + 1;
        }
        false
    }

    pub fn new() -> (r: StorageState)
        ensures
            r.wf(),
            r.files@ == Map::<Seq<char>, (Seq<char>, nat)>::empty(),
            r.empty_files@.len() == 0,
    {
        StorageState { files: VerifiedIndex::new(), empty_files: Vec::new() }
    }

    /// Decides whether content of `content_len` bytes for `file` must be
    /// stored. Empty content is never stored: its hash is recorded among the
    /// empty files instead.
    pub fn record_write(&mut self, content_len: usize, file: &BMCLAPIFile) -> (store: bool)
        requires
            old(self).wf(),
        ensures
            final(self).wf(),
            store == (content_len > 0),
            final(self).files@ == old(self).files@,
            content_len == 0 ==> final(self).empty_files@.len() == old(self).empty_files@.len() + 1
                && final(self).empty_files@.drop_last() == old(self).empty_files@
                && final(self).empty_files@.last()@ == file.hash@,
            content_len > 0 ==> final(self).empty_files@ == old(self).empty_files@,
    {
        if content_len == 0 {
            self.empty_files.push(file.hash.clone());
            false
        } else {
            true
        }
    }

    /// Records that `size` bytes of `file` were stored successfully.
    pub fn confirm_write(&mut self, file: &BMCLAPIFile, size: usize)
        requires
            old(self).wf(),
        ensures
            final(self).wf(),
            final(self).files@ == old(self).files@.insert(file.hash@, (file.path@, size as nat)),
            final(self).empty_files@ == old(self).empty_files@,
    {
        self.files.insert(file.hash.clone(), file.path.clone(), size);
    }

    /// Reconciles the manifest `files` with a complete listing of the
    /// backend. Descriptors already known (confirmed, or recorded as empty)
    /// are skipped; each other one that a listed file stands for becomes
    /// confirmed; the rest are returned.
    pub fn check_missing_files(&mut self, files: Vec<BMCLAPIFile>, listing: &Vec<RemoteFile>) -> (r:
        Vec<BMCLAPIFile>)
        requires
            old(self).wf(),
        ensures
            final(self).wf(),
            r@ == missing_files(old(self).known(), files@, listing@),
            final(self).empty_files@ == old(self).empty_files@,
            forall|h: Seq<char>|
                #[trigger] final(self).files@.contains_key(h) <==> (old(self).files@.contains_key(h)
                    || newly_confirmed(old(self).known(), files@, listing@, h)),
            forall|h: Seq<char>|
                #[trigger] final(self).known().contains_key(h) <==> (old(self).known().contains_key(h)
                    || newly_confirmed(old(self).known(), files@, listing@, h)),
            forall|h: Seq<char>|
                #[trigger] old(self).files@.contains_key(h) ==> final(self).files@[h] == old(self).files@[h],
            forall|h: Seq<char>|
                #[trigger] final(self).files@.contains_key(h) && !old(self).files@.contains_key(h)
                    ==> confirmed_by_listing(final(self).files@, h, files@, listing@),
    {
        let ghost v0 = self.files@;
        let ghost w = self.known();
        let ghost m = files@;
        let ghost l = listing@;
        let names = basenames(listing);
        let mut known: Vec<bool> = Vec::new();
        for j in 0..files.len()
            invariant
                self.files.wf(),
                self.files@ == v0,
                w == self.known(),
                m == files@,
                known@.len() == j,
                forall|k: int| 0 <= k < j ==> #[trigger] known@[k] == w.contains_key(m[k].hash@),
        {
            let hash = &files[j].hash;
            known.push(self.files.contains(hash) || self.is_empty_file(hash));
        }
        let mut r: Vec<BMCLAPIFile> = Vec::new();
        for j in 0..files.len()
            invariant
                self.files.wf(),
                m == files@,
                l == listing@,
                self.empty_files@ == old(self).empty_files@,
                v0 == old(self).files@,
                w == old(self).known(),
                names@.len() == l.len(),
                forall|i: int| 0 <= i < l.len() ==> name_is(#[trigger] names@[i], basename_of(l[i].href@)),
                known@.len() == m.len(),
                forall|k: int| 0 <= k < m.len() ==> #[trigger] known@[k] == w.contains_key(m[k].hash@),
                r@ == missing_files(w, m.subrange(0, j as int), l),
                forall|h: Seq<char>|
                    #[trigger] self.files@.contains_key(h) <==> (v0.contains_key(h)
                        || newly_confirmed(w, m.subrange(0, j as int), l, h)),
                forall|h: Seq<char>| #[trigger] v0.contains_key(h) ==> self.files@[h] == v0[h],
                forall|h: Seq<char>|
                    #[trigger] self.files@.contains_key(h) && !v0.contains_key(h)
                        ==> confirmed_by_listing(self.files@, h, m, l),
        {
            let ghost before = self.files@;
            let ghost mj = m.subrange(0, j as int);
            let ghost mj1 = m.subrange(0, j + 1);
            proof {
                assert(mj1.drop_last() =~= mj);
                assert(mj1.last() == m[j as int]);
            }
            let d = &files[j];
            if !known[j] {
                match find_listed(d, listing, &names) {
                    Some(i) => {
                        self.files.insert(d.hash.clone(), listing[i].href.clone(), d.size);
                        proof {
                            let hj = m[j as int].hash@;
                            assert(!is_missing(w, mj1.last(), l));
                            assert(newly_confirmed(w, mj1, l, hj)) by {
                                assert(mj1[j as int] == m[j as int]);
                            }
                            assert(confirmed_by_listing(self.files@, hj, m, l)) by {
                                assert(stands_for(l[i as int], m[j as int]));
                                assert(self.files@[hj] == (l[i as int].href@, m[j as int].size as nat));
                            }
                            assert forall|h: Seq<char>|
                                #[trigger] self.files@.contains_key(h) <==> (v0.contains_key(h)
                                    || newly_confirmed(w, mj1, l, h)) by {
                                if h != hj {
                                    if newly_confirmed(w, mj1, l, h) {
                                        let k = choose|k: int|
                                            0 <= k < mj1.len() && mj1[k].hash@ == h && listed(
                                                mj1[k],
                                                l,
                                            );
                                        assert(k < j);
                                        assert(mj[k] == mj1[k]);
                                    }
                                    if newly_confirmed(w, mj, l, h) {
                                        let k = choose|k: int|
                                            0 <= k < mj.len() && mj[k].hash@ == h && listed(
                                                mj[k],
                                                l,
                                            );
                                        assert(mj[k] == mj1[k]);
                                    }
                                }
                            }
                            assert forall|h: Seq<char>|
                                #[trigger] self.files@.contains_key(h) && !v0.contains_key(h)
                                    implies confirmed_by_listing(self.files@, h, m, l) by {
                                if h != hj {
                                    assert(confirmed_by_listing(before, h, m, l));
                                    let (i2, j2) = choose|i2: int, j2: int|
                                        0 <= i2 < l.len() && 0 <= j2 < m.len() && m[j2].hash@ == h
                                            && stands_for(l[i2], m[j2]) && before[h] == (
                                            l[i2].href@,
                                            m[j2].size as nat,
                                        );
                                    assert(self.files@[h] == before[h]);
                                }
                            }
                        }
                    },
                    None => {
                        r.push(d.duplicate());
                        proof {
                            assert(is_missing(w, mj1.last(), l));
                            assert forall|h: Seq<char>|
                                #[trigger] self.files@.contains_key(h) <==> (v0.contains_key(h)
                                    || newly_confirmed(w, mj1, l, h)) by {
                                if newly_confirmed(w, mj1, l, h) {
                                    let k = choose|k: int|
                                        0 <= k < mj1.len() && mj1[k].hash@ == h && listed(mj1[k], l);
                                    assert(k < j);
                                    assert(mj[k] == mj1[k]);
                                }
                                if newly_confirmed(w, mj, l, h) {
                                    let k = choose|k: int|
                                        0 <= k < mj.len() && mj[k].hash@ == h && listed(mj[k], l);
                                    assert(mj[k] == mj1[k]);
                                }
                            }
                        }
                    },
                }
            } else {
                proof {
                    assert(!is_missing(w, mj1.last(), l));
                    assert forall|h: Seq<char>|
                        #[trigger] self.files@.contains_key(h) <==> (v0.contains_key(h)
                            || newly_confirmed(w, mj1, l, h)) by {
                        if newly_confirmed(w, mj1, l, h) {
                            let k = choose|k: int|
                                0 <= k < mj1.len() && mj1[k].hash@ == h && listed(mj1[k], l);
                            if k == j {
                                assert(mj1[k] == m[j as int]);
                            } else {
                                assert(mj[k] == mj1[k]);
                            }
                        }
                        if newly_confirmed(w, mj, l, h) {
                            let k = choose|k: int|
                                0 <= k < mj.len() && mj[k].hash@ == h && listed(mj[k], l);
                            assert(mj[k] == mj1[k]);
                        }
                    }
                }
            }
        }
        proof {
            assert(m.subrange(0, m.len() as int) =~= m);
        }
        r
    }

    /// Plans the garbage collection of the backend against the manifest
    /// `files`, given a complete listing. Returns the locations of the listed
    /// files whose name is no hash of the manifest, in listing order, and
    /// forgets those names among the confirmed files. The caller deletes the
    /// returned locations.
    pub fn cleanup_unused_files(&mut self, files: &Vec<BMCLAPIFile>, listing: &Vec<RemoteFile>) -> (r:
        Vec<String>)
        requires
            old(self).wf(),
        ensures
            final(self).wf(),
            r@.map_values(|s: String| s@) == unused_files(files@, listing@),
            final(self).files@ == old(self).files@.remove_keys(unused_names(files@, listing@)),
            final(self).empty_files@ == old(self).empty_files@,
    {
        let ghost m = files@;
        let ghost l = listing@;
        let ghost v0 = self.files@;
        let mut r: Vec<String> = Vec::new();
        for i in 0..listing.len()
            invariant
                self.files.wf(),
                m == files@,
                l == listing@,
                v0 == old(self).files@,
                self.empty_files@ == old(self).empty_files@,
                r@.map_values(|s: String| s@) == unused_files(m, l.subrange(0, i as int)),
                self.files@ == v0.remove_keys(unused_names(m, l.subrange(0, i as int))),
        {
            let ghost li = l.subrange(0, i as int);
            let ghost li1 = l.subrange(0, i + 1);
            proof {
                assert(li1.drop_last() =~= li);
                assert(li1.last() == l[i as int]);
            }
            let name = path_basename(listing[i].href.as_str());
            match name {
                Some(h) => {
                    if !manifest_has(files, &h) {
                        let ghost before = r@;
                        r.push(listing[i].href.clone());
                        self.files.remove(&h);
                        proof {
                            assert(is_unused(m, li1.last()));
                            assert(r@.map_values(|s: String| s@) =~= before.map_values(
                                |s: String| s@,
                            ).push(l[i as int].href@));
                        }
                    } else {
                        proof {
                            assert(!is_unused(m, li1.last()));
                        }
                    }
                },
                None => {
                    proof {
                        assert(!is_unused(m, li1.last()));
                    }
                },
            }
            proof {
                assert forall|h: Seq<char>|
                    #[trigger] unused_names(m, li1).contains(h) == (unused_names(m, li).contains(h)
                        || (basename_of(l[i as int].href@) == Some(h) && !in_manifest(m, h))) by {
                    if unused_names(m, li1).contains(h) {
                        let k = choose|k: int|
                            0 <= k < li1.len() && basename_of(li1[k].href@) == Some(h);
                        if k < i {
                            assert(li[k] == li1[k]);
                        }
                    }
                    if unused_names(m, li).contains(h) {
                        let k = choose|k: int|
                            0 <= k < li.len() && basename_of(li[k].href@) == Some(h);
                        assert(li[k] == li1[k]);
                    }
                    if basename_of(l[i as int].href@) == Some(h) && !in_manifest(m, h) {
                        assert(li1[i as int] == l[i as int]);
                    }
                }
                assert(self.files@ =~= v0.remove_keys(unused_names(m, li1)));
            }
        }
        proof {
            assert(l.subrange(0, l.len() as int) =~= l);
        }
        r
    }
}

/// The folders of a shallow listing of `base`, without `base` itself: the
/// locations of the folder entries whose name differs from the name of `base`.
pub open spec fn listed_folders(base: Seq<char>, entries: Seq<ListEntry>) -> Seq<Seq<char>>
    decreases entries.len(),
{
    if entries.len() == 0 {
        Seq::empty()
    } else {
        let rest = listed_folders(base, entries.drop_last());
        let e = entries.last();
        if e.is_folder && basename_of(e.href@) != basename_of(base) {
            rest.push(e.href@)
        } else {
            rest
        }
    }
}

/// Picks, from a shallow listing of `base`, the folders to list in turn.
pub fn select_folders(base: &str, entries: &Vec<ListEntry>) -> (r: Vec<String>)
    ensures
        r@.map_values(|s: String| s@) == listed_folders(base@, entries@),
{
    let base_name = path_basename(base);
    let ghost es = entries@;
    let mut r: Vec<String> = Vec::new();
    for i in 0..entries.len()
        invariant
            es == entries@,
            name_is(base_name, basename_of(base@)),
            r@.map_values(|s: String| s@) == listed_folders(base@, es.subrange(0, i as int)),
    {
        let ghost ei1 = es.subrange(0, i + 1);
        proof {
            assert(ei1.drop_last() =~= es.subrange(0, i as int));
            assert(ei1.last() == es[i as int]);
        }
        if entries[i].is_folder {
            let name = path_basename(entries[i].href.as_str());
            let same = match (&name, &base_name) {
                (Some(a), Some(b)) => *a == *b,
                (None, None) => true,
                _ => false,
            };
            if !same {
                let ghost before = r@;
                r.push(entries[i].href.clone());
                proof {
                    assert(r@.map_values(|s: String| s@) =~= before.map_values(|s: String| s@).push(
                        es[i as int].href@,
                    ));
                }
            }
        }
    }
    proof {
        assert(es.subrange(0, es.len() as int) =~= es);
    }
    r
}

/// A descriptor is reported missing exactly when it is in the manifest,
/// not confirmed, and not found in the listing.
pub proof fn lemma_missing_members(
    v: Map<Seq<char>, (Seq<char>, nat)>,
    m: Seq<BMCLAPIFile>,
    l: Seq<RemoteFile>,
)
    ensures
        forall|d: BMCLAPIFile|
            #[trigger] missing_files(v, m, l).contains(d) <==> (m.contains(d) && is_missing(v, d, l)),
    decreases m.len(),
{
    if m.len() > 0 {
        let p = m.drop_last();
        lemma_missing_members(v, p, l);
        let rest = missing_files(v, p, l);
        assert forall|d: BMCLAPIFile|
            #[trigger] missing_files(v, m, l).contains(d) <==> (m.contains(d) && is_missing(v, d, l)) by {
            if m.contains(d) {
                let j = choose|j: int| 0 <= j < m.len() && m[j] == d;
                if j < p.len() {
                    assert(p[j] == d);
                }
            }
            if p.contains(d) {
                let j = choose|j: int| 0 <= j < p.len() && p[j] == d;
                assert(m[j] == d);
            }
            if is_missing(v, m.last(), l) {
                let s = rest.push(m.last());
                if rest.contains(d) {
                    let j = choose|j: int| 0 <= j < rest.len() && rest[j] == d;
                    assert(s[j] == d);
                }
                if s.contains(d) {
                    let j = choose|j: int| 0 <= j < s.len() && s[j] == d;
                    if j < rest.len() {
                        assert(rest[j] == d);
                    }
                }
                assert(s[rest.len() as int] == m.last());
            }
            assert(m[m.len() - 1] == m.last());
        }
    }
}

/// A file confirmed before a reconciliation pass is never reported missing
/// by it.
pub proof fn lemma_confirmed_never_missing(
    v: Map<Seq<char>, (Seq<char>, nat)>,
    m: Seq<BMCLAPIFile>,
    l: Seq<RemoteFile>,
    d: BMCLAPIFile,
)
    requires
        v.contains_key(d.hash@),
    ensures
        !missing_files(v, m, l).contains(d),
{
    lemma_missing_members(v, m, l);
}

/// After a pass has confirmed files (`v` and `v2` are what the state treats
/// as present before and after it, see `StorageState::known`), a
/// later pass over the same manifest, whatever the listing it is given,
/// reports none of them missing: it reports only descriptors that the first
/// pass reported too.
pub proof fn lemma_completed_sync_stays_complete(
    v: Map<Seq<char>, (Seq<char>, nat)>,
    v2: Map<Seq<char>, (Seq<char>, nat)>,
    m: Seq<BMCLAPIFile>,
    l: Seq<RemoteFile>,
    l2: Seq<RemoteFile>,
)
    requires
        forall|h: Seq<char>|
            #[trigger] v2.contains_key(h) <==> (v.contains_key(h) || newly_confirmed(v, m, l, h)),
    ensures
        forall|d: BMCLAPIFile| #[trigger]
            missing_files(v2, m, l2).contains(d) ==> !v2.contains_key(d.hash@)
                && missing_files(v, m, l).contains(d),
{
    lemma_missing_members(v, m, l);
    lemma_missing_members(v2, m, l2);
    assert forall|d: BMCLAPIFile| #[trigger]
        missing_files(v2, m, l2).contains(d) implies !v2.contains_key(d.hash@)
            && missing_files(v, m, l).contains(d) by {
        let j = choose|j: int| 0 <= j < m.len() && m[j] == d;
        if listed(d, l) {
            assert(newly_confirmed(v, m, l, d.hash@));
        }
    }
}

/// Every descriptor of a manifest whose hashes are distinct is accounted for
/// exactly once by a pass: it is reported missing if and only if the index
/// `v2` left behind (see `StorageState::known`) does not hold it. What is reported comes from the
/// manifest.
pub proof fn lemma_every_descriptor_accounted(
    v: Map<Seq<char>, (Seq<char>, nat)>,
    v2: Map<Seq<char>, (Seq<char>, nat)>,
    m: Seq<BMCLAPIFile>,
    l: Seq<RemoteFile>,
)
    requires
        forall|i: int, k: int| 0 <= i < m.len() && 0 <= k < m.len() && m[i].hash@ == m[k].hash@ ==> i == k,
        forall|h: Seq<char>|
            #[trigger] v2.contains_key(h) <==> (v.contains_key(h) || newly_confirmed(v, m, l, h)),
    ensures
        forall|j: int|
            0 <= j < m.len() ==> (missing_files(v, m, l).contains(#[trigger] m[j])
                <==> !v2.contains_key(m[j].hash@)),
        forall|d: BMCLAPIFile| #[trigger] missing_files(v, m, l).contains(d) ==> m.contains(d),
{
    lemma_missing_members(v, m, l);
    assert forall|j: int| 0 <= j < m.len() implies (missing_files(v, m, l).contains(#[trigger] m[j])
        <==> !v2.contains_key(m[j].hash@)) by {
        if newly_confirmed(v, m, l, m[j].hash@) {
            let k = choose|k: int| 0 <= k < m.len() && m[k].hash@ == m[j].hash@ && listed(m[k], l);
            assert(k == j);
        }
        if listed(m[j], l) {
            assert(newly_confirmed(v, m, l, m[j].hash@) || v.contains_key(m[j].hash@));
        }
    }
}

/// A descriptor that is not confirmed, and of whose hash every listed file
/// has another size, stays missing.
pub proof fn lemma_size_mismatch_stays_missing(
    v: Map<Seq<char>, (Seq<char>, nat)>,
    m: Seq<BMCLAPIFile>,
    l: Seq<RemoteFile>,
    d: BMCLAPIFile,
)
    requires
        m.contains(d),
        !v.contains_key(d.hash@),
        forall|i: int|
            0 <= i < l.len() && basename_of(#[trigger] l[i].href@) == Some(d.hash@) ==> l[i].size as int
                != d.size as int,
    ensures
        missing_files(v, m, l).contains(d),
{
    lemma_missing_members(v, m, l);
}

/// In a manifest whose hashes are distinct, a descriptor that is not
/// confirmed, and of whose hash every listed file has another size, is not
/// confirmed by a pass either (`v` and `v2` are what the state treats as
/// present before and after it, see `StorageState::known`).
pub proof fn lemma_size_mismatch_not_confirmed(
    v: Map<Seq<char>, (Seq<char>, nat)>,
    v2: Map<Seq<char>, (Seq<char>, nat)>,
    m: Seq<BMCLAPIFile>,
    l: Seq<RemoteFile>,
    d: BMCLAPIFile,
)
    requires
        m.contains(d),
        !v.contains_key(d.hash@),
        forall|i: int|
            0 <= i < l.len() && basename_of(#[trigger] l[i].href@) == Some(d.hash@) ==> l[i].size as int
                != d.size as int,
        forall|i: int, k: int| 0 <= i < m.len() && 0 <= k < m.len() && m[i].hash@ == m[k].hash@ ==> i == k,
        forall|h: Seq<char>|
            #[trigger] v2.contains_key(h) <==> (v.contains_key(h) || newly_confirmed(v, m, l, h)),
    ensures
        !v2.contains_key(d.hash@),
{
    if newly_confirmed(v, m, l, d.hash@) {
        let j = choose|j: int| 0 <= j < m.len() && m[j] == d;
        let k = choose|k: int| 0 <= k < m.len() && m[k].hash@ == d.hash@ && listed(m[k], l);
        assert(k == j);
        let i = choose|i: int| 0 <= i < l.len() && stands_for(l[i], m[k]);
        assert(basename_of(l[i].href@) == Some(d.hash@));
    }
}

/// Garbage collection is exact: a listed file is among those to delete if
/// and only if it has a name and that name is no hash of the manifest.
pub proof fn lemma_cleanup_exact(m: Seq<BMCLAPIFile>, l: Seq<RemoteFile>)
    ensures
        forall|i: int| 0 <= i < l.len() && #[trigger] is_unused(m, l[i]) ==> unused_files(m, l).contains(l[i].href@),
        forall|x: Seq<char>| #[trigger]
            unused_files(m, l).contains(x) ==> exists|i: int|
                0 <= i < l.len() && l[i].href@ == x && is_unused(m, l[i]),
    decreases l.len(),
{
    if l.len() > 0 {
        let p = l.drop_last();
        lemma_cleanup_exact(m, p);
        let rest = unused_files(m, p);
        let s = unused_files(m, l);
        assert forall|i: int| 0 <= i < l.len() && #[trigger] is_unused(m, l[i]) implies s.contains(l[i].href@) by {
            if i < p.len() {
                assert(p[i] == l[i]);
                assert(rest.contains(p[i].href@));
                let k = choose|k: int| 0 <= k < rest.len() && rest[k] == p[i].href@;
                if is_unused(m, l.last()) {
                    assert(s[k] == rest[k]);
                }
            } else {
                assert(s[s.len() - 1] == l[i].href@);
            }
        }
        assert forall|x: Seq<char>| #[trigger] s.contains(x) implies exists|i: int|
            0 <= i < l.len() && l[i].href@ == x && is_unused(m, l[i]) by {
            let k = choose|k: int| 0 <= k < s.len() && s[k] == x;
            if k < rest.len() {
                assert(rest[k] == x);
                assert(rest.contains(x));
                let i = choose|i: int| 0 <= i < p.len() && p[i].href@ == x && is_unused(m, p[i]);
                assert(l[i] == p[i]);
            } else {
                assert(l[l.len() - 1] == l.last());
            }
        }
    }
}

/// What every backend offers the node. Reading and writing the backend
/// itself is left to the caller; a backend decides where things go, what to
/// store, what is missing and what to delete, and keeps its bookkeeping.
pub trait Storage {
    /// The backend's bookkeeping.
    spec fn state_of(&self) -> StorageState;

    /// Where the backend's objects lie: listings start here.
    spec fn base(&self) -> Seq<char>;

    /// The address from which a client fetches `path`.
    spec fn absolute(&self, path: Seq<char>) -> Seq<char>;

    fn base_path(&self) -> (r: String)
        ensures
            r@ == self.base(),
    ;

    /// Where the object for `path` is stored.
    fn object_path(&self, path: &str) -> (r: String)
        ensures
            r@ == joined(self.base(), path@),
    ;

    /// The address from which a client fetches `path`.
    fn get_absolute_path(&self, path: &str) -> (r: String)
        ensures
            r@ == self.absolute(path@),
    ;

    /// See `StorageState::record_write`.
    fn record_write(&mut self, content_len: usize, file: &BMCLAPIFile) -> (store: bool)
        requires
            old(self).state_of().wf(),
        ensures
            final(self).state_of().wf(),
            final(self).base() == old(self).base(),
            store == (content_len > 0),
            final(self).state_of().files@ == old(self).state_of().files@,
            content_len == 0 ==> final(self).state_of().empty_files@.len() == old(self).state_of().empty_files@.len() + 1 && final(self).state_of().empty_files@.drop_last()
                == old(self).state_of().empty_files@
                && final(self).state_of().empty_files@.last()@ == file.hash@,
            content_len > 0 ==> final(self).state_of().empty_files@ == old(self).state_of().empty_files@,
    ;

    /// See `StorageState::confirm_write`.
    fn confirm_write(&mut self, file: &BMCLAPIFile, size: usize)
        requires
            old(self).state_of().wf(),
        ensures
            final(self).state_of().wf(),
            final(self).base() == old(self).base(),
            final(self).state_of().files@ == old(self).state_of().files@.insert(
                file.hash@,
                (file.path@, size as nat),
            ),
            final(self).state_of().empty_files@ == old(self).state_of().empty_files@,
    ;

    /// See `StorageState::check_missing_files`.
    fn check_missing_files(&mut self, files: Vec<BMCLAPIFile>, listing: &Vec<RemoteFile>) -> (r:
        Vec<BMCLAPIFile>)
        requires
            old(self).state_of().wf(),
        ensures
            final(self).state_of().wf(),
            final(self).base() == old(self).base(),
            r@ == missing_files(old(self).state_of().known(), files@, listing@),
            final(self).state_of().empty_files@ == old(self).state_of().empty_files@,
            forall|h: Seq<char>|
                #[trigger] final(self).state_of().files@.contains_key(h) <==> (old(self).state_of().files@.contains_key(h) || newly_confirmed(
                    old(self).state_of().known(),
                    files@,
                    listing@,
                    h,
                )),
            forall|h: Seq<char>|
                #[trigger] final(self).state_of().known().contains_key(h) <==> (old(self).state_of().known().contains_key(h) || newly_confirmed(
                    old(self).state_of().known(),
                    files@,
                    listing@,
                    h,
                )),
            forall|h: Seq<char>|
                #[trigger] old(self).state_of().files@.contains_key(h) ==> final(self).state_of().files@[h] == old(self).state_of().files@[h],
            forall|h: Seq<char>|
                #[trigger] final(self).state_of().files@.contains_key(h) && !old(self).state_of().files@.contains_key(h) ==> confirmed_by_listing(
                    final(self).state_of().files@,
                    h,
                    files@,
                    listing@,
                ),
    ;

    /// See `StorageState::cleanup_unused_files`.
    fn cleanup_unused_files(&mut self, files: &Vec<BMCLAPIFile>, listing: &Vec<RemoteFile>) -> (r:
        Vec<String>)
        requires
            old(self).state_of().wf(),
        ensures
            final(self).state_of().wf(),
            final(self).base() == old(self).base(),
            r@.map_values(|s: String| s@) == unused_files(files@, listing@),
            final(self).state_of().files@ == old(self).state_of().files@.remove_keys(
                unused_names(files@, listing@),
            ),
            final(self).state_of().empty_files@ == old(self).state_of().empty_files@,
    ;
}

/// A backend of either kind.
pub enum AnyStorage {
    Local(LocalStorage),
    Webdav(WebdavStorage),
}

/// The backend that the settings ask for, with nothing confirmed yet.
pub fn get_storage(storage_type: StorageType) -> (r: AnyStorage)
    ensures
        r.state_of().wf(),
        r.state_of().files@ == Map::<Seq<char>, (Seq<char>, nat)>::empty(),
        r.state_of().empty_files@.len() == 0,
        match (storage_type, r) {
            (StorageType::Local(c), AnyStorage::Local(s)) => s.storage_config == c,
            (StorageType::Webdav(c), AnyStorage::Webdav(s)) => s.storage_config == c,
            _ => false,
        },
{
    match storage_type {
        StorageType::Local(c) => AnyStorage::Local(LocalStorage::new(c)),
        StorageType::Webdav(c) => AnyStorage::Webdav(WebdavStorage::new(c)),
    }
}

impl Storage for AnyStorage {
    open spec fn state_of(&self) -> StorageState {
        match self {
            AnyStorage::Local(s) => s.state_of(),
            AnyStorage::Webdav(s) => s.state_of(),
        }
    }

    open spec fn base(&self) -> Seq<char> {
        match self {
            AnyStorage::Local(s) => s.base(),
            AnyStorage::Webdav(s) => s.base(),
        }
    }

    open spec fn absolute(&self, path: Seq<char>) -> Seq<char> {
        match self {
            AnyStorage::Local(s) => s.absolute(path),
            AnyStorage::Webdav(s) => s.absolute(path),
        }
    }

    fn base_path(&self) -> (r: String) {
        match self {
            AnyStorage::Local(s) => s.base_path(),
            AnyStorage::Webdav(s) => s.base_path(),
        }
    }

    fn object_path(&self, path: &str) -> (r: String) {
        match self {
            AnyStorage::Local(s) => s.object_path(path),
            AnyStorage::Webdav(s) => s.object_path(path),
        }
    }

    fn get_absolute_path(&self, path: &str) -> (r: String) {
        match self {
            AnyStorage::Local(s) => s.get_absolute_path(path),
            AnyStorage::Webdav(s) => s.get_absolute_path(path),
        }
    }

    fn record_write(&mut self, content_len: usize, file: &BMCLAPIFile) -> (store: bool) {
        match self {
            AnyStorage::Local(s) => s.record_write(content_len, file),
            AnyStorage::Webdav(s) => s.record_write(content_len, file),
        }
    }

    fn confirm_write(&mut self, file: &BMCLAPIFile, size: usize) {
        match self {
            AnyStorage::Local(s) => s.confirm_write(file, size),
            AnyStorage::Webdav(s) => s.confirm_write(file, size),
        }
    }

    fn check_missing_files(&mut self, files: Vec<BMCLAPIFile>, listing: &Vec<RemoteFile>) -> (r:
        Vec<BMCLAPIFile>) {
        match self {
            AnyStorage::Local(s) => s.check_missing_files(files, listing),
            AnyStorage::Webdav(s) => s.check_missing_files(files, listing),
        }
    }

    fn cleanup_unused_files(&mut self, files: &Vec<BMCLAPIFile>, listing: &Vec<RemoteFile>) -> (r:
        Vec<String>) {
        match self {
            AnyStorage::Local(s) => s.cleanup_unused_files(files, listing),
            AnyStorage::Webdav(s) => s.cleanup_unused_files(files, listing),
        }
    }
}

} // verus!
