use crate::decoded::{DecodedImage, ImageView};
use crate::error::LoadError;
use crate::paths::{lemma_position, lemma_position_found, position};
use crate::photo::image_view;
use crate::processors::{decode, decoded};
use crate::decoded::outcome;
use vstd::prelude::*;

verus! {

/// The number of images that the cache holds at most.
pub const CACHE_CAPACITY: usize = 32;

/// What a cache entry is: the image decoded from the file at `path` when the
/// file's modification time was `modified`, if that could be read.
pub struct EntryView {
    pub path: Seq<char>,
    pub image: ImageView,
    pub modified: Option<u64>,
}

/// What a cache is: its entries from the least to the most recently used.
pub struct CacheView {
    pub entries: Seq<EntryView>,
}

/// The paths of the entries, in their order.
pub open spec fn paths_of(entries: Seq<EntryView>) -> Seq<Seq<char>> {
    Seq::new(entries.len(), |i: int| entries[i].path)
}

/// An entry can be trusted when the file's modification time can be read
/// now, could be read when the entry was made, and is no later now than then.
pub open spec fn fresh(entry: EntryView, current: Option<u64>) -> bool {
    current matches Some(now) && entry.modified matches Some(then) && now <= then
}

impl CacheView {
    /// At most `CACHE_CAPACITY` entries, no two for the same path.
    pub open spec fn wf(self) -> bool {
        &&& self.entries.len() <= CACHE_CAPACITY
        &&& forall|i: int, j: int|
            0 <= i < j < self.entries.len() ==> self.entries[i].path != self.entries[j].path
    }

    pub open spec fn empty() -> CacheView {
        CacheView { entries: Seq::empty() }
    }

    /// Where the entry for `path` stands, if there is one.
    pub open spec fn find(self, path: Seq<char>) -> Option<nat> {
        position(paths_of(self.entries), path)
    }

    /// The cache with entry `k` made the most recently used.
    pub open spec fn promote(self, k: int) -> CacheView {
        CacheView { entries: self.entries.remove(k).push(self.entries[k]) }
    }

    /// A request for the image of `path` while the file's modification time
    /// is `current`: a fresh entry is handed out and becomes the most
    /// recently used; otherwise nothing changes.
    pub open spec fn lookup(self, path: Seq<char>, current: Option<u64>) -> (
        CacheView,
        Option<ImageView>,
    ) {
        match self.find(path) {
            Some(k) => if fresh(self.entries[k as int], current) {
                (self.promote(k as int), Some(self.entries[k as int].image))
            } else {
                (self, None)
            },
            None => (self, None),
        }
    }

    /// The cache with `entry` as the most recently used. It takes the place
    /// of an entry for the same path; without one, a full cache first drops
    /// its least recently used entry.
    pub open spec fn insert(self, entry: EntryView) -> CacheView {
        match self.find(entry.path) {
            Some(k) => CacheView { entries: self.entries.remove(k as int).push(entry) },
            None => if self.entries.len() >= CACHE_CAPACITY {
                CacheView { entries: self.entries.drop_first().push(entry) }
            } else {
                CacheView { entries: self.entries.push(entry) }
            },
        }
    }

    /// A request that decodes on a miss. `fresh_decode` is what decoding the
    /// file gives; it matters only if no fresh entry is found, and a decoded
    /// image is then stored with the current modification time.
    pub open spec fn resolve(
        self,
        path: Seq<char>,
        current: Option<u64>,
        fresh_decode: Result<ImageView, LoadError>,
    ) -> (CacheView, Result<ImageView, LoadError>) {
        match self.lookup(path, current).1 {
            Some(image) => (self.lookup(path, current).0, Ok(image)),
            None => match fresh_decode {
                Ok(image) => (self.insert(EntryView { path, image, modified: current }), Ok(image)),
                Err(e) => (self, Err(e)),
            },
        }
    }

    /// Whether there is an entry for `path`.
    pub open spec fn holds(self, path: Seq<char>) -> bool {
        self.find(path) is Some
    }
}

/// With no path twice, the entry for a path is found exactly where it stands.
pub proof fn lemma_find(c: CacheView, path: Seq<char>)
    requires
        c.wf(),
    ensures
        c.find(path) matches Some(k) ==> k < c.entries.len() && c.entries[k as int].path == path,
        c.find(path) is None ==> forall|j: int|
            0 <= j < c.entries.len() ==> (#[trigger] c.entries[j]).path != path,
        forall|j: int|
            0 <= j < c.entries.len() && (#[trigger] c.entries[j]).path == path ==> c.find(path)
                == Some(j as nat),
{
    let paths = paths_of(c.entries);
    lemma_position(paths, path);
    assert forall|j: int| 0 <= j < c.entries.len() && (#[trigger] c.entries[j]).path
        == path implies c.find(path) == Some(j as nat) by {
        assert(paths[j] == path);
        assert forall|i: int| 0 <= i < j implies paths[i] != path by {
            assert(c.entries[i].path != c.entries[j].path);
        }
        lemma_position_found(paths, path, j);
    }
    if c.find(path) is None {
        assert forall|j: int| 0 <= j < c.entries.len() implies (#[trigger] c.entries[j]).path
            != path by {
            assert(paths[j] == c.entries[j].path);
        }
    }
}

/// Making an entry the most recently used keeps the cache well-formed and
/// puts the entry last.
pub proof fn lemma_promote(c: CacheView, k: int)
    requires
        c.wf(),
        0 <= k < c.entries.len(),
    ensures
        c.promote(k).wf(),
        c.promote(k).entries.len() == c.entries.len(),
        c.promote(k).entries.last() == c.entries[k],
        forall|path: Seq<char>| c.promote(k).holds(path) == c.holds(path),
{
    let after = c.promote(k);
    let n = c.entries.len() as int;
    assert forall|i: int| 0 <= i < n - 1 implies #[trigger] after.entries[i] == c.entries[if i < k {
        i
    } else {
        i + 1
    }] by {}
    assert(after.wf());
    assert forall|path: Seq<char>| after.holds(path) == c.holds(path) by {
        lemma_find(c, path);
        lemma_find(after, path);
        if c.holds(path) {
            let j = c.find(path)->0 as int;
            if j == k {
                assert(after.entries[n - 1].path == path);
            } else if j < k {
                assert(after.entries[j].path == path);
            } else {
                assert(after.entries[j - 1].path == path);
            }
        }
        if after.holds(path) {
            let j = after.find(path)->0 as int;
            if j == n - 1 {
                assert(c.entries[k].path == path);
            } else if j < k {
                assert(c.entries[j].path == path);
            } else {
                assert(c.entries[j + 1].path == path);
            }
        }
    }
}

/// Inserting keeps the cache well-formed and puts the new entry last.
pub proof fn lemma_insert(c: CacheView, entry: EntryView)
    requires
        c.wf(),
    ensures
        c.insert(entry).wf(),
        c.insert(entry).entries.len() > 0,
        c.insert(entry).entries.last() == entry,
        c.insert(entry).find(entry.path) == Some((c.insert(entry).entries.len() - 1) as nat),
{
    lemma_find(c, entry.path);
    let after = c.insert(entry);
    let n = c.entries.len() as int;
    match c.find(entry.path) {
        Some(k) => {
            assert forall|i: int| 0 <= i < n - 1 implies #[trigger] after.entries[i]
                == c.entries[if i < k {
                i
            } else {
                i + 1
            }] by {}
            assert(after.wf());
        },
        None => {
            if n >= CACHE_CAPACITY {
                assert forall|i: int| 0 <= i < n - 1 implies #[trigger] after.entries[i]
                    == c.entries[i + 1] by {}
                assert(after.wf());
            } else {
                assert forall|i: int| 0 <= i < n implies #[trigger] after.entries[i]
                    == c.entries[i] by {}
                assert(after.wf());
            }
        },
    }
    lemma_find(after, entry.path);
    assert(after.entries[after.entries.len() - 1].path == entry.path);
}

/// Asking twice for a file that has not changed decodes once: after a
/// request that gave an image, a second request at the same modification
/// time gives that image again, whatever decoding would give by then.
pub proof fn lemma_second_request_hits(
    c: CacheView,
    path: Seq<char>,
    modified: u64,
    first_decode: Result<ImageView, LoadError>,
    second_decode: Result<ImageView, LoadError>,
)
    requires
        c.wf(),
        c.resolve(path, Some(modified), first_decode).1 is Ok,
    ensures
        ({
            let (after, first) = c.resolve(path, Some(modified), first_decode);
            &&& after.lookup(path, Some(modified)).1 == Some(first->Ok_0)
            &&& after.resolve(path, Some(modified), second_decode).1 == first
        }),
{
    let (after, first) = c.resolve(path, Some(modified), first_decode);
    lemma_find(c, path);
    match c.lookup(path, Some(modified)).1 {
        Some(image) => {
            let k = c.find(path)->0 as int;
            lemma_promote(c, k);
            lemma_find(after, path);
            assert(after.entries[after.entries.len() - 1].path == path);
        },
        None => {
            let entry = EntryView { path, image: first_decode->Ok_0, modified: Some(modified) };
            lemma_insert(c, entry);
        },
    }
}

/// A file that changed is decoded again: where the file's modification time
/// is later than the one stored, or cannot be read, or could not be read
/// when the entry was made, the request gives what decoding gives now, and a
/// decoded image is stored under the current time.
pub proof fn lemma_stale_entry_decodes_again(
    c: CacheView,
    path: Seq<char>,
    current: Option<u64>,
    fresh_decode: Result<ImageView, LoadError>,
)
    requires
        c.wf(),
        c.find(path) matches Some(k) ==> !fresh(c.entries[k as int], current),
    ensures
        c.resolve(path, current, fresh_decode).1 == fresh_decode,
        fresh_decode matches Ok(image) ==> ({
            let after = c.resolve(path, current, fresh_decode).0;
            &&& after.wf()
            &&& after.holds(path)
            &&& after.entries.last() == (EntryView { path, image, modified: current })
        }),
        fresh_decode is Err ==> c.resolve(path, current, fresh_decode).0 == c,
{
    if let Ok(image) = fresh_decode {
        lemma_insert(c, EntryView { path, image, modified: current });
    }
}

/// A new path that enters a full cache drives out the least recently used
/// entry and no other.
pub proof fn lemma_full_cache_evicts_oldest(c: CacheView, entry: EntryView)
    requires
        c.wf(),
        c.entries.len() == CACHE_CAPACITY,
        !c.holds(entry.path),
    ensures
        c.insert(entry).entries == c.entries.drop_first().push(entry),
        !c.insert(entry).holds(c.entries[0].path),
        forall|j: int|
            1 <= j < c.entries.len() ==> c.insert(entry).holds((#[trigger] c.entries[j]).path),
        c.insert(entry).holds(entry.path),
{
    let after = c.insert(entry);
    lemma_insert(c, entry);
    lemma_find(c, entry.path);
    lemma_find(after, c.entries[0].path);
    if after.holds(c.entries[0].path) {
        let j = after.find(c.entries[0].path)->0 as int;
        if j < after.entries.len() - 1 {
            assert(after.entries[j] == c.entries[j + 1]);
        }
    }
    assert forall|j: int| 1 <= j < c.entries.len() implies after.holds(
        (#[trigger] c.entries[j]).path,
    ) by {
        lemma_find(after, c.entries[j].path);
        assert(after.entries[j - 1] == c.entries[j]);
    }
}

/// Eviction goes by use, not by age: after a hit on the oldest entry of a
/// full cache, a new path drives out the entry that was second oldest, and
/// the one that was hit stays.
pub proof fn lemma_hit_protects_from_eviction(
    c: CacheView,
    current: Option<u64>,
    entry: EntryView,
)
    requires
        c.wf(),
        c.entries.len() == CACHE_CAPACITY,
        fresh(c.entries[0], current),
        !c.holds(entry.path),
    ensures
        ({
            let touched = c.lookup(c.entries[0].path, current).0;
            &&& c.lookup(c.entries[0].path, current).1 == Some(c.entries[0].image)
            &&& touched.insert(entry).holds(c.entries[0].path)
            &&& !touched.insert(entry).holds(c.entries[1].path)
        }),
{
    let oldest = c.entries[0].path;
    lemma_find(c, oldest);
    lemma_promote(c, 0);
    let touched = c.promote(0);
    assert(touched == c.lookup(oldest, current).0);
    assert(touched.entries[0] == c.entries[1]);
    assert(touched.entries[CACHE_CAPACITY - 1] == c.entries[0]);
    assert(!touched.holds(entry.path));
    lemma_full_cache_evicts_oldest(touched, entry);
}

/// One image held in the cache.
#[derive(Debug)]
pub struct CacheEntry {
    path: String,
    image: DecodedImage,
    modified: Option<u64>,
}

impl View for CacheEntry {
    type V = EntryView;

    closed spec fn view(&self) -> EntryView {
        EntryView { path: self.path@, image: self.image@, modified: self.modified }
    }
}

/// A bounded store of decoded images by path. An entry is trusted only while
/// the file has not changed since it was decoded; when room is needed, the
/// entry that was used least recently goes.
///
/// The cache does no locking of its own. Where several tasks share one, each
/// call is made under a lock, and the lock is not held while a file is
/// decoded; two tasks may then decode the same stale file, and the one that
/// stores last wins.
#[derive(Debug)]
pub struct ImageCache {
    entries: Vec<CacheEntry>,
}

impl View for ImageCache {
    type V = CacheView;

    closed spec fn view(&self) -> CacheView {
        CacheView { entries: Seq::new(self.entries@.len(), |i: int| self.entries@[i]@) }
    }
}

impl ImageCache {
    #[verifier::type_invariant]
    spec fn sound(self) -> bool {
        self@.wf()
    }

    pub fn new() -> (r: ImageCache)
        ensures
            r@ == CacheView::empty(),
    {
        let r = ImageCache { entries: Vec::new() };
        proof {
            assert(r@.entries =~= Seq::empty());
        }
        r
    }

    /// Every cache is well-formed.
    pub fn len(&self) -> (r: usize)
        ensures
            r == self@.entries.len(),
            r <= CACHE_CAPACITY,
            self@.wf(),
    {
        proof {
            use_type_invariant(self);
        }
        self.entries.len()
    }

    fn find(&self, path: &String) -> (r: Option<usize>)
        ensures
            r is Some == self@.find(path@) is Some,
            r matches Some(k) ==> self@.find(path@) == Some(k as nat) && k < self.entries@.len(),
    {
        proof {
            use_type_invariant(self);
            lemma_find(self@, path@);
        }
        let mut k: usize = 0;
        while k < self.entries.len()
            invariant
                k <= self.entries@.len(),
                self@.wf(),
                forall|j: int| 0 <= j < k ==> (#[trigger] self@.entries[j]).path != path@,
            decreases self.entries@.len() - k,
        {
            if self.entries[k].path == *path {
                proof {
                    lemma_find(self@, path@);
                    assert(self@.entries[k as int].path == path@);
                }
                return Some(k);
            }
            assert(self@.entries[k as int].path != path@);
            k += 1;
        }
        proof {
            lemma_find(self@, path@);
            if self@.find(path@) is Some {
                let j = self@.find(path@)->0 as int;
                assert(self@.entries[j].path == path@);
            }
        }
        None
    }

    /// Whether there is an entry for `path`, fresh or not.
    pub fn contains(&self, path: &String) -> (r: bool)
        ensures
            r == self@.holds(path@),
    {
        self.find(path).is_some()
    }

    /// Asks for the image of `path` while the file's modification time is
    /// `current` (`None` if it cannot be read).
    pub fn lookup(&mut self, path: &String, current: Option<u64>) -> (r: Option<DecodedImage>)
        ensures
            final(self)@ == old(self)@.lookup(path@, current).0,
            image_view(r) == old(self)@.lookup(path@, current).1,
    {
        proof {
            use_type_invariant(&*self);
        }
        let now: u64 = match current {
            Some(now) => now,
            None => {
                return None;
            },
        };
        match self.find(path) {
            Some(k) => {
                assert(self@.entries[k as int] == self.entries@[k as int]@);
                let then: u64 = match self.entries[k].modified {
                    Some(then) => then,
                    None => {
                        return None;
                    },
                };
                if now <= then {
                    proof {
                        lemma_promote(self@, k as int);
                    }
                    let ghost before = self@;
                    let mut entries: Vec<CacheEntry> = Vec::new();
                    proof {
                        assert(Seq::new(entries@.len(), |i: int| entries@[i]@) =~= Seq::<
                            EntryView,
                        >::empty());
                    }
                    std::mem::swap(&mut entries, &mut self.entries);
                    let entry = entries.remove(k);
                    let image = entry.image.clone();
                    entries.push(entry);
                    proof {
                        assert(Seq::new(entries@.len(), |i: int| entries@[i]@) =~= before.promote(
                            k as int,
                        ).entries);
                    }
                    std::mem::swap(&mut entries, &mut self.entries);
                    Some(image)
                } else {
                    None
                }
            },
            None => None,
        }
    }

    /// Stores the image decoded from the file at `path` when its
    /// modification time was `modified` (`None` if that could not be read).
    pub fn insert(&mut self, path: String, image: DecodedImage, modified: Option<u64>)
        ensures
            final(self)@ == old(self)@.insert(
                EntryView { path: path@, image: image@, modified },
            ),
    {
        proof {
            use_type_invariant(&*self);
        }
        let ghost before = self@;
        let entry = CacheEntry { path, image, modified };
        proof {
            lemma_insert(before, entry@);
        }
        let found = self.find(&entry.path);
        let mut entries: Vec<CacheEntry> = Vec::new();
        proof {
            assert(Seq::new(entries@.len(), |i: int| entries@[i]@) =~= Seq::<EntryView>::empty());
        }
        std::mem::swap(&mut entries, &mut self.entries);
        match found {
            Some(k) => {
                let gone = entries.remove(k);
            },
            None => {
                if entries.len() >= CACHE_CAPACITY {
                    let gone = entries.remove(0);
                }
            },
        }
        entries.push(entry);
        proof {
            assert(Seq::new(entries@.len(), |i: int| entries@[i]@) =~= before.insert(
                entry@,
            ).entries);
        }
        std::mem::swap(&mut entries, &mut self.entries);
    }

    /// Gives the image of the file at `path`, whose bytes are `data` and
    /// whose modification time is `modified`: from the cache if a fresh
    /// entry is there, else decoded from `data` and stored.
    pub fn get_or_decode(&mut self, path: &String, modified: Option<u64>, data: &[u8]) -> (r:
        Result<DecodedImage, LoadError>)
        ensures
            final(self)@ == old(self)@.resolve(path@, modified, decoded(data@)).0,
            outcome(r) == old(self)@.resolve(path@, modified, decoded(data@)).1,
    {
        match self.lookup(path, modified) {
            Some(image) => Ok(image),
            None => match decode(data) {
                Ok(image) => {
                    self.insert(path.clone(), image.clone(), modified);
                    Ok(image)
                },
                Err(e) => Err(e),
            },
        }
    }
}

} // verus!
