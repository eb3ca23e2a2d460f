//! Short-lived caches of scan results.
//!
//! A scan result is reused while it is younger than `CACHE_TTL_NANOS`.
//! Times are monotonic clock readings in nanoseconds, taken by the caller.

use vstd::prelude::*;
use crate::text::str_equal;
use crate::scanner::{Album, AlbumImages, AlbumImagesView, AlbumView, album_views, copy_albums};

verus! {

/// How long a scan result stays valid: five seconds.
pub const CACHE_TTL_NANOS: u64 = 5_000_000_000;

/// A result stored at `stored` may still be used at `now`: less than the
/// time-to-live has elapsed (elapsed time is zero if the clock reads earlier).
pub open spec fn is_fresh(stored: u64, now: u64) -> bool {
    now < stored || now - stored < CACHE_TTL_NANOS
}

/// Whether a result stored at `stored` may still be used at `now`.
pub fn fresh(stored: u64, now: u64) -> (r: bool)
    ensures
        r == is_fresh(stored, now),
{
    now < stored || now - stored < CACHE_TTL_NANOS
}

// ---------------------------------------------------------------------------
// The album list
// ---------------------------------------------------------------------------

/// The cached album list, with the time it was stored.
pub struct AlbumListCache {
    entry: Option<(Vec<Album>, u64)>,
}

/// What the album-list cache answers at `now`.
pub open spec fn cached_albums(c: Option<(Seq<AlbumView>, u64)>, now: u64) -> Option<
    Seq<AlbumView>,
> {
    match c {
        Some((albums, t)) => if is_fresh(t, now) {
            Some(albums)
        } else {
            None
        },
        None => None,
    }
}

impl View for AlbumListCache {
    type V = Option<(Seq<AlbumView>, u64)>;

    closed spec fn view(&self) -> Option<(Seq<AlbumView>, u64)> {
        match self.entry {
            Some((v, t)) => Some((album_views(v@), t)),
            None => None,
        }
    }
}

impl AlbumListCache {
    /// An empty cache.
    pub fn new() -> (r: AlbumListCache)
        ensures
            r@ is None,
    {
        AlbumListCache { entry: None }
    }

    /// The cached album list, if it is still fresh at `now`.
    pub fn lookup(&self, now: u64) -> (r: Option<Vec<Album>>)
        ensures
            match r {
                Some(v) => cached_albums(self@, now) == Some(album_views(v@)),
                None => cached_albums(self@, now) is None,
            },
    {
        match &self.entry {
            Some((albums, t)) => {
                if fresh(*t, now) {
                    Some(copy_albums(albums))
                } else {
                    None
                }
            },
            None => None,
        }
    }

    /// Stores a freshly scanned album list, taken at `now`, and hands it back.
    pub fn store(&mut self, albums: Vec<Album>, now: u64) -> (r: Vec<Album>)
        ensures
            final(self)@ == Some((album_views(albums@), now)),
            album_views(r@) == album_views(albums@),
    {
        let copy = copy_albums(&albums);
        self.entry = Some((albums, now));
        copy
    }
}

// ---------------------------------------------------------------------------
// Images per album
// ---------------------------------------------------------------------------

/// One cached image list.
pub struct ImagesEntry {
    pub key: String,
    pub images: AlbumImages,
    pub time: u64,
}

pub open spec fn has_key(s: Seq<ImagesEntry>, k: Seq<char>) -> bool {
    exists|i: int| 0 <= i < s.len() && s[i].key@ == k
}

pub open spec fn key_index(s: Seq<ImagesEntry>, k: Seq<char>) -> int {
    choose|i: int| 0 <= i < s.len() && s[i].key@ == k
}

pub open spec fn unique_keys(s: Seq<ImagesEntry>) -> bool {
    forall|i: int, j: int| 0 <= i < s.len() && 0 <= j < s.len() && i != j ==> s[i].key@ != s[j].key@
}

/// The cache contents: album path to image list and the time it was stored.
pub open spec fn entries_map(s: Seq<ImagesEntry>) -> Map<Seq<char>, (AlbumImagesView, u64)> {
    Map::new(
        |k: Seq<char>| has_key(s, k),
        |k: Seq<char>| (s[key_index(s, k)].images@, s[key_index(s, k)].time),
    )
}

/// The cached image lists of albums.
pub struct AlbumImagesCache {
    entries: Vec<ImagesEntry>,
}

/// What the image cache answers for album `key` at `now`.
pub open spec fn cached_images(
    m: Map<Seq<char>, (AlbumImagesView, u64)>,
    key: Seq<char>,
    now: u64,
) -> Option<AlbumImagesView> {
    if m.dom().contains(key) && is_fresh(m[key].1, now) {
        Some(m[key].0)
    } else {
        None
    }
}

impl AlbumImagesCache {
    #[verifier::type_invariant]
    spec fn keys_unique(&self) -> bool {
        unique_keys(self.entries@)
    }
}

impl View for AlbumImagesCache {
    type V = Map<Seq<char>, (AlbumImagesView, u64)>;

    closed spec fn view(&self) -> Map<Seq<char>, (AlbumImagesView, u64)> {
        entries_map(self.entries@)
    }
}

proof fn lemma_found_key(s: Seq<ImagesEntry>, i: int)
    requires
        unique_keys(s),
        0 <= i < s.len(),
    ensures
        has_key(s, s[i].key@),
        key_index(s, s[i].key@) == i,
        entries_map(s).dom().contains(s[i].key@),
        entries_map(s)[s[i].key@] == (s[i].images@, s[i].time),
{
    assert(has_key(s, s[i].key@));
}

impl AlbumImagesCache {
    /// An empty cache.
    pub fn new() -> (r: AlbumImagesCache)
        ensures
            r@ == Map::<Seq<char>, (AlbumImagesView, u64)>::empty(),
    {
        let r = AlbumImagesCache { entries: Vec::new() };
        assert(r@ =~= Map::<Seq<char>, (AlbumImagesView, u64)>::empty());
        r
    }

    /// Position of the entry for `key`, if any.
    fn find(&self, key: &str) -> (r: Option<usize>)
        ensures
            match r {
                Some(i) => i < self.entries@.len() && self.entries@[i as int].key@ == key@,
                None => !has_key(self.entries@, key@),
            },
    {
        let mut i: usize = 0;
        while i < self.entries.len()
            invariant
                i <= self.entries@.len(),
                forall|j: int| 0 <= j < i ==> self.entries@[j].key@ != key@,
            decreases self.entries.len() - i,
        {
            if str_equal(self.entries[i].key.as_str(), key) {
                return Some(i);
            }
            i = i + 1;
        }
        None
    }

    /// The cached image list of album `key`, if it is still fresh at `now`.
    pub fn lookup(&self, key: &str, now: u64) -> (r: Option<AlbumImages>)
        ensures
            match r {
                Some(a) => cached_images(self@, key@, now) == Some(a@),
                None => cached_images(self@, key@, now) is None,
            },
    {
        proof {
            use_type_invariant(self);
        }
        match self.find(key) {
            Some(i) => {
                proof {
                    lemma_found_key(self.entries@, i as int);
                }
                let e = &self.entries[i];
                if fresh(e.time, now) {
                    Some(e.images.duplicate())
                } else {
                    None
                }
            },
            None => None,
        }
    }

    /// Stores the image list of album `key`, taken at `now`, replacing any
    /// earlier one.
    pub fn store(&mut self, key: &str, images: &AlbumImages, now: u64)
        ensures
            final(self)@ == old(self)@.insert(key@, (images@, now)),
    {
        proof {
            use_type_invariant(&*self);
        }
        let ghost old_entries = self.entries@;
        let entry = ImagesEntry { key: String::from_str(key), images: images.duplicate(), time: now };
        match self.find(key) {
            Some(i) => {
                let mut entries: Vec<ImagesEntry> = Vec::new();
                std::mem::swap(&mut entries, &mut self.entries);
                entries.set(i, entry);
                let ghost ne = entries@;
                proof {
                    assert forall|a: int, b: int|
                        0 <= a < ne.len() && 0 <= b < ne.len() && a != b implies ne[a].key@
                        != ne[b].key@ by {
                        assert(old_entries[a].key@ != old_entries[b].key@);
                    }
                    assert forall|k: Seq<char>| has_key(ne, k) <==> has_key(old_entries, k) by {
                        if has_key(old_entries, k) {
                            let j = choose|j: int| 0 <= j < old_entries.len() && old_entries[j].key@ == k;
                            assert(ne[j].key@ == k);
                        }
                        if has_key(ne, k) {
                            let j = choose|j: int| 0 <= j < ne.len() && ne[j].key@ == k;
                            assert(old_entries[j].key@ == k);
                        }
                    }
                    assert forall|k: Seq<char>| #[trigger] has_key(ne, k) && k != key@ implies key_index(ne, k)
                        == key_index(old_entries, k) by {
                        let j = key_index(old_entries, k);
                        let j2 = key_index(ne, k);
                        assert(ne[j2].key@ == k);
                        assert(old_entries[j2].key@ == k);
                    }
                    lemma_found_key(ne, i as int);
                    assert(entries_map(ne) =~= entries_map(old_entries).insert(key@, (images@, now)));
                }
                self.entries = entries;
            },
            None => {
                let mut entries: Vec<ImagesEntry> = Vec::new();
                std::mem::swap(&mut entries, &mut self.entries);
                entries.push(entry);
                let ghost ne = entries@;
                proof {
                    let last = old_entries.len() as int;
                    assert forall|a: int, b: int|
                        0 <= a < ne.len() && 0 <= b < ne.len() && a != b implies ne[a].key@
                        != ne[b].key@ by {
                        if a < last && b < last {
                            assert(old_entries[a].key@ != old_entries[b].key@);
                        } else if a == last {
                            assert(old_entries[b].key@ != key@);
                        } else {
                            assert(old_entries[a].key@ != key@);
                        }
                    }
                    assert forall|k: Seq<char>| has_key(ne, k) <==> (has_key(old_entries, k) || k == key@) by {
                        if has_key(old_entries, k) {
                            let j = choose|j: int| 0 <= j < old_entries.len() && old_entries[j].key@ == k;
                            assert(ne[j].key@ == k);
                        }
                        if k == key@ {
                            assert(ne[last].key@ == k);
                        }
                        if has_key(ne, k) && k != key@ {
                            let j = choose|j: int| 0 <= j < ne.len() && ne[j].key@ == k;
                            assert(j != last);
                            assert(old_entries[j].key@ == k);
                        }
                    }
                    assert forall|k: Seq<char>| #[trigger] has_key(ne, k) && k != key@ implies key_index(ne, k)
                        == key_index(old_entries, k) by {
                        let j2 = key_index(ne, k);
                        assert(ne[j2].key@ == k);
                        assert(j2 != last);
                        assert(old_entries[j2].key@ == k);
                        lemma_found_key(old_entries, j2);
                    }
                    lemma_found_key(ne, last);
                    assert(entries_map(ne) =~= entries_map(old_entries).insert(key@, (images@, now)));
                }
                self.entries = entries;
            },
        }
    }
}

impl AlbumImagesCache {
    /// Records the outcome of scanning album `key` at `now` and hands it
    /// back: an album that was found is remembered, a missing one is not.
    pub fn remember(&mut self, key: &str, result: Option<AlbumImages>, now: u64) -> (r: Option<
        AlbumImages,
    >)
        ensures
            r == result,
            match result {
                Some(a) => final(self)@ == old(self)@.insert(key@, (a@, now)),
                None => final(self)@ == old(self)@,
            },
    {
        match &result {
            Some(a) => {
                self.store(key, a, now);
            },
            None => {},
        }
        result
    }
}

// ---------------------------------------------------------------------------
// Laws
// ---------------------------------------------------------------------------

/// An album list stored at `t` is handed back until the time-to-live has
/// elapsed, and not after.
pub proof fn lemma_albums_read_after_write(albums: Seq<AlbumView>, t: u64, now: u64)
    requires
        t <= now,
    ensures
        now - t < CACHE_TTL_NANOS ==> cached_albums(Some((albums, t)), now) == Some(albums),
        now - t >= CACHE_TTL_NANOS ==> cached_albums(Some((albums, t)), now) is None,
{
}

/// An empty album-list cache answers nothing.
pub proof fn lemma_albums_empty(now: u64)
    ensures
        cached_albums(None, now) is None,
{
}

/// An image list stored for `key` at `t` is handed back for `key` until the
/// time-to-live has elapsed, and not after.
pub proof fn lemma_images_read_after_write(
    m: Map<Seq<char>, (AlbumImagesView, u64)>,
    key: Seq<char>,
    images: AlbumImagesView,
    t: u64,
    now: u64,
)
    requires
        t <= now,
    ensures
        now - t < CACHE_TTL_NANOS ==> cached_images(m.insert(key, (images, t)), key, now) == Some(
            images,
        ),
        now - t >= CACHE_TTL_NANOS ==> cached_images(m.insert(key, (images, t)), key, now) is None,
{
}

/// Storing the image list of one album changes no answer for another album.
pub proof fn lemma_images_other_key(
    m: Map<Seq<char>, (AlbumImagesView, u64)>,
    key: Seq<char>,
    other: Seq<char>,
    images: AlbumImagesView,
    t: u64,
    now: u64,
)
    requires
        other != key,
    ensures
        cached_images(m.insert(key, (images, t)), other, now) == cached_images(m, other, now),
{
}

/// An empty image cache answers nothing.
pub proof fn lemma_images_empty(key: Seq<char>, now: u64)
    ensures
        cached_images(Map::<Seq<char>, (AlbumImagesView, u64)>::empty(), key, now) is None,
{
}

} // verus!
