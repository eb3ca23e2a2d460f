//! The server's state: the root directory and the caches of scan results.
//!
//! Scanning reads the file system, which the caller does; this type holds
//! what is decided around it: whether a cached result may be reused, what
//! is remembered afterwards, and which requested files may be served.

use vstd::prelude::*;
use crate::cache::{AlbumImagesCache, AlbumListCache, cached_albums, cached_images};
use crate::handler::{PathProbe, option_string_view, resolved_path};
use crate::paths::{is_lexically_under, join_path, normalize_components};
use crate::scanner::{Album, AlbumImages, AlbumImagesView, AlbumView, album_views};

verus! {

pub struct AppState {
    root_dir: String,
    albums_cache: AlbumListCache,
    images_cache: AlbumImagesCache,
}

impl AppState {
    /// The root directory.
    pub closed spec fn root_view(&self) -> Seq<char> {
        self.root_dir@
    }

    /// The root directory.
    pub fn root_dir(&self) -> (r: &str)
        ensures
            r@ == self.root_view(),
    {
        self.root_dir.as_str()
    }

    /// The album-list cache.
    pub closed spec fn albums_view(&self) -> Option<(Seq<AlbumView>, u64)> {
        self.albums_cache@
    }

    /// The image-list cache.
    pub closed spec fn images_view(&self) -> Map<Seq<char>, (AlbumImagesView, u64)> {
        self.images_cache@
    }

    /// A state for the gallery rooted at `root_dir`, with empty caches.
    pub fn new(root_dir: String) -> (r: AppState)
        ensures
            r.root_view() == root_dir@,
            r.albums_view() is None,
            r.images_view() == Map::<Seq<char>, (AlbumImagesView, u64)>::empty(),
    {
        AppState {
            root_dir,
            albums_cache: AlbumListCache::new(),
            images_cache: AlbumImagesCache::new(),
        }
    }

    /// The album list cached and still fresh at `now`, if any; otherwise the
    /// caller scans the root directory and calls `remember_albums`.
    pub fn cached_albums(&self, now: u64) -> (r: Option<Vec<Album>>)
        ensures
            match r {
                Some(v) => cached_albums(self.albums_view(), now) == Some(album_views(v@)),
                None => cached_albums(self.albums_view(), now) is None,
            },
    {
        self.albums_cache.lookup(now)
    }

    /// Remembers the album list scanned at `now` and hands it back.
    pub fn remember_albums(&mut self, albums: Vec<Album>, now: u64) -> (r: Vec<Album>)
        ensures
            final(self).albums_view() == Some((album_views(albums@), now)),
            final(self).images_view() == old(self).images_view(),
            final(self).root_view() == old(self).root_view(),
            album_views(r@) == album_views(albums@),
    {
        self.albums_cache.store(albums, now)
    }

    /// The image list of album `album_path` cached and still fresh at `now`,
    /// if any; otherwise the caller scans the album and calls
    /// `remember_album_images`.
    pub fn cached_album_images(&self, album_path: &str, now: u64) -> (r: Option<AlbumImages>)
        ensures
            match r {
                Some(a) => cached_images(self.images_view(), album_path@, now) == Some(a@),
                None => cached_images(self.images_view(), album_path@, now) is None,
            },
    {
        self.images_cache.lookup(album_path, now)
    }

    /// Remembers the outcome of scanning album `album_path` at `now` (only
    /// when the album exists) and hands it back.
    pub fn remember_album_images(
        &mut self,
        album_path: &str,
        result: Option<AlbumImages>,
        now: u64,
    ) -> (r: Option<AlbumImages>)
        ensures
            r == result,
            match result {
                Some(a) => final(self).images_view() == old(self).images_view().insert(
                    album_path@,
                    (a@, now),
                ),
                None => final(self).images_view() == old(self).images_view(),
            },
            final(self).albums_view() == old(self).albums_view(),
            final(self).root_view() == old(self).root_view(),
    {
        self.images_cache.remember(album_path, result, now)
    }

    /// Resolves a request for `rel_path` under the root directory, given
    /// what the file system says about it. An answer always lies lexically
    /// under the root (see `lemma_resolved_inside_root`).
    pub fn resolve_path(&self, rel_path: &str, probe: &PathProbe) -> (r: Option<String>)
        ensures
            option_string_view(r) == resolved_path(
                self.root_view(),
                rel_path@,
                option_string_view(probe.canonical),
                probe.canonical_is_file,
                probe.normalized_is_file,
            ),
    {
        let root = self.root_dir.as_str();
        if rel_path.is_empty() {
            return None;
        }
        match &probe.canonical {
            Some(c) => {
                if is_lexically_under(c.as_str(), root) && probe.canonical_is_file {
                    Some(c.clone())
                } else {
                    None
                }
            },
            None => {
                let full = join_path(root, rel_path);
                let n = normalize_components(full.as_str());
                if is_lexically_under(n.as_str(), root) && probe.normalized_is_file {
                    Some(n)
                } else {
                    None
                }
            },
        }
    }
}

} // verus!
