//! Recognising albums (directories that hold images) and the images of an
//! album, from directory listings that the caller has read.

use vstd::prelude::*;
use crate::paths::{
    file_name, file_name_of, is_image, is_image_path, is_lexically_under, join_path,
    joined_path, lexically_under, relative_path, relative_to,
};
use crate::sorting::{is_stable_sort_of, key_views, permuted, stable_order, stable_sort_order,
    lemma_stable_order_is};
use crate::text::{chars_of, lowercase_of, to_lowercase};

verus! {

/// One entry of a directory listing.
pub struct FileEntry {
    /// The entry's full path.
    pub path: String,
    /// Whether the entry is a regular file (following symbolic links).
    pub is_file: bool,
}

/// One entry met while walking the root directory (depth 1 to 3), with the
/// listing of the directory it names.
pub struct WalkEntry {
    /// The entry's full path.
    pub path: String,
    /// Whether the entry is itself a directory.
    pub is_dir: bool,
    /// The entries of that directory, in the order the system lists them
    /// (empty when it cannot be read).
    pub files: Vec<FileEntry>,
}

/// An album: a directory holding images.
#[derive(Clone)]
pub struct Album {
    pub name: String,
    /// Path relative to the root directory.
    pub path: String,
    pub image_count: usize,
    /// Path of the cover image, relative to the root directory.
    pub cover: Option<String>,
}

/// The images of one album.
#[derive(Clone)]
pub struct AlbumImages {
    pub name: String,
    pub path: String,
    /// Image paths relative to the root directory, in natural order of
    /// their file names.
    pub images: Vec<String>,
}

/// Settings of the index page.
#[derive(Clone)]
pub struct Config {
    pub title: String,
    pub subtitle: String,
    pub footer: String,
    pub primary_color: String,
    pub show_cover: bool,
}

pub struct AlbumView {
    pub name: Seq<char>,
    pub path: Seq<char>,
    pub image_count: nat,
    pub cover: Option<Seq<char>>,
}

pub struct AlbumImagesView {
    pub name: Seq<char>,
    pub path: Seq<char>,
    pub images: Seq<Seq<char>>,
}

pub open spec fn string_views(v: Seq<String>) -> Seq<Seq<char>> {
    Seq::new(v.len(), |i: int| v[i]@)
}

pub open spec fn option_view(o: Option<String>) -> Option<Seq<char>> {
    match o {
        Some(s) => Some(s@),
        None => None,
    }
}

impl View for Album {
    type V = AlbumView;

    open spec fn view(&self) -> AlbumView {
        AlbumView {
            name: self.name@,
            path: self.path@,
            image_count: self.image_count as nat,
            cover: option_view(self.cover),
        }
    }
}

impl View for AlbumImages {
    type V = AlbumImagesView;

    open spec fn view(&self) -> AlbumImagesView {
        AlbumImagesView { name: self.name@, path: self.path@, images: string_views(self.images@) }
    }
}

pub open spec fn album_views(v: Seq<Album>) -> Seq<AlbumView> {
    Seq::new(v.len(), |i: int| v[i]@)
}

impl Album {
    /// A copy of this album.
    pub fn duplicate(&self) -> (r: Album)
        ensures
            r@ == self@,
    {
        let cover = match &self.cover {
            Some(c) => Some(c.clone()),
            None => None,
        };
        Album {
            name: self.name.clone(),
            path: self.path.clone(),
            image_count: self.image_count,
            cover,
        }
    }
}

impl AlbumImages {
    /// A copy of this image list.
    pub fn duplicate(&self) -> (r: AlbumImages)
        ensures
            r@ == self@,
    {
        AlbumImages {
            name: self.name.clone(),
            path: self.path.clone(),
            images: copy_strings(&self.images),
        }
    }
}

/// A copy of a list of strings.
pub fn copy_strings(v: &Vec<String>) -> (r: Vec<String>)
    ensures
        string_views(r@) == string_views(v@),
{
    let mut out: Vec<String> = Vec::new();
    let mut i: usize = 0;
    while i < v.len()
        invariant
            i <= v.len(),
            out.len() == i,
            forall|k: int| 0 <= k < i ==> #[trigger] out@[k]@ == v@[k]@,
        decreases v.len() - i,
    {
        out.push(v[i].clone());
        i = i + 1;
    }
    assert(string_views(out@) == string_views(v@));
    out
}

/// A copy of a list of albums.
pub fn copy_albums(v: &Vec<Album>) -> (r: Vec<Album>)
    ensures
        album_views(r@) == album_views(v@),
{
    let mut out: Vec<Album> = Vec::new();
    let mut i: usize = 0;
    while i < v.len()
        invariant
            i <= v.len(),
            out.len() == i,
            forall|k: int| 0 <= k < i ==> #[trigger] out@[k]@ == v@[k]@,
        decreases v.len() - i,
    {
        out.push(v[i].duplicate());
        i = i + 1;
    }
    assert(album_views(out@) == album_views(v@));
    out
}

// ---------------------------------------------------------------------------
// Images of a directory
// ---------------------------------------------------------------------------

/// The paths of the image files among `files`, in listing order.
pub open spec fn image_paths(files: Seq<FileEntry>) -> Seq<Seq<char>>
    decreases files.len(),
{
    if files.len() == 0 {
        Seq::empty()
    } else {
        let e = files.last();
        let rest = image_paths(files.drop_last());
        if e.is_file && is_image_path(e.path@) {
            rest.push(e.path@)
        } else {
            rest
        }
    }
}

/// Every path `list_images` keeps is a regular file with an image extension.
pub proof fn lemma_image_paths_are_images(files: Seq<FileEntry>)
    ensures
        forall|i: int|
            0 <= i < image_paths(files).len() ==> is_image_path(#[trigger] image_paths(files)[i]),
        image_paths(files).len() <= files.len(),
    decreases files.len(),
{
    if files.len() > 0 {
        lemma_image_paths_are_images(files.drop_last());
    }
}

/// The image files of a directory listing: regular files whose extension
/// is an image extension, in listing order.
pub fn list_images(files: &Vec<FileEntry>) -> (r: Vec<String>)
    ensures
        string_views(r@) == image_paths(files@),
{
    let mut out: Vec<String> = Vec::new();
    let mut i: usize = 0;
    while i < files.len()
        invariant
            i <= files.len(),
            string_views(out@) == image_paths(files@.take(i as int)),
        decreases files.len() - i,
    {
        let e = &files[i];
        assert(files@.take(i + 1).drop_last() == files@.take(i as int));
        assert(files@.take(i + 1).last() == files@[i as int]);
        if e.is_file && is_image(e.path.as_str()) {
            let ghost before = out@;
            out.push(e.path.clone());
            assert(string_views(out@) == string_views(before).push(e.path@));
        }
        i = i + 1;
    }
    assert(files@.take(files.len() as int) == files@);
    out
}

/// The file name of `p`, or the empty string when it has none.
pub open spec fn name_or_empty(p: Seq<char>) -> Seq<char> {
    match file_name_of(p) {
        Some(n) => n,
        None => Seq::empty(),
    }
}

/// The file name of `p`, or `fallback` when it has none.
pub open spec fn name_or(p: Seq<char>, fallback: Seq<char>) -> Seq<char> {
    match file_name_of(p) {
        Some(n) => n,
        None => fallback,
    }
}

/// The keys by which the images of an album are sorted: their file names.
pub open spec fn image_keys(paths: Seq<Seq<char>>) -> Seq<Seq<char>> {
    Seq::new(paths.len(), |i: int| name_or_empty(paths[i]))
}

/// Each path of `paths` taken relative to `root`.
pub open spec fn relative_all(paths: Seq<Seq<char>>, root: Seq<char>) -> Seq<Seq<char>> {
    Seq::new(paths.len(), |i: int| relative_to(paths[i], root))
}

/// The images of album `album_path` under `root`, given whether that
/// directory exists and its listing. An album path whose directory does
/// not lie lexically under the root names no album.
pub open spec fn album_images(
    root: Seq<char>,
    album_path: Seq<char>,
    is_dir: bool,
    files: Seq<FileEntry>,
) -> Option<AlbumImagesView> {
    if !lexically_under(joined_path(root, album_path), root) || !is_dir {
        None
    } else {
        let imgs = image_paths(files);
        Some(
            AlbumImagesView {
                name: name_or(joined_path(root, album_path), album_path),
                path: album_path,
                images: relative_all(permuted(imgs, stable_order(true, image_keys(imgs))), root),
            },
        )
    }
}

/// Whether the directory of album `album_path` lies lexically under `root`;
/// only then is it worth reading.
pub fn album_within_root(root: &str, album_path: &str) -> (r: bool)
    ensures
        r == lexically_under(joined_path(root@, album_path@), root@),
{
    let full = join_path(root, album_path);
    is_lexically_under(full.as_str(), root)
}

/// The directory of album `album_path` under `root`.
pub fn album_dir(root: &str, album_path: &str) -> (r: String)
    ensures
        r@ == joined_path(root@, album_path@),
{
    join_path(root, album_path)
}

/// The images of album `album_path` under `root`: `None` when its directory
/// does not lie lexically under `root` (it climbs out with `..`, or an
/// absolute path names another place) or is not a directory, else its image
/// files in natural order of their file names, as paths relative to `root`.
///
/// `is_dir` and `files` describe the directory `album_dir(root, album_path)`;
/// the caller need not read them for a path that `album_within_root`
/// refuses.
pub fn do_get_album_images(
    root: &str,
    album_path: &str,
    is_dir: bool,
    files: &Vec<FileEntry>,
) -> (r: Option<AlbumImages>)
    ensures
        match r {
            Some(a) => album_images(root@, album_path@, is_dir, files@) == Some(a@),
            None => album_images(root@, album_path@, is_dir, files@) is None,
        },
        !lexically_under(joined_path(root@, album_path@), root@) ==> r is None,
        is_stable_sort_of(
            true,
            image_keys(image_paths(files@)),
            stable_order(true, image_keys(image_paths(files@))),
        ),
{
    let images = list_images(files);
    let ghost imgs = image_paths(files@);
    let mut keys: Vec<Vec<char>> = Vec::new();
    let mut i: usize = 0;
    while i < images.len()
        invariant
            i <= images.len(),
            string_views(images@) == imgs,
            keys.len() == i,
            forall|k: int| 0 <= k < i ==> #[trigger] keys@[k]@ == name_or_empty(imgs[k]),
        decreases images.len() - i,
    {
        let n = match file_name(images[i].as_str()) {
            Some(n) => n,
            None => String::new(),
        };
        assert(images@[i as int]@ == imgs[i as int]);
        keys.push(chars_of(n.as_str()));
        i = i + 1;
    }
    assert(key_views(keys@) == image_keys(imgs));
    let order = stable_sort_order(&keys, true);
    proof {
        lemma_stable_order_is(true, image_keys(imgs), order@);
    }
    let mut rel: Vec<String> = Vec::new();
    let mut k: usize = 0;
    while k < order.len()
        invariant
            k <= order.len(),
            order.len() == images.len(),
            string_views(images@) == imgs,
            is_stable_sort_of(true, image_keys(imgs), order@),
            rel.len() == k,
            forall|t: int|
                0 <= t < k ==> #[trigger] rel@[t]@ == relative_to(imgs[order@[t] as int], root@),
        decreases order.len() - k,
    {
        let idx = order[k];
        assert(images@[idx as int]@ == imgs[idx as int]);
        rel.push(relative_path(images[idx].as_str(), root));
        k = k + 1;
    }
    let full = join_path(root, album_path);
    if !is_dir || !is_lexically_under(full.as_str(), root) {
        return None;
    }
    let name = match file_name(full.as_str()) {
        Some(n) => n,
        None => String::from_str(album_path),
    };
    let result = AlbumImages { name, path: String::from_str(album_path), images: rel };
    assert(string_views(result.images@) == relative_all(
        permuted(imgs, stable_order(true, image_keys(imgs))),
        root@,
    ));
    Some(result)
}

// ---------------------------------------------------------------------------
// Albums of the root directory
// ---------------------------------------------------------------------------

/// The album a walk entry makes, if any: a directory with at least one image.
pub open spec fn album_of(root: Seq<char>, e: WalkEntry) -> Option<AlbumView> {
    let imgs = image_paths(e.files@);
    if !e.is_dir || imgs.len() == 0 {
        None
    } else {
        let rel = relative_to(e.path@, root);
        Some(
            AlbumView {
                name: name_or(e.path@, rel),
                path: rel,
                image_count: imgs.len(),
                cover: Some(relative_to(imgs[0], root)),
            },
        )
    }
}

/// The albums of a walk, in walk order.
pub open spec fn albums_in_walk(root: Seq<char>, entries: Seq<WalkEntry>) -> Seq<AlbumView>
    decreases entries.len(),
{
    if entries.len() == 0 {
        Seq::empty()
    } else {
        let rest = albums_in_walk(root, entries.drop_last());
        match album_of(root, entries.last()) {
            Some(a) => rest.push(a),
            None => rest,
        }
    }
}

/// The keys by which albums are sorted: their lower-cased names.
pub open spec fn album_keys(albums: Seq<AlbumView>) -> Seq<Seq<char>> {
    Seq::new(albums.len(), |i: int| lowercase_of(albums[i].name))
}

/// The albums of a walk, sorted (stably) by lower-cased name in code-point
/// order.
pub open spec fn scanned_albums(root: Seq<char>, entries: Seq<WalkEntry>) -> Seq<AlbumView> {
    let found = albums_in_walk(root, entries);
    permuted(found, stable_order(false, album_keys(found)))
}

/// `f` is an image file: a regular file whose extension is an image
/// extension.
pub open spec fn is_image_file(f: FileEntry) -> bool {
    f.is_file && is_image_path(f.path@)
}

/// The image list of a listing is empty exactly when the listing holds no
/// image file, and otherwise starts with the first image file's path.
proof fn lemma_first_image(files: Seq<FileEntry>)
    ensures
        image_paths(files).len() == 0 <==> forall|j: int|
            0 <= j < files.len() ==> !#[trigger] is_image_file(files[j]),
        image_paths(files).len() > 0 ==> exists|k: int|
            0 <= k < files.len() && #[trigger] is_image_file(files[k]) && (forall|j: int|
                0 <= j < k ==> !#[trigger] is_image_file(files[j])) && image_paths(files)[0]
                == files[k].path@,
    decreases files.len(),
{
    if files.len() > 0 {
        let d = files.drop_last();
        let last = files.len() - 1;
        lemma_first_image(d);
        assert forall|j: int| 0 <= j < d.len() implies files[j] == d[j] by {}
        if image_paths(d).len() > 0 {
            let k = choose|k: int|
                0 <= k < d.len() && #[trigger] is_image_file(d[k]) && (forall|j: int|
                    0 <= j < k ==> !#[trigger] is_image_file(d[j])) && image_paths(d)[0]
                    == d[k].path@;
            assert(files[k] == d[k]);
            assert forall|j: int| 0 <= j < k implies !#[trigger] is_image_file(files[j]) by {
                assert(files[j] == d[j]);
            }
            assert(image_paths(files)[0] == image_paths(d)[0]);
            assert(!(forall|j: int| 0 <= j < files.len() ==> !#[trigger] is_image_file(files[j])))
                by {
                assert(is_image_file(files[k]));
            }
        } else {
            if is_image_file(files[last]) {
                assert forall|j: int| 0 <= j < last implies !#[trigger] is_image_file(files[j]) by {
                    assert(files[j] == d[j]);
                    assert(!is_image_file(d[j]));
                }
                assert(image_paths(files) == image_paths(d).push(files[last].path@));
                assert(image_paths(files)[0] == files[last].path@);
            } else {
                assert forall|j: int| 0 <= j < files.len() implies !#[trigger] is_image_file(
                    files[j],
                ) by {
                    if j < last {
                        assert(files[j] == d[j]);
                        assert(!is_image_file(d[j]));
                    }
                }
            }
        }
    }
}

/// The image list of a listing has as many paths as the listing has image
/// files.
proof fn lemma_image_count(files: Seq<FileEntry>, pred: spec_fn(FileEntry) -> bool)
    requires
        forall|f: FileEntry| #[trigger] pred(f) == is_image_file(f),
    ensures
        image_paths(files).len() == files.filter(pred).len(),
    decreases files.len(),
{
    reveal(Seq::filter);
    if files.len() > 0 {
        lemma_image_count(files.drop_last(), pred);
        assert(pred(files.last()) == is_image_file(files.last()));
    }
}

/// What an album made from a walk entry counts and shows: an entry makes an
/// album exactly when it is a directory whose listing holds an image file;
/// the album's page count is the number of image files of the listing (not
/// of all its entries), its cover is the first image file of the listing,
/// relative to the root, and its path is the entry's path relative to the
/// root.
pub proof fn lemma_album_of_entry(root: Seq<char>, e: WalkEntry)
    ensures
        album_of(root, e) is Some <==> e.is_dir && exists|k: int|
            0 <= k < e.files@.len() && #[trigger] is_image_file(e.files@[k]),
        album_of(root, e) is Some ==> {
            let a = album_of(root, e)->0;
            &&& a.image_count == e.files@.filter(|f: FileEntry| is_image_file(f)).len()
            &&& a.path == relative_to(e.path@, root)
            &&& exists|k: int|
                0 <= k < e.files@.len() && #[trigger] is_image_file(e.files@[k]) && (forall|j: int|
                    0 <= j < k ==> !#[trigger] is_image_file(e.files@[j])) && a.cover == Some(
                    relative_to(e.files@[k].path@, root),
                )
        },
{
    let files = e.files@;
    lemma_first_image(files);
    lemma_image_count(files, |f: FileEntry| is_image_file(f));
}

/// The albums found in a walk are exactly the albums its entries make, in
/// walk order: each found album is the album of some entry, and each entry
/// that makes an album has it among those found.
pub proof fn lemma_albums_in_walk_from_entries(root: Seq<char>, entries: Seq<WalkEntry>)
    ensures
        forall|i: int|
            #![trigger albums_in_walk(root, entries)[i]]
            0 <= i < albums_in_walk(root, entries).len() ==> exists|k: int|
                0 <= k < entries.len() && album_of(root, #[trigger] entries[k]) == Some(
                    albums_in_walk(root, entries)[i],
                ),
        forall|k: int|
            0 <= k < entries.len() && (#[trigger] album_of(root, entries[k])) is Some ==> exists|
                i: int,
            |
                0 <= i < albums_in_walk(root, entries).len() && Some(
                    #[trigger] albums_in_walk(root, entries)[i],
                ) == album_of(root, entries[k]),
    decreases entries.len(),
{
    if entries.len() > 0 {
        let d = entries.drop_last();
        let last = entries.len() - 1;
        lemma_albums_in_walk_from_entries(root, d);
        let found = albums_in_walk(root, entries);
        let prev = albums_in_walk(root, d);
        assert forall|k: int| 0 <= k < d.len() implies entries[k] == d[k] by {}
        assert forall|i: int| 0 <= i < prev.len() implies found[i] == prev[i] by {}
        assert forall|i: int| #![trigger found[i]] 0 <= i < found.len() implies exists|k: int|
            0 <= k < entries.len() && album_of(root, #[trigger] entries[k]) == Some(found[i]) by {
            if i < prev.len() {
                let k = choose|k: int|
                    0 <= k < d.len() && album_of(root, #[trigger] d[k]) == Some(prev[i]);
                assert(entries[k] == d[k]);
            } else {
                assert(album_of(root, entries[last]) == Some(found[i]));
            }
        }
        assert forall|k: int|
            0 <= k < entries.len() && (#[trigger] album_of(root, entries[k])) is Some implies exists|
                i: int,
            |
                0 <= i < found.len() && Some(#[trigger] found[i]) == album_of(root, entries[k]) by {
            if k < last {
                assert(entries[k] == d[k]);
                assert(album_of(root, d[k]) is Some);
                let i = choose|i: int|
                    0 <= i < prev.len() && Some(#[trigger] prev[i]) == album_of(root, d[k]);
                assert(found[i] == prev[i]);
            } else {
                assert(found[prev.len() as int] == album_of(root, entries[last])->0);
            }
        }
    }
}

/// Builds the album of one walk entry, if it is one.
fn album_from_entry(root: &str, e: &WalkEntry) -> (r: Option<Album>)
    ensures
        r matches Some(a) ==> a.image_count > 0 && a.cover is Some,
        match r {
            Some(a) => album_of(root@, *e) == Some(a@),
            None => album_of(root@, *e) is None,
        },
{
    if !e.is_dir {
        return None;
    }
    let images = list_images(&e.files);
    if images.len() == 0 {
        return None;
    }
    let relative = relative_path(e.path.as_str(), root);
    let name = match file_name(e.path.as_str()) {
        Some(n) => n,
        None => relative.clone(),
    };
    let cover = relative_path(images[0].as_str(), root);
    Some(Album { name, path: relative, image_count: images.len(), cover: Some(cover) })
}

/// The albums under `root`: every walked directory that holds at least one
/// image, sorted by lower-cased name.
///
/// `entries` are the entries met walking `root` at depth 1 to 3, in walk
/// order, each with the listing of the directory it names.
pub fn do_scan_albums(root: &str, entries: &Vec<WalkEntry>) -> (r: Vec<Album>)
    ensures
        album_views(r@) == scanned_albums(root@, entries@),
        is_stable_sort_of(
            false,
            album_keys(albums_in_walk(root@, entries@)),
            stable_order(false, album_keys(albums_in_walk(root@, entries@))),
        ),
        forall|i: int| 0 <= i < r@.len() ==> #[trigger] r@[i].image_count > 0 && r@[i].cover is Some,
{
    let mut found: Vec<Album> = Vec::new();
    let mut i: usize = 0;
    while i < entries.len()
        invariant
            i <= entries.len(),
            album_views(found@) == albums_in_walk(root@, entries@.take(i as int)),
            forall|t: int| 0 <= t < found@.len() ==> #[trigger] found@[t].image_count > 0 && found@[t].cover is Some,
        decreases entries.len() - i,
    {
        assert(entries@.take(i + 1).drop_last() == entries@.take(i as int));
        assert(entries@.take(i + 1).last() == entries@[i as int]);
        match album_from_entry(root, &entries[i]) {
            Some(a) => {
                let ghost before = found@;
                found.push(a);
                assert(album_views(found@) == album_views(before).push(a@));
            },
            None => {},
        }
        i = i + 1;
    }
    assert(entries@.take(entries.len() as int) == entries@);
    let ghost fv = album_views(found@);
    let mut keys: Vec<Vec<char>> = Vec::new();
    let mut j: usize = 0;
    while j < found.len()
        invariant
            j <= found.len(),
            fv == album_views(found@),
            forall|t: int| 0 <= t < found@.len() ==> #[trigger] found@[t].image_count > 0 && found@[t].cover is Some,
            keys.len() == j,
            forall|k: int| 0 <= k < j ==> #[trigger] keys@[k]@ == lowercase_of(fv[k].name),
        decreases found.len() - j,
    {
        let lower = to_lowercase(found[j].name.as_str());
        keys.push(chars_of(lower.as_str()));
        j = j + 1;
    }
    assert(key_views(keys@) == album_keys(fv));
    let order = stable_sort_order(&keys, false);
    proof {
        lemma_stable_order_is(false, album_keys(fv), order@);
    }
    let mut out: Vec<Album> = Vec::new();
    let mut k: usize = 0;
    while k < order.len()
        invariant
            k <= order.len(),
            order.len() == found.len(),
            fv == album_views(found@),
            is_stable_sort_of(false, album_keys(fv), order@),
            forall|t: int| 0 <= t < found@.len() ==> #[trigger] found@[t].image_count > 0 && found@[t].cover is Some,
            forall|t: int| 0 <= t < out@.len() ==> #[trigger] out@[t].image_count > 0 && out@[t].cover is Some,
            out.len() == k,
            forall|t: int| 0 <= t < k ==> #[trigger] out@[t]@ == fv[order@[t] as int],
        decreases order.len() - k,
    {
        out.push(found[order[k]].duplicate());
        k = k + 1;
    }
    assert(album_views(out@) == permuted(fv, stable_order(false, album_keys(fv))));
    out
}

} // verus!
