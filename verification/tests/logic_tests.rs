// Natural order, image recognition, scanning, caches and request handling.

use std::cmp::Ordering;

use nwebp::cache::{AlbumImagesCache, AlbumListCache, CACHE_TTL_NANOS};
use nwebp::handler::{
    normalized_target, raw_reply, raw_request_path, request_target, FileRead, PathProbe, RawQuery,
    RawReply,
};
use nwebp::natord::compare;
use nwebp::paths::{
    climbs_out_of_base, guess_content_type, is_image, is_image_extension, is_lexically_under,
    relative_path,
};
use nwebp::scanner::{
    album_dir, album_within_root, do_get_album_images, do_scan_albums, list_images, Album, AlbumImages, FileEntry,
    WalkEntry,
};
use nwebp::state::AppState;
use nwebp::text::trim_leading_slashes;

fn file(path: &str) -> FileEntry {
    FileEntry { path: path.to_string(), is_file: true }
}

fn not_file(path: &str) -> FileEntry {
    FileEntry { path: path.to_string(), is_file: false }
}

// ---- natural order ----

#[test]
fn numbers_compare_by_value() {
    assert_eq!(compare("2", "10"), Ordering::Less);
    assert_eq!(compare("10", "9"), Ordering::Greater);
    assert_eq!(compare("page2.jpg", "page10.jpg"), Ordering::Less);
    assert_eq!(compare("007", "7"), Ordering::Equal);
}

#[test]
fn text_compares_by_code_point() {
    assert_eq!(compare("a", "b"), Ordering::Less);
    assert_eq!(compare("B", "a"), Ordering::Less);
    assert_eq!(compare("abc", "abc"), Ordering::Equal);
    assert_eq!(compare("", "a"), Ordering::Less);
    assert_eq!(compare("a", ""), Ordering::Greater);
    assert_eq!(compare("", ""), Ordering::Equal);
}

#[test]
fn digits_against_other_characters() {
    // '1' (0x31) sorts after ' ' and before 'a'.
    assert_eq!(compare("1", "a"), Ordering::Less);
    assert_eq!(compare(" ", "1"), Ordering::Less);
    assert_eq!(compare("a1", "a "), Ordering::Greater);
}

#[test]
fn rest_of_name_decides_after_equal_numbers() {
    assert_eq!(compare("1a", "1b"), Ordering::Less);
    assert_eq!(compare("v2a", "v2"), Ordering::Greater);
    assert_eq!(compare("1", "1a"), Ordering::Less);
    assert_eq!(compare("img1.jpg", "img1.png"), Ordering::Less);
    assert_eq!(compare("1.x", "1-y"), Ordering::Greater);
    assert_eq!(compare("a1b2", "a1b10"), Ordering::Less);
}

#[test]
fn numbers_beyond_u64_saturate() {
    assert_eq!(compare("99999999999999999999", "18446744073709551615"), Ordering::Equal);
    assert_eq!(compare("18446744073709551614", "99999999999999999999"), Ordering::Less);
}

#[test]
fn natural_order_is_antisymmetric_on_samples() {
    let names = ["1", "01", "2", "10", "a", "a1", "a10", "a2", "B", " ", "x.9", "x.10", "页2", "页10"];
    for a in names.iter() {
        assert_eq!(compare(a, a), Ordering::Equal);
        for b in names.iter() {
            assert_eq!(compare(a, b), compare(b, a).reverse());
        }
    }
}

// ---- images and content types ----

#[test]
fn image_extensions_case_insensitive() {
    assert!(is_image("/c/al/a.JPG"));
    assert!(is_image("a.jpeg"));
    assert!(is_image("a.Png"));
    assert!(is_image("a.webp"));
    assert!(is_image("a.gif"));
    assert!(is_image("a.bmp"));
    assert!(!is_image("a.txt"));
    assert!(!is_image("jpg"));
    assert!(!is_image(".jpg"));
    assert!(!is_image("a.jpg.bak"));
    assert!(is_image_extension("jpeg"));
    assert!(!is_image_extension("JPEG"));
}

#[test]
fn content_types() {
    assert_eq!(guess_content_type("/r/a.jpg"), "image/jpeg");
    assert_eq!(guess_content_type("/r/a.JPEG"), "image/jpeg");
    assert_eq!(guess_content_type("/r/a.png"), "image/png");
    assert_eq!(guess_content_type("/r/a.webp"), "image/webp");
    assert_eq!(guess_content_type("/r/a.gif"), "image/gif");
    assert_eq!(guess_content_type("/r/a.BMP"), "image/bmp");
    assert_eq!(guess_content_type("/r/a.txt"), "application/octet-stream");
    assert_eq!(guess_content_type("/r/readme"), "application/octet-stream");
}

#[test]
fn relative_paths() {
    assert_eq!(relative_path("/root/al/1.jpg", "/root"), "al/1.jpg");
    assert_eq!(relative_path("/other/1.jpg", "/root"), "/other/1.jpg");
    assert_eq!(relative_path("/rootx/1.jpg", "/root"), "/rootx/1.jpg");
}

// ---- scanning ----

#[test]
fn list_images_keeps_image_files_in_listing_order() {
    let files = vec![
        file("/r/al/b.png"),
        file("/r/al/notes.txt"),
        not_file("/r/al/dir.jpg"),
        file("/r/al/a.JPG"),
    ];
    assert_eq!(list_images(&files), vec!["/r/al/b.png".to_string(), "/r/al/a.JPG".to_string()]);
}

#[test]
fn album_images_in_natural_order() {
    let files = vec![
        file("/r/comics/al/10.jpg"),
        file("/r/comics/al/2.jpg"),
        file("/r/comics/al/1.png"),
        file("/r/comics/al/info.txt"),
        not_file("/r/comics/al/sub"),
    ];
    let got = do_get_album_images("/r", "comics/al", true, &files).unwrap();
    assert_eq!(got.name, "al");
    assert_eq!(got.path, "comics/al");
    assert_eq!(
        got.images,
        vec!["comics/al/1.png".to_string(), "comics/al/2.jpg".to_string(), "comics/al/10.jpg".to_string()]
    );
}

#[test]
fn album_images_keep_listing_order_for_equal_names() {
    let files = vec![file("/r/al/01.jpg"), file("/r/al/1.jpg"), file("/r/al/001.png")];
    let got = do_get_album_images("/r", "al", true, &files).unwrap();
    assert_eq!(got.images, vec!["al/01.jpg".to_string(), "al/1.jpg".to_string(), "al/001.png".to_string()]);
}

#[test]
fn album_images_of_missing_directory() {
    assert!(do_get_album_images("/r", "nope", false, &vec![]).is_none());
    let empty = do_get_album_images("/r", "al", true, &vec![]).unwrap();
    assert!(empty.images.is_empty());
    assert_eq!(album_dir("/r", "al"), "/r/al");
}

#[test]
fn album_paths_leaving_the_root_are_refused() {
    let files = vec![file("/other/1.jpg")];
    assert!(do_get_album_images("/r/comics", "../other", true, &files).is_none());
    assert!(do_get_album_images("/r", "/etc", true, &files).is_none());
    assert!(do_get_album_images("/r", "a/../../x", true, &files).is_none());
    assert!(do_get_album_images("/r", "a/../..", true, &files).is_none());
    assert!(!album_within_root("/r", "../other"));
    assert!(!album_within_root("/r", "/etc"));
    let dotted = do_get_album_images("/r", "a..b", true, &vec![file("/r/a..b/1.jpg")]).unwrap();
    assert_eq!(dotted.images, vec!["a..b/1.jpg".to_string()]);
}

#[test]
fn album_paths_staying_under_the_root_are_listed() {
    let inner = do_get_album_images("/r", "a/../b", true, &vec![file("/r/b/1.jpg")]).unwrap();
    assert_eq!(inner.path, "a/../b");
    assert_eq!(inner.name, "b");
    assert_eq!(inner.images, vec!["b/1.jpg".to_string()]);
    assert!(album_within_root("/r", "a/../b"));
    assert!(album_within_root("/r", "a/.."));
    let absolute = do_get_album_images("/r", "/r/al", true, &vec![file("/r/al/1.jpg")]).unwrap();
    assert_eq!(absolute.images, vec!["al/1.jpg".to_string()]);
}

#[test]
fn climbing_out_of_a_base() {
    assert!(climbs_out_of_base(".."));
    assert!(climbs_out_of_base("../x"));
    assert!(climbs_out_of_base("a/../.."));
    assert!(climbs_out_of_base("a/./../../b"));
    assert!(!climbs_out_of_base("a/../b"));
    assert!(!climbs_out_of_base("a/b/../../c"));
    assert!(!climbs_out_of_base("a..b/.../..c"));
    assert!(!climbs_out_of_base("./a//b/"));
    assert!(!climbs_out_of_base(""));
    assert!(is_lexically_under("/r/a/../b", "/r"));
    assert!(!is_lexically_under("/r/a/../../b", "/r"));
    assert!(!is_lexically_under("/rx/a", "/r"));
    assert!(is_lexically_under("/r", "/r"));
}

#[test]
fn scan_finds_albums_sorted_by_lowercase_name() {
    let entries = vec![
        WalkEntry {
            path: "/r/Zeta".to_string(),
            is_dir: true,
            files: vec![file("/r/Zeta/2.jpg"), file("/r/Zeta/1.jpg")],
        },
        WalkEntry { path: "/r/empty".to_string(), is_dir: true, files: vec![file("/r/empty/x.txt")] },
        WalkEntry { path: "/r/cover.jpg".to_string(), is_dir: false, files: vec![] },
        WalkEntry {
            path: "/r/sub/alpha".to_string(),
            is_dir: true,
            files: vec![file("/r/sub/alpha/p1.png")],
        },
        WalkEntry {
            path: "/r/Beta".to_string(),
            is_dir: true,
            files: vec![file("/r/Beta/a.gif"), file("/r/Beta/b.gif"), file("/r/Beta/c.bmp")],
        },
    ];
    let albums = do_scan_albums("/r", &entries);
    let names: Vec<&str> = albums.iter().map(|a| a.name.as_str()).collect();
    assert_eq!(names, vec!["alpha", "Beta", "Zeta"]);
    assert_eq!(albums[0].path, "sub/alpha");
    assert_eq!(albums[0].image_count, 1);
    assert_eq!(albums[1].image_count, 3);
    assert_eq!(albums[1].cover, Some("Beta/a.gif".to_string()));
    // The cover is the first image in listing order, not in sorted order.
    assert_eq!(albums[2].cover, Some("Zeta/2.jpg".to_string()));
}

#[test]
fn scan_sort_is_stable_for_equal_lowercase_names() {
    let entries = vec![
        WalkEntry { path: "/r/x/ABC".to_string(), is_dir: true, files: vec![file("/r/x/ABC/1.jpg")] },
        WalkEntry { path: "/r/abc".to_string(), is_dir: true, files: vec![file("/r/abc/1.jpg")] },
    ];
    let albums = do_scan_albums("/r", &entries);
    assert_eq!(albums[0].path, "x/ABC");
    assert_eq!(albums[1].path, "abc");
}

#[test]
fn scan_of_nothing_is_empty() {
    assert!(do_scan_albums("/r", &vec![]).is_empty());
}

// ---- caches ----

fn sample_album(name: &str) -> Album {
    Album { name: name.to_string(), path: name.to_string(), image_count: 1, cover: None }
}

fn sample_images(name: &str) -> AlbumImages {
    AlbumImages { name: name.to_string(), path: name.to_string(), images: vec![format!("{}/1.jpg", name)] }
}

#[test]
fn album_list_cache_expires() {
    let mut c = AlbumListCache::new();
    assert!(c.lookup(0).is_none());
    let back = c.store(vec![sample_album("a")], 100);
    assert_eq!(back[0].name, "a");
    assert_eq!(c.lookup(100).unwrap()[0].name, "a");
    assert_eq!(c.lookup(100 + CACHE_TTL_NANOS - 1).unwrap().len(), 1);
    assert!(c.lookup(100 + CACHE_TTL_NANOS).is_none());
    // A clock reading earlier than the store still counts as fresh.
    assert!(c.lookup(50).is_some());
}

#[test]
fn images_cache_per_album() {
    let mut c = AlbumImagesCache::new();
    assert!(c.lookup("a", 0).is_none());
    c.store("a", &sample_images("a"), 10);
    c.store("b", &sample_images("b"), 20);
    assert_eq!(c.lookup("a", 10).unwrap().images, vec!["a/1.jpg".to_string()]);
    assert_eq!(c.lookup("b", 20).unwrap().name, "b");
    c.store("a", &sample_images("a2"), 30);
    assert_eq!(c.lookup("a", 30).unwrap().name, "a2");
    assert_eq!(c.lookup("b", 30).unwrap().name, "b");
    assert!(c.lookup("a", 30 + CACHE_TTL_NANOS).is_none());
    assert!(c.lookup("c", 30).is_none());
}

#[test]
fn only_found_albums_are_remembered() {
    let mut c = AlbumImagesCache::new();
    assert!(c.remember("x", None, 0).is_none());
    assert!(c.lookup("x", 0).is_none());
    let r = c.remember("y", Some(sample_images("y")), 0);
    assert_eq!(r.unwrap().name, "y");
    assert_eq!(c.lookup("y", 1).unwrap().name, "y");
}

#[test]
fn app_state_caches() {
    let mut s = AppState::new("/r".to_string());
    assert_eq!(s.root_dir(), "/r");
    assert!(s.cached_albums(0).is_none());
    let v = s.remember_albums(vec![sample_album("q")], 0);
    assert_eq!(v.len(), 1);
    assert_eq!(s.cached_albums(1).unwrap()[0].name, "q");
    assert!(s.cached_album_images("q", 1).is_none());
    s.remember_album_images("q", Some(sample_images("q")), 1);
    assert_eq!(s.cached_album_images("q", 2).unwrap().path, "q");
    assert!(s.cached_albums(CACHE_TTL_NANOS).is_none());
}

// ---- requests ----

#[test]
fn trims_leading_slashes() {
    assert_eq!(trim_leading_slashes("///a/b/"), "a/b/");
    assert_eq!(trim_leading_slashes("a"), "a");
    assert_eq!(trim_leading_slashes("//"), "");
    assert_eq!(raw_request_path(&RawQuery { path: "/al/1.jpg".to_string() }), "al/1.jpg");
}

#[test]
fn request_targets() {
    assert_eq!(request_target("/r", ""), None);
    assert_eq!(request_target("/r", "al/1.jpg"), Some("/r/al/1.jpg".to_string()));
    assert_eq!(request_target("/r", "/etc/passwd"), Some("/etc/passwd".to_string()));
    assert_eq!(normalized_target("/r/./al//1.jpg"), "/r/al/1.jpg");
    assert_eq!(normalized_target("/r/../etc"), "/r/../etc");
}

fn probe(canonical: Option<&str>, canonical_is_file: bool, normalized_is_file: bool) -> PathProbe {
    PathProbe { canonical: canonical.map(|c| c.to_string()), canonical_is_file, normalized_is_file }
}

#[test]
fn resolve_prefers_canonical_inside_root() {
    let s = AppState::new("/r".to_string());
    assert_eq!(s.resolve_path("al/1.jpg", &probe(Some("/r/al/1.jpg"), true, true)), Some("/r/al/1.jpg".to_string()));
    assert_eq!(s.resolve_path("", &probe(Some("/r/al/1.jpg"), true, true)), None);
}

#[test]
fn resolve_rejects_paths_outside_root() {
    let s = AppState::new("/r".to_string());
    // A symbolic link leading out of the root: the canonical path is refused,
    // and no lexical path is tried instead.
    assert_eq!(s.resolve_path("/etc/passwd", &probe(Some("/etc/passwd"), true, true)), None);
    assert_eq!(s.resolve_path("al/link", &probe(Some("/etc/passwd"), true, true)), None);
    // A request that climbs out with `..`, canonical or not.
    assert_eq!(s.resolve_path("../secret.jpg", &probe(Some("/secret.jpg"), true, true)), None);
    assert_eq!(s.resolve_path("../secret.jpg", &probe(None, false, true)), None);
    assert_eq!(s.resolve_path("al/../../x.jpg", &probe(None, false, true)), None);
    // A path under the root's components whose `..` climbs back out.
    assert_eq!(s.resolve_path("al/1.jpg", &probe(Some("/r/../etc/1.jpg"), true, true)), None);
    // Not a file.
    assert_eq!(s.resolve_path("al", &probe(Some("/r/al"), false, false)), None);
}

#[test]
fn raw_request_with_parent_component_is_not_found() {
    let s = AppState::new("/r".to_string());
    let q = RawQuery { path: "/../secret.jpg".to_string() };
    let rel = raw_request_path(&q);
    assert_eq!(rel, "../secret.jpg");
    let resolved = s.resolve_path(rel, &probe(Some("/secret.jpg"), true, true));
    let r = raw_reply(&resolved, FileRead::Read);
    assert_eq!(r.status(), 404);
    match r {
        RawReply::NotFound(m) => assert_eq!(m, "文件不存在或路径非法"),
        _ => panic!("expected not found"),
    }
}

#[test]
fn resolve_allows_parent_components_that_stay_inside() {
    let s = AppState::new("/srv".to_string());
    assert_eq!(s.resolve_path("a/../1.jpg", &probe(Some("/srv/1.jpg"), true, true)), Some("/srv/1.jpg".to_string()));
    assert_eq!(s.resolve_path("a/../1.jpg", &probe(None, false, true)), Some("/srv/a/../1.jpg".to_string()));
    assert_eq!(
        s.resolve_path("al/../../srv/al/1.jpg", &probe(Some("/srv/al/1.jpg"), true, true)),
        Some("/srv/al/1.jpg".to_string())
    );
}

#[test]
fn resolve_falls_back_to_lexical_path() {
    let s = AppState::new("/r".to_string());
    assert_eq!(s.resolve_path("al/./1.jpg", &probe(None, false, true)), Some("/r/al/1.jpg".to_string()));
    assert_eq!(s.resolve_path("al/1.jpg", &probe(None, false, false)), None);
    // The lexical path is only tried when there is no canonical path.
    assert_eq!(s.resolve_path("al/1.jpg", &probe(Some("/r/al/1.jpg"), false, true)), None);
}

#[test]
fn raw_replies() {
    let none: Option<String> = None;
    match raw_reply(&none, FileRead::Read) {
        RawReply::NotFound(m) => assert_eq!(m, "文件不存在或路径非法"),
        _ => panic!("expected not found"),
    }
    let p = Some("/r/al/1.PNG".to_string());
    match raw_reply(&p, FileRead::OpenFailed) {
        RawReply::NotFound(m) => assert_eq!(m, "文件不存在"),
        _ => panic!("expected not found"),
    }
    let r = raw_reply(&p, FileRead::ReadFailed);
    assert_eq!(r.status(), 500);
    match r {
        RawReply::ServerError(m) => assert_eq!(m, "读取文件失败"),
        _ => panic!("expected server error"),
    }
    let r = raw_reply(&p, FileRead::Read);
    assert_eq!(r.status(), 200);
    match r {
        RawReply::Image { content_type, cache_control, accept_ranges } => {
            assert_eq!(content_type, "image/png");
            assert_eq!(cache_control, "public, max-age=604800");
            assert_eq!(accept_ranges, "bytes");
        }
        _ => panic!("expected image"),
    }
}
