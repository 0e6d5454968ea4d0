use std::collections::BTreeMap;

use psysonic::bucket::{
    cleared_entries, count_cached_cover_ids, is_external, layout_reset_needed, merge_cover_bucket,
    purge_external_files, rename_bucket_inner, rename_bucket_step, BucketEntry, RenameStart,
    RenameStep,
};
use psysonic::ensure::{ensure_peek, CoverCacheEnsureArgs};
use psysonic::index_key::is_safe_index_key;
use psysonic::media::Platform;
use psysonic::paths::{
    cover_dir, cover_server_dir, file_name, join, tier_path, PathStyle, Place,
};
use psysonic::peek::{cover_cache_peek_batch, CoverCachePeekItem};
use psysonic::picture::{
    decode_image_bytes, decode_tier_bytes, pixels_to_png, webp_to_png, Samples, WebpPixels,
};
use psysonic::tiers::{
    disk_source_tiers, fetch_size, peek_fallback_tiers, peek_plain_cover_tier, peek_tier_path,
    remaining_tiers, tiers_now, CANONICAL_TIER,
};
use psysonic::usage::DirUsageCache;

/// A file system in memory: every path holds a directory (`None`) or a file.
type Tree = BTreeMap<String, Option<Vec<u8>>>;

fn make_dir(tree: &mut Tree, path: &str) {
    let mut so_far = String::new();
    for part in path.split('/') {
        if !so_far.is_empty() {
            so_far.push('/');
        }
        so_far.push_str(part);
        tree.entry(so_far.clone()).or_insert(None);
    }
}

fn write_file(tree: &mut Tree, path: &str, bytes: &[u8]) {
    if let Some((parent, _)) = path.rsplit_once('/') {
        make_dir(tree, parent);
    }
    tree.insert(path.to_string(), Some(bytes.to_vec()));
}

fn is_there(tree: &Tree, path: &str) -> bool {
    tree.contains_key(path)
}

fn read(tree: &Tree, path: &str) -> Vec<u8> {
    tree[path].clone().unwrap()
}

/// What lies below `dir`, parents first, by its path from there.
fn list_below(tree: &Tree, dir: &str) -> Vec<BucketEntry> {
    let prefix = format!("{dir}/");
    tree.iter()
        .filter(|(path, _)| path.starts_with(&prefix))
        .map(|(path, what)| BucketEntry {
            path: path[prefix.len()..].to_string(),
            is_dir: what.is_none(),
        })
        .collect()
}

fn unix(path: &str) -> Place {
    Place { style: PathStyle::Unix, path: path.into() }
}

fn windows(path: &str) -> Place {
    Place { style: PathStyle::Windows, path: path.into() }
}

fn below(base: &str, part: &str) -> String {
    join(&unix(base), part).path
}

/// Carries a merge of `old` into `new` out, step by step.
fn merge(tree: &mut Tree, old: &str, new: &str) {
    let plan = merge_cover_bucket(&list_below(tree, old), &list_below(tree, new));
    for step in plan {
        let from = format!("{old}/{}", step.path);
        let to = format!("{new}/{}", step.path);
        if let Some((parent, _)) = to.rsplit_once('/') {
            assert_eq!(tree.get(parent), Some(&None), "the parent of {to} is there");
        }
        if step.is_dir {
            tree.insert(to, None);
        } else {
            let moved = tree.remove(&from).unwrap();
            tree.insert(to, moved);
        }
    }
}

fn remove_below(tree: &mut Tree, dir: &str) {
    let prefix = format!("{dir}/");
    tree.retain(|path, _| path != dir && !path.starts_with(&prefix));
}

/// Renames a bucket of the cache at `root`, as far as it has to be.
fn rename(tree: &mut Tree, root: &str, old: &str, new: &str) -> Result<(), String> {
    let (old_dir, new_dir, nested) = match rename_bucket_inner(&unix(root), old, new)? {
        RenameStart::Done => return Ok(()),
        RenameStart::Inspect { old_dir, new_dir, nested } => (old_dir.path, new_dir.path, nested),
    };
    let old_is_dir = tree.get(&old_dir) == Some(&None);
    match rename_bucket_step(old_is_dir, is_there(tree, &new_dir), nested)? {
        RenameStep::Done => {}
        RenameStep::Rename => {
            let prefix = format!("{old_dir}/");
            let moved: Vec<(String, Option<Vec<u8>>)> = tree
                .iter()
                .filter(|(path, _)| **path == old_dir || path.starts_with(&prefix))
                .map(|(path, what)| {
                    (format!("{new_dir}{}", &path[old_dir.len()..]), what.clone())
                })
                .collect();
            remove_below(tree, &old_dir);
            tree.extend(moved);
        }
        RenameStep::Merge => {
            merge(tree, &old_dir, &new_dir);
            remove_below(tree, &old_dir);
        }
    }
    Ok(())
}

/// The tiers that a directory has.
fn tiers_in(tree: &Tree, dir: &str) -> Vec<u32> {
    [64u32, 128, 256, 300, 512, 800, 2000, 3000]
        .into_iter()
        .filter(|t| is_there(tree, &tier_path(&unix(dir), *t)))
        .collect()
}

#[test]
fn count_cached_cover_ids_is_per_server_bucket() {
    let root = &unix("/tmp/count-per-server");
    let mut tree = Tree::new();
    let home = cover_dir(root, "music.home.example", "album", "al-home");
    make_dir(&mut tree, &home.path);
    write_file(&mut tree, &join(&home, &format!("{CANONICAL_TIER}.webp")).path, b"x");
    let files: Vec<String> = tree
        .iter()
        .filter(|(_, what)| what.is_some())
        .map(|(path, _)| path.clone())
        .collect();
    assert_eq!(count_cached_cover_ids(root, "music.home.example", &files), 1);
    assert_eq!(count_cached_cover_ids(root, "music.other.example", &files), 0);
}

#[test]
fn counting_ignores_other_tiers_kinds_and_nested_buckets() {
    let files: Vec<String> = [
        "/c/host/album/a1/800.webp",
        "/c/host/artist/b1/800.webp",
        "/c/host/artist/b1/512.webp",
        "/c/host/playlist/p1/800.webp",
        "/c/host/album/800.webp",
        "/c/host/sub/album/a2/800.webp",
        "/c/host2/album/a3/800.webp",
    ]
    .into_iter()
    .map(String::from)
    .collect();
    assert_eq!(count_cached_cover_ids(&unix("/c"), "host", &files), 2);
    assert_eq!(count_cached_cover_ids(&unix("/c"), "host/sub", &files), 1);
    assert_eq!(count_cached_cover_ids(&unix("/c"), "host2", &files), 1);
}

#[test]
fn disk_layout_paths() {
    let root = &unix("/tmp/cover-test");
    let dir = cover_dir(root, "srv", "album", "al-1");
    assert_eq!(dir, join(&join(&join(root, "srv"), "album"), "al-1"));
    assert_eq!(dir.path, "/tmp/cover-test/srv/album/al-1");
    assert_eq!(tier_path(&dir, 512), join(&dir, "512.webp").path);
    assert_eq!(tier_path(&dir, 512), "/tmp/cover-test/srv/album/al-1/512.webp");
}

#[test]
fn joining_follows_the_rules_of_paths() {
    assert_eq!(below("a", "b"), "a/b");
    assert_eq!(below("a/", "b"), "a/b");
    assert_eq!(below("", "b"), "b");
    assert_eq!(below("a", "/b"), "/b");
    assert_eq!(below("a\\", "b"), "a\\/b");
    assert_eq!(below("a", "C:b"), "a/C:b");
    assert_eq!(cover_server_dir(&unix("/c"), "host:4533/sub").path, "/c/host:4533/sub");
    assert_eq!(file_name(PathStyle::Unix, "/c/x/12.webp"), "12.webp");
    assert_eq!(file_name(PathStyle::Unix, "/c/x/"), "");
    assert_eq!(file_name(PathStyle::Unix, "a\\b"), "a\\b");
    assert_eq!(file_name(PathStyle::Unix, "plain"), "plain");
}

#[test]
fn joining_on_windows_minds_drives_and_shares() {
    let join_w = |base: &str, part: &str| join(&windows(base), part).path;
    assert_eq!(join_w("C:\\a", "b"), "C:\\a\\b");
    assert_eq!(join_w("C:\\a\\", "b"), "C:\\a\\b");
    assert_eq!(join_w("C:/a/", "b"), "C:/a/b");
    assert_eq!(join_w("C:\\a", "host/sub"), "C:\\a\\host/sub");
    assert_eq!(join_w("", "b"), "b");
    assert_eq!(join_w("C:", "b"), "C:b");
    assert_eq!(join_w("C:\\a", "\\b"), "C:\\b");
    assert_eq!(join_w("C:\\a", "D:b"), "D:b");
    assert_eq!(join_w("\\\\srv\\share\\a", "/b"), "\\\\srv\\share/b");
    assert_eq!(join_w("\\\\srv\\share", "b"), "\\\\srv\\share\\b");
    assert_eq!(join_w("C:\\a", "\\\\srv\\share\\b"), "\\\\srv\\share\\b");
    assert_eq!(join_w("C:\\a", "\\\\srv"), "C:\\\\srv");
    let dir = cover_dir(&windows("C:\\c"), "host/sub", "album", "al-1");
    assert_eq!(tier_path(&dir, 800), "C:\\c\\host/sub\\album\\al-1\\800.webp");
    assert_eq!(
        count_cached_cover_ids(&windows("C:\\c"), "host/sub", &vec![tier_path(&dir, 800)]),
        1
    );
    assert_eq!(file_name(PathStyle::Windows, "C:\\c/x\\12.webp"), "12.webp");
}

#[test]
fn joining_to_a_verbatim_directory_takes_each_step() {
    let join_w = |base: &str, part: &str| join(&windows(base), part).path;
    assert_eq!(join_w("\\\\?\\C:\\a", "host/sub"), "\\\\?\\C:\\a\\host\\sub");
    assert_eq!(join_w("\\\\?\\C:\\a\\", "./b//c/"), "\\\\?\\C:\\a\\b\\c");
    assert_eq!(join_w("\\\\?\\C:\\a", "..\\b"), "\\\\?\\C:\\b");
    assert_eq!(join_w("\\\\?\\C:\\a", "../../.."), "\\\\?\\C:\\");
    assert_eq!(join_w("\\\\?\\C:\\a", "/b"), "\\\\?\\C:\\b");
    assert_eq!(join_w("\\\\?\\C:", "b"), "\\\\?\\C:\\b");
    assert_eq!(join_w("\\\\?\\C:", ".."), "\\\\?\\C:");
    assert_eq!(join_w("\\\\?\\C:\\a", ""), "\\\\?\\C:\\a\\");
    assert_eq!(join_w("\\\\?\\C:\\a/b", "c"), "\\\\?\\C:\\a/b\\c");
    assert_eq!(join_w("\\\\?\\C:\\a", "D:\\b"), "D:\\b");
    assert_eq!(join_w("\\\\?\\UNC\\srv\\share\\a", "b/c"), "\\\\?\\UNC\\srv\\share\\a\\b\\c");
    assert_eq!(join_w("\\\\?\\UNC\\srv\\share\\a", "\\b"), "\\\\?\\UNC\\srv\\share\\b");
    assert_eq!(join_w("\\\\?\\disk\\a", "/b"), "\\\\?\\disk\\b");
    assert_eq!(join_w("\\\\.\\COM1\\a", "/b"), "\\\\.\\COM1/b");
    assert_eq!(join_w("//?/C:/a", "b/c"), "//?/C:/a\\b/c");
    assert_eq!(below("\\\\?\\C:\\a", "b/c"), "\\\\?\\C:\\a/b/c");
    let dir = cover_dir(&windows("\\\\?\\C:\\c"), "host/sub", "album", "al-1");
    assert_eq!(tier_path(&dir, 800), "\\\\?\\C:\\c\\host\\sub\\album\\al-1\\800.webp");
}

#[test]
fn separators_come_from_the_platform() {
    assert_eq!(PathStyle::of(Platform::Windows).separator(), '\\');
    for platform in [Platform::Linux, Platform::MacOs, Platform::Android, Platform::Ios] {
        assert_eq!(PathStyle::of(platform), PathStyle::Unix);
    }
    assert_eq!(PathStyle::Unix.separator(), '/');
    assert_eq!(PathStyle::of(Platform::Linux).separator(), '/');
    let here = if std::path::MAIN_SEPARATOR == '/' { PathStyle::Unix } else { PathStyle::Windows };
    for (base, part) in [("a", "b"), ("a/", "b"), ("", "b"), ("a", "/b"), ("a", ""), ("/", "b")] {
        let place = Place { style: here, path: base.into() };
        let std_path = std::path::Path::new(base).join(part);
        assert_eq!(join(&place, part).path, std_path.to_str().unwrap());
    }
}

#[test]
fn decode_image_bytes_accepts_png() {
    let img = image::ImageBuffer::from_pixel(2, 2, image::Rgba([1u8, 2, 3, 255]));
    let mut buf = std::io::Cursor::new(Vec::new());
    img.write_to(&mut buf, image::ImageFormat::Png).expect("png encode");
    let decoded = decode_image_bytes(buf.get_ref()).expect("png decode");
    assert_eq!(decoded.width, 2);
    assert_eq!(decoded.height, 2);
    assert_eq!(decoded.samples, Samples::Rgba8([1u8, 2, 3, 255].repeat(4)));
}

#[test]
fn decoding_keeps_colour_type_and_depth() {
    let deep = image::ImageBuffer::from_pixel(1, 2, image::Rgb([1u16, 0x1234, 0xffff]));
    let mut png = std::io::Cursor::new(Vec::new());
    deep.write_to(&mut png, image::ImageFormat::Png).expect("png encode");
    let decoded = decode_image_bytes(png.get_ref()).expect("png decode");
    assert_eq!((decoded.width, decoded.height), (1, 2));
    assert_eq!((decoded.channels(), decoded.bits()), (3, 16));
    assert_eq!(decoded.samples, Samples::Rgb16([1u16, 0x1234, 0xffff].repeat(2)));

    let grey = image::ImageBuffer::from_pixel(3, 1, image::Luma([77u8]));
    let mut png = std::io::Cursor::new(Vec::new());
    grey.write_to(&mut png, image::ImageFormat::Png).expect("png encode");
    let decoded = decode_image_bytes(png.get_ref()).expect("png decode");
    assert_eq!((decoded.channels(), decoded.bits()), (1, 8));
    assert_eq!(decoded.samples, Samples::L8(vec![77; 3]));

    let faded = image::ImageBuffer::from_pixel(1, 1, image::LumaA([9u16, 10]));
    let mut png = std::io::Cursor::new(Vec::new());
    faded.write_to(&mut png, image::ImageFormat::Png).expect("png encode");
    let decoded = decode_image_bytes(png.get_ref()).expect("png decode");
    assert_eq!(decoded.samples, Samples::La16(vec![9, 10]));
}

#[test]
fn only_a_webp_file_counts_as_a_tier() {
    let pixels: Vec<u8> = vec![10, 20, 30, 128];
    let webp = webp::Encoder::from_rgba(&pixels, 1, 1).encode_lossless();
    let opened = decode_tier_bytes(&webp).expect("a tier");
    assert_eq!((opened.width, opened.height), (1, 1));
    assert_eq!(opened.samples, Samples::Rgba8(pixels));
    let png = webp_to_png(&webp).expect("transcode");
    assert!(decode_image_bytes(&png).is_ok());
    assert_eq!(decode_tier_bytes(&png), None);
    assert_eq!(decode_tier_bytes(b"RIFF\x04\0\0\0WEBP"), None);
    assert_eq!(decode_tier_bytes(b"RIFF"), None);
    assert_eq!(decode_tier_bytes(b""), None);
}

#[test]
fn decoding_noise_fails() {
    assert!(decode_image_bytes(b"no picture at all").is_err());
    assert!(decode_image_bytes(b"").is_err());
}

#[test]
fn webp_becomes_png_with_the_same_pixels() {
    let pixels: Vec<u8> = vec![10, 20, 30, 255, 200, 100, 50, 255];
    let webp = webp::Encoder::from_rgba(&pixels, 2, 1).encode_lossless();
    let png = webp_to_png(&webp).expect("transcode");
    assert_eq!(&png[1..4], b"PNG");
    let decoded = decode_image_bytes(&png).expect("png decode");
    assert_eq!((decoded.width, decoded.height), (2, 1));
    assert_eq!(decoded.samples, Samples::Rgb8(vec![10, 20, 30, 200, 100, 50]));

    let faded: Vec<u8> = vec![10, 20, 30, 128, 200, 100, 50, 255];
    let webp = webp::Encoder::from_rgba(&faded, 2, 1).encode_lossless();
    let png = webp_to_png(&webp).expect("transcode");
    let decoded = decode_image_bytes(&png).expect("png decode");
    assert_eq!(decoded.samples, Samples::Rgba8(faded));
    let direct = decode_image_bytes(&webp).expect("webp decode");
    assert_eq!(direct, decoded);
}

#[test]
fn what_is_no_webp_cannot_become_png() {
    assert_eq!(webp_to_png(b"RIFFxxxx").unwrap_err(), "WebP decode returned None");
    assert_eq!(pixels_to_png(None).unwrap_err(), "WebP decode returned None");
}

#[test]
fn pixels_without_alpha_become_png() {
    let pixels = WebpPixels { width: 1, height: 2, alpha: false, data: vec![1, 2, 3, 4, 5, 6] };
    let png = pixels_to_png(Some(pixels)).expect("png");
    let decoded = decode_image_bytes(&png).expect("png decode");
    assert_eq!(decoded.samples, Samples::Rgb8(vec![1, 2, 3, 4, 5, 6]));
}

#[test]
fn safe_index_key_accepts_real_keys() {
    assert!(is_safe_index_key("music.example.com"));
    assert!(is_safe_index_key("192.168.0.10:4533"));
    assert!(is_safe_index_key("music.example.com/navidrome"));
    assert!(is_safe_index_key("[fe80::1]:4533"));
}

#[test]
fn safe_index_key_rejects_path_traversal_and_backslashes() {
    assert!(!is_safe_index_key("../etc"));
    assert!(!is_safe_index_key("a/../b"));
    assert!(!is_safe_index_key("a\\b"));
    assert!(!is_safe_index_key("..\\evil"));
}

#[test]
fn safe_index_key_rejects_absolute_paths_and_drive_letters() {
    assert!(!is_safe_index_key("/etc/passwd"));
    assert!(!is_safe_index_key("/"));
    assert!(!is_safe_index_key("\\windows"));
    assert!(!is_safe_index_key("C:"));
    assert!(!is_safe_index_key("C:/Windows"));
    assert!(!is_safe_index_key("c:foo"));
    assert!(!is_safe_index_key(""));
}

#[test]
fn safe_index_key_takes_dots_that_name_no_parent() {
    assert!(is_safe_index_key("a..b"));
    assert!(is_safe_index_key("..."));
    assert!(is_safe_index_key("a/./b"));
    assert!(!is_safe_index_key("a/.."));
    assert!(is_safe_index_key("1:foo"));
}

#[test]
fn merge_bucket_moves_unique_files() {
    let mut tree = Tree::new();
    make_dir(&mut tree, "unique/old/al-1");
    write_file(&mut tree, "unique/old/al-1/128.webp", b"old-bytes");
    make_dir(&mut tree, "unique/new");

    merge(&mut tree, "unique/old", "unique/new");

    assert!(is_there(&tree, "unique/new/al-1/128.webp"));
    assert_eq!(read(&tree, "unique/new/al-1/128.webp"), b"old-bytes");
}

#[test]
fn merge_bucket_prefers_existing_on_collision() {
    let mut tree = Tree::new();
    make_dir(&mut tree, "collision/old/al-1");
    make_dir(&mut tree, "collision/new/al-1");
    write_file(&mut tree, "collision/old/al-1/128.webp", b"OLD");
    write_file(&mut tree, "collision/new/al-1/128.webp", b"NEW");

    merge(&mut tree, "collision/old", "collision/new");

    assert_eq!(read(&tree, "collision/new/al-1/128.webp"), b"NEW");
}

#[test]
fn merge_descends_into_directories_of_both() {
    let mut tree = Tree::new();
    write_file(&mut tree, "m/old/album/a1/128.webp", b"OLD-128");
    write_file(&mut tree, "m/old/album/a1/800.webp", b"OLD-800");
    write_file(&mut tree, "m/old/album/a2/800.webp", b"OLD-A2");
    write_file(&mut tree, "m/new/album/a1/128.webp", b"NEW-128");

    let before = list_below(&tree, "m/new").len();
    merge(&mut tree, "m/old", "m/new");

    assert_eq!(read(&tree, "m/new/album/a1/128.webp"), b"NEW-128");
    assert_eq!(read(&tree, "m/new/album/a1/800.webp"), b"OLD-800");
    assert_eq!(read(&tree, "m/new/album/a2/800.webp"), b"OLD-A2");
    assert!(list_below(&tree, "m/new").len() > before);
}

#[test]
fn merge_never_moves_below_a_file() {
    let mut tree = Tree::new();
    write_file(&mut tree, "m/old/album/a1/800.webp", b"OLD");
    write_file(&mut tree, "m/new/album", b"a file in the way");

    merge(&mut tree, "m/old", "m/new");

    assert_eq!(read(&tree, "m/new/album"), b"a file in the way");
    assert!(!is_there(&tree, "m/new/album/a1"));
}

#[test]
fn rename_bucket_inner_rejects_empty_keys() {
    let mut tree = Tree::new();
    assert!(rename(&mut tree, "rename-empty", "", "new").is_err());
    assert!(rename(&mut tree, "rename-empty", "old", "").is_err());
    assert_eq!(
        rename(&mut tree, "r", "", "/abs").unwrap_err(),
        "cover_cache_rename_server_bucket: empty key"
    );
}

#[test]
fn rename_bucket_inner_rejects_unsafe_keys() {
    let mut tree = Tree::new();
    assert!(rename(&mut tree, "rename-unsafe", "../escape", "new").is_err());
    assert!(rename(&mut tree, "rename-unsafe", "old", "/abs/path").is_err());
    assert!(rename(&mut tree, "rename-unsafe", "old", "C:/Windows").is_err());
    assert_eq!(
        rename(&mut tree, "r", "a\\b", "a\\b").unwrap_err(),
        "cover_cache_rename_server_bucket: key contains path separator"
    );
}

#[test]
fn rename_bucket_inner_noop_when_old_missing() {
    let mut tree = Tree::new();
    make_dir(&mut tree, "rename-missing");
    rename(&mut tree, "rename-missing", "old", "new").unwrap();
    assert!(!is_there(&tree, "rename-missing/new"));
}

#[test]
fn rename_bucket_inner_noop_when_keys_equal() {
    let mut tree = Tree::new();
    write_file(&mut tree, "rename-equal/same/al-1/128.webp", b"x");
    rename(&mut tree, "rename-equal", "same", "same").unwrap();
    assert!(is_there(&tree, "rename-equal/same/al-1/128.webp"));
}

#[test]
fn rename_bucket_inner_simple_rename_when_new_missing() {
    let mut tree = Tree::new();
    write_file(&mut tree, "rename-simple/old/al-1/128.webp", b"payload");
    rename(&mut tree, "rename-simple", "old", "new").unwrap();
    assert!(!is_there(&tree, "rename-simple/old"));
    assert_eq!(read(&tree, "rename-simple/new/al-1/128.webp"), b"payload");
}

#[test]
fn rename_bucket_inner_merges_when_new_exists() {
    let mut tree = Tree::new();
    make_dir(&mut tree, "rename-merge/old/al-1");
    make_dir(&mut tree, "rename-merge/new/al-2");
    write_file(&mut tree, "rename-merge/old/al-1/128.webp", b"from-old");
    write_file(&mut tree, "rename-merge/new/al-2/128.webp", b"from-new");
    make_dir(&mut tree, "rename-merge/old/al-2");
    write_file(&mut tree, "rename-merge/old/al-2/128.webp", b"overwrite-attempt");

    rename(&mut tree, "rename-merge", "old", "new").unwrap();

    assert!(!is_there(&tree, "rename-merge/old"));
    assert_eq!(read(&tree, "rename-merge/new/al-1/128.webp"), b"from-old");
    assert_eq!(read(&tree, "rename-merge/new/al-2/128.webp"), b"from-new");
}

#[test]
fn a_bucket_is_not_renamed_into_itself() {
    let refused = "cover_cache_rename_server_bucket: new bucket lies inside the old one";
    for new in ["host/sub", "./host/sub", "host//sub", "host/sub/deep"] {
        let mut tree = Tree::new();
        write_file(&mut tree, "c/host/album/a1/800.webp", b"one");
        write_file(&mut tree, "c/host/sub/album/a2/800.webp", b"two");
        let before = tree.clone();
        assert_eq!(rename(&mut tree, "c", "host", new).unwrap_err(), refused);
        assert_eq!(tree, before);
    }
    // Without an old bucket there is nothing to migrate, and the same directory stays as it is.
    let mut tree = Tree::new();
    make_dir(&mut tree, "c");
    rename(&mut tree, "c", "host", "host/sub").unwrap();
    write_file(&mut tree, "c/host/album/a1/800.webp", b"one");
    for same in ["host", "host/", "./host"] {
        rename(&mut tree, "c", "host", same).unwrap();
        assert_eq!(read(&tree, "c/host/album/a1/800.webp"), b"one");
    }
    // A name that only begins alike is another bucket.
    rename(&mut tree, "c", "host", "host2").unwrap();
    assert_eq!(read(&tree, "c/host2/album/a1/800.webp"), b"one");
}

#[test]
fn a_bucket_can_be_renamed_to_the_one_around_it() {
    let mut tree = Tree::new();
    write_file(&mut tree, "c/host/album/a1/800.webp", b"kept");
    write_file(&mut tree, "c/host/sub/album/a1/800.webp", b"older");
    write_file(&mut tree, "c/host/sub/album/a2/800.webp", b"came");
    rename(&mut tree, "c", "host/sub", "host").unwrap();
    assert_eq!(read(&tree, "c/host/album/a1/800.webp"), b"kept");
    assert_eq!(read(&tree, "c/host/album/a2/800.webp"), b"came");
    assert!(!is_there(&tree, "c/host/sub"));
}

#[test]
fn what_lies_below_a_file_in_the_way_goes_with_the_old_bucket() {
    let mut tree = Tree::new();
    write_file(&mut tree, "c/old/album/a1/800.webp", b"lost");
    write_file(&mut tree, "c/old/artist/b1/800.webp", b"came");
    write_file(&mut tree, "c/new/album", b"in the way");
    rename(&mut tree, "c", "old", "new").unwrap();
    assert_eq!(read(&tree, "c/new/album"), b"in the way");
    assert_eq!(read(&tree, "c/new/artist/b1/800.webp"), b"came");
    assert!(!is_there(&tree, "c/old"));
}

#[test]
fn purge_external_removes_only_external_artifacts() {
    let root = "purge-external";
    let entity = "purge-external/artist/ar-1";
    let mut tree = Tree::new();
    make_dir(&mut tree, entity);
    for (name, bytes) in [
        ("2000.webp", b"n"),
        ("512.webp", b"n"),
        (".fetch-failed", b"1"),
        ("2000-fanart.webp", b"f"),
        ("512-fanart.webp", b"f"),
        ("2000-banner.webp", b"b"),
        (".miss-fanart", b"1"),
        (".miss-banner", b"1"),
    ] {
        write_file(&mut tree, &below(entity, name), bytes);
    }
    let files: Vec<String> = list_below(&tree, root)
        .into_iter()
        .filter(|e| !e.is_dir)
        .map(|e| below(root, &e.path))
        .collect();
    let doomed = purge_external_files(PathStyle::Unix, &files);

    assert_eq!(doomed.len(), 5);
    for path in &doomed {
        tree.remove(path);
    }
    assert!(is_there(&tree, &below(entity, "2000.webp")));
    assert!(is_there(&tree, &below(entity, "512.webp")));
    assert!(is_there(&tree, &below(entity, ".fetch-failed")));
    assert!(!is_there(&tree, &below(entity, "2000-fanart.webp")));
    assert!(!is_there(&tree, &below(entity, "512-fanart.webp")));
    assert!(!is_there(&tree, &below(entity, "2000-banner.webp")));
    assert!(!is_there(&tree, &below(entity, ".miss-fanart")));
    assert!(!is_there(&tree, &below(entity, ".miss-banner")));
}

#[test]
fn external_names_are_told_by_dash_and_marker() {
    assert!(is_external("800-fanart.webp"));
    assert!(is_external(".miss-x"));
    assert!(!is_external("800.webp"));
    assert!(!is_external("a-b.png"));
    assert!(!is_external("x.miss-"));
}

#[test]
fn clearing_spares_the_layout_stamp() {
    let entries = vec![
        BucketEntry { path: ".storage-layout".into(), is_dir: false },
        BucketEntry { path: "host".into(), is_dir: true },
        BucketEntry { path: "stray".into(), is_dir: false },
    ];
    let doomed = cleared_entries(&entries);
    let names: Vec<(&str, bool)> = doomed.iter().map(|e| (e.path.as_str(), e.is_dir)).collect();
    assert_eq!(names, vec![("host", true), ("stray", false)]);
}

#[test]
fn layout_is_reset_unless_the_stamp_is_current() {
    assert!(!layout_reset_needed(&Some("v3\n".into()), "v3"));
    assert!(layout_reset_needed(&Some("v2".into()), "v3"));
    assert!(layout_reset_needed(&None, "v3"));
    // What a reset writes is current from then on.
    assert!(!layout_reset_needed(&Some("v3".into()), "v3"));
    assert!(layout_reset_needed(&Some("v3 ".into()), "v3 "));
}

fn test_ensure_args(tier: u32, surface_kind: Option<&str>) -> CoverCacheEnsureArgs {
    CoverCacheEnsureArgs {
        server_index_key: "srv".into(),
        cache_kind: "album".into(),
        cache_entity_id: "al-1".into(),
        cover_art_id: "al-1".into(),
        tier,
        rest_base_url: "http://x".into(),
        username: "u".into(),
        password: "p".into(),
        library_bulk: false,
        library_server_id: None,
        external_artwork_enabled: false,
        surface_kind: surface_kind.map(String::from),
        artist_name: None,
        album_title: None,
        external_artwork_byok: None,
    }
}

#[test]
fn ensure_peek_fullres_requires_exact_tier() {
    let dir = "ensure-peek-fullres/album/al-1";
    let mut tree = Tree::new();
    make_dir(&mut tree, dir);
    write_file(&mut tree, &tier_path(&unix(dir), 512), b"x");
    let args = test_ensure_args(2000, None);
    assert!(ensure_peek(&unix(dir), 2000, &args, &tiers_in(&tree, dir), None).is_none());
    write_file(&mut tree, &tier_path(&unix(dir), 2000), b"y");
    assert_eq!(
        ensure_peek(&unix(dir), 2000, &args, &tiers_in(&tree, dir), None),
        Some(tier_path(&unix(dir), 2000))
    );
}

#[test]
fn peek_plain_cover_fullres_is_exact_but_display_tiers_ladder() {
    let dir = "peek-plain-fullres/album/al-1";
    let mut tree = Tree::new();
    make_dir(&mut tree, dir);
    write_file(&mut tree, &tier_path(&unix(dir), 512), b"x");
    assert!(peek_plain_cover_tier(&unix(dir), 2000, &tiers_in(&tree, dir)).is_none());
    assert_eq!(
        peek_plain_cover_tier(&unix(dir), 256, &tiers_in(&tree, dir)),
        Some(tier_path(&unix(dir), 512))
    );
    write_file(&mut tree, &tier_path(&unix(dir), 2000), b"y");
    assert_eq!(
        peek_plain_cover_tier(&unix(dir), 2000, &tiers_in(&tree, dir)),
        Some(tier_path(&unix(dir), 2000))
    );
}

#[test]
fn ensure_peek_display_tier_keeps_ladder_fallback() {
    let dir = "ensure-peek-ladder/album/al-1";
    let mut tree = Tree::new();
    make_dir(&mut tree, dir);
    write_file(&mut tree, &tier_path(&unix(dir), 800), b"x");
    assert_eq!(
        ensure_peek(&unix(dir), 256, &test_ensure_args(256, None), &tiers_in(&tree, dir), None),
        Some(tier_path(&unix(dir), 800)),
    );
}

#[test]
fn external_surface_has_its_own_ladder() {
    let args = test_ensure_args(512, Some("fanart"));
    assert_eq!(ensure_peek(&unix("d"), 512, &args, &vec![512], None), None);
    assert_eq!(
        ensure_peek(&unix("d"), 512, &args, &vec![], Some("d/512-fanart.webp".into())),
        Some("d/512-fanart.webp".into())
    );
}

#[test]
fn ladders_of_every_size() {
    assert_eq!(peek_fallback_tiers(512), vec![800, 256, 128]);
    assert_eq!(peek_fallback_tiers(256), vec![800, 512, 128]);
    assert_eq!(peek_fallback_tiers(128), vec![256, 512, 800]);
    assert_eq!(peek_fallback_tiers(64), vec![128, 256, 512, 800]);
    assert_eq!(peek_fallback_tiers(600), vec![800, 512, 256, 128]);
    assert_eq!(peek_fallback_tiers(800), vec![800, 512, 256, 128]);
    assert_eq!(peek_fallback_tiers(1200), vec![512, 256, 128]);
    assert_eq!(peek_fallback_tiers(96), vec![800, 512, 256, 128]);
    assert_eq!(peek_tier_path(&unix("d"), 1200, &vec![800, 128]), Some("d/128.webp".into()));
    assert_eq!(peek_tier_path(&unix("d"), 2000, &vec![512]), Some("d/512.webp".into()));
    assert_eq!(peek_tier_path(&unix("d"), 128, &vec![]), None);
}

#[test]
fn foreground_and_background_share_the_tiers() {
    assert_eq!(tiers_now(256), vec![128, 256]);
    assert_eq!(remaining_tiers(256), vec![512, 800]);
    assert_eq!(tiers_now(800), vec![128, 256, 512, 800]);
    assert!(remaining_tiers(800).is_empty());
    assert_eq!(tiers_now(2000), vec![2000]);
    assert!(remaining_tiers(2000).is_empty());
    assert!(tiers_now(64).is_empty());
    assert_eq!(remaining_tiers(64), vec![128, 256, 512, 800]);
}

#[test]
fn sources_come_from_the_largest_tier_or_the_server() {
    assert_eq!(fetch_size(2000), 2000);
    assert_eq!(fetch_size(1999), 800);
    assert_eq!(fetch_size(128), 800);
    assert_eq!(disk_source_tiers(1200, &vec![128, 800, 64]), vec![800, 128]);
    assert!(disk_source_tiers(2000, &vec![128, 800]).is_empty());
}

fn peek_item(kind: &str, id: &str, tier: u32, key: &str) -> CoverCachePeekItem {
    CoverCachePeekItem {
        server_index_key: "srv".into(),
        cache_kind: kind.into(),
        cache_entity_id: id.into(),
        tier,
        storage_key: key.into(),
    }
}

#[test]
fn batch_reports_finds_by_storage_key() {
    let items = vec![
        peek_item("album", "a1", 256, "k1"),
        peek_item("album", "a2", 2000, "k2"),
        peek_item("artist", "b1", 128, "k3"),
        peek_item("artist", "b2", 128, "k3"),
        peek_item("artist", "b3", 128, "k3"),
    ];
    let on_disk = vec![vec![512], vec![800], vec![128], vec![800], vec![]];
    let found = cover_cache_peek_batch(&unix("/c"), &items, &on_disk);
    assert_eq!(found.get("k1"), Some(&"/c/srv/album/a1/512.webp".to_string()));
    assert_eq!(found.get("k2"), None);
    assert_eq!(found.get("k3"), Some(&"/c/srv/artist/b2/800.webp".to_string()));
}

#[test]
fn a_walk_is_remembered_for_ten_seconds() {
    let mut cache = DirUsageCache::new();
    let second = 1_000_000_000u64;
    assert_eq!(cache.cached_dir_usage_for_server("a", 5 * second), None);
    cache.remember("a".into(), 5 * second, (1024, 7));
    cache.remember("b".into(), 5 * second, (1, 1));
    assert_eq!(cache.cached_dir_usage_for_server("a", 15 * second - 1), Some((1024, 7)));
    assert_eq!(cache.cached_dir_usage_for_server("a", 15 * second), None);
    assert_eq!(cache.cached_dir_usage_for_server("a", 0), Some((1024, 7)));
    cache.invalidate_dir_usage_cache("a");
    assert_eq!(cache.cached_dir_usage_for_server("a", 5 * second), None);
    assert_eq!(cache.cached_dir_usage_for_server("b", 5 * second), Some((1, 1)));
    cache.clear();
    assert_eq!(cache.cached_dir_usage_for_server("b", 5 * second), None);
}
