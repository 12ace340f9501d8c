use ghgrab_gui::files::{
    byte_scale, bytes_label, bytes_less, get_file_icon, is_binary_extension, sort_items, ByteScale, RepoEntry,
};

fn entry(key: usize, name: &str, is_dir: bool) -> RepoEntry {
    RepoEntry {
        key,
        name: name.to_string(),
        path: format!("dir/{}", name),
        is_dir,
        is_file: !is_dir,
        is_lfs: false,
        size: None,
    }
}

#[test]
fn binary_extensions_any_case() {
    for ext in ["png", "PNG", "Jpg", "jpeg", "gif", "ico", "webp", "svg", "bmp", "tiff", "zip",
        "tar", "gz", "bz2", "xz", "7z", "rar", "pdf", "exe", "bin", "dll", "so", "dylib", "class",
        "wasm", "mp3", "MP4", "wav", "flac", "ogg", "webm", "mkv", "avi", "ttf", "otf", "woff",
        "woff2", "eot", "iso", "dmg", "pkg", "deb", "rpm"] {
        assert!(is_binary_extension(ext), "{}", ext);
    }
}

#[test]
fn text_extensions_are_not_binary() {
    for ext in ["", "rs", "md", "txt", "toml", "json", "tar.gz", "pngx", " png", "jp"] {
        assert!(!is_binary_extension(ext), "{}", ext);
    }
}

#[test]
fn icons_for_folders_and_lfs() {
    assert_eq!(get_file_icon("src", true, false), "📁");
    assert_eq!(get_file_icon("model.bin", false, true), "📦");
    assert_eq!(get_file_icon("src", true, true), "📁");
}

#[test]
fn icons_by_extension() {
    assert_eq!(get_file_icon("main.rs", false, false), "🦀");
    assert_eq!(get_file_icon("setup.PY", false, false), "🐍");
    assert_eq!(get_file_icon("app.tsx", false, false), "📜");
    assert_eq!(get_file_icon("Cargo.toml", false, false), "⚙️");
    assert_eq!(get_file_icon("README.md", false, false), "📝");
    assert_eq!(get_file_icon("logo.Svg", false, false), "🖼️");
    assert_eq!(get_file_icon("release.tar.gz", false, false), "📦");
    assert_eq!(get_file_icon("install.sh", false, false), "🐚");
    assert_eq!(get_file_icon("index.html", false, false), "🌐");
    assert_eq!(get_file_icon("Cargo.lock", false, false), "🔒");
    assert_eq!(get_file_icon("LICENSE", false, false), "📄");
    assert_eq!(get_file_icon(".gitignore", false, false), "📄");
    assert_eq!(get_file_icon("notes.", false, false), "📄");
}

#[test]
fn byte_scales() {
    assert_eq!(byte_scale(0), ByteScale::Bytes);
    assert_eq!(byte_scale(1023), ByteScale::Bytes);
    assert_eq!(byte_scale(1024), ByteScale::Kilobytes);
    assert_eq!(byte_scale(1048575), ByteScale::Kilobytes);
    assert_eq!(byte_scale(1048576), ByteScale::Megabytes);
    assert_eq!(byte_scale(1073741823), ByteScale::Megabytes);
    assert_eq!(byte_scale(1073741824), ByteScale::Gigabytes);
    assert_eq!(byte_scale(u64::MAX), ByteScale::Gigabytes);
}

#[test]
fn byte_scale_units() {
    assert_eq!((ByteScale::Bytes.divisor(), ByteScale::Bytes.decimals(), ByteScale::Bytes.unit()), (1, 0, "B"));
    assert_eq!((ByteScale::Kilobytes.divisor(), ByteScale::Kilobytes.decimals(), ByteScale::Kilobytes.unit()), (1024, 1, "KB"));
    assert_eq!((ByteScale::Megabytes.divisor(), ByteScale::Megabytes.decimals(), ByteScale::Megabytes.unit()), (1048576, 1, "MB"));
    assert_eq!((ByteScale::Gigabytes.divisor(), ByteScale::Gigabytes.decimals(), ByteScale::Gigabytes.unit()), (1073741824, 2, "GB"));
}

#[test]
fn scale_keeps_value_between_one_and_a_thousand_twenty_four() {
    for bytes in [1u64, 500, 1024, 5000, 2_000_000, 1_073_741_823, 5_000_000_000] {
        let s = byte_scale(bytes);
        assert!(s.divisor() <= bytes);
        if s != ByteScale::Gigabytes {
            assert!(bytes < 1024 * s.divisor());
        }
    }
}

#[test]
fn byte_order() {
    assert!(bytes_less(b"abc", b"abd"));
    assert!(bytes_less(b"ab", b"abc"));
    assert!(!bytes_less(b"abc", b"ab"));
    assert!(!bytes_less(b"abc", b"abc"));
    assert!(bytes_less(b"", b"a"));
    assert!(!bytes_less(b"", b""));
}

#[test]
fn sort_puts_folders_first_by_lowercase_name() {
    let mut items = vec![
        entry(0, "zeta.txt", false),
        entry(1, "Beta", true),
        entry(2, "alpha.rs", false),
        entry(3, "alpha", true),
        entry(4, "Gamma.md", false),
    ];
    sort_items(&mut items);
    let names: Vec<&str> = items.iter().map(|e| e.name.as_str()).collect();
    assert_eq!(names, vec!["alpha", "Beta", "alpha.rs", "Gamma.md", "zeta.txt"]);
    let keys: Vec<usize> = items.iter().map(|e| e.key).collect();
    assert_eq!(keys, vec![3, 1, 2, 4, 0]);
}

#[test]
fn sort_is_stable_for_equal_names() {
    let mut items = vec![
        entry(0, "README", false),
        entry(1, "b", false),
        entry(2, "readme", false),
        entry(3, "ReadMe", false),
    ];
    sort_items(&mut items);
    let keys: Vec<usize> = items.iter().map(|e| e.key).collect();
    assert_eq!(keys, vec![1, 0, 2, 3]);
}

#[test]
fn sort_of_empty_and_single() {
    let mut none: Vec<RepoEntry> = vec![];
    sort_items(&mut none);
    assert!(none.is_empty());
    let mut one = vec![entry(7, "x", false)];
    sort_items(&mut one);
    assert_eq!(one[0].key, 7);
}

#[test]
fn byte_counts_under_a_kilobyte() {
    assert_eq!(bytes_label(0), "0 B");
    assert_eq!(bytes_label(1023), "1023 B");
}
