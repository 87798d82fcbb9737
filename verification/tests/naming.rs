//! Naming rules: file names, extensions, safe-copy siblings, derived
//! siblings, and joins.

use imgopt::exts::{ext_is_supported, original_codec_for};
use imgopt::paths::{
    extension_of, file_name_of, is_supported_file, join_path, optimized_dir_path,
    optimized_file_path, with_extension_path,
};
use imgopt::ImageKind;

fn p(s: &str) -> Vec<u8> {
    s.as_bytes().to_vec()
}

#[test]
fn file_name_after_last_separator() {
    assert_eq!(file_name_of(&p("a/b/photo.jpg")), p("photo.jpg"));
    assert_eq!(file_name_of(&p("photo.jpg")), p("photo.jpg"));
    assert_eq!(file_name_of(&p("a/b/")), p(""));
}

#[test]
fn extension_is_after_last_dot_of_file_name() {
    assert_eq!(extension_of(&p("a/b/photo.jpg")), Some(p("jpg")));
    assert_eq!(extension_of(&p("archive.tar.gz")), Some(p("gz")));
    assert_eq!(extension_of(&p("trailing.")), Some(p("")));
    assert_eq!(extension_of(&p("no_ext")), None);
    assert_eq!(extension_of(&p(".hidden")), None);
    assert_eq!(extension_of(&p("a.b/no_ext")), None);
}

#[test]
fn supported_extensions_ignore_ascii_case() {
    assert!(ext_is_supported(b"png"));
    assert!(ext_is_supported(b"PNG"));
    assert!(ext_is_supported(b"jPg"));
    assert!(ext_is_supported(b"JPEG"));
    assert!(!ext_is_supported(b"gif"));
    assert!(!ext_is_supported(b"webp"));
    assert!(!ext_is_supported(b""));
}

#[test]
fn supported_files_need_a_supported_extension() {
    assert!(is_supported_file(&p("shot.PNG")));
    assert!(is_supported_file(&p("a/b/c.jpeg")));
    assert!(!is_supported_file(&p("notes.txt")));
    assert!(!is_supported_file(&p("png")));
    assert!(!is_supported_file(&p(".jpg")));
}

#[test]
fn codec_choice_is_png_or_else_jpeg() {
    assert_eq!(original_codec_for(b"png"), ImageKind::Png);
    assert_eq!(original_codec_for(b"PNG"), ImageKind::Png);
    assert_eq!(original_codec_for(b"jpg"), ImageKind::Jpeg);
    assert_eq!(original_codec_for(b"jpeg"), ImageKind::Jpeg);
}

#[test]
fn optimized_directory_gets_suffix() {
    assert_eq!(optimized_dir_path(&p("photos")), p("photos__optimized"));
    assert_eq!(optimized_dir_path(&p("a/b/photos")), p("a/b/photos__optimized"));
}

#[test]
fn optimized_file_keeps_extension_after_suffix() {
    assert_eq!(optimized_file_path(&p("a/photo.jpg")), p("a/photo__optimized.jpg"));
    assert_eq!(optimized_file_path(&p("photo.PNG")), p("photo__optimized.PNG"));
    assert_eq!(optimized_file_path(&p("no_ext")), p("no_ext__optimized"));
    assert_eq!(optimized_file_path(&p("dir.d/no_ext")), p("dir.d/no_ext__optimized"));
}

#[test]
fn derived_sibling_replaces_extension() {
    assert_eq!(with_extension_path(&p("a/photo.jpg"), &p("webp")), p("a/photo.webp"));
    assert_eq!(with_extension_path(&p("a/photo.jpg"), &p("avif")), p("a/photo.avif"));
    assert_eq!(with_extension_path(&p("archive.tar.gz"), &p("webp")), p("archive.tar.webp"));
    assert_eq!(with_extension_path(&p("no_ext"), &p("webp")), p("no_ext.webp"));
    assert_eq!(with_extension_path(&p(".hidden"), &p("webp")), p(".hidden.webp"));
}

#[test]
fn optimized_copy_is_still_supported() {
    let copy = optimized_file_path(&p("a/photo.jpg"));
    assert!(is_supported_file(&copy));
    assert_eq!(extension_of(&copy), Some(p("jpg")));
}

#[test]
fn derived_sibling_has_the_requested_extension() {
    let webp = with_extension_path(&p("a/photo.jpg"), &p("webp"));
    assert_eq!(extension_of(&webp), Some(p("webp")));
    assert!(!is_supported_file(&webp));
}

#[test]
fn join_inserts_separator() {
    assert_eq!(join_path(&p("a/b"), &p("c.png")), p("a/b/c.png"));
    assert_eq!(join_path(&p(""), &p("c.png")), p("c.png"));
}
