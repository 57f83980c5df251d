//! Path derivation from source locators and from the downloader's
//! printed file name.

use vtt_article::error::Error;
use vtt_article::transcript::{derive_path, subtitle_path};

#[test]
fn locator_with_video_id_names_the_file() {
    let p = derive_path("https://x.test?v=abc123").unwrap();
    assert_eq!(p, "./transcripts/abc123.md");
    assert!(p.ends_with("abc123.md"));
}

#[test]
fn locator_without_video_id_degrades_to_default() {
    let p = derive_path("https://x.test").unwrap();
    assert_eq!(p, "./transcripts/default.md");
}

#[test]
fn locator_with_empty_query_degrades_to_default() {
    let p = derive_path("https://x.test/watch?t=5&list=xyz").unwrap();
    assert_eq!(p, "./transcripts/default.md");
}

#[test]
fn video_id_found_among_other_parameters() {
    let p = derive_path("https://x.test/watch?t=5&v=idz42&list=xyz").unwrap();
    assert_eq!(p, "./transcripts/idz42.md");
}

#[test]
fn bare_v_parameter_degrades_to_empty_identifier() {
    let p = derive_path("https://x.test/watch?v").unwrap();
    assert_eq!(p, "./transcripts/.md");
}

#[test]
fn non_url_locator_is_rejected() {
    assert_eq!(derive_path("not a url"), Err(Error::InvalidLocator));
}

#[test]
fn printed_name_gets_the_caption_extension() {
    assert_eq!(subtitle_path("abc123\n"), "abc123.en.vtt");
}

#[test]
fn printed_path_keeps_its_directory() {
    assert_eq!(subtitle_path("./transcripts/abc123\n"), "./transcripts/abc123.en.vtt");
}

#[test]
fn existing_extension_is_replaced() {
    assert_eq!(subtitle_path("clip.webm"), "clip.en.vtt");
}

#[test]
fn hidden_file_dot_is_not_an_extension() {
    assert_eq!(subtitle_path("dir/.config"), "dir/.config.en.vtt");
}

#[test]
fn dot_in_directory_is_not_an_extension() {
    assert_eq!(subtitle_path("dir.d/name"), "dir.d/name.en.vtt");
}
