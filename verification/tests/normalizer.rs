//! Behavior of the caption normalizer on concrete documents.

use vtt_article::vtt::normalize;

#[test]
fn empty_input_yields_empty_output() {
    assert_eq!(normalize(""), "");
}

#[test]
fn header_only_yields_empty_output() {
    let raw = "WEBVTT\nKind: captions\nLanguage: en\n";
    assert_eq!(normalize(raw), "");
}

#[test]
fn consecutive_duplicates_collapse_but_distant_repeats_stay() {
    // lines [A, A, B, A] must come out as "A B A": only the adjacent
    // repeat is collapsed
    let raw = "alpha line\nalpha line\nbeta line\nalpha line";
    assert_eq!(normalize(raw), "alpha line beta line alpha line");
}

#[test]
fn timestamp_lines_are_discarded() {
    let raw = "00:00:01.240 --> 00:00:03.879 align:start position:0%\nhello there\n00:00:03.879 --> 00:00:05.000\ngeneral greeting";
    assert_eq!(normalize(raw), "hello there general greeting");
}

#[test]
fn inline_tags_are_stripped_but_words_kept() {
    let raw = "hello <c>world</c> and<00:00:01.320><c> beyond</c>";
    assert_eq!(normalize(raw), "hello world and beyond");
}

#[test]
fn unclosed_tag_is_kept_verbatim() {
    let raw = "three < four\nfive > four";
    assert_eq!(normalize(raw), "three < four five > four");
}

#[test]
fn blank_and_whitespace_lines_are_dropped() {
    let raw = "first\n\n   \n\t\nsecond";
    assert_eq!(normalize(raw), "first second");
}

#[test]
fn lines_before_language_marker_are_header() {
    let raw = "WEBVTT\nKind: captions\nLanguage: en\nbody text";
    assert_eq!(normalize(raw), "body text");
}

#[test]
fn document_without_language_marker_loses_no_lines() {
    let raw = "first line\nsecond line";
    assert_eq!(normalize(raw), "first line second line");
}

#[test]
fn line_that_is_only_a_tag_is_dropped() {
    let raw = "<c.colorCCCCCC>\nspoken words";
    assert_eq!(normalize(raw), "spoken words");
}

#[test]
fn normalize_is_idempotent_on_its_own_output() {
    let raw = "WEBVTT\nKind: captions\nLanguage: en\n\n00:00:00.000 --> 00:00:02.000\nsome <c>caption</c> text\nsome caption text\nmore text";
    let once = normalize(raw);
    let twice = normalize(&once);
    assert_eq!(twice, once);
}

#[test]
fn repeated_cue_phrase_survives_once() {
    // three consecutive cue repetitions of one phrase collapse to a
    // single instance in the joined output
    let raw = "WEBVTT\nKind: captions\nLanguage: en\n\n00:00:00.000 --> 00:00:02.000 align:start position:0%\nyou<00:00:00.320><c> know</c><00:00:00.560><c> what's</c> really not fun recording\n \n00:00:02.000 --> 00:00:04.000\nyou know what's really not fun recording\n00:00:04.000 --> 00:00:06.000\nyou know what's really not fun recording\n00:00:06.000 --> 00:00:08.000\nit stopped raining\n";
    let out = normalize(raw);
    assert_eq!(
        out,
        "you know what's really not fun recording it stopped raining"
    );
    assert_eq!(out.matches("you know what's really not fun recording").count(), 1);
}
