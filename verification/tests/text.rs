use std::path::Path;

use autofilm::decimal::decimal;
use autofilm::output::{join_path, output_path, sanitize_filename};
use autofilm::text::{is_whitespace, trim};
use autofilm::wrap::{centered_top, split_whitespace, subtitle_tops, title_block_height, wrap_text};

#[test]
fn sanitizes_output_path() {
    let path = output_path("/tmp/posters", "任务/一", "电影:精选");

    assert_eq!(
        Path::new(&path),
        Path::new("/tmp/posters").join("任务_一").join("电影_精选.png")
    );
}

#[test]
fn sanitize_replaces_reserved_characters_and_trims() {
    assert_eq!(sanitize_filename("a/b\\c:d*e?f\"g<h>i|j"), "a_b_c_d_e_f_g_h_i_j");
    assert_eq!(sanitize_filename("  ..name..  "), "name");
    assert_eq!(sanitize_filename(" . spaced . "), "spaced");
    assert_eq!(sanitize_filename("   "), "未命名");
    assert_eq!(sanitize_filename("..."), "未命名");
    assert_eq!(sanitize_filename(""), "未命名");
    assert_eq!(sanitize_filename("\u{3000}电影\u{3000}"), "电影");
}

#[test]
fn join_adds_a_separator_only_where_needed() {
    assert_eq!(join_path("/tmp", "a"), "/tmp/a");
    assert_eq!(join_path("/tmp/", "a"), "/tmp/a");
    assert_eq!(join_path("", "a"), "a");
    assert_eq!(output_path("out", "task", "lib"), "out/task/lib.png");
}

#[test]
fn whitespace_matches_std() {
    for c in (0u32..0x3100).filter_map(char::from_u32) {
        assert_eq!(is_whitespace(c), c.is_whitespace(), "{:?}", c);
    }
    assert_eq!(trim("  a b \t", false), "a b");
    assert_eq!(trim("..a.b..", true), "a.b");
}

fn monospace(text: &str) -> i32 {
    10 * text.chars().count() as i32
}

fn wrap_monospace(text: &str, max_width: i32) -> Vec<String> {
    let words = split_whitespace(text);
    let widths: Vec<Vec<i32>> = (0..words.len())
        .map(|i| (i..words.len()).map(|j| monospace(&words[i..=j].join(" "))).collect())
        .collect();
    wrap_text(text, monospace(text), &widths, max_width)
}

#[test]
fn wraps_english_title_to_available_width() {
    let width = monospace("MEDIA");

    assert_eq!(
        wrap_monospace("MEDIA LIBRARY COLLECTION", width),
        vec!["MEDIA", "LIBRARY", "COLLECTION"]
    );
    assert!(wrap_monospace("   ", width).is_empty());
}

#[test]
fn wrap_keeps_fitting_or_unbreakable_text_whole_and_fills_greedily() {
    assert_eq!(wrap_monospace("A  B", 1000), vec!["A  B"]);
    assert_eq!(wrap_monospace("UNBREAKABLE", 10), vec!["UNBREAKABLE"]);
    assert_eq!(wrap_monospace("AA BB CC DD", 50), vec!["AA BB", "CC DD"]);
    assert_eq!(wrap_monospace(" AA  BB\tCC ", 50), vec!["AA BB", "CC"]);
}

#[test]
fn splits_on_unicode_whitespace() {
    assert_eq!(split_whitespace("  a\u{3000}b\n c  "), vec!["a", "b", "c"]);
    assert!(split_whitespace(" \t ").is_empty());
}

#[test]
fn decimal_matches_to_string() {
    for n in [0u64, 7, 10, 50, 1234567890, u64::MAX] {
        assert_eq!(decimal(n), n.to_string());
    }
}

#[test]
fn title_block_height_counts_lines_and_gaps() {
    assert_eq!(title_block_height(40, 20, 7, 4, 0), Some(40));
    assert_eq!(title_block_height(40, 20, 7, 4, 1), Some(67));
    assert_eq!(title_block_height(40, 20, 7, 4, 3), Some(40 + 60 + 8 + 7));
    assert_eq!(title_block_height(40, i32::MAX, 7, 4, 2), None);
}

#[test]
fn subtitle_lines_stack_under_the_title() {
    assert_eq!(subtitle_tops(100, 40, 7, 20, 4, 3), Some(vec![147, 171, 195]));
    assert_eq!(subtitle_tops(100, 40, 7, 20, 4, 0), Some(Vec::new()));
    assert_eq!(subtitle_tops(i32::MAX - 100, 40, 7, 20, 4, 3), None);
}

#[test]
fn centered_top_halves_toward_zero() {
    assert_eq!(centered_top(100, 115), Some(43));
    assert_eq!(centered_top(0, -3), Some(1));
    assert_eq!(centered_top(i32::MIN, 4), None);
}
