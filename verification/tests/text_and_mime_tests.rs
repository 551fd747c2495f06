//! String helpers, decimal rendering, and MIME mapping.

use sidestream::gemini::byte_offset_to_char_offset;
use sidestream::mime::{
    extension_to_mime, fix_filename_extension, mime_to_extension, mime_to_extension_or_subtype,
};
use sidestream::text::{
    eq_ignore_ascii_case, find_sub, i64_to_string, str_contains, str_ends_with, str_eq,
    str_starts_with, trim_start_str, trim_str, u64_to_string,
};

#[test]
fn string_comparisons() {
    assert!(str_eq("abc", "abc"));
    assert!(!str_eq("abc", "abd"));
    assert!(str_starts_with("gemini-2.5-pro", "gemini"));
    assert!(!str_starts_with("go", "gemini"));
    assert!(str_ends_with("items [", "["));
    assert!(str_contains("a \"items\" b", "\"items\""));
    assert!(eq_ignore_ascii_case("LoW", "low"));
    assert!(!eq_ignore_ascii_case("high", "low"));
}

#[test]
fn find_sub_returns_first_occurrence() {
    assert_eq!(find_sub("abcabc", "bc"), Some(1));
    assert_eq!(find_sub("abc", "zz"), None);
    assert_eq!(find_sub("abc", ""), Some(0));
}

#[test]
fn trimming() {
    assert_eq!(trim_str("  hello \n"), "hello".to_string());
    assert_eq!(trim_str(""), "".to_string());
    assert_eq!(trim_start_str("\n\nHi there"), "Hi there".to_string());
}

#[test]
fn decimal_rendering() {
    assert_eq!(u64_to_string(0), "0".to_string());
    assert_eq!(u64_to_string(1234), "1234".to_string());
    assert_eq!(i64_to_string(-42), "-42".to_string());
    assert_eq!(i64_to_string(7), "7".to_string());
    assert_eq!(i64_to_string(i64::MIN), "-9223372036854775808".to_string());
}

#[test]
fn byte_offsets_convert_to_char_offsets() {
    // 'e' one byte, 'é' two bytes, '日' three bytes.
    let s = "eé日x";
    assert_eq!(byte_offset_to_char_offset(s, 0), 0);
    assert_eq!(byte_offset_to_char_offset(s, 1), 1);
    assert_eq!(byte_offset_to_char_offset(s, 2), 1);
    assert_eq!(byte_offset_to_char_offset(s, 3), 2);
    assert_eq!(byte_offset_to_char_offset(s, 6), 3);
    assert_eq!(byte_offset_to_char_offset(s, 7), 4);
    assert_eq!(byte_offset_to_char_offset(s, 100), 4);
}

#[test]
fn mime_to_extension_handles_parameters() {
    assert_eq!(mime_to_extension("text/csv; charset=utf-8"), Some("csv"));
    assert_eq!(mime_to_extension("image/jpeg"), Some("jpg"));
    assert_eq!(mime_to_extension("application/x-unknown"), None);
}

#[test]
fn mime_subtype_fallback() {
    assert_eq!(mime_to_extension_or_subtype("application/pdf"), "pdf".to_string());
    assert_eq!(mime_to_extension_or_subtype("application/x-foo"), "x-foo".to_string());
    assert_eq!(mime_to_extension_or_subtype("noslash"), "noslash".to_string());
}

#[test]
fn extension_to_mime_is_case_insensitive() {
    assert_eq!(extension_to_mime("report.PNG"), Some("image/png"));
    assert_eq!(extension_to_mime("notes.md"), Some("text/markdown"));
    assert_eq!(extension_to_mime("data.unknownext"), None);
}

#[test]
fn filename_extension_fixing() {
    assert_eq!(
        fix_filename_extension("report.csv", Some("application/pdf")),
        "report.csv".to_string()
    );
    assert_eq!(fix_filename_extension("data", Some("text/csv")), "data.csv".to_string());
    assert_eq!(
        fix_filename_extension("archive.tmp", Some("application/zip")),
        "archive.zip".to_string()
    );
    assert_eq!(fix_filename_extension("data", None), "data".to_string());
    assert_eq!(
        fix_filename_extension("data", Some("application/x-unknown")),
        "data".to_string()
    );
}
