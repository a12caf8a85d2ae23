use transcoder::paths::{file_name, file_name_short, file_stem, trim_path, with_file_name};
use transcoder::text::{
    i32_to_string, parse_bytes, parse_u64_digits, str_contains, str_ends_with, str_eq,
    trim_ascii, u64_to_string,
};

#[test]
fn parse_digits_exactly() {
    assert_eq!(Some(0), parse_u64_digits("0"));
    assert_eq!(Some(1234), parse_u64_digits("1234"));
    assert_eq!(Some(u64::MAX), parse_u64_digits("18446744073709551615"));
    assert_eq!(None, parse_u64_digits("18446744073709551616"));
    assert_eq!(None, parse_u64_digits(""));
    assert_eq!(None, parse_u64_digits("12a"));
    assert_eq!(None, parse_u64_digits("-1"));
}

#[test]
fn renders_decimal() {
    assert_eq!("0", u64_to_string(0));
    assert_eq!("1234", u64_to_string(1234));
    assert_eq!("18446744073709551615", u64_to_string(u64::MAX));
    assert_eq!("-5", i32_to_string(-5));
    assert_eq!("7", i32_to_string(7));
    assert_eq!("-2147483648", i32_to_string(i32::MIN));
}

#[test]
fn searches_substrings() {
    assert!(str_contains("hello world", "lo wo"));
    assert!(str_contains("hello", ""));
    assert!(!str_contains("hello", "world"));
    assert!(str_eq("abc", "abc"));
    assert!(!str_eq("abc", "abd"));
    assert!(str_ends_with("movie_tmp", "_tmp"));
    assert!(!str_ends_with("movie", "_tmp"));
}

#[test]
fn trims_ascii_whitespace() {
    assert_eq!("a b", trim_ascii("  a b\t\n"));
    assert_eq!("", trim_ascii("   "));
    assert_eq!("x", trim_ascii("x"));
}

#[test]
fn parses_size_suffixes() {
    assert_eq!(Some(500 * 1024), parse_bytes("500k"));
    assert_eq!(Some(3 * 1024 * 1024), parse_bytes("3m"));
    assert_eq!(Some(2 * 1024 * 1024 * 1024), parse_bytes("2G"));
    // A bare number loses its last digit to the suffix position.
    assert_eq!(Some(10), parse_bytes("100"));
    assert_eq!(Some(500 * 1024), parse_bytes(" 500k "));
    assert_eq!(None, parse_bytes(""));
    assert_eq!(None, parse_bytes("k"));
    assert_eq!(None, parse_bytes("xk"));
}

#[test]
fn splits_paths() {
    assert_eq!("movie.mkv", file_name("/data/films/movie.mkv"));
    assert_eq!("movie.mkv", file_name("movie.mkv"));
    assert_eq!("movie", file_stem("/data/films/movie.mkv"));
    assert_eq!(".hidden", file_stem("/data/.hidden"));
    assert_eq!("/data/films/new.mp4", with_file_name("/data/films/movie.mkv", "new.mp4"));
    assert_eq!("new.mp4", with_file_name("movie.mkv", "new.mp4"));
}

#[test]
fn shortens_names_for_display() {
    assert_eq!("short.mp4", file_name_short("/a/short.mp4", 40));
    assert_eq!(
        "abcdefghi...",
        file_name_short("/a/abcdefghijklm", 10),
    );
    assert_eq!("short.mp4", trim_path("/a/short.mp4"));
    let long = "x".repeat(70);
    let trimmed = trim_path(&format!("/a/{long}"));
    assert_eq!(65, trimmed.chars().count());
    assert!(trimmed.ends_with('\u{2026}'));
}
