use arc::bytes::{copied, extend, read_u32_le, same_bytes, u32_le};
use arc::number::{decimal_text, hex_text, parse_signed, parse_unsigned, signed_text};
use arc::path::{extension_of, file_name_of, file_stem_of};
use arc::sync::{blake2_hex, cut_chunk, forward_slashes, is_syncable, join_remote, skipped};
use arc::text::{
    align_left, align_right, chars_of, contains, in_order, join, lines_of, lowercased,
    replace_char, same_ignoring_case, sort_texts, split_first, split_first_at, split_on,
    string_of, trimmed, words_of,
};

fn chars(s: &str) -> Vec<char> {
    s.chars().collect()
}

fn texts(parts: &[Vec<char>]) -> Vec<String> {
    parts.iter().map(|p| p.iter().collect()).collect()
}

#[test]
fn text_turns_into_characters_and_back() {
    assert_eq!(string_of(&chars_of("gr\u{fc}n")), "gr\u{fc}n");
}

#[test]
fn splitting_undoes_joining() {
    let parts = vec!["a".to_string(), String::new(), "b c".to_string()];
    let joined = join(&parts, "|");
    assert_eq!(joined, "a||b c");
    assert_eq!(texts(&split_on(&chars(&joined), '|')), parts);
    assert_eq!(texts(&split_on(&[], '|')), vec![""]);
}

#[test]
fn lines_lose_their_ends() {
    assert_eq!(texts(&lines_of("a\r\nb\n\nc")), vec!["a", "b", "", "c"]);
    assert_eq!(lines_of("").len(), 0);
    assert_eq!(texts(&lines_of("a\n")), vec!["a"]);
}

#[test]
fn words_are_parted_by_space() {
    assert_eq!(texts(&words_of(&chars("  a\t bc \n"))), vec!["a", "bc"]);
    assert_eq!(trimmed(&chars("\u{a0} x y\u{3000}")), chars("x y"));
}

#[test]
fn splitting_once_takes_the_first() {
    assert_eq!(split_first(&chars("a=b=c"), '='), Some((chars("a"), chars("b=c"))));
    assert_eq!(split_first(&chars("abc"), '='), None);
    assert_eq!(
        split_first_at(&chars("a::b::c"), &chars("::")),
        Some((chars("a"), chars("b::c")))
    );
    assert!(contains(&chars("hello"), &chars("ell")));
    assert!(!contains(&chars("hello"), &chars("elo")));
}

#[test]
fn columns_are_padded() {
    assert_eq!(align_right("ab", 4), "  ab");
    assert_eq!(align_left("ab", 4), "ab  ");
    assert_eq!(align_left("abcde", 4), "abcde");
}

#[test]
fn case_is_folded_for_ascii() {
    assert!(same_ignoring_case("ABc", "abC"));
    assert!(!same_ignoring_case("\u{c4}", "\u{e4}"));
    assert_eq!(lowercased(&chars("A\u{c4}")), chars("a\u{c4}"));
}

#[test]
fn texts_are_sorted() {
    let sorted = sort_texts(vec!["b".to_string(), "a".to_string(), "B".to_string()]);
    assert_eq!(sorted, vec!["B", "a", "b"]);
    assert!(in_order("a", "ab") && !in_order("b", "ab"));
}

#[test]
fn character_is_replaced() {
    assert_eq!(replace_char("it's", '\'', "''"), "it''s");
}

#[test]
fn numbers_are_written_and_read() {
    assert_eq!(decimal_text(0), "0");
    assert_eq!(decimal_text(u64::MAX), "18446744073709551615");
    assert_eq!(signed_text(i32::MIN), "-2147483648");
    assert_eq!(hex_text(&[0, 0xab]), "00ab");
    assert_eq!(parse_unsigned(&chars("+42"), 100), Some(42));
    assert_eq!(parse_unsigned(&chars("101"), 100), None);
    assert_eq!(parse_unsigned(&chars(""), 100), None);
    assert_eq!(parse_signed(&chars("-2147483648")), Some(i32::MIN));
    assert_eq!(parse_signed(&chars("2147483648")), None);
    assert_eq!(parse_signed(&chars("-")), None);
}

#[test]
fn bytes_are_kept_in_order() {
    assert_eq!(u32_le(0x0102_0304), vec![4, 3, 2, 1]);
    assert_eq!(read_u32_le(&[9, 4, 3, 2, 1], 1), 0x0102_0304);
    let mut out = copied(&[1]);
    extend(&mut out, &[2, 3]);
    assert!(same_bytes(&out, &[1, 2, 3]) && !same_bytes(&out, &[1, 2]));
}

#[test]
fn paths_are_taken_apart() {
    assert_eq!(file_name_of("a/b.txt"), Some(chars("b.txt")));
    assert_eq!(extension_of("a/b.tar.gz"), Some(chars("gz")));
    assert_eq!(extension_of("a/.hidden"), None);
    assert_eq!(file_stem_of("a/b.txt"), Some(chars("b")));
    assert_eq!(file_name_of(".."), None);
}

#[test]
fn build_directories_are_not_synced() {
    for name in [".git", "node_modules", "target"] {
        assert!(skipped(name, false));
    }
    assert!(skipped(".git", true));
    assert!(!skipped("target", true) && !skipped("src", false));
    assert!(is_syncable("src/lib.rs", false));
    assert!(!is_syncable("a/.git/config", true));
    assert!(!is_syncable("target/x", false) && is_syncable("target/x", true));
}

#[test]
fn remote_paths_are_joined() {
    assert_eq!(forward_slashes("a\\b"), "a/b");
    assert_eq!(join_remote("C:/x", "y/z"), "C:/x/y/z");
    assert_eq!(join_remote("C:/x/", "y"), "C:/x/y");
}

#[test]
fn hash_is_blake2() {
    assert_eq!(
        blake2_hex(b""),
        "69217a3079908094e11121d042354a7c1f55b6482ca1a51e1b250dfd1ed0eef9"
    );
    assert_ne!(blake2_hex(b"a"), blake2_hex(b"b"));
}

#[test]
fn chunk_ends_with_the_data() {
    assert_eq!(cut_chunk(&[1, 2, 3], 1), vec![2, 3]);
    assert_eq!(cut_chunk(&[1], 1), Vec::<u8>::new());
    let data = vec![7u8; 8 * 1024 * 1024 + 5];
    assert_eq!(cut_chunk(&data, 0).len(), 8 * 1024 * 1024);
    assert_eq!(cut_chunk(&data, 8 * 1024 * 1024).len(), 5);
}
