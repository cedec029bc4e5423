//! Mappings, and the texts that messages are made of.

use p11scope::maps::{
    executable_file_keys, parse_maps, Device, MapEntry, ObjectKey,
};
use p11scope::text::{
    decimal, hexadecimal, is_before, join, parse_digits, parse_unsigned, replace, signed_decimal,
    split_at_each, split_lines, take_last_word, trim,
};

#[test]
fn mappings_are_parsed_line_by_line() {
    let maps = parse_maps(
        b"7f00-8f00 r-xp 00001000 fd:0a 42 /usr/lib/a b.so\n8f00-9000 rw-p 00000000 00:00 0 \n",
    )
    .unwrap();
    assert_eq!(
        maps[0],
        MapEntry {
            start: 0x7f00,
            end: 0x8f00,
            file_offset: 0x1000,
            permissions: *b"r-xp",
            device: Device {
                major: 0xfd,
                minor: 0x0a
            },
            inode: 42,
            raw_path: Some(b"/usr/lib/a b.so".to_vec()),
        }
    );
    assert_eq!(maps.len(), 2);
    assert_eq!(
        executable_file_keys(&maps),
        [ObjectKey {
            device: Device {
                major: 0xfd,
                minor: 0x0a
            },
            inode: 42
        }]
    );
    assert_eq!(
        parse_maps(b"7f00-8f00 r-xp 00001000 fd:0a 42 /a\nnonsense\n").unwrap_err(),
        "cannot parse maps line 2"
    );
}

#[test]
fn numbers_are_written_and_read() {
    assert_eq!(decimal(0), "0");
    assert_eq!(decimal(u64::MAX), "18446744073709551615");
    assert_eq!(signed_decimal(-7), "-7");
    assert_eq!(hexadecimal(0xbeef), "beef");
    assert_eq!(parse_digits("0042", 100), Some(42));
    assert_eq!(parse_digits("+42", 100), None);
    assert_eq!(parse_unsigned("+42", 100), Some(42));
    assert_eq!(parse_unsigned("101", 100), None);
    assert_eq!(parse_unsigned("", 100), None);
}

#[test]
fn texts_are_taken_apart_and_put_together() {
    assert_eq!(split_at_each("a:b:", ':'), ["a", "b", ""]);
    assert_eq!(split_lines("a\r\nb\n"), ["a", "b"]);
    assert_eq!(trim("\t a b \n"), "a b");
    assert_eq!(take_last_word("unsigned long flags"), "flags");
    assert_eq!(replace("aXbXX", "X", "--"), "a--b----");
    assert_eq!(join(&vec!["a".to_owned(), "b".to_owned()], "; "), "a; b");
    assert!(is_before("a", "ab"));
    assert!(!is_before("b", "ab"));
}
