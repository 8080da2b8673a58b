use query_core::error::ErrorKind;
use query_core::io::buffer_read::BufferRead;
use query_core::io::buffer_read::BufferReader;
use query_core::io::buffer_read_ext::BufferReadExt;

fn reader(text: &str, capacity: usize) -> BufferReader {
    BufferReader::new(text.as_bytes().to_vec(), capacity)
}

fn rest(reader: &mut BufferReader) -> String {
    let mut buf = vec![];
    reader.drain(&mut buf).unwrap();
    String::from_utf8(buf).unwrap()
}

#[test]
fn the_reader_hands_its_bytes_out_in_pieces() {
    let mut r = reader("abcde", 2);
    assert_eq!(r.fill_buf(), 2);
    assert_eq!(r.peek(0), b'a');
    assert_eq!(r.peek(1), b'b');
    r.consume(1);
    assert_eq!(r.fill_buf(), 1);
    assert_eq!(r.peek(0), b'b');
    r.consume(1);
    assert_eq!(r.fill_buf(), 2);
    r.consume(2);
    assert_eq!(r.fill_buf(), 1);
    assert_eq!(r.peek(0), b'e');
    r.consume(1);
    assert_eq!(r.fill_buf(), 0);
}

#[test]
fn ignores_skips_a_run_of_bytes() {
    for capacity in [1, 2, 3, 100] {
        let mut r = reader("aaab", capacity);
        assert_eq!(r.ignores(|b| b == b'a').unwrap(), 3);
        assert_eq!(rest(&mut r), "b");
        let mut r = reader("aaa", capacity);
        assert_eq!(r.ignores(|b| b == b'a').unwrap(), 3);
        assert!(r.eof().unwrap());
        let mut r = reader("baa", capacity);
        assert_eq!(r.ignores(|b| b == b'a').unwrap(), 0);
        assert_eq!(rest(&mut r), "baa");
    }
}

#[test]
fn ignore_skips_one_byte() {
    let mut r = reader("ab", 8);
    assert!(!r.ignore(|b| b == b'b').unwrap());
    assert!(r.ignore(|b| b == b'a').unwrap());
    assert!(!r.ignore_byte(b'a').unwrap());
    assert!(r.ignore_byte(b'b').unwrap());
    assert!(!r.ignore_byte(b'b').unwrap());
    assert!(!r.ignore(|_| true).unwrap());
}

#[test]
fn ignore_bytes_skips_a_word() {
    for capacity in [1, 2, 5, 100] {
        let mut r = reader("hello world", capacity);
        assert!(r.ignore_bytes(b"hello").unwrap());
        assert_eq!(rest(&mut r), " world");
        // The common start is skipped where the word is not there.
        let mut r = reader("help", capacity);
        assert!(!r.ignore_bytes(b"hello").unwrap());
        assert_eq!(rest(&mut r), "p");
        let mut r = reader("he", capacity);
        assert!(!r.ignore_bytes(b"hello").unwrap());
        assert!(r.eof().unwrap());
        let mut r = reader("x", capacity);
        assert!(r.ignore_bytes(b"").unwrap());
        assert_eq!(rest(&mut r), "x");
        let mut r = reader("NuLl,", capacity);
        assert!(!r.ignore_bytes(b"null").unwrap());
        assert_eq!(rest(&mut r), "NuLl,");
        let mut r = reader("NuLl,", capacity);
        assert!(r.ignore_insensitive_bytes(b"nULL").unwrap());
        assert_eq!(rest(&mut r), ",");
        let mut r = reader("nul0", capacity);
        assert!(!r.ignore_insensitive_bytes(b"NULL").unwrap());
        assert_eq!(rest(&mut r), "0");
        // `@` and `` ` `` differ by the bit that tells the case of letters.
        let mut r = reader("@", capacity);
        assert!(!r.ignore_insensitive_bytes(b"`").unwrap());
    }
}

#[test]
fn white_space() {
    let mut r = reader(" \t\r\n\x0cx", 2);
    assert!(r.ignore_white_spaces().unwrap());
    assert_eq!(rest(&mut r), "x");
    let mut r = reader("x ", 2);
    assert!(!r.ignore_white_spaces().unwrap());
    assert_eq!(rest(&mut r), "x ");
    let mut r = reader("  ,  x", 3);
    assert!(r.ignore_white_spaces_and_byte(b',').unwrap());
    assert_eq!(rest(&mut r), "x");
    let mut r = reader("  ;  x", 3);
    assert!(!r.ignore_white_spaces_and_byte(b',').unwrap());
    assert_eq!(rest(&mut r), ";  x");
    // Only spaces are skipped around the byte.
    let mut r = reader("\t,", 3);
    assert!(!r.ignore_white_spaces_and_byte(b',').unwrap());
    assert_eq!(rest(&mut r), "\t,");
}

#[test]
fn until_and_keep_read() {
    let mut r = reader("ab,cd", 2);
    let mut buf = b">".to_vec();
    assert_eq!(r.until(b',', &mut buf).unwrap(), 3);
    assert_eq!(buf, b">ab,");
    assert_eq!(r.until(b',', &mut buf).unwrap(), 2);
    assert_eq!(buf, b">ab,cd");
    assert_eq!(r.until(b',', &mut buf).unwrap(), 0);
    let mut r = reader("123x4", 2);
    let mut buf = vec![];
    assert_eq!(r.keep_read(&mut buf, |b| b.is_ascii_digit()).unwrap(), 3);
    assert_eq!(buf, b"123");
    assert_eq!(r.keep_read(&mut buf, |b| b.is_ascii_digit()).unwrap(), 0);
    assert_eq!(rest(&mut r), "x4");
}

#[test]
fn quoted_text() {
    for capacity in [1, 2, 3, 100] {
        let mut r = reader("'it''s' rest", capacity);
        let mut buf = vec![];
        r.read_quoted_text(&mut buf, b'\'').unwrap();
        assert_eq!(buf, b"it");
        assert_eq!(rest(&mut r), "'s' rest");
        let mut r = reader(r#""a\n\t\r\0\'\\\"\x b"!"#, capacity);
        let mut buf = b"=".to_vec();
        r.read_quoted_text(&mut buf, b'"').unwrap();
        assert_eq!(buf, b"=a\n\t\r\0'\\\"\\x b");
        assert_eq!(rest(&mut r), "!");
        let mut r = reader("''", capacity);
        let mut buf = vec![];
        r.read_quoted_text(&mut buf, b'\'').unwrap();
        assert_eq!(buf, b"");
        assert!(r.eof().unwrap());
        // No opening quote.
        let mut r = reader("abc'", capacity);
        assert_eq!(
            r.read_quoted_text(&mut vec![], b'\'').unwrap_err().kind,
            ErrorKind::InvalidData
        );
        // No closing quote.
        let mut r = reader("'abc", capacity);
        assert_eq!(
            r.read_quoted_text(&mut vec![], b'\'').unwrap_err().kind,
            ErrorKind::InvalidData
        );
        // Nothing after the backslash.
        let mut r = reader("'abc\\", capacity);
        assert_eq!(
            r.read_quoted_text(&mut vec![], b'\'').unwrap_err().kind,
            ErrorKind::InvalidData
        );
        // An escaped quote does not end the string.
        let mut r = reader("'a\\'", capacity);
        assert!(r.read_quoted_text(&mut vec![], b'\'').is_err());
    }
}

#[test]
fn escaped_string_text() {
    for capacity in [1, 2, 100] {
        let mut r = reader("a\\b\\\\c\td", capacity);
        let mut buf = vec![];
        r.read_escaped_string_text(&mut buf).unwrap();
        assert_eq!(buf, b"a\\b\\\\c");
        assert_eq!(rest(&mut r), "\td");
        let mut r = reader("ab\\\ncd", capacity);
        let mut buf = vec![];
        r.read_escaped_string_text(&mut buf).unwrap();
        assert_eq!(buf, b"ab\\");
        assert_eq!(rest(&mut r), "\ncd");
        let mut r = reader("abc", capacity);
        let mut buf = vec![];
        r.read_escaped_string_text(&mut buf).unwrap();
        assert_eq!(buf, b"abc");
        assert!(r.eof().unwrap());
    }
}

#[test]
fn the_must_forms_fail_with_invalid_data() {
    let mut r = reader("ab  ,  NULL", 4);
    assert!(r.must_ignore(|b| b == b'a').is_ok());
    assert_eq!(
        r.must_ignore(|b| b == b'a').unwrap_err().kind,
        ErrorKind::InvalidData
    );
    assert_eq!(
        r.must_ignore_byte(b'x').unwrap_err().kind,
        ErrorKind::InvalidData
    );
    assert!(r.must_ignore_byte(b'b').is_ok());
    assert_eq!(
        r.must_ignore_white_spaces_and_byte(b';').unwrap_err().kind,
        ErrorKind::InvalidData
    );
    assert!(r.must_ignore_white_spaces_and_byte(b',').is_ok());
    assert_eq!(r.must_eof().unwrap_err().kind, ErrorKind::InvalidData);
    assert_eq!(
        r.must_ignore_bytes(b"NUll").unwrap_err().kind,
        ErrorKind::InvalidData
    );
    let mut r = reader("NULL", 4);
    assert!(r.must_ignore_insensitive_bytes(b"null").is_ok());
    assert!(r.must_eof().is_ok());
    assert_eq!(
        r.must_ignore_bytes(b"x").unwrap_err().kind,
        ErrorKind::InvalidData
    );
    assert_eq!(
        r.must_ignore_insensitive_bytes(b"x").unwrap_err().kind,
        ErrorKind::InvalidData
    );
    let mut r = reader("true", 4);
    assert!(r.must_ignore_bytes(b"true").is_ok());
}
