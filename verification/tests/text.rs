use trubadur::text::{blank, space, split_fields, trimmed, word_is};

#[test]
fn fields_are_cut_at_each_separator() {
    assert_eq!(split_fields(b"a.b.c", b'.'), vec![&b"a"[..], &b"b"[..], &b"c"[..]]);
    assert_eq!(split_fields(b"", b'.'), vec![&b""[..]]);
    assert_eq!(split_fields(b".", b'.'), vec![&b""[..], &b""[..]]);
    assert_eq!(split_fields(b"a..b", b'.'), vec![&b"a"[..], &b""[..], &b"b"[..]]);
    assert_eq!(split_fields(b".a.", b'.'), vec![&b""[..], &b"a"[..], &b""[..]]);
    assert_eq!(split_fields(b"abc", b'.'), vec![&b"abc"[..]]);
    assert_eq!(
        split_fields(b"one\ntwo\n\nthree\n", b'\n'),
        vec![&b"one"[..], &b"two"[..], &b""[..], &b"three"[..], &b""[..]]
    );
}

#[test]
fn words_are_recognized_exactly() {
    assert!(word_is(b"tcp", "tcp"));
    assert!(!word_is(b"tcp ", "tcp"));
    assert!(!word_is(b"tc", "tcp"));
    assert!(!word_is(b"TCP", "tcp"));
    assert!(!word_is(b"udp", "tcp"));
    assert!(word_is(b"", ""));
    assert!(!word_is(b"a", ""));
}

#[test]
fn blank_space_is_recognized() {
    for b in [b' ', b'\t', b'\n', 0x0b, 0x0c, b'\r'] {
        assert!(space(b));
    }
    for b in [0u8, 8, 14, 31, 33, b'a', b'0', 0x85, 0xa0, 255] {
        assert!(!space(b));
    }
    assert!(blank(b""));
    assert!(blank(b" \t\r"));
    assert!(!blank(b" . "));
    assert!(!blank(b"x"));
}

#[test]
fn blank_margins_are_cut_off() {
    assert_eq!(trimmed(b"  abc \n"), b"abc");
    assert_eq!(trimmed(b"abc"), b"abc");
    assert_eq!(trimmed(b"\t a b \r\n"), b"a b");
    assert_eq!(trimmed(b"   "), b"");
    assert_eq!(trimmed(b""), b"");
    assert_eq!(trimmed(b"\nx"), b"x");
    assert_eq!(trimmed(b"x\n"), b"x");
}
