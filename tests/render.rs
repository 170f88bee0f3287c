use archsum::{apply_case, display_name, escape_name, format_line};

#[test]
fn escaping_of_each_kind_of_byte() {
    assert_eq!(escape_name(b"a\tb\r\n"), "a\\tb\\r\\n");
    assert_eq!(escape_name(b"'\"\\"), "\\'\\\"\\\\");
    assert_eq!(escape_name(b"\x00\x7f\xff~ "), "\\x00\\x7f\\xff~ ");
    assert_eq!(escape_name(b""), "");
}

#[test]
fn escaped_and_lossy_names_differ_on_invalid_text() {
    let raw: &[u8] = b"d/\xfff.txt";
    let escaped = display_name(raw, true);
    let lossy = display_name(raw, false);
    assert_eq!(escaped, "d/\\xfff.txt");
    assert_eq!(escaped, display_name(raw, true));
    assert_eq!(lossy, "d/\u{FFFD}f.txt");
    assert_ne!(escaped, lossy);
}

#[test]
fn valid_text_names_render_as_is() {
    assert_eq!(display_name("d/é.txt".as_bytes(), false), "d/é.txt");
    assert_eq!(display_name("d/é.txt".as_bytes(), true), "d/\\xc3\\xa9.txt");
}

#[test]
fn digest_case() {
    let h = "49F68A5C8493EC2C0BF489821C21FC3B".to_string();
    assert_eq!(apply_case(h.clone(), true), "49f68a5c8493ec2c0bf489821c21fc3b");
    assert_eq!(apply_case(h.clone(), false), h);
}

#[test]
fn line_layouts() {
    assert_eq!(format_line("a.txt", "AB", 2621440, 0), "a.txt AB");
    assert_eq!(format_line("a.txt", "AB", 2621440, 1), "a.txt AB 2621440");
    assert_eq!(format_line("a.txt", "AB", 0, 1), "a.txt AB 0");
    assert_eq!(format_line("a.txt", "AB", 2621440, 2), "a.txt AB 2.5 MiB");
    assert_eq!(format_line("a.txt", "AB", 2621440, 7), "a.txt AB 2.5 MiB");
}
