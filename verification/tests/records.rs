use capturefs::records::split_byte_records;
use capturefs::records::split_fragments;
use capturefs::records::split_records;

fn strings(lines: &[&str]) -> Option<Vec<String>> {
    Some(lines.iter().map(|s| s.to_string()).collect())
}

#[test]
fn fragments_of_empty_payload() {
    assert_eq!(split_fragments(b""), vec![Vec::<u8>::new()]);
}

#[test]
fn fragments_are_one_more_than_line_breaks() {
    assert_eq!(
        split_fragments(b"a\nb\n"),
        vec![b"a".to_vec(), b"b".to_vec(), Vec::new()]
    );
    assert_eq!(
        split_fragments(b"\n\n"),
        vec![Vec::<u8>::new(), Vec::new(), Vec::new()]
    );
    assert_eq!(split_fragments(b"abc"), vec![b"abc".to_vec()]);
}

#[test]
fn byte_records_drop_trailing_empty_fragments() {
    assert_eq!(
        split_byte_records(b"a\nb\n"),
        vec![b"a".to_vec(), b"b".to_vec()]
    );
    assert_eq!(split_byte_records(b"a\n\n\n"), vec![b"a".to_vec()]);
    assert_eq!(split_byte_records(b"\n\n"), Vec::<Vec<u8>>::new());
    assert_eq!(split_byte_records(b""), Vec::<Vec<u8>>::new());
}

#[test]
fn byte_records_keep_empty_lines_inside() {
    assert_eq!(
        split_byte_records(b"a\n\nb\n"),
        vec![b"a".to_vec(), Vec::new(), b"b".to_vec()]
    );
    assert_eq!(
        split_byte_records(b"\nx"),
        vec![Vec::new(), b"x".to_vec()]
    );
}

#[test]
fn records_of_two_lines() {
    assert_eq!(split_records(b"hello\nworld\n"), strings(&["hello", "world"]));
}

#[test]
fn records_without_final_line_break() {
    assert_eq!(split_records(b"hello\nworld"), strings(&["hello", "world"]));
}

#[test]
fn records_of_empty_payload() {
    assert_eq!(split_records(b""), strings(&[]));
    assert_eq!(split_records(b"\n"), strings(&[]));
}

#[test]
fn records_decode_utf8() {
    let payload = "h\u{e9}llo\n\u{65e5}\u{672c}\u{8a9e}\n";
    assert_eq!(
        split_records(payload.as_bytes()),
        strings(&["h\u{e9}llo", "\u{65e5}\u{672c}\u{8a9e}"])
    );
}

#[test]
fn records_refuse_invalid_text() {
    assert_eq!(split_records(b"ok\n\xff\xfe\n"), None);
    assert_eq!(split_records(b"\xc3"), None);
    assert_eq!(split_records(b"\xed\xa0\x80\n"), None);
}

#[test]
fn records_refuse_a_character_cut_by_a_line_break() {
    assert_eq!(split_records(b"\xc3\n\xa9\n"), None);
}
