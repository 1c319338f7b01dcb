use lean4_mcp_proxy::framing::{encode_lsp_message, read_header_line, HeaderStep};
use lean4_mcp_proxy::names::NameMap;
use lean4_mcp_proxy::reader::{FrameReader, ReadStep};
use lean4_mcp_proxy::table::Table;
use lean4_mcp_proxy::text::{
    count_lines, decimal_text, join, parse_usize, signed_decimal_text, strip_prefix, trim,
};
use lean4_mcp_proxy::uri::{file_path_to_uri, percent_decode, uri_to_file_path};

#[test]
fn numbers_are_written_in_decimal() {
    assert_eq!(decimal_text(0), "0");
    assert_eq!(decimal_text(1_000_902), "1000902");
    assert_eq!(signed_decimal_text(-17), "-17");
    assert_eq!(signed_decimal_text(i64::MIN), "-9223372036854775808");
}

#[test]
fn a_written_number_is_read_back() {
    for n in [0usize, 7, 10, 4096, usize::MAX] {
        assert_eq!(parse_usize(decimal_text(n as u128).as_str()), Some(n));
    }
    assert_eq!(parse_usize("+12"), Some(12));
    assert_eq!(parse_usize(""), None);
    assert_eq!(parse_usize("+"), None);
    assert_eq!(parse_usize("-1"), None);
    assert_eq!(parse_usize("1x"), None);
    assert_eq!(parse_usize("99999999999999999999999"), None);
}

#[test]
fn white_space_is_trimmed() {
    assert_eq!(trim(" \t\u{3000}a b\u{a0}\r\n"), "a b");
    assert_eq!(trim(" \n"), "");
    assert_eq!(trim("é"), "é");
}

#[test]
fn a_prefix_is_stripped() {
    assert_eq!(strip_prefix("file://x", "file://"), Some("x".to_string()));
    assert_eq!(strip_prefix("file:/", "file://"), None);
}

#[test]
fn lines_are_counted_without_an_empty_last_one() {
    assert_eq!(count_lines(""), 0);
    assert_eq!(count_lines("a"), 1);
    assert_eq!(count_lines("a\n"), 1);
    assert_eq!(count_lines("a\n\nb"), 3);
}

#[test]
fn texts_are_joined() {
    assert_eq!(join(&vec![], ", "), "");
    assert_eq!(join(&vec!["a".to_string()], ", "), "a");
    assert_eq!(join(&vec!["a".to_string(), "b".to_string()], ", "), "a, b");
}

#[test]
fn a_written_message_is_read_back() {
    let body = b"{\"a\": \"\xc3\xa9\"}";
    let message = encode_lsp_message(body);
    let text = String::from_utf8(message.clone()).unwrap();
    let (first, rest) = text.split_at(text.find('\n').unwrap() + 1);
    let step = read_header_line(None, first);
    assert_eq!(step, HeaderStep::More { told: Some(body.len()) });
    assert_eq!(
        read_header_line(Some(body.len()), &rest[..2]),
        HeaderStep::Body { length: body.len() }
    );
    assert_eq!(&message[message.len() - body.len()..], body);
}

#[test]
fn header_lines_lead_on() {
    assert_eq!(
        read_header_line(Some(3), "Content-Type: application/vscode-jsonrpc\r\n"),
        HeaderStep::More { told: Some(3) }
    );
    assert_eq!(
        read_header_line(None, "Content-Length:12\n"),
        HeaderStep::More { told: Some(12) }
    );
    assert_eq!(read_header_line(None, "\r\n"), HeaderStep::NoLength);
    assert_eq!(read_header_line(None, "Content-Length: x\r\n"), HeaderStep::Malformed);
}

#[test]
fn escapes_are_resolved() {
    assert_eq!(percent_decode("é"), "é");
    assert_eq!(percent_decode("%20é%é⊢x"), " é%é⊢x");
    assert_eq!(percent_decode("%é"), "%é");
    assert_eq!(percent_decode("%é%20"), "%é ");
    assert_eq!(percent_decode("%⊢41%41"), "%⊢41A");
    assert_eq!(percent_decode("%C3%A9"), "\u{c3}\u{a9}");
    assert_eq!(percent_decode("%zz1"), "%zz1");
    assert_eq!(percent_decode("%+5"), "\u{5}");
    assert_eq!(percent_decode("a%4"), "a@");
    assert_eq!(percent_decode("a%"), "a\0");
    assert_eq!(percent_decode("a%z"), "a%z0");
}

#[test]
fn the_uri_of_a_path_stands_for_the_path() {
    for path in ["/tmp/a b.lean", "/tmp/é.lean", "/", "/a%zzb", "/%%41", "/⊢%éx", "/a%é"] {
        assert_eq!(uri_to_file_path(&file_path_to_uri(path)), Some(path.to_string()));
    }
    assert_eq!(
        uri_to_file_path(&file_path_to_uri("a/b")),
        Some("/a/b".to_string())
    );
    for path in ["/a%20b", "/a%", "/a%z"] {
        assert_ne!(uri_to_file_path(&file_path_to_uri(path)), Some(path.to_string()));
    }
}

#[test]
fn decoding_goes_piece_by_piece() {
    for (a, b) in [("%é", "%20"), ("a%20", "%41b"), ("", "%41"), ("x", "%"), ("%zé", "41")] {
        assert_eq!(
            percent_decode(&format!("{a}{b}")),
            format!("{}{}", percent_decode(a), percent_decode(b))
        );
    }
}

#[test]
fn text_without_a_percent_sign_is_not_altered() {
    assert_eq!(file_path_to_uri("/tmp/é.lean"), "file:///tmp/é.lean");
    assert_eq!(
        uri_to_file_path("file:///tmp/\u{e9}.lean"),
        Some("/tmp/\u{e9}.lean".to_string())
    );
}

fn read(reader: &mut FrameReader) -> Option<Vec<u8>> {
    match reader.next() {
        ReadStep::Message { body } => Some(body),
        _ => None,
    }
}

#[test]
fn messages_in_a_row_are_read_back_in_whatever_chunks() {
    let bodies: Vec<Vec<u8>> = vec![b"{}".to_vec(), b"\n\n".to_vec(), b"".to_vec(), vec![0xff, 10]];
    let mut bytes = Vec::new();
    for body in &bodies {
        bytes.extend(encode_lsp_message(body));
    }
    for size in [1, 2, 7, 1000] {
        let mut reader = FrameReader::new();
        let mut found = Vec::new();
        for chunk in bytes.chunks(size) {
            reader.push(chunk);
            while let Some(body) = read(&mut reader) {
                found.push(body);
            }
        }
        assert_eq!(found, bodies);
        assert!(reader.finish());
    }
}

#[test]
fn a_header_without_a_length_is_passed_over() {
    let mut reader = FrameReader::new();
    reader.push(b"X: 1\r\n\r\nContent-Type: t\r\nContent-Length: 1\r\n\r\na");
    assert_eq!(read(&mut reader), Some(b"a".to_vec()));
    assert!(matches!(reader.next(), ReadStep::Pending));
}

#[test]
fn bytes_that_are_no_message_are_told() {
    for bytes in [&b"Content-Length: x\r\n"[..], &b"\xff\n"[..]] {
        let mut reader = FrameReader::new();
        reader.push(&encode_lsp_message(b"a"));
        reader.push(bytes);
        assert_eq!(read(&mut reader), Some(b"a".to_vec()));
        assert!(matches!(reader.next(), ReadStep::Malformed));
    }
}

#[test]
fn bytes_that_end_within_a_message_are_told() {
    for (bytes, sound) in [
        (&b""[..], true),
        (&b"Content-Le"[..], true),
        (&b"Content-Length: x"[..], false),
        (&b"\xff"[..], false),
        (&b"Content-Length: 2\r\n\r\n"[..], false),
        (&b"Content-Length: 2\r\n\r\na"[..], false),
        (&b"Content-Length: 2\n\r"[..], false),
        (&b"Content-Length: 0\n\r"[..], true),
    ] {
        let mut reader = FrameReader::new();
        reader.push(bytes);
        assert!(matches!(reader.next(), ReadStep::Pending));
        assert_eq!(reader.finish(), sound);
    }
}

#[test]
fn names_have_values() {
    let mut map: NameMap<String> = NameMap::new();
    map.insert("a", "1".to_string());
    map.insert("a", "2".to_string());
    assert_eq!(map.get("a"), Some(&"2".to_string()));
    assert!(map.contains("a"));
    map.remove("a");
    assert_eq!(map.get("a"), None);
}

#[test]
fn a_table_keeps_the_order_of_its_names() {
    let mut table: Table<String> = Table::new();
    table.insert("b", "1".to_string());
    table.insert("a", "2".to_string());
    table.insert("b", "3".to_string());
    assert_eq!(table.len(), 2);
    assert_eq!(table.entry(0), ("b", &"3".to_string()));
    assert_eq!(table.entry(1), ("a", &"2".to_string()));
    assert_eq!(table.get("a"), Some(&"2".to_string()));
    assert!(!table.contains("c"));
    assert_eq!(table.remove("b"), Some("3".to_string()));
    assert_eq!(table.remove("b"), None);
    assert_eq!(table.take("a"), "2");
    assert_eq!(table.len(), 0);
}
