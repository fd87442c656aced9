use asp_dot_rust::http_context::http_request_stream::{find_first_delimiter, ReadUntil, RequestStream};

/// Runs a read up to a delimiter over `initial` buffered bytes and then `chunks`, as the
/// server loop does.
fn read_until(initial: &[u8], chunks: &[&[u8]], delims: &[u8], max: usize) -> (Vec<u8>, bool, Vec<u8>) {
    let mut s = RequestStream::new();
    s.feed(initial);
    let mut p = ReadUntil::new();
    let mut next = 0;
    loop {
        if s.scan_until(delims, max, &mut p) {
            break;
        }
        if next == chunks.len() {
            break;
        }
        s.feed(chunks[next]);
        next += 1;
    }
    (p.result, p.out_max_size, s.read_buffer)
}

#[test]
fn first_delimiter_is_the_earliest() {
    assert_eq!(find_first_delimiter(b" \n", b"GET /x HTTP/1.1\r\n"), Some(3));
    assert_eq!(find_first_delimiter(b"\n", b"abc"), None);
    assert_eq!(find_first_delimiter(b"", b"abc"), None);
    assert_eq!(find_first_delimiter(b"ca", b"abc"), Some(0));
}

#[test]
fn reads_up_to_whitespace() {
    let ws = RequestStream::whitespace_delimiters();
    let (r, cut, rest) = read_until(b"GET /index HTTP/1.1", &[], &ws, usize::MAX);
    assert_eq!(r, b"GET".to_vec());
    assert!(!cut);
    assert_eq!(rest, b"/index HTTP/1.1".to_vec());
}

#[test]
fn reads_across_chunks() {
    let (r, cut, rest) = read_until(b"", &[b"ab", b"cd", b"e\nf"], b"\n", 100);
    assert_eq!(r, b"abcde".to_vec());
    assert!(!cut);
    assert_eq!(rest, b"f".to_vec());
}

#[test]
fn stops_at_the_limit() {
    let (r, cut, rest) = read_until(b"abcdef", &[], b"\n", 4);
    assert_eq!(r, b"abcd".to_vec());
    assert!(cut);
    assert_eq!(rest, b"ef".to_vec());
}

#[test]
fn limit_with_delimiter_in_buffer_consumes_it() {
    let (r, cut, rest) = read_until(b"abcdef\nxy", &[], b"\n", 2);
    assert_eq!(r, b"ab".to_vec());
    assert!(cut);
    assert_eq!(rest, b"xy".to_vec());
}

#[test]
fn end_of_input_without_delimiter() {
    let (r, cut, rest) = read_until(b"ab", &[b"c"], b"\n", 10);
    assert_eq!(r, b"abc".to_vec());
    assert!(!cut);
    assert!(rest.is_empty());
}

#[test]
fn take_buffered_and_take_all() {
    let mut s = RequestStream::new();
    s.feed(b"hello world");
    assert_eq!(s.take_buffered(5), b"hello".to_vec());
    assert_eq!(s.read_buffer, b" world".to_vec());
    assert_eq!(s.take_buffered(100), b" world".to_vec());
    assert!(s.read_buffer.is_empty());
    s.feed(b"xyz");
    s.record_read(3);
    assert_eq!(s.read_size, 3);
    assert_eq!(s.take_all(), b"xyz".to_vec());
    assert!(s.read_buffer.is_empty());
}
