use docker_proxy::range::{create_range_headers, parse_range_header};

fn header_value(headers: &[(String, String)], key: &str) -> Option<String> {
    headers.iter().find(|p| p.0 == key).map(|p| p.1.clone())
}

#[test]
fn test_parse_range_basic() {
    // Basic range: 0-1023
    let range = parse_range_header("bytes=0-1023", 10000);
    assert_eq!(range, Some(0..1024));

    // Open-ended range: 1024-
    let range = parse_range_header("bytes=1024-", 10000);
    assert_eq!(range, Some(1024..10000));

    // Suffix range: -500 (last 500 bytes)
    let range = parse_range_header("bytes=-500", 10000);
    assert_eq!(range, Some(9500..10000));
}

#[test]
fn test_parse_range_edge_cases() {
    // Range exceeds file size
    let range = parse_range_header("bytes=0-20000", 10000);
    assert_eq!(range, Some(0..10000));

    // Start equals file size
    let range = parse_range_header("bytes=10000-", 10000);
    assert_eq!(range, None);

    // Start > end
    let range = parse_range_header("bytes=5000-1000", 10000);
    assert_eq!(range, None);

    // Invalid format
    let range = parse_range_header("bytes=abc-def", 10000);
    assert_eq!(range, None);

    // Not bytes range
    let range = parse_range_header("items=0-10", 10000);
    assert_eq!(range, None);
}

#[test]
fn test_parse_range_small_file() {
    // Suffix larger than file
    let range = parse_range_header("bytes=-5000", 1000);
    assert_eq!(range, Some(0..1000));

    // Normal range on small file
    let range = parse_range_header("bytes=0-499", 1000);
    assert_eq!(range, Some(0..500));
}

#[test]
fn test_create_range_headers() {
    let range = 1024..2048;
    let (status, headers) = create_range_headers(&range, 10000, "application/octet-stream");

    assert_eq!(status, 206);
    assert!(header_value(&headers, "Content-Type").is_some());
    assert!(header_value(&headers, "Content-Length").is_some());
    assert!(header_value(&headers, "Content-Range").is_some());
    assert!(header_value(&headers, "Accept-Ranges").is_some());

    // Verify Content-Length is range length, not total file size
    let content_length = header_value(&headers, "Content-Length")
        .and_then(|s| s.parse::<u64>().ok())
        .unwrap();
    assert_eq!(content_length, 1024); // 2048 - 1024

    // Verify Content-Range format
    let content_range = header_value(&headers, "Content-Range").unwrap();
    assert_eq!(content_range, "bytes 1024-2047/10000");
}

#[test]
fn test_range_header_values_exact() {
    let range = 0..1;
    let (status, headers) = create_range_headers(&range, 5, "text/html; charset=utf-8");
    assert_eq!(status, 206);
    assert_eq!(
        header_value(&headers, "Content-Type").unwrap(),
        "text/html; charset=utf-8"
    );
    assert_eq!(header_value(&headers, "Content-Length").unwrap(), "1");
    assert_eq!(header_value(&headers, "Content-Range").unwrap(), "bytes 0-0/5");
    assert_eq!(header_value(&headers, "Accept-Ranges").unwrap(), "bytes");
}

#[test]
fn test_parse_range_suffix_normalization() {
    // A suffix of zero or covering the whole file is the full file
    assert_eq!(parse_range_header("bytes=-0", 1000), Some(0..1000));
    assert_eq!(parse_range_header("bytes=-1000", 1000), Some(0..1000));
    // Whitespace around the header is tolerated
    assert_eq!(parse_range_header("  bytes=0-99  ", 1000), Some(0..100));
    // Too many dashes
    assert_eq!(parse_range_header("bytes=0-1-2", 1000), None);
    // Empty on both sides
    assert_eq!(parse_range_header("bytes=-", 1000), None);
}
