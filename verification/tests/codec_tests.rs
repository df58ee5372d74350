use kalandra_kapital::cache::{CacheEntry, RequestCache};
use kalandra_kapital::codec::{
    encode_cache_file, encode_cache_line, parse_cache_file, parse_cache_line,
};

#[test]
fn line_encoding_is_key_comma_base64() {
    let line = encode_cache_line(b"k1", b"hello");
    assert_eq!(line, b"k1,aGVsbG8=".to_vec());
}

#[test]
fn line_round_trip_reproduces_key_and_payload() {
    let line = encode_cache_line(b"divine->serrated-fossil", b"{\"total\":0}");
    let entry = parse_cache_line(line.as_slice()).unwrap();
    assert_eq!(entry.key, b"divine->serrated-fossil".to_vec());
    assert_eq!(entry.payload, b"{\"total\":0}".to_vec());
}

#[test]
fn line_without_separator_is_rejected() {
    assert!(parse_cache_line(b"no separator here").is_none());
    assert!(parse_cache_line(b"").is_none());
}

#[test]
fn file_round_trip_reproduces_every_entry() {
    let entries = vec![
        CacheEntry { key: b"a->b".to_vec(), payload: b"payload one".to_vec() },
        CacheEntry { key: b"c->d".to_vec(), payload: b"".to_vec() },
        CacheEntry { key: b"QUJD".to_vec(), payload: b"{\"result\":[]}".to_vec() },
    ];
    let bytes = encode_cache_file(&entries);
    let back = parse_cache_file(bytes.as_slice());
    assert_eq!(back.len(), 3);
    for (orig, round) in entries.iter().zip(back.iter()) {
        assert_eq!(orig.key, round.key);
        assert_eq!(orig.payload, round.payload);
    }
    // and the parsed entries rebuild an equivalent cache
    let cache = RequestCache::from_entries(back);
    assert_eq!(cache.lookup(b"a->b").map(|p| p.clone()), Some(b"payload one".to_vec()));
}

#[test]
fn corrupt_trailing_line_is_skipped() {
    let entries = vec![CacheEntry { key: b"k".to_vec(), payload: b"data".to_vec() }];
    let mut bytes = encode_cache_file(&entries);
    // an interrupted write leaves a torn line at the end
    bytes.extend_from_slice(b"torn-line-without");
    let back = parse_cache_file(bytes.as_slice());
    assert_eq!(back.len(), 1);
    assert_eq!(back[0].key, b"k".to_vec());
}

#[test]
fn malformed_middle_line_is_skipped_not_fatal() {
    let mut bytes = Vec::new();
    bytes.extend_from_slice(b"not a valid line\n");
    bytes.extend_from_slice(encode_cache_line(b"good", b"entry").as_slice());
    bytes.push(b'\n');
    let back = parse_cache_file(bytes.as_slice());
    assert_eq!(back.len(), 1);
    assert_eq!(back[0].key, b"good".to_vec());
    assert_eq!(back[0].payload, b"entry".to_vec());
}

#[test]
fn empty_file_parses_to_no_entries() {
    assert_eq!(parse_cache_file(b"").len(), 0);
}
