use elara::feed::{decode_item, FeedItem, FeedStream};

fn encode(id: u64, author: u64, ts: i64, deleted: bool, content: &[u8]) -> Vec<u8> {
    let mut v = Vec::new();
    v.extend_from_slice(&id.to_le_bytes());
    v.extend_from_slice(&author.to_le_bytes());
    v.extend_from_slice(&ts.to_le_bytes());
    v.push(deleted as u8);
    v.extend_from_slice(&(content.len() as u16).to_le_bytes());
    v.extend_from_slice(content);
    v
}

fn item(id: u64, ts: i64, content: &[u8]) -> FeedItem {
    FeedItem { id, author: 123u64.to_le_bytes(), content: content.to_vec(), timestamp_us: ts, deleted: false }
}

#[test]
fn test_feed_append_roundtrip() {
    let bytes = encode(1, 123, 0, false, b"hello feed");
    let stream = FeedStream::from_bytes(&bytes);
    assert_eq!(stream.items.len(), 1);
    let first = &stream.items[0];
    assert_eq!(first.id, 1);
    assert_eq!(first.author, 123u64.to_le_bytes());
    assert_eq!(first.content, b"hello feed".to_vec());
    assert!(!first.deleted);
}

#[test]
fn decode_reports_bytes_used() {
    let bytes = encode(9, 1, -5, true, b"abc");
    let (it, used) = decode_item(&bytes).unwrap();
    assert_eq!(used, bytes.len());
    assert_eq!(it.id, 9);
    assert_eq!(it.timestamp_us, -5);
    assert!(it.deleted);
    assert!(decode_item(&bytes[..bytes.len() - 1]).is_none());
    assert!(decode_item(&bytes[..10]).is_none());
}

#[test]
fn items_are_kept_by_timestamp_and_replaced_by_id() {
    let mut stream = FeedStream::new();
    stream.apply_item(item(1, 30, b"c"));
    stream.apply_item(item(2, 10, b"a"));
    stream.apply_item(item(3, 20, b"b"));
    let ids: Vec<u64> = stream.items.iter().map(|i| i.id).collect();
    assert_eq!(ids, vec![2, 3, 1]);

    // same id: replaced in place
    stream.apply_item(item(3, 99, b"edited"));
    let ids: Vec<u64> = stream.items.iter().map(|i| i.id).collect();
    assert_eq!(ids, vec![2, 3, 1]);
    assert_eq!(stream.items[1].content, b"edited".to_vec());
    assert_eq!(stream.items[1].timestamp_us, 99);
}

#[test]
fn several_items_decode_in_sequence() {
    let mut bytes = encode(1, 1, 50, false, b"x");
    bytes.extend(encode(2, 1, 40, false, b"yy"));
    bytes.extend(encode(1, 1, 60, true, b""));
    bytes.extend_from_slice(&[1, 2, 3]); // a truncated tail is ignored
    let stream = FeedStream::from_bytes(&bytes);
    assert_eq!(stream.items.len(), 2);
    let ids: Vec<u64> = stream.items.iter().map(|i| i.id).collect();
    assert_eq!(ids, vec![2, 1]);
    assert!(stream.items[1].deleted);
}
