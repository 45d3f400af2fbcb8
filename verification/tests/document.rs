use reflection_doc::author::Author;
use reflection_doc::document::{peer_id_for, Document};
use reflection_doc::document_id::DocumentId;
use reflection_doc::identity::PublicKey;
use reflection_doc::text::TextError;
use reflection_doc::timestamp::Timestamp;

fn key(n: u8) -> PublicKey {
    PublicKey::from_bytes([n; 32])
}

fn new_doc(n: u8) -> Document {
    Document::new(&key(n), &DocumentId::from([n; 32]))
}

#[test]
fn new_document_is_empty_with_this_device_as_author() {
    let doc = new_doc(1);
    assert_eq!(doc.text(), "");
    assert_eq!(doc.id(), DocumentId::from([1u8; 32]));
    assert_eq!(doc.authors().len(), 1);
    let me = doc.authors().author(&key(1)).unwrap();
    assert!(me.is_this_device && me.is_online);
    assert!(!doc.subscribed());
    assert_eq!(doc.last_accessed(), None);
}

#[test]
fn peer_id_reads_the_first_eight_bytes_big_endian() {
    let mut bytes = [0u8; 32];
    for i in 0..32 {
        bytes[i] = i as u8 + 1;
    }
    assert_eq!(peer_id_for(&PublicKey::from_bytes(bytes)), 0x0102030405060708);
    assert_eq!(peer_id_for(&key(0xff)), u64::MAX);
}

#[test]
fn insert_and_delete_text() {
    let mut doc = new_doc(1);
    doc.insert_text(0, "hello").unwrap();
    doc.insert_text(5, " world").unwrap();
    doc.insert_text(0, ">").unwrap();
    assert_eq!(doc.text(), ">hello world");
    doc.delete_range(0, 1).unwrap();
    assert_eq!(doc.text(), "hello world");
    doc.delete_range(5, 11).unwrap();
    assert_eq!(doc.text(), "hello");
}

#[test]
fn positions_count_characters() {
    let mut doc = new_doc(1);
    doc.insert_text(0, "héllo").unwrap();
    doc.insert_text(2, "X").unwrap();
    assert_eq!(doc.text(), "héXllo");
    doc.delete_range(1, 2).unwrap();
    assert_eq!(doc.text(), "hXllo");
}

#[test]
fn insert_then_delete_restores_the_text() {
    let mut doc = new_doc(1);
    doc.insert_text(0, "abcdef").unwrap();
    doc.insert_text(3, "XYZ").unwrap();
    doc.delete_range(3, 6).unwrap();
    assert_eq!(doc.text(), "abcdef");
}

#[test]
fn edits_out_of_bounds_are_refused() {
    let mut doc = new_doc(1);
    doc.insert_text(0, "abc").unwrap();
    assert!(matches!(
        doc.insert_text(4, "x"),
        Err(TextError::OutOfBound { pos: 4, len: 3, .. })
    ));
    let negative = -1i32 as usize;
    assert!(matches!(
        doc.insert_text(-1, "x"),
        Err(TextError::OutOfBound { pos, len: 3, .. }) if pos == negative
    ));
    assert!(matches!(
        doc.delete_range(2, 5),
        Err(TextError::OutOfBound { pos: 5, len: 3, .. })
    ));
    assert!(matches!(
        doc.delete_range(2, 1),
        Err(TextError::OutOfBound { pos: usize::MAX, len: 3, .. })
    ));
    assert_eq!(doc.text(), "abc");
    // An empty range changes nothing, wherever it is.
    assert_eq!(doc.delete_range(10, 10), Ok(()));
    assert_eq!(doc.text(), "abc");
}

#[test]
fn subscription_bookkeeping() {
    let mut doc = new_doc(1);
    doc.set_last_accessed(Some(Timestamp { seconds: 3, nanoseconds: 0 }));
    doc.finish_subscribe(true);
    assert!(doc.subscribed());
    assert_eq!(doc.last_accessed(), None);
    assert!(doc.take_subscription());
    assert!(!doc.subscribed());
    assert!(!doc.take_subscription());
    doc.finish_unsubscribe();
    assert!(doc.last_accessed().is_some());
    doc.finish_subscribe(false);
    assert!(!doc.subscribed());
}

#[test]
fn snapshot_carries_the_text_to_another_peer() {
    let mut a = new_doc(1);
    a.insert_text(0, "shared text").unwrap();
    let snapshot = a.snapshot().unwrap();
    assert!(snapshot.len() >= 22 && &snapshot[..4] == b"loro");
    let mut b = Document::new(&key(2), &DocumentId::from([1u8; 32]));
    assert!(b.bytes_received(key(1), &snapshot).is_ok());
    assert_eq!(b.text(), "shared text");
    let sender = b.authors().author(&key(1)).unwrap();
    assert!(sender.is_online && !sender.is_this_device);
    assert_eq!(b.authors().len(), 2);
}

#[test]
fn garbage_bytes_are_refused_but_the_sender_is_recorded() {
    let mut doc = new_doc(1);
    doc.insert_text(0, "keep").unwrap();
    assert!(doc.bytes_received(key(3), &[1, 2, 3, 4]).is_err());
    assert_eq!(doc.text(), "keep");
    assert!(doc.authors().author(&key(3)).is_some());
}

#[test]
fn peers_joining_and_leaving_are_recorded_once() {
    let mut doc = new_doc(1);
    doc.author_left(key(2));
    let two = doc.authors().author(&key(2)).unwrap();
    assert!(two.is_online && !two.is_this_device);
    doc.author_joined(key(2));
    doc.author_joined(key(3));
    assert_eq!(doc.authors().len(), 3);
    // A known author's stored state stays as it was.
    let mut stored = new_doc(1);
    stored.load_authors(vec![Author::with_state(&key(5), Some(10))]);
    stored.author_joined(key(5));
    assert!(!stored.authors().author(&key(5)).unwrap().is_online);
    stored.author_left(key(1));
    assert!(stored.authors().author(&key(1)).unwrap().is_online);
}

#[test]
fn cursor_positions_are_weighed_against_the_stored_author() {
    let mut doc = new_doc(1);
    let t0 = Timestamp { seconds: 19, nanoseconds: 999 };
    let t1 = Timestamp { seconds: 20, nanoseconds: 0 };
    let t2 = Timestamp { seconds: 21, nanoseconds: 0 };
    // An unknown peer's cursor is taken, and the peer is not recorded.
    assert!(doc.cursor_received(key(4), t0, None, None));
    assert!(doc.authors().author(&key(4)).is_none());
    // A known author with a stored cursor stamp: only newer stamps are taken, and the
    // stored stamp stays as it is.
    doc.load_authors(vec![Author { last_cursor_update: Some(t1), ..Author::new(&key(5)) }]);
    assert!(!doc.cursor_received(key(5), t0, None, None));
    assert!(!doc.cursor_received(key(5), t1, None, None));
    assert!(doc.cursor_received(key(5), t2, None, None));
    assert!(doc.cursor_received(key(5), t2, None, None));
    assert_eq!(doc.authors().author(&key(5)).unwrap().last_cursor_update, Some(t1));
    let (insert, selection) = doc.cursors();
    assert!(insert.is_none() && selection.is_none());
}

#[test]
fn new_document_takes_its_peer_id_from_the_key() {
    let mut bytes = [0u8; 32];
    for i in 0..32 {
        bytes[i] = i as u8 + 1;
    }
    let doc = Document::new(&PublicKey::from_bytes(bytes), &DocumentId::from([0u8; 32]));
    assert_eq!(doc.loro_doc().peer_id(), 0x0102030405060708);
    let other = new_doc(7);
    assert_eq!(other.loro_doc().peer_id(), 0x0707070707070707);
    // The reserved id is refused; the document keeps a peer id of its own.
    let reserved = new_doc(0xff);
    assert_ne!(reserved.loro_doc().peer_id(), u64::MAX);
}

#[test]
fn header_less_bytes_are_refused_and_leave_the_text() {
    let mut doc = new_doc(1);
    doc.insert_text(0, "keep").unwrap();
    let mut bytes = vec![0u8; 40];
    assert!(doc.bytes_received(key(3), &bytes).is_err());
    bytes[0] = b'l';
    bytes[1] = b'o';
    bytes[2] = b'r';
    bytes[3] = b'o';
    assert!(doc.bytes_received(key(3), &bytes[..21]).is_err());
    assert_eq!(doc.text(), "keep");
}

#[test]
fn round_trip_of_an_insert_and_a_delete_through_the_document() {
    let mut doc = new_doc(1);
    doc.insert_text(0, "héllo").unwrap();
    let before = doc.text();
    assert_eq!(doc.insert_text(2, "äöü"), Ok(()));
    assert_eq!(doc.delete_range(2, 5), Ok(()));
    assert_eq!(doc.text(), before);
}

#[test]
fn loading_authors_into_a_document() {
    let mut doc = new_doc(1);
    doc.load_authors(vec![Author::with_state(&key(2), Some(10)), Author::new(&key(1))]);
    assert_eq!(doc.authors().len(), 2);
    assert!(doc.authors().author(&key(1)).unwrap().is_this_device);
}
