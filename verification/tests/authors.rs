use reflection_doc::author::Author;
use reflection_doc::authors::Authors;
use reflection_doc::identity::PublicKey;
use reflection_doc::timestamp::Timestamp;

fn key(n: u8) -> PublicKey {
    PublicKey::from_bytes([n; 32])
}

#[test]
fn author_constructors() {
    let a = Author::new(&key(1));
    assert!(a.is_online && !a.is_this_device && a.last_seen.is_none());
    let b = Author::with_state(&key(2), Some(100));
    assert!(!b.is_online && !b.is_this_device && b.last_seen == Some(100));
    let c = Author::with_state(&key(2), None);
    assert!(c.is_online);
    let d = Author::for_this_device(&key(3), Some(5));
    assert!(d.is_online && d.is_this_device && d.last_seen == Some(5));
    assert!(d.public_key().equals(&key(3)));
}

#[test]
fn author_cursor_positions_must_be_newer() {
    let mut a = Author::new(&key(1));
    let t1 = Timestamp { seconds: 10, nanoseconds: 5 };
    let t0 = Timestamp { seconds: 10, nanoseconds: 4 };
    let t2 = Timestamp { seconds: 11, nanoseconds: 0 };
    assert!(a.is_new_cursor_position(t1));
    assert!(!a.is_new_cursor_position(t1));
    assert!(!a.is_new_cursor_position(t0));
    assert!(a.is_new_cursor_position(t2));
    assert_eq!(a.last_cursor_update, Some(t2));
    a.set_online(false);
    assert!(!a.is_online);
}

#[test]
fn add_records_a_new_author_once() {
    let mut authors = Authors::new();
    assert_eq!(authors.len(), 0);
    let a = authors.add(key(1));
    assert!(a.is_online && !a.is_this_device);
    assert_eq!(authors.len(), 1);
    authors.add(key(2));
    assert_eq!(authors.len(), 2);
}

#[test]
fn add_returns_the_stored_author_of_a_known_key() {
    let mut authors = Authors::new();
    authors.load(vec![Author::with_state(&key(1), Some(3))]);
    let again = authors.add(key(1));
    assert!(!again.is_online);
    assert_eq!(again.last_seen, Some(3));
    assert_eq!(authors.len(), 1);
}

#[test]
fn add_this_device_then_load_skips_known_keys() {
    let mut authors = Authors::new();
    authors.add_this_device(key(1), None);
    authors.load(vec![
        Author::with_state(&key(1), Some(7)),
        Author::with_state(&key(2), Some(8)),
        Author::with_state(&key(2), None),
        Author::new(&key(3)),
    ]);
    assert_eq!(authors.len(), 3);
    let me = authors.author(&key(1)).unwrap();
    assert!(me.is_this_device && me.last_seen.is_none());
    let two = authors.author(&key(2)).unwrap();
    assert_eq!(two.last_seen, Some(8));
    assert!(!two.is_online);
    assert!(authors.author(&key(4)).is_none());
}
