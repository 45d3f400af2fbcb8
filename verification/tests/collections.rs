use reflection_doc::changes::{text_changes, TextChange, TextDelta, TextEvent};
use reflection_doc::document::Document;
use reflection_doc::document_id::DocumentId;
use reflection_doc::documents::{Documents, StoredAuthor, StoredDocument};
use reflection_doc::identity::{PrivateKey, PublicKey};
use reflection_doc::service::{ConnectionMode, Service};
use reflection_doc::timestamp::Timestamp;

fn key(n: u8) -> PublicKey {
    PublicKey::from_bytes([n; 32])
}

fn id(n: u8) -> DocumentId {
    DocumentId::from([n; 32])
}

#[test]
fn documents_keep_the_first_with_an_id_in_insertion_order() {
    let mut docs = Documents::new();
    let mut first = Document::new(&key(1), &id(1));
    first.insert_text(0, "first").unwrap();
    docs.add(first);
    docs.add(Document::new(&key(1), &id(2)));
    let mut second = Document::new(&key(1), &id(1));
    second.insert_text(0, "second").unwrap();
    docs.add(second);
    assert_eq!(docs.len(), 2);
    assert_eq!(docs.document(&id(1)).unwrap().text(), "first");
    assert!(docs.document(&id(3)).is_none());
    let order: Vec<DocumentId> = docs.iter().iter().map(|d| d.id()).collect();
    assert_eq!(order, vec![id(1), id(2)]);
    docs.document_mut(&id(2)).unwrap().insert_text(0, "edited").unwrap();
    assert_eq!(docs.document(&id(2)).unwrap().text(), "edited");
    assert!(docs.document_mut(&id(9)).is_none());
}

#[test]
fn loading_stored_documents() {
    let own = key(1);
    let mut docs = Documents::new();
    let stored = vec![
        StoredDocument {
            id: id(5),
            last_accessed: Some(Timestamp { seconds: 100, nanoseconds: 0 }),
            authors: vec![
                StoredAuthor { public_key: key(2), last_seen: Some(50) },
                StoredAuthor { public_key: own, last_seen: Some(60) },
                StoredAuthor { public_key: key(3), last_seen: Some(i64::MAX) },
            ],
        },
        StoredDocument { id: id(6), last_accessed: None, authors: vec![] },
        StoredDocument { id: id(5), last_accessed: None, authors: vec![] },
    ];
    docs.load(&own, stored);
    assert_eq!(docs.len(), 2);
    let order: Vec<DocumentId> = docs.iter().iter().map(|d| d.id()).collect();
    assert_eq!(order, vec![id(5), id(6)]);
    // The later stored document with id 5 took the earlier one's place.
    let five = docs.document(&id(5)).unwrap();
    assert_eq!(five.authors().len(), 1);
    assert_eq!(five.last_accessed(), None);
    assert_eq!(five.text(), "");
}

#[test]
fn restored_authors_of_a_stored_document() {
    let own = key(1);
    let mut docs = Documents::new();
    docs.load(
        &own,
        vec![StoredDocument {
            id: id(7),
            last_accessed: Some(Timestamp { seconds: 100, nanoseconds: 7 }),
            authors: vec![
                StoredAuthor { public_key: key(2), last_seen: Some(50) },
                StoredAuthor { public_key: own, last_seen: Some(60) },
                StoredAuthor { public_key: key(3), last_seen: Some(i64::MAX) },
                StoredAuthor { public_key: key(4), last_seen: None },
            ],
        }],
    );
    let doc = docs.document(&id(7)).unwrap();
    assert_eq!(doc.last_accessed(), Some(Timestamp { seconds: 100, nanoseconds: 7 }));
    let authors = doc.authors();
    assert_eq!(authors.len(), 4);
    let me = authors.author(&own).unwrap();
    // The device's own author was there first, with no last-seen time.
    assert!(me.is_this_device && me.last_seen.is_none());
    let two = authors.author(&key(2)).unwrap();
    assert_eq!(two.last_seen, Some(50));
    assert!(!two.is_online);
    // A time that chrono cannot represent is dropped, and the author counts as online.
    let three = authors.author(&key(3)).unwrap();
    assert_eq!(three.last_seen, None);
    assert!(three.is_online);
    assert!(authors.author(&key(4)).unwrap().is_online);
}

#[test]
fn service_connection_mode() {
    let mut service = Service::new(&PrivateKey::from_bytes([3u8; 32]));
    assert_eq!(service.connection_mode(), ConnectionMode::Network);
    assert_eq!(service.set_connection_mode(ConnectionMode::Bluetooth), None);
    assert_eq!(service.node_started(), ConnectionMode::Bluetooth);
    assert_eq!(
        service.set_connection_mode(ConnectionMode::Offline),
        Some(ConnectionMode::Offline)
    );
    assert_eq!(ConnectionMode::default(), ConnectionMode::Offline);
}

#[test]
fn joining_a_document_creates_it_once() {
    let private_key = PrivateKey::from_bytes([3u8; 32]);
    let own = private_key.public_key();
    let mut service = Service::new(&private_key);
    {
        let doc = service.join_document(&id(1));
        assert_eq!(doc.id(), id(1));
        assert!(doc.authors().author(&own).unwrap().is_this_device);
        doc.insert_text(0, "kept").unwrap();
    }
    let again = service.join_document(&id(1));
    assert_eq!(again.text(), "kept");
    assert_eq!(service.documents().len(), 1);
    service.join_document(&id(2));
    assert_eq!(service.documents().len(), 2);
    assert!(service.private_key().public_key().equals(&own));
    assert!(service.own_public_key().equals(&own));
}

#[test]
fn service_loads_stored_documents_for_its_own_key() {
    let private_key = PrivateKey::from_bytes([4u8; 32]);
    let own = private_key.public_key();
    let mut service = Service::new(&private_key);
    service.load_documents(vec![StoredDocument {
        id: id(8),
        last_accessed: None,
        authors: vec![StoredAuthor { public_key: key(9), last_seen: Some(1) }],
    }]);
    let doc = service.documents_mut().document_mut(&id(8)).unwrap();
    assert!(doc.authors().author(&own).unwrap().is_this_device);
    assert_eq!(doc.authors().len(), 2);
}

#[test]
fn text_changes_walk_the_deltas() {
    let events = vec![
        TextEvent {
            is_unknown: false,
            text_deltas: Some(vec![
                TextDelta::Retain { retain: 3 },
                TextDelta::Insert { insert: "hé".to_string() },
                TextDelta::Delete { delete: 2 },
                TextDelta::Retain { retain: 1 },
                TextDelta::Insert { insert: "x".to_string() },
            ]),
        },
        TextEvent { is_unknown: true, text_deltas: Some(vec![TextDelta::Insert { insert: "no".to_string() }]) },
        TextEvent { is_unknown: false, text_deltas: None },
        TextEvent { is_unknown: false, text_deltas: Some(vec![TextDelta::Delete { delete: 4 }]) },
    ];
    let changes = text_changes(&events).unwrap();
    assert_eq!(changes.len(), 4);
    match &changes[0] {
        TextChange::Inserted { pos, text } => assert!(*pos == 3 && text == "hé"),
        _ => panic!("expected an insertion"),
    }
    // "hé" is three bytes long, so the position moves from 3 to 6.
    match &changes[1] {
        TextChange::Deleted { start, end } => assert!(*start == 6 && *end == 8),
        _ => panic!("expected a deletion"),
    }
    match &changes[2] {
        TextChange::Inserted { pos, text } => assert!(*pos == 7 && text == "x"),
        _ => panic!("expected an insertion"),
    }
    match &changes[3] {
        TextChange::Deleted { start, end } => assert!(*start == 0 && *end == 4),
        _ => panic!("expected a deletion"),
    }
}

#[test]
fn text_changes_overflow() {
    let events = vec![TextEvent {
        is_unknown: false,
        text_deltas: Some(vec![
            TextDelta::Retain { retain: usize::MAX },
            TextDelta::Retain { retain: 1 },
        ]),
    }];
    assert!(text_changes(&events).is_none());
    assert_eq!(text_changes(&vec![]).unwrap().len(), 0);
}

#[test]
fn last_seen_times_at_the_edges_of_chrono_range() {
    let own = key(1);
    let lo = -8334601228800i64;
    let hi = 8210266876799i64;
    let mut docs = Documents::new();
    docs.load(
        &own,
        vec![StoredDocument {
            id: id(9),
            last_accessed: None,
            authors: vec![
                StoredAuthor { public_key: key(2), last_seen: Some(lo) },
                StoredAuthor { public_key: key(3), last_seen: Some(lo - 1) },
                StoredAuthor { public_key: key(4), last_seen: Some(hi) },
                StoredAuthor { public_key: key(5), last_seen: Some(hi + 1) },
            ],
        }],
    );
    let authors = docs.document(&id(9)).unwrap().authors();
    assert_eq!(authors.author(&key(2)).unwrap().last_seen, Some(lo));
    assert_eq!(authors.author(&key(3)).unwrap().last_seen, None);
    assert_eq!(authors.author(&key(4)).unwrap().last_seen, Some(hi));
    assert_eq!(authors.author(&key(5)).unwrap().last_seen, None);
}

#[test]
fn loaded_documents_take_their_peer_id_from_the_own_key() {
    let own = key(3);
    let mut docs = Documents::new();
    docs.load(
        &own,
        vec![
            StoredDocument { id: id(1), last_accessed: None, authors: vec![] },
            StoredDocument { id: id(2), last_accessed: None, authors: vec![] },
        ],
    );
    for doc in docs.iter() {
        assert_eq!(doc.loro_doc().peer_id(), 0x0303030303030303);
        let (insert, selection) = doc.cursors();
        assert!(insert.is_none() && selection.is_none());
    }
}

#[test]
fn a_private_key_parses_from_its_own_bytes() {
    let key = PrivateKey::new();
    assert_eq!(key.as_bytes().len(), 32);
    let again = PrivateKey::try_from_slice(key.as_bytes()).unwrap();
    assert_eq!(again.as_bytes(), key.as_bytes());
    assert!(again.public_key().equals(&key.public_key()));
}
