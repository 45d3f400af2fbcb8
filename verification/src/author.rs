//! An author of a document: a public key and what is known of its presence.
use vstd::prelude::*;
use crate::identity::PublicKey;
use crate::timestamp::{lemma_is_after_compares_instants, Timestamp};

verus! {

/// A person (or device) who edits a document.
#[derive(Clone, Copy, Debug)]
pub struct Author {
    /// The author's identity.
    pub public_key: PublicKey,
    /// When the author was last seen, in whole seconds since the epoch.
    pub last_seen: Option<i64>,
    /// Whether the author is online now.
    pub is_online: bool,
    /// Whether the author is the user of this device.
    pub is_this_device: bool,
    /// The time stamp of the newest cursor position received from the author.
    pub last_cursor_update: Option<Timestamp>,
}

impl Author {
    /// A newly met author: online, not this device, never seen before.
    pub open spec fn spec_new(public_key: PublicKey) -> Author {
        Author {
            public_key,
            last_seen: None,
            is_online: true,
            is_this_device: false,
            last_cursor_update: None,
        }
    }

    /// A known author restored from storage: online exactly when no last-seen time is known.
    pub open spec fn spec_with_state(public_key: PublicKey, last_seen: Option<i64>) -> Author {
        Author {
            public_key,
            last_seen,
            is_online: last_seen is None,
            is_this_device: false,
            last_cursor_update: None,
        }
    }

    /// The author who uses this device: always online.
    pub open spec fn spec_for_this_device(public_key: PublicKey, last_seen: Option<i64>) -> Author {
        Author {
            public_key,
            last_seen,
            is_online: true,
            is_this_device: true,
            last_cursor_update: None,
        }
    }

    /// Whether a cursor position stamped `timestamp` is newer than any seen before.
    pub open spec fn spec_is_new_cursor_position(self, timestamp: Timestamp) -> bool {
        match self.last_cursor_update {
            Some(last) => timestamp.spec_is_after(last),
            None => true,
        }
    }

    /// A newly met author.
    pub fn new(public_key: &PublicKey) -> (author: Author)
        ensures
            author == Author::spec_new(*public_key),
    {
        Author {
            public_key: *public_key,
            last_seen: None,
            is_online: true,
            is_this_device: false,
            last_cursor_update: None,
        }
    }

    /// A known author restored from storage.
    pub fn with_state(public_key: &PublicKey, last_seen: Option<i64>) -> (author: Author)
        ensures
            author == Author::spec_with_state(*public_key, last_seen),
    {
        Author {
            public_key: *public_key,
            last_seen,
            is_online: last_seen.is_none(),
            is_this_device: false,
            last_cursor_update: None,
        }
    }

    /// The author who uses this device.
    pub fn for_this_device(public_key: &PublicKey, last_seen: Option<i64>) -> (author: Author)
        ensures
            author == Author::spec_for_this_device(*public_key, last_seen),
    {
        Author {
            public_key: *public_key,
            last_seen,
            is_online: true,
            is_this_device: true,
            last_cursor_update: None,
        }
    }

    /// The author's public key.
    pub fn public_key(&self) -> (key: PublicKey)
        ensures
            key == self.public_key,
    {
        self.public_key
    }

    /// Marks the author online or offline.
    pub fn set_online(&mut self, online: bool)
        ensures
            *final(self) == (Author { is_online: online, ..*old(self) }),
    {
        self.is_online = online;
    }

    /// Whether a cursor position stamped `timestamp` is newer than every one seen before;
    /// when it is, it becomes the newest seen.
    pub fn is_new_cursor_position(&mut self, timestamp: Timestamp) -> (is_new: bool)
        ensures
            is_new == old(self).spec_is_new_cursor_position(timestamp),
            is_new ==> *final(self) == (Author {
                last_cursor_update: Some(timestamp),
                ..*old(self)
            }),
            !is_new ==> *final(self) == *old(self),
    {
        let is_new = match &self.last_cursor_update {
            Some(last) => timestamp.is_after(last),
            None => true,
        };
        if is_new {
            self.last_cursor_update = Some(timestamp);
        }
        is_new
    }
}

/// Law: once a cursor position stamped `timestamp` has been taken from an author, another
/// one with the same stamp, or an older one, is not taken.
pub proof fn lemma_cursor_positions_only_move_forward(author: Author, timestamp: Timestamp, earlier: Timestamp)
    requires
        author.spec_is_new_cursor_position(timestamp),
        !earlier.spec_is_after(timestamp),
    ensures
        !(Author { last_cursor_update: Some(timestamp), ..author }).spec_is_new_cursor_position(
            earlier,
        ),
{
}

/// Law: a cursor position stamped `timestamp` is new for an author exactly when the author
/// has no cursor stamp yet, or the stamp is a later instant than the author's newest one
/// (counted in nanoseconds since the epoch, so a later stamp within the same second counts).
pub proof fn lemma_new_cursor_position_is_a_later_instant(author: Author, timestamp: Timestamp)
    requires
        timestamp.nanoseconds < 1_000_000_000,
        author.last_cursor_update matches Some(last) ==> last.nanoseconds < 1_000_000_000,
    ensures
        author.last_cursor_update is None ==> author.spec_is_new_cursor_position(timestamp),
        author.last_cursor_update matches Some(last) ==> (author.spec_is_new_cursor_position(
            timestamp,
        ) == (timestamp.seconds * 1_000_000_000 + timestamp.nanoseconds > last.seconds
            * 1_000_000_000 + last.nanoseconds)),
{
    if let Some(last) = author.last_cursor_update {
        lemma_is_after_compares_instants(timestamp, last);
    }
}

} // verus!
