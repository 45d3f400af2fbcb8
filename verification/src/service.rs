//! The service: the user's identity, the documents, and what the network node is told.
use vstd::prelude::*;
use crate::author::Author;
use crate::document::{Document, DocumentView};
use crate::document_id::DocumentId;
use crate::documents::{restored_documents, Documents, StoredDocument};
use crate::identity::{ed25519_public_key, PrivateKey, PublicKey};
use crate::keyed::{has_key, index_of, lemma_index_of, value_of};

verus! {

/// Which transports the network node may use.
#[derive(Debug, Clone, Copy, PartialEq, Eq, Structural)]
pub enum ConnectionMode {
    /// No transport: the node stays offline.
    Offline,
    /// Bluetooth only.
    Bluetooth,
    /// The network.
    Network,
}

impl Default for ConnectionMode {
    fn default() -> (mode: ConnectionMode)
        ensures
            mode == ConnectionMode::Offline,
    {
        ConnectionMode::Offline
    }
}

/// A new document's view: empty, with this device's author as its only author.
pub open spec fn new_document_view(own_key: PublicKey, id: DocumentId) -> DocumentView {
    DocumentView {
        id,
        text: Seq::empty(),
        authors: seq![(own_key.bytes, Author::spec_for_this_device(own_key, None))],
        subscribed: false,
        last_accessed: None,
    }
}

/// The user's service: its private key, its documents, the connection mode chosen for the
/// network node, and whether that node runs.
pub struct Service {
    private_key: PrivateKey,
    documents: Documents,
    connection_mode: ConnectionMode,
    node_running: bool,
}

impl Service {
    /// The user's private key.
    pub closed spec fn spec_private_key(&self) -> PrivateKey {
        self.private_key
    }

    /// The user's public key, as the private key determines it.
    pub open spec fn spec_public_key_bytes(&self) -> Seq<u8> {
        ed25519_public_key(self.spec_private_key().spec_bytes())
    }

    /// The user's public key.
    pub open spec fn spec_own_key(&self) -> PublicKey {
        PublicKey { bytes: choose|b: [u8; 32]| b@ == self.spec_public_key_bytes() }
    }

    /// The user's public key.
    pub fn own_public_key(&self) -> (key: PublicKey)
        ensures
            key == self.spec_own_key(),
            key.bytes@ == self.spec_public_key_bytes(),
    {
        let key = self.private_key.public_key();
        proof {
            broadcast use vstd::array::axiom_array_ext_equal;
            let b = choose|b: [u8; 32]| b@ == self.spec_public_key_bytes();
            assert(b@ == key.bytes@);
            assert(b =~= key.bytes);
        }
        key
    }

    /// The documents.
    pub closed spec fn spec_documents(&self) -> Documents {
        self.documents
    }

    /// Every document is stored under its own identifier.
    pub open spec fn well_formed(&self) -> bool {
        self.spec_documents().well_formed()
    }

    /// The connection mode chosen for the node.
    pub closed spec fn spec_connection_mode(&self) -> ConnectionMode {
        self.connection_mode
    }

    /// Whether the network node runs.
    pub closed spec fn spec_node_running(&self) -> bool {
        self.node_running
    }

    /// A service for the user with this private key: no documents yet, the network
    /// connection mode, and no node running.
    pub fn new(private_key: &PrivateKey) -> (service: Service)
        ensures
            service.spec_private_key() == *private_key,
            service.spec_documents().entries().len() == 0,
            service.well_formed(),
            service.spec_connection_mode() == ConnectionMode::Network,
            !service.spec_node_running(),
    {
        Service {
            private_key: *private_key,
            documents: Documents::new(),
            connection_mode: ConnectionMode::Network,
            node_running: false,
        }
    }

    /// The user's private key.
    pub fn private_key(&self) -> (key: &PrivateKey)
        ensures
            *key == self.spec_private_key(),
    {
        &self.private_key
    }

    /// The documents.
    pub fn documents(&self) -> (documents: &Documents)
        ensures
            *documents == self.spec_documents(),
    {
        &self.documents
    }

    /// The documents, for changing them.
    pub fn documents_mut(&mut self) -> (documents: &mut Documents)
        ensures
            *documents == old(self).spec_documents(),
            final(self).spec_documents() == *final(documents),
            final(self).spec_private_key() == old(self).spec_private_key(),
            final(self).spec_connection_mode() == old(self).spec_connection_mode(),
            final(self).spec_node_running() == old(self).spec_node_running(),
    {
        &mut self.documents
    }

    /// The connection mode chosen for the node.
    pub fn connection_mode(&self) -> (mode: ConnectionMode)
        ensures
            mode == self.spec_connection_mode(),
    {
        self.connection_mode
    }

    /// Chooses a connection mode. When the node runs, the mode is returned, for the node to
    /// be switched to it; otherwise `None` (the node takes the mode when it starts).
    pub fn set_connection_mode(&mut self, connection_mode: ConnectionMode) -> (apply: Option<
        ConnectionMode,
    >)
        ensures
            final(self).spec_connection_mode() == connection_mode,
            apply == (if old(self).spec_node_running() {
                Some(connection_mode)
            } else {
                None
            }),
            final(self).spec_node_running() == old(self).spec_node_running(),
            final(self).spec_private_key() == old(self).spec_private_key(),
            final(self).spec_documents() == old(self).spec_documents(),
    {
        self.connection_mode = connection_mode;
        if self.node_running {
            Some(connection_mode)
        } else {
            None
        }
    }

    /// Records that the node was started; returns the chosen connection mode, for the node
    /// to be switched to it.
    pub fn node_started(&mut self) -> (apply: ConnectionMode)
        ensures
            apply == old(self).spec_connection_mode(),
            final(self).spec_node_running(),
            final(self).spec_connection_mode() == old(self).spec_connection_mode(),
            final(self).spec_private_key() == old(self).spec_private_key(),
            final(self).spec_documents() == old(self).spec_documents(),
    {
        self.node_running = true;
        self.connection_mode
    }

    /// Restores the user's stored documents into the (still empty) list of documents.
    pub fn load_documents(&mut self, stored: Vec<StoredDocument>)
        requires
            old(self).spec_documents().entries().len() == 0,
        ensures
            final(self).spec_documents().views() == restored_documents(
                old(self).spec_own_key(),
                stored@,
            ),
            final(self).well_formed(),
            forall|i: int|
                #![trigger final(self).spec_documents().entries()[i]]
                0 <= i < final(self).spec_documents().entries().len()
                    ==> final(self).spec_documents().entries()[i].1.is_fresh_for(old(self).spec_own_key()),
            final(self).spec_private_key() == old(self).spec_private_key(),
            final(self).spec_connection_mode() == old(self).spec_connection_mode(),
            final(self).spec_node_running() == old(self).spec_node_running(),
    {
        let own_key = self.own_public_key();
        self.documents.load(&own_key, stored);
    }

    /// The document with this identifier, created (new and empty, with this device as its
    /// only author) and added to the documents if it is not known yet.
    pub fn join_document(&mut self, document_id: &DocumentId) -> (document: &mut Document)
        ensures
            ({
                let before = old(self).spec_documents().entries();
                let after = final(self).spec_documents().entries();
                let known = has_key(before, document_id.bytes);
                let at = if known {
                    index_of(before, document_id.bytes)
                } else {
                    before.len() as int
                };
                &&& after.len() == (if known {
                    before.len()
                } else {
                    before.len() + 1
                })
                &&& 0 <= at < after.len()
                &&& after[at] == (document_id.bytes, *final(document))
                &&& forall|j: int| 0 <= j < before.len() && j != at ==> after[j] == before[j]
                &&& known ==> *document == value_of(before, document_id.bytes)
                &&& !known ==> (*document)@ == new_document_view(
                    old(self).spec_own_key(),
                    *document_id,
                )
            }),
            !has_key(old(self).spec_documents().entries(), document_id.bytes) ==> document.is_fresh_for(
                old(self).spec_own_key(),
            ),
            old(self).well_formed() ==> (*document)@.id == *document_id,
            (old(self).well_formed() && (*final(document))@.id == (*document)@.id)
                ==> final(self).well_formed(),
            final(self).spec_private_key() == old(self).spec_private_key(),
            final(self).spec_connection_mode() == old(self).spec_connection_mode(),
            final(self).spec_node_running() == old(self).spec_node_running(),
    {
        let ghost before = self.documents.entries();
        if self.documents.document(document_id).is_none() {
            let own_key = self.own_public_key();
            let document = Document::new(&own_key, document_id);
            self.documents.add(document);
        }
        let ghost middle = self.documents.entries();
        let document = self.documents.document_mut(document_id);
        proof {
            lemma_index_of(middle, document_id.bytes, if has_key(before, document_id.bytes) {
                index_of(before, document_id.bytes)
            } else {
                before.len() as int
            });
        }
        document.unwrap()
    }
}

} // verus!
