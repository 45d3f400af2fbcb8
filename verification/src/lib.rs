//! Document, author and identity bookkeeping for a collaborative plain-text editor.
pub mod identity;
pub mod document_id;
pub mod timestamp;
pub mod keyed;
pub mod author;
pub mod authors;
pub mod text;
pub mod changes;
pub mod document;
pub mod documents;
pub mod service;
pub mod editor;
pub mod id_file;
