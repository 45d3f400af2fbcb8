//! Ed25519 identities: private keys and the public keys that identify authors.
use vstd::prelude::*;
use crate::document_id::{encode_hex_32, hex_encode};

verus! {

/// Length in bytes of a private key.
pub const PRIVATE_KEY_LEN: usize = 32;

/// Length in bytes of a public key.
pub const PUBLIC_KEY_LEN: usize = 32;

/// The public key that Ed25519 derives from a private key's bytes.
pub uninterp spec fn ed25519_public_key(private_key: Seq<u8>) -> Seq<u8>;

/// Generates fresh private key bytes with `p2panda_core::PrivateKey::new`, which seeds
/// the Ed25519 key from the operating system's random number generator. Nothing is
/// promised of the bytes: they come from chance.
#[verifier::external_body]
fn random_private_key_bytes() -> [u8; 32] {
    *p2panda_core::PrivateKey::new().as_bytes()
}

/// Derives the public key of a private key with `p2panda_core::PrivateKey::from_bytes`
/// followed by `public_key` and `as_bytes`: the result is the Ed25519 public key of the
/// given private key bytes, a function of those bytes alone.
#[verifier::external_body]
fn derive_public_key(private_key: &[u8; 32]) -> (public_key: [u8; 32])
    ensures
        public_key@ == ed25519_public_key(private_key@),
{
    *p2panda_core::PrivateKey::from_bytes(private_key).public_key().as_bytes()
}

/// Compares two 32-byte strings.
pub fn bytes32_eq(a: &[u8; 32], b: &[u8; 32]) -> (r: bool)
    ensures
        r == (a@ == b@),
{
    let mut i: usize = 0;
    while i < 32
        invariant
            0 <= i <= 32,
            forall|j: int| 0 <= j < i ==> a@[j] == b@[j],
        decreases 32 - i,
    {
        if a[i] != b[i] {
            return false;
        }
        i = i + 1;
    }
    assert(a@ =~= b@);
    true
}

/// Error when building a key from raw bytes.
#[derive(Debug, Clone, Copy, PartialEq, Eq)]
pub enum IdentityError {
    /// The byte string had the first length; the second is the length a key has.
    InvalidLength(usize, usize),
}

/// The public part of a key pair: it identifies an author.
#[derive(Clone, Copy, Debug, PartialEq, Eq, Hash)]
pub struct PublicKey {
    pub bytes: [u8; 32],
}

impl PublicKey {
    /// The key's bytes, as a sequence.
    pub open spec fn spec_bytes(&self) -> Seq<u8> {
        self.bytes@
    }

    /// Builds a public key from its 32 bytes.
    pub fn from_bytes(bytes: [u8; 32]) -> (key: PublicKey)
        ensures
            key.spec_bytes() == bytes@,
    {
        PublicKey { bytes }
    }

    /// The key's 32 bytes.
    pub fn to_bytes(&self) -> (bytes: [u8; 32])
        ensures
            bytes@ == self.spec_bytes(),
    {
        self.bytes
    }

    /// The key's bytes as a slice: always 32 of them.
    pub fn as_bytes(&self) -> (bytes: &[u8])
        ensures
            bytes@ == self.spec_bytes(),
            bytes@.len() == PRIVATE_KEY_LEN,
    {
        self.bytes.as_slice()
    }

    /// The key as 64 lowercase hex digits.
    pub fn to_hex(&self) -> (text: String)
        ensures
            text@ == hex_encode(self.spec_bytes()),
    {
        encode_hex_32(&self.bytes)
    }

    /// Whether two keys are the same key.
    pub fn equals(&self, other: &PublicKey) -> (r: bool)
        ensures
            r == (self.spec_bytes() == other.spec_bytes()),
    {
        bytes32_eq(&self.bytes, &other.bytes)
    }
}

/// The private part of a key pair.
#[derive(Clone, Copy, Debug)]
pub struct PrivateKey {
    bytes: [u8; 32],
}

impl PrivateKey {
    /// The key's bytes, as a sequence.
    pub closed spec fn spec_bytes(&self) -> Seq<u8> {
        self.bytes@
    }

    /// Generates a new private key from the system's random number generator.
    pub fn new() -> (key: PrivateKey)
        ensures
            key.spec_bytes().len() == PRIVATE_KEY_LEN,
    {
        PrivateKey { bytes: random_private_key_bytes() }
    }

    /// Builds a private key from its 32 bytes.
    pub fn from_bytes(bytes: [u8; 32]) -> (key: PrivateKey)
        ensures
            key.spec_bytes() == bytes@,
    {
        PrivateKey { bytes }
    }

    /// Builds a private key from a byte slice, which must hold exactly 32 bytes.
    pub fn try_from_slice(bytes: &[u8]) -> (r: Result<PrivateKey, IdentityError>)
        ensures
            bytes@.len() == PRIVATE_KEY_LEN ==> (r matches Ok(key) && key.spec_bytes() == bytes@),
            bytes@.len() != PRIVATE_KEY_LEN ==> (r matches Err(e) && e
                == IdentityError::InvalidLength(bytes@.len() as usize, PRIVATE_KEY_LEN)),
    {
        if bytes.len() != PRIVATE_KEY_LEN {
            return Err(IdentityError::InvalidLength(bytes.len(), PRIVATE_KEY_LEN));
        }
        let mut arr = [0u8; 32];
        let mut i: usize = 0;
        while i < 32
            invariant
                0 <= i <= 32,
                bytes@.len() == 32,
                forall|j: int| 0 <= j < i ==> arr@[j] == bytes@[j],
            decreases 32 - i,
        {
            arr[i] = bytes[i];
            i = i + 1;
        }
        assert(arr@ =~= bytes@);
        Ok(PrivateKey { bytes: arr })
    }

    /// The public key that belongs to this private key.
    pub fn public_key(&self) -> (key: PublicKey)
        ensures
            key.spec_bytes() == ed25519_public_key(self.spec_bytes()),
    {
        PublicKey { bytes: derive_public_key(&self.bytes) }
    }

    /// The key's bytes as a slice: always 32 of them.
    pub fn as_bytes(&self) -> (bytes: &[u8])
        ensures
            bytes@ == self.spec_bytes(),
            bytes@.len() == PRIVATE_KEY_LEN,
    {
        self.bytes.as_slice()
    }

    /// The key as 64 lowercase hex digits.
    pub fn to_hex(&self) -> (text: String)
        ensures
            text@ == hex_encode(self.spec_bytes()),
    {
        encode_hex_32(&self.bytes)
    }
}

/// Law: every private key has 32 bytes, so parsing a key's own bytes with
/// `PrivateKey::try_from_slice(key.as_bytes())` succeeds and gives back a key with the same
/// bytes, and so with the same public key.
pub proof fn lemma_private_key_has_32_bytes(key: PrivateKey)
    ensures
        key.spec_bytes().len() == PRIVATE_KEY_LEN,
{
}

impl Default for PrivateKey {
    /// A new random private key.
    fn default() -> (key: PrivateKey)
        ensures
            key.spec_bytes().len() == PRIVATE_KEY_LEN,
    {
        PrivateKey::new()
    }
}

} // verus!
