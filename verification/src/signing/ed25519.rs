//! Ed25519: a seed, the private keys that are derived from it, their
//! public keys, and signatures.
//!
//! Keys and signatures are held as bytes. Hashing, the derivation of a
//! public key, signing and verifying are done by `blake2` and
//! `ed25519_dalek`; what they return is named here and not said.

use vstd::prelude::*;
use ed25519_dalek::{ExpandedSecretKey, Verifier};
use blake2::digest::{Update, VariableOutput};

verus! {

/// Length in bytes of a seed and of a private key.
pub const SECRET_KEY_LENGTH: usize = 32;

/// Length in bytes of a public key.
pub const PUBLIC_KEY_LENGTH: usize = 32;

/// Length in bytes of a signature.
pub const SIGNATURE_LENGTH: usize = 64;

/// Errors occurring during Ed25519 operations.
#[derive(Clone, Copy, Debug, PartialEq, Eq, Structural)]
pub enum Error {
    /// Bytes could not be converted to a key or a signature.
    ConvertError,
    /// A private key could not be generated.
    PrivateKeyError,
    /// A signature does not verify.
    VerifyError,
}

/// The BLAKE2b digest of 32 bytes of `input`.
pub uninterp spec fn blake2b_256_digest(input: Seq<u8>) -> Seq<u8>;

/// The public key that belongs to the secret key `secret`.
pub uninterp spec fn ed25519_public_key(secret: Seq<u8>) -> Seq<u8>;

/// The signature of `message` under the secret key `secret`.
pub uninterp spec fn ed25519_signature(secret: Seq<u8>, message: Seq<u8>) -> Seq<u8>;

/// Whether `bytes` are taken for a public key.
pub uninterp spec fn ed25519_is_public_key(bytes: Seq<u8>) -> bool;

/// Whether `signature` verifies for `message` under the public key `public`.
pub uninterp spec fn ed25519_verifies(public: Seq<u8>, message: Seq<u8>, signature: Seq<u8>) -> bool;

/// 32 bytes from the thread's random number generator, as
/// `ed25519_dalek::SecretKey::generate` draws a secret key from
/// `rand::thread_rng`. Nothing is said of them.
#[verifier::external_body]
fn random_secret() -> (bytes: [u8; 32]) {
    let mut rng = rand::thread_rng();
    ed25519_dalek::SecretKey::generate(&mut rng).to_bytes()
}

/// The 32-byte BLAKE2b digest of `input`, as `blake2::VarBlake2b` computes
/// it with an output size of 32, which it accepts.
#[verifier::external_body]
fn blake2b_256(input: &Vec<u8>) -> (digest: Option<Vec<u8>>)
    ensures
        digest.is_some(),
        digest.unwrap()@ == blake2b_256_digest(input@),
        digest.unwrap()@.len() == 32,
{
    match blake2::VarBlake2b::new(32) {
        Ok(mut hash) => {
            hash.update(input);
            Some(hash.finalize_boxed().to_vec())
        },
        Err(_) => None,
    }
}

/// The public key of a secret key, as `ed25519_dalek::PublicKey` is
/// derived from a `SecretKey`.
#[verifier::external_body]
fn derive_public_key(secret: &[u8; 32]) -> (public: [u8; 32])
    ensures
        public@ == ed25519_public_key(secret@),
{
    let secret = ed25519_dalek::SecretKey::from_bytes(secret).unwrap();
    ed25519_dalek::PublicKey::from(&secret).to_bytes()
}

/// The signature of a message, as `ed25519_dalek::ExpandedSecretKey::sign`
/// makes it with the key expanded from a secret key and that key's public key.
#[verifier::external_body]
fn sign_message(secret: &[u8; 32], message: &Vec<u8>) -> (signature: [u8; 64])
    ensures
        signature@ == ed25519_signature(secret@, message@),
{
    let secret = ed25519_dalek::SecretKey::from_bytes(secret).unwrap();
    let key: ExpandedSecretKey = (&secret).into();
    key.sign(message, &(&secret).into()).to_bytes()
}

/// Whether bytes are taken for a public key by
/// `ed25519_dalek::PublicKey::from_bytes`, which refuses every length but 32.
#[verifier::external_body]
fn accepts_public_key(bytes: &Vec<u8>) -> (accepted: bool)
    ensures
        accepted == ed25519_is_public_key(bytes@),
        accepted ==> bytes@.len() == 32,
{
    ed25519_dalek::PublicKey::from_bytes(bytes).is_ok()
}

/// Whether a signature verifies, as `ed25519_dalek::PublicKey::verify`
/// finds; bytes that are no public key or no signature do not verify.
#[verifier::external_body]
fn verify_signature(public: &[u8; 32], message: &Vec<u8>, signature: &[u8; 64]) -> (verified: bool)
    ensures
        verified == ed25519_verifies(public@, message@, signature@),
{
    match (
        ed25519_dalek::PublicKey::from_bytes(public),
        ed25519_dalek::Signature::from_bytes(signature),
    ) {
        (Ok(public), Ok(signature)) => public.verify(message, &signature).is_ok(),
        _ => false,
    }
}

/// The 32 bytes of `bytes`, if it has 32.
fn to_array_32(bytes: &Vec<u8>) -> (array: Option<[u8; 32]>)
    ensures
        array.is_some() == (bytes@.len() == 32),
        array matches Some(a) ==> a@ == bytes@,
{
    if bytes.len() != 32 {
        return None;
    }
    let mut array: [u8; 32] = [0u8; 32];
    let mut i: usize = 0;
    while i < 32
        invariant
            i <= 32,
            bytes@.len() == 32,
            forall|j: int| 0 <= j < i ==> array@[j] == bytes@[j],
        decreases 32 - i,
    {
        array[i] = bytes[i];
        i = i + 1;
    }
    assert(array@ =~= bytes@);
    Some(array)
}

/// The eight bytes of `value`, least significant first.
pub open spec fn le_bytes(value: u64) -> Seq<u8> {
    seq![
        (value % 0x100) as u8,
        (value / 0x100 % 0x100) as u8,
        (value / 0x1_0000 % 0x100) as u8,
        (value / 0x100_0000 % 0x100) as u8,
        (value / 0x1_0000_0000 % 0x100) as u8,
        (value / 0x100_0000_0000 % 0x100) as u8,
        (value / 0x1_0000_0000_0000 % 0x100) as u8,
        (value / 0x100_0000_0000_0000) as u8,
    ]
}

/// The bytes of a subseed: the seed, each byte combined by exclusive or
/// with the byte in its place of the digest of the index.
pub open spec fn subseed(seed: Seq<u8>, index: u64) -> Seq<u8> {
    Seq::new(32, |i: int| seed[i] ^ blake2b_256_digest(le_bytes(index))[i])
}

/// Binary `Ed25519`-based `Seed` to derive private keys, public keys and signatures from.
pub struct Seed {
    bytes: [u8; 32],
}

impl View for Seed {
    type V = Seq<u8>;

    closed spec fn view(&self) -> Seq<u8> {
        self.bytes@
    }
}

impl Seed {
    /// Creates a new random `Seed`.
    pub fn rand() -> (seed: Self)
        ensures
            seed@.len() == 32,
    {
        Self { bytes: random_secret() }
    }

    /// Overwrites the seed with zeros.
    pub fn zeroize(&mut self)
        ensures
            final(self)@ == Seq::new(32, |i: int| 0u8),
    {
        self.bytes = [0u8; 32];
        assert(self.bytes@ =~= Seq::new(32, |i: int| 0u8));
    }

    /// View this seed as a byte array.
    pub fn as_bytes(&self) -> (bytes: &[u8; 32])
        ensures
            bytes@ == self@,
    {
        &self.bytes
    }

    /// Convert this seed to a byte array.
    pub fn to_bytes(&self) -> (bytes: [u8; 32])
        ensures
            bytes@ == self@,
    {
        self.bytes
    }

    /// The seed that 32 bytes spell; other lengths are refused.
    pub fn from_bytes(bytes: &Vec<u8>) -> (res: Result<Self, Error>)
        ensures
            res.is_ok() == (bytes@.len() == 32),
            res matches Ok(seed) ==> seed@ == bytes@,
            res matches Err(e) ==> e == Error::ConvertError,
    {
        match to_array_32(bytes) {
            Some(array) => Ok(Self { bytes: array }),
            None => Err(Error::ConvertError),
        }
    }
}

/// Ed25519 private key.
pub struct PrivateKey {
    bytes: [u8; 32],
}

impl View for PrivateKey {
    type V = Seq<u8>;

    closed spec fn view(&self) -> Seq<u8> {
        self.bytes@
    }
}

impl PrivateKey {
    /// Deterministically generates and returns a private key from a seed
    /// and an index: the subseed of the seed at that index.
    pub fn generate_from_seed(seed: &Seed, index: u64) -> (res: Result<Self, Error>)
        ensures
            res.is_ok(),
            res.unwrap()@ == subseed(seed@, index),
    {
        let mut input: Vec<u8> = Vec::new();
        input.push((index % 0x100) as u8);
        input.push((index / 0x100 % 0x100) as u8);
        input.push((index / 0x1_0000 % 0x100) as u8);
        input.push((index / 0x100_0000 % 0x100) as u8);
        input.push((index / 0x1_0000_0000 % 0x100) as u8);
        input.push((index / 0x100_0000_0000 % 0x100) as u8);
        input.push((index / 0x1_0000_0000_0000 % 0x100) as u8);
        input.push((index / 0x100_0000_0000_0000) as u8);
        assert(input@ =~= le_bytes(index));
        let digest: Vec<u8> = match blake2b_256(&input) {
            Some(digest) => digest,
            None => {
                return Err(Error::PrivateKeyError);
            },
        };
        let mut bytes: [u8; 32] = seed.to_bytes();
        let mut i: usize = 0;
        while i < 32
            invariant
                i <= 32,
                digest@.len() == 32,
                digest@ == blake2b_256_digest(le_bytes(index)),
                forall|j: int| 0 <= j < i ==> bytes@[j] == seed@[j] ^ digest@[j],
                forall|j: int| i <= j < 32 ==> bytes@[j] == seed@[j],
            decreases 32 - i,
        {
            bytes[i] = bytes[i] ^ digest[i];
            i = i + 1;
        }
        assert(bytes@ =~= subseed(seed@, index));
        Ok(Self { bytes })
    }

    /// Returns the public counterpart of a private key.
    pub fn generate_public_key(&self) -> (public: PublicKey)
        ensures
            public@ == ed25519_public_key(self@),
    {
        PublicKey { bytes: derive_public_key(&self.bytes) }
    }

    /// Generates and returns a signature for a given message.
    pub fn sign(&self, message: &Vec<u8>) -> (res: Result<Signature, Error>)
        ensures
            res.is_ok(),
            res.unwrap()@ == ed25519_signature(self@, message@),
    {
        Ok(Signature { bytes: sign_message(&self.bytes, message) })
    }

    /// Overwrites the private key with zeros.
    pub fn zeroize(&mut self)
        ensures
            final(self)@ == Seq::new(32, |i: int| 0u8),
    {
        self.bytes = [0u8; 32];
        assert(self.bytes@ =~= Seq::new(32, |i: int| 0u8));
    }

    /// View this private key as a byte array.
    pub fn as_bytes(&self) -> (bytes: &[u8; 32])
        ensures
            bytes@ == self@,
    {
        &self.bytes
    }

    /// Convert this private key to a byte array.
    pub fn to_bytes(&self) -> (bytes: [u8; 32])
        ensures
            bytes@ == self@,
    {
        self.bytes
    }

    /// The private key that 32 bytes spell; other lengths are refused.
    pub fn from_bytes(bytes: &Vec<u8>) -> (res: Result<Self, Error>)
        ensures
            res.is_ok() == (bytes@.len() == 32),
            res matches Ok(key) ==> key@ == bytes@,
            res matches Err(e) ==> e == Error::ConvertError,
    {
        match to_array_32(bytes) {
            Some(array) => Ok(Self { bytes: array }),
            None => Err(Error::ConvertError),
        }
    }
}

/// Ed25519 public key.
#[derive(Debug)]
pub struct PublicKey {
    bytes: [u8; 32],
}

impl View for PublicKey {
    type V = Seq<u8>;

    closed spec fn view(&self) -> Seq<u8> {
        self.bytes@
    }
}

impl PublicKey {
    /// Verifies a signature for a given message: `Ok(true)` if it
    /// verifies, and an error if it does not.
    pub fn verify(&self, message: &Vec<u8>, signature: &Signature) -> (res: Result<bool, Error>)
        ensures
            res == (if ed25519_verifies(self@, message@, signature@) {
                Ok::<bool, Error>(true)
            } else {
                Err::<bool, Error>(Error::VerifyError)
            }),
    {
        if verify_signature(&self.bytes, message, &signature.bytes) {
            Ok(true)
        } else {
            Err(Error::VerifyError)
        }
    }

    /// View this public key as a byte array.
    pub fn as_bytes(&self) -> (bytes: &[u8; 32])
        ensures
            bytes@ == self@,
    {
        &self.bytes
    }

    /// Convert this public key to a byte array.
    pub fn to_bytes(&self) -> (bytes: [u8; 32])
        ensures
            bytes@ == self@,
    {
        self.bytes
    }

    /// The public key that bytes spell, if they are taken for one.
    pub fn from_bytes(bytes: &Vec<u8>) -> (res: Result<Self, Error>)
        ensures
            res.is_ok() == ed25519_is_public_key(bytes@),
            res matches Ok(key) ==> key@ == bytes@,
            res matches Err(e) ==> e == Error::ConvertError,
    {
        if !accepts_public_key(bytes) {
            return Err(Error::ConvertError);
        }
        match to_array_32(bytes) {
            Some(array) => Ok(Self { bytes: array }),
            None => Err(Error::ConvertError),
        }
    }
}

/// Ed25519 signature.
#[derive(Clone, Copy, Debug)]
pub struct Signature {
    bytes: [u8; 64],
}

impl View for Signature {
    type V = Seq<u8>;

    closed spec fn view(&self) -> Seq<u8> {
        self.bytes@
    }
}

impl Signature {
    /// Convert this signature to a byte array.
    pub fn to_bytes(&self) -> (bytes: [u8; 64])
        ensures
            bytes@ == self@,
    {
        self.bytes
    }

    /// The signature that 64 bytes spell. Bytes whose last has one of its
    /// three highest bits set are no signature and are refused.
    pub fn from_bytes(bytes: [u8; 64]) -> (res: Result<Self, Error>)
        ensures
            res.is_ok() == (bytes@[63] < 32),
            res matches Ok(signature) ==> signature@ == bytes@,
            res matches Err(e) ==> e == Error::ConvertError,
    {
        if bytes[63] >= 32 {
            Err(Error::ConvertError)
        } else {
            Ok(Self { bytes })
        }
    }
}

} // verus!
