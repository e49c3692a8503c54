//! Signing identities: a secret seed and the public identifier derived from
//! it.

use solana_sdk::pubkey::Pubkey;
use solana_sdk::signature::{Keypair, Signer};
use vstd::prelude::*;

use crate::base58;
use crate::base58::{base58_bytes, base58_text, is_base58};
use crate::error::ErrorKind;

verus! {

/// Number of bytes of a secret seed.
pub const SEED_LENGTH: usize = 32;

/// Number of bytes of an exported keypair: the seed, then the identifier.
pub const KEYPAIR_LENGTH: usize = 64;

/// The Ed25519 public key that belongs to a 32-byte `seed`, as
/// `solana_sdk` derives it.
pub uninterp spec fn ed25519_public(seed: Seq<u8>) -> Seq<u8>;

/// The text that `solana_sdk` shows for a public key of these 32 bytes.
pub uninterp spec fn pubkey_text(identifier: Seq<u8>) -> Seq<char>;

/// The exported form of the identity with this seed.
pub open spec fn spec_keypair_bytes(seed: Seq<u8>) -> Seq<u8> {
    seed + ed25519_public(seed)
}

/// Whether `bytes` is the exported form of some identity: 64 bytes whose
/// second half is the public key of the first half.
pub open spec fn is_keypair(bytes: Seq<u8>) -> bool {
    &&& bytes.len() == KEYPAIR_LENGTH
    &&& bytes.subrange(SEED_LENGTH as int, KEYPAIR_LENGTH as int) == ed25519_public(
        bytes.subrange(0, SEED_LENGTH as int),
    )
}

/// What reading `bytes` as an exported keypair gives: the seed, or the
/// reason for refusing them.
pub open spec fn spec_from_keypair_bytes(bytes: Seq<u8>) -> Result<Seq<u8>, ErrorKind> {
    if is_keypair(bytes) {
        Ok(bytes.subrange(0, SEED_LENGTH as int))
    } else {
        Err(ErrorKind::InvalidKeyMaterial)
    }
}

/// What decoding `text` gives: the seed, or the reason for refusing it.
pub open spec fn spec_decode(text: Seq<char>) -> Result<Seq<u8>, ErrorKind> {
    if is_base58(text) {
        spec_from_keypair_bytes(base58_bytes(text))
    } else {
        Err(ErrorKind::DecodeError)
    }
}

/// The text form of the identity with this seed.
pub open spec fn spec_encode(seed: Seq<u8>) -> Seq<char> {
    base58_text(spec_keypair_bytes(seed))
}

/// `Keypair::new` of `solana_sdk`, reduced to its secret seed.
///
/// Trusted: nothing is claimed of the seed, which the operating system's
/// random source picks.
#[verifier::external_body]
fn fresh_seed() -> [u8; 32] {
    *Keypair::new().secret_bytes()
}

/// `Signer::pubkey` of the `Keypair` that `Keypair::new_from_array` builds
/// from `seed`.
///
/// Trusted: the public key depends on the seed alone.
#[verifier::external_body]
fn derive_public(seed: &[u8; 32]) -> (identifier: [u8; 32])
    ensures
        identifier@ == ed25519_public(seed@),
{
    Keypair::new_from_array(*seed).pubkey().to_bytes()
}

/// `Keypair::from_bytes` of `solana_sdk`, reduced to the seed of the keypair
/// that it accepts.
///
/// Trusted: the bytes are accepted exactly when there are 64 of them and
/// the last 32 are the public key derived from the first 32, which are then
/// the seed.
#[allow(deprecated)]
#[verifier::external_body]
fn keypair_seed(bytes: &[u8]) -> (seed: Option<[u8; 32]>)
    ensures
        seed is Some <==> is_keypair(bytes@),
        seed is Some ==> seed->Some_0@ == bytes@.subrange(0, SEED_LENGTH as int),
{
    match Keypair::from_bytes(bytes) {
        Ok(keypair) => Some(*keypair.secret_bytes()),
        Err(_) => None,
    }
}

/// `Display` of `solana_sdk`'s `Pubkey`.
///
/// Trusted: the text depends on the 32 bytes alone and holds only
/// characters of the base-58 alphabet.
#[verifier::external_body]
fn show_pubkey(identifier: &[u8; 32]) -> (text: String)
    ensures
        text@ == pubkey_text(identifier@),
        is_base58(text@),
{
    Pubkey::from(*identifier).to_string()
}

/// One signing identity. Only the seed is held: the public identifier is
/// derived from it whenever it is asked for.
#[derive(Clone, Copy, Debug, PartialEq, Eq)]
pub struct KeyMaterial {
    seed: [u8; 32],
}

impl View for KeyMaterial {
    type V = Seq<u8>;

    /// The seed.
    closed spec fn view(&self) -> Seq<u8> {
        self.seed@
    }
}

impl KeyMaterial {
    /// The identity with the given seed.
    pub fn from_seed(seed: [u8; 32]) -> (key: KeyMaterial)
        ensures
            key@ == seed@,
    {
        KeyMaterial { seed }
    }

    /// A new identity from the operating system's random source.
    pub fn generate() -> (key: KeyMaterial)
        ensures
            key@.len() == SEED_LENGTH,
    {
        KeyMaterial::from_seed(fresh_seed())
    }

    /// The secret seed.
    pub fn seed(&self) -> (seed: [u8; 32])
        ensures
            seed@ == self@,
    {
        self.seed
    }

    /// The public identifier that belongs to the seed.
    pub open spec fn spec_public_identifier(&self) -> Seq<u8> {
        ed25519_public(self@)
    }

    /// The public identifier that belongs to the seed.
    pub fn public_identifier(&self) -> (identifier: [u8; 32])
        ensures
            identifier@ == self.spec_public_identifier(),
    {
        derive_public(&self.seed)
    }

    /// The public identifier as the text that is shown to people.
    pub fn identifier_text(&self) -> (text: String)
        ensures
            text@ == pubkey_text(self.spec_public_identifier()),
            is_base58(text@),
    {
        let identifier = self.public_identifier();
        show_pubkey(&identifier)
    }

    /// The exported form: the seed, then the public identifier.
    pub fn keypair_bytes(&self) -> (bytes: Vec<u8>)
        ensures
            bytes@ == spec_keypair_bytes(self@),
            is_keypair(bytes@),
    {
        let identifier = self.public_identifier();
        let mut bytes: Vec<u8> = Vec::new();
        append_block(&mut bytes, &self.seed);
        append_block(&mut bytes, &identifier);
        assert(bytes@ =~= spec_keypair_bytes(self@));
        assert(bytes@.subrange(0, SEED_LENGTH as int) =~= self@);
        assert(bytes@.subrange(SEED_LENGTH as int, KEYPAIR_LENGTH as int) =~= identifier@);
        bytes
    }

    /// Reads an exported keypair. The bytes are refused unless there are 64
    /// of them and the second half is the public key of the first.
    pub fn from_keypair_bytes(bytes: &[u8]) -> (key: Result<KeyMaterial, ErrorKind>)
        ensures
            match spec_from_keypair_bytes(bytes@) {
                Ok(seed) => key is Ok && key->Ok_0@ == seed,
                Err(kind) => key == Err::<KeyMaterial, ErrorKind>(kind),
            },
    {
        match keypair_seed(bytes) {
            Some(seed) => Ok(KeyMaterial::from_seed(seed)),
            None => Err(ErrorKind::InvalidKeyMaterial),
        }
    }

    /// Reads the base-58 text of an exported keypair.
    pub fn decode(text: &str) -> (key: Result<KeyMaterial, ErrorKind>)
        ensures
            match spec_decode(text@) {
                Ok(seed) => key is Ok && key->Ok_0@ == seed,
                Err(kind) => key == Err::<KeyMaterial, ErrorKind>(kind),
            },
    {
        match base58::decode(text) {
            Ok(bytes) => KeyMaterial::from_keypair_bytes(bytes.as_slice()),
            Err(_) => Err(ErrorKind::DecodeError),
        }
    }

    /// The base-58 text of the exported keypair. It is never empty, and
    /// decoding it gives this identity back.
    pub fn encode(&self) -> (text: String)
        ensures
            text@ == spec_encode(self@),
            is_base58(text@),
            text@.len() > 0,
            spec_decode(text@) == Ok::<Seq<u8>, ErrorKind>(self@),
    {
        let bytes = self.keypair_bytes();
        assert(bytes@.subrange(0, SEED_LENGTH as int) =~= self@);
        base58::encode(bytes.as_slice())
    }
}

/// Appends the 32 bytes of `block` to `out`.
fn append_block(out: &mut Vec<u8>, block: &[u8; 32])
    ensures
        final(out)@ == old(out)@ + block@,
{
    let mut i: usize = 0;
    while i < 32
        invariant
            i <= 32,
            out@ == old(out)@ + block@.subrange(0, i as int),
        decreases 32 - i,
    {
        out.push(block[i]);
        i += 1;
        assert(out@ =~= old(out)@ + block@.subrange(0, i as int));
    }
    assert(block@.subrange(0, 32) =~= block@);
}

/// The public identifier depends on the seed alone: identities with the
/// same seed have the same identifier, whenever it is asked for.
pub proof fn lemma_public_identifier_is_determined(first: KeyMaterial, second: KeyMaterial)
    requires
        first@ == second@,
    ensures
        first.spec_public_identifier() == second.spec_public_identifier(),
{
}

/// A text with a character outside the base-58 alphabet is refused as
/// undecodable, whatever else it holds.
pub proof fn lemma_decode_refuses_foreign_characters(text: Seq<char>)
    requires
        !is_base58(text),
    ensures
        spec_decode(text) == Err::<Seq<u8>, ErrorKind>(ErrorKind::DecodeError),
{
}

/// Base-58 text that decodes to anything but 64 bytes is refused as
/// invalid key material.
pub proof fn lemma_decode_refuses_wrong_length(text: Seq<char>)
    requires
        is_base58(text),
        base58_bytes(text).len() != KEYPAIR_LENGTH,
    ensures
        spec_decode(text) == Err::<Seq<u8>, ErrorKind>(ErrorKind::InvalidKeyMaterial),
{
}

} // verus!
