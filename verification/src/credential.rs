//! The credential that the environment supplies.

use vstd::prelude::*;

use crate::error::ErrorKind;
use crate::key::{spec_decode, KeyMaterial};

verus! {

/// What resolving a credential gives: the seed of the identity, or the
/// reason for having none. `None` stands for a variable that is not set.
pub open spec fn spec_resolve(value: Option<Seq<char>>) -> Result<Seq<u8>, ErrorKind> {
    match value {
        None => Err(ErrorKind::MissingCredential),
        Some(text) => if text.len() == 0 {
            Err(ErrorKind::MissingCredential)
        } else {
            spec_decode(text)
        },
    }
}

/// The text that an optional string holds.
pub open spec fn held_text(value: Option<String>) -> Option<Seq<char>> {
    match value {
        Some(text) => Some(text@),
        None => None,
    }
}

/// The name of the environment variable that holds the credential.
pub fn credential_variable() -> (name: &'static str)
    ensures
        name@ == "PRIVATE_KEY"@,
{
    "PRIVATE_KEY"
}

/// The credential as it was found in the environment: the value of the
/// variable, or nothing where the variable is not set.
#[derive(Clone, Debug, PartialEq, Eq)]
pub struct EnvKeyProvider {
    value: Option<String>,
}

impl View for EnvKeyProvider {
    type V = Option<Seq<char>>;

    /// The value of the variable.
    closed spec fn view(&self) -> Option<Seq<char>> {
        held_text(self.value)
    }
}

impl EnvKeyProvider {
    /// The provider for a variable that holds `value`, or that is not set.
    pub fn new(value: Option<String>) -> (provider: EnvKeyProvider)
        ensures
            provider@ == held_text(value),
    {
        EnvKeyProvider { value }
    }

    /// The identity that the credential names. An unset or empty variable
    /// is a missing credential; anything else is decoded as a keypair.
    pub fn resolve(&self) -> (key: Result<KeyMaterial, ErrorKind>)
        ensures
            match spec_resolve(self@) {
                Ok(seed) => key is Ok && key->Ok_0@ == seed,
                Err(kind) => key == Err::<KeyMaterial, ErrorKind>(kind),
            },
    {
        match &self.value {
            None => Err(ErrorKind::MissingCredential),
            Some(text) => {
                if text.as_str().is_empty() {
                    Err(ErrorKind::MissingCredential)
                } else {
                    KeyMaterial::decode(text.as_str())
                }
            },
        }
    }
}

/// A credential that is not empty resolves as it decodes: nothing but
/// the decoding stands between the variable and the identity.
pub proof fn lemma_resolve_decodes_what_is_held(text: Seq<char>)
    requires
        text.len() > 0,
    ensures
        spec_resolve(Some(text)) == spec_decode(text),
{
}

} // verus!
