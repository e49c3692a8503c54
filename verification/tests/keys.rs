use solcli::credential::{credential_variable, EnvKeyProvider};
use solcli::error::ErrorKind;
use solcli::key::KeyMaterial;

const SEED: [u8; 32] = [
    0x9d, 0x61, 0xb1, 0x9d, 0xef, 0xfd, 0x5a, 0x60, 0xba, 0x84, 0x4a, 0xf4, 0x92, 0xec, 0x2c, 0xc4,
    0x44, 0x49, 0xc5, 0x69, 0x7b, 0x32, 0x69, 0x19, 0x70, 0x3b, 0xac, 0x03, 0x1c, 0xae, 0x7f, 0x60,
];

const PUBLIC: [u8; 32] = [
    0xd7, 0x5a, 0x98, 0x01, 0x82, 0xb1, 0x0a, 0xb7, 0xd5, 0x4b, 0xfe, 0xd3, 0xc9, 0x64, 0x07, 0x3a,
    0x0e, 0xe1, 0x72, 0xf3, 0xda, 0xa6, 0x23, 0x25, 0xaf, 0x02, 0x1a, 0x68, 0xf7, 0x07, 0x51, 0x1a,
];

fn keypair_bytes() -> Vec<u8> {
    let mut bytes = SEED.to_vec();
    bytes.extend_from_slice(&PUBLIC);
    bytes
}

#[test]
fn public_identifier_matches_the_rfc_8032_vector() {
    let key = KeyMaterial::from_seed(SEED);
    assert_eq!(key.public_identifier(), PUBLIC);
    assert_ne!(key.public_identifier(), SEED);
}

#[test]
fn public_identifier_is_deterministic() {
    let key = KeyMaterial::from_seed(SEED);
    assert_eq!(key.public_identifier(), key.public_identifier());
    let again = KeyMaterial::from_seed(SEED);
    assert_eq!(key.public_identifier(), again.public_identifier());
    assert_eq!(key.identifier_text(), again.identifier_text());
}

#[test]
fn seed_is_kept() {
    assert_eq!(KeyMaterial::from_seed(SEED).seed(), SEED);
}

#[test]
fn keypair_bytes_are_seed_then_identifier() {
    let key = KeyMaterial::from_seed(SEED);
    assert_eq!(key.keypair_bytes(), keypair_bytes());
    assert_eq!(key.keypair_bytes().len(), 64);
}

#[test]
fn encode_is_base58_of_the_keypair() {
    let key = KeyMaterial::from_seed(SEED);
    let expected = bs58::encode(keypair_bytes()).into_string();
    assert_eq!(key.encode(), expected);
    assert!(key.encode().len() > 64);
}

#[test]
fn texts_are_base58_and_not_empty() {
    let alphabet = "123456789ABCDEFGHJKLMNPQRSTUVWXYZabcdefghijkmnopqrstuvwxyz";
    for seed in [[0u8; 32], SEED, [0xffu8; 32]] {
        let key = KeyMaterial::from_seed(seed);
        assert!(key.encode().len() >= 64);
        assert!(key.encode().chars().all(|c| alphabet.contains(c)));
        assert!(!key.identifier_text().is_empty());
        assert!(key.identifier_text().chars().all(|c| alphabet.contains(c)));
    }
}

#[test]
fn identifier_text_is_base58_of_the_identifier() {
    let key = KeyMaterial::from_seed(SEED);
    assert_eq!(key.identifier_text(), bs58::encode(PUBLIC).into_string());
    assert_eq!(key.identifier_text(), "FVen3X669xLzsi6N2V91DoiyzHzg1uAgqiT8jZ9nS96Z");
}

#[test]
fn decode_inverts_encode() {
    let key = KeyMaterial::from_seed(SEED);
    assert_eq!(KeyMaterial::decode(&key.encode()), Ok(key));
    let zeros = KeyMaterial::from_seed([0u8; 32]);
    assert_eq!(KeyMaterial::decode(&zeros.encode()), Ok(zeros));
    let ones = KeyMaterial::from_seed([0xffu8; 32]);
    assert_eq!(KeyMaterial::decode(&ones.encode()), Ok(ones));
}

#[test]
fn decode_inverts_encode_for_generated_keys() {
    for _ in 0..8 {
        let key = KeyMaterial::generate();
        let decoded = KeyMaterial::decode(&key.encode());
        assert_eq!(decoded, Ok(key));
        assert_eq!(decoded.unwrap().public_identifier(), key.public_identifier());
    }
}

#[test]
fn decode_reads_the_seed() {
    let text = bs58::encode(keypair_bytes()).into_string();
    let key = KeyMaterial::decode(&text).unwrap();
    assert_eq!(key.seed(), SEED);
    assert_eq!(key.public_identifier(), PUBLIC);
}

#[test]
fn generate_gives_distinct_identities() {
    let first = KeyMaterial::generate();
    let second = KeyMaterial::generate();
    assert_ne!(first.public_identifier(), second.public_identifier());
    assert_ne!(first.seed(), second.seed());
}

#[test]
fn decode_refuses_text_outside_the_alphabet() {
    assert_eq!(KeyMaterial::decode("0"), Err(ErrorKind::DecodeError));
    assert_eq!(KeyMaterial::decode("O"), Err(ErrorKind::DecodeError));
    assert_eq!(KeyMaterial::decode("I"), Err(ErrorKind::DecodeError));
    assert_eq!(KeyMaterial::decode("l"), Err(ErrorKind::DecodeError));
    assert_eq!(KeyMaterial::decode("not base58!"), Err(ErrorKind::DecodeError));
    assert_eq!(KeyMaterial::decode("he11o\u{1f600}"), Err(ErrorKind::DecodeError));
    let mut text = KeyMaterial::from_seed(SEED).encode();
    text.push('0');
    assert_eq!(KeyMaterial::decode(&text), Err(ErrorKind::DecodeError));
}

#[test]
fn decode_refuses_the_wrong_length() {
    assert_eq!(KeyMaterial::decode("he11owor1d"), Err(ErrorKind::InvalidKeyMaterial));
    assert_eq!(KeyMaterial::decode(""), Err(ErrorKind::InvalidKeyMaterial));
    let short = bs58::encode(&keypair_bytes()[..63]).into_string();
    assert_eq!(KeyMaterial::decode(&short), Err(ErrorKind::InvalidKeyMaterial));
    let mut long = keypair_bytes();
    long.push(0);
    let long = bs58::encode(long).into_string();
    assert_eq!(KeyMaterial::decode(&long), Err(ErrorKind::InvalidKeyMaterial));
    let seed_only = bs58::encode(SEED).into_string();
    assert_eq!(KeyMaterial::decode(&seed_only), Err(ErrorKind::InvalidKeyMaterial));
}

#[test]
fn decode_refuses_a_foreign_public_half() {
    let mut bytes = keypair_bytes();
    bytes[63] ^= 1;
    let text = bs58::encode(&bytes).into_string();
    assert_eq!(KeyMaterial::decode(&text), Err(ErrorKind::InvalidKeyMaterial));
    let mut swapped = PUBLIC.to_vec();
    swapped.extend_from_slice(&SEED);
    let text = bs58::encode(&swapped).into_string();
    assert_eq!(KeyMaterial::decode(&text), Err(ErrorKind::InvalidKeyMaterial));
}

#[test]
fn from_keypair_bytes_checks_the_structure() {
    assert_eq!(
        KeyMaterial::from_keypair_bytes(&keypair_bytes()),
        Ok(KeyMaterial::from_seed(SEED))
    );
    assert_eq!(KeyMaterial::from_keypair_bytes(&SEED), Err(ErrorKind::InvalidKeyMaterial));
    assert_eq!(KeyMaterial::from_keypair_bytes(&[]), Err(ErrorKind::InvalidKeyMaterial));
    assert_eq!(KeyMaterial::from_keypair_bytes(&[0u8; 64]), Err(ErrorKind::InvalidKeyMaterial));
}

#[test]
fn resolve_without_a_credential_fails() {
    assert_eq!(EnvKeyProvider::new(None).resolve(), Err(ErrorKind::MissingCredential));
    assert_eq!(
        EnvKeyProvider::new(Some(String::new())).resolve(),
        Err(ErrorKind::MissingCredential)
    );
}

#[test]
fn resolve_decodes_the_credential() {
    let key = KeyMaterial::from_seed(SEED);
    assert_eq!(EnvKeyProvider::new(Some(key.encode())).resolve(), Ok(key));
}

#[test]
fn resolve_passes_decoding_failures_on() {
    assert_eq!(
        EnvKeyProvider::new(Some(String::from("0OIl"))).resolve(),
        Err(ErrorKind::DecodeError)
    );
    assert_eq!(
        EnvKeyProvider::new(Some(String::from("he11owor1d"))).resolve(),
        Err(ErrorKind::InvalidKeyMaterial)
    );
    assert_eq!(
        EnvKeyProvider::new(Some(String::from(" "))).resolve(),
        Err(ErrorKind::DecodeError)
    );
}

#[test]
fn credential_variable_is_named() {
    assert_eq!(credential_variable(), "PRIVATE_KEY");
}

#[test]
fn every_failure_has_a_message() {
    let kinds = [
        ErrorKind::MissingCredential,
        ErrorKind::DecodeError,
        ErrorKind::InvalidKeyMaterial,
        ErrorKind::NetworkError,
        ErrorKind::RpcError,
        ErrorKind::ConfirmationTimeout,
    ];
    for (i, kind) in kinds.iter().enumerate() {
        assert!(!kind.message().is_empty());
        for other in &kinds[i + 1..] {
            assert_ne!(kind.message(), other.message());
        }
    }
    assert_eq!(ErrorKind::MissingCredential.message(), "PRIVATE_KEY not found in .env");
}
