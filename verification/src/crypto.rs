//! Passphrase-sealed vaults: Argon2id key derivation, AES-256-GCM
//! authenticated encryption and the vault blob format
//! `[version][salt][nonce][ciphertext + tag]`.

use vstd::prelude::*;
use aes_gcm::aead::{Aead, KeyInit};
use aes_gcm::Aes256Gcm;
use argon2::{Algorithm, Argon2, Params, Version};
use rand::rngs::StdRng;
use rand::{RngCore, SeedableRng};

verus! {

/// Vault format version.
pub const VAULT_VERSION: u8 = 1;
/// Argon2 salt size in bytes.
pub const SALT_SIZE: usize = 16;
/// AES-GCM nonce size in bytes.
pub const NONCE_SIZE: usize = 12;
/// AES-256 key size in bytes.
pub const KEY_SIZE: usize = 32;
/// AES-GCM authentication tag size in bytes.
pub const TAG_SIZE: usize = 16;
/// Argon2 memory cost in KiB (64 MiB).
pub const ARGON2_MEMORY_KIB: u32 = 65536;
/// Argon2 time cost (passes).
pub const ARGON2_ITERATIONS: u32 = 3;
/// Argon2 degree of parallelism.
pub const ARGON2_PARALLELISM: u32 = 1;

/// Largest plaintext AES-GCM accepts, in bytes (2^36).
pub const AES_GCM_MAX_PLAINTEXT: u64 = 0x10_0000_0000;
/// Largest passphrase Argon2 accepts, in bytes.
pub const ARGON2_MAX_PASSPHRASE: u64 = 0xFFFF_FFFF;

#[verifier::external_type_specification]
#[verifier::external_body]
pub struct ExArgon2Error(argon2::Error);

#[verifier::external_type_specification]
#[verifier::external_body]
pub struct ExAeadError(aes_gcm::aead::Error);

#[verifier::external_type_specification]
#[verifier::external_body]
pub struct ExStdRng(StdRng);

/// The 32-byte Argon2id (version 0x13) output for a passphrase, salt and costs.
pub uninterp spec fn argon2id_key(passphrase: Seq<u8>, salt: Seq<u8>, memory_kib: u32, iterations: u32, parallelism: u32) -> Seq<u8>;

/// AES-256-GCM encryption without associated data: ciphertext followed by the tag.
pub uninterp spec fn aes256gcm_seal(key: Seq<u8>, nonce: Seq<u8>, plaintext: Seq<u8>) -> Seq<u8>;

/// AES-256-GCM authenticated decryption without associated data; `None` when
/// the tag does not verify.
pub uninterp spec fn aes256gcm_open(key: Seq<u8>, nonce: Seq<u8>, ciphertext: Seq<u8>) -> Option<Seq<u8>>;

/// Cost parameters Argon2 accepts.
pub open spec fn argon2_params_valid(memory_kib: u32, iterations: u32, parallelism: u32) -> bool {
    &&& memory_kib >= 8
    &&& memory_kib >= 8 * parallelism
    &&& iterations >= 1
    &&& 1 <= parallelism <= 0xFF_FFFF
}

/// Cryptographic operation errors.
#[derive(Debug, Clone, PartialEq, Eq)]
pub enum CryptoError {
    /// Key derivation failed.
    KeyDerivationFailed(String),
    /// Encryption failed.
    EncryptionFailed(String),
    /// Decryption failed (wrong key or corrupted data).
    DecryptionFailed(String),
    /// Invalid input data.
    InvalidInput(String),
}

/// Stage at which Argon2 refused a request.
enum Argon2Failure {
    Params(argon2::Error),
    Hash(argon2::Error),
}

spec fn refused_params(r: Result<[u8; 32], Argon2Failure>) -> bool {
    r matches Err(Argon2Failure::Params(_))
}

spec fn refused_hash(r: Result<[u8; 32], Argon2Failure>) -> bool {
    r matches Err(Argon2Failure::Hash(_))
}

/// `argon2::Params::new`, `argon2::Argon2::new` and
/// `argon2::Argon2::hash_password_into` for a 32-byte Argon2id output.
/// Claimed: the parameters are refused exactly when they violate the bounds
/// `Params::new` checks; with valid parameters, a 16-byte salt and a 32-byte
/// output the hash is refused exactly when the passphrase exceeds
/// `MAX_PWD_LEN`; the output is the named Argon2id value. The memory cost is
/// allocated; an allocation the machine cannot satisfy aborts, which is not stated.
#[verifier::external_body]
fn argon2id_hash(passphrase: &[u8], salt: &[u8; 16], memory_kib: u32, iterations: u32, parallelism: u32) -> (r: Result<[u8; 32], Argon2Failure>)
    requires
        parallelism <= 0x1FFF_FFFF,
    ensures
        refused_params(r) == !argon2_params_valid(memory_kib, iterations, parallelism),
        refused_hash(r) == (argon2_params_valid(memory_kib, iterations, parallelism)
            && passphrase@.len() > ARGON2_MAX_PASSPHRASE),
        r is Ok ==> r->Ok_0@ == argon2id_key(passphrase@, salt@, memory_kib, iterations, parallelism),
{
    let params = match Params::new(memory_kib, iterations, parallelism, Some(32)) {
        Ok(params) => params,
        Err(e) => return Err(Argon2Failure::Params(e)),
    };
    let mut out = [0u8; 32];
    match Argon2::new(Algorithm::Argon2id, Version::V0x13, params).hash_password_into(passphrase, salt, &mut out) {
        Ok(()) => Ok(out),
        Err(e) => Err(Argon2Failure::Hash(e)),
    }
}

/// The `Display` text of an `argon2::Error`, after a context prefix.
#[verifier::external_body]
fn argon2_error_text(context: &str, e: &argon2::Error) -> String {
    format!("{}: {}", context, e)
}

/// `Aead::encrypt` of `aes_gcm::Aes256Gcm` with no associated data.
/// Claimed: it fails exactly when the plaintext is longer than 2^36 bytes;
/// otherwise the result is the named ciphertext, 16 bytes longer than the
/// plaintext, which decrypts under the same key and nonce to the plaintext.
#[verifier::external_body]
fn aes256gcm_encrypt(key: &[u8; 32], nonce: &[u8; 12], plaintext: &[u8]) -> (r: Result<Vec<u8>, aes_gcm::aead::Error>)
    ensures
        r is Ok <==> plaintext@.len() <= AES_GCM_MAX_PLAINTEXT,
        r matches Ok(c) ==> c@ == aes256gcm_seal(key@, nonce@, plaintext@),
        r matches Ok(c) ==> c@.len() == plaintext@.len() + 16,
        r matches Ok(c) ==> aes256gcm_open(key@, nonce@, c@) == Some(plaintext@),
{
    Aes256Gcm::new(key.into()).encrypt(nonce.into(), plaintext)
}

/// `Aead::decrypt` of `aes_gcm::Aes256Gcm` with no associated data.
/// Claimed: the result is the named decryption, an error where it is `None`.
#[verifier::external_body]
fn aes256gcm_decrypt(key: &[u8; 32], nonce: &[u8; 12], ciphertext: &[u8]) -> (r: Result<Vec<u8>, aes_gcm::aead::Error>)
    ensures
        match aes256gcm_open(key@, nonce@, ciphertext@) {
            Some(p) => r matches Ok(v) && v@ == p,
            None => r is Err,
        },
{
    Aes256Gcm::new(key.into()).decrypt(nonce.into(), ciphertext)
}

/// The `Display` text of an `aes_gcm::aead::Error`, after a context prefix.
#[verifier::external_body]
fn aead_error_text(context: &str, e: &aes_gcm::aead::Error) -> String {
    format!("{}: {}", context, e)
}

/// `SeedableRng::from_entropy` for `rand::rngs::StdRng`: a generator seeded
/// from the operating system. It panics if the operating system has no
/// randomness to give, which is not stated.
#[verifier::external_body]
fn entropy_rng() -> StdRng {
    StdRng::from_entropy()
}

/// `RngCore::fill_bytes` of `rand::rngs::StdRng`: overwrites `dest` with
/// random bytes. Nothing is claimed of the bytes.
#[verifier::external_body]
fn fill_random<const N: usize>(rng: &mut StdRng, dest: &mut [u8; N]) {
    rng.fill_bytes(dest)
}

/// Text of the error for a vault header of `len` bytes, shorter than `size`.
#[verifier::external_body]
fn header_too_short_text(len: usize, size: usize) -> String {
    format!("Header too short: {} < {}", len, size)
}

/// Text of the error for a vault header of an unsupported version.
#[verifier::external_body]
fn unsupported_version_text(version: u8, expected: u8) -> String {
    format!("Unsupported vault version: {} (expected {})", version, expected)
}

/// A 256-bit encryption key.
#[derive(Clone)]
pub struct SecureKey {
    bytes: [u8; 32],
}

impl View for SecureKey {
    type V = Seq<u8>;

    closed spec fn view(&self) -> Seq<u8> {
        self.bytes@
    }
}

impl SecureKey {
    /// A key holding `bytes`.
    pub fn new(bytes: [u8; 32]) -> (r: Self)
        ensures
            r@ == bytes@,
    {
        Self { bytes }
    }

    /// The raw key bytes.
    pub fn as_bytes(&self) -> (r: &[u8; 32])
        ensures
            r@ == self@,
    {
        &self.bytes
    }

    /// Overwrite the key bytes with zeros, by writes the compiler keeps.
    pub fn zeroize(&mut self)
        ensures
            final(self)@ == Seq::new(32, |i: int| 0u8),
    {
        wipe_key_bytes(&mut self.bytes);
    }
}

/// `zeroize::Zeroize::zeroize` on a 32-byte array: each byte is set to 0 by a
/// volatile write, which the compiler does not drop as dead.
#[verifier::external_body]
fn wipe_key_bytes(bytes: &mut [u8; 32])
    ensures
        final(bytes)@ == Seq::new(32, |i: int| 0u8),
{
    zeroize::Zeroize::zeroize(bytes);
}

/// A fresh random salt.
pub fn generate_salt() -> (r: [u8; 16])
    ensures
        r@.len() == SALT_SIZE,
{
    let mut salt = [0u8; 16];
    let mut rng = entropy_rng();
    fill_random(&mut rng, &mut salt);
    salt
}

/// A fresh random nonce.
pub fn generate_nonce() -> (r: [u8; 12])
    ensures
        r@.len() == NONCE_SIZE,
{
    let mut nonce = [0u8; 12];
    let mut rng = entropy_rng();
    fill_random(&mut rng, &mut nonce);
    nonce
}

/// A fresh random key.
pub fn generate_random_key() -> (r: SecureKey)
    ensures
        r@.len() == KEY_SIZE,
{
    let mut bytes = [0u8; 32];
    let mut rng = entropy_rng();
    fill_random(&mut rng, &mut bytes);
    SecureKey::new(bytes)
}

/// Argon2id key derivation with explicit costs. Fails with
/// `KeyDerivationFailed` exactly when the costs are invalid or the passphrase
/// is longer than Argon2 accepts.
pub fn derive_key_with_params(
    passphrase: &[u8],
    salt: &[u8; 16],
    memory_kib: u32,
    iterations: u32,
    parallelism: u32,
) -> (r: Result<SecureKey, CryptoError>)
    requires
        parallelism <= 0x1FFF_FFFF,
    ensures
        r is Ok <==> argon2_params_valid(memory_kib, iterations, parallelism)
            && passphrase@.len() <= ARGON2_MAX_PASSPHRASE,
        r matches Ok(k) ==> k@ == argon2id_key(passphrase@, salt@, memory_kib, iterations, parallelism),
        r matches Err(e) ==> e is KeyDerivationFailed,
{
    match argon2id_hash(passphrase, salt, memory_kib, iterations, parallelism) {
        Ok(key_bytes) => Ok(SecureKey::new(key_bytes)),
        Err(Argon2Failure::Params(e)) => Err(CryptoError::KeyDerivationFailed(argon2_error_text("Invalid Argon2 params", &e))),
        Err(Argon2Failure::Hash(e)) => Err(CryptoError::KeyDerivationFailed(argon2_error_text("Argon2 hash failed", &e))),
    }
}

/// The key a vault derives from a passphrase and salt with the default costs.
pub open spec fn vault_key(passphrase: Seq<u8>, salt: Seq<u8>) -> Seq<u8> {
    argon2id_key(passphrase, salt, ARGON2_MEMORY_KIB, ARGON2_ITERATIONS, ARGON2_PARALLELISM)
}

/// Argon2id key derivation with the default costs (64 MiB, 3 passes, 1 lane).
pub fn derive_key(passphrase: &[u8], salt: &[u8; 16]) -> (r: Result<SecureKey, CryptoError>)
    ensures
        r is Ok <==> passphrase@.len() <= ARGON2_MAX_PASSPHRASE,
        r matches Ok(k) ==> k@ == vault_key(passphrase@, salt@),
        r matches Err(e) ==> e is KeyDerivationFailed,
{
    derive_key_with_params(passphrase, salt, ARGON2_MEMORY_KIB, ARGON2_ITERATIONS, ARGON2_PARALLELISM)
}

/// AES-256-GCM encryption; the ciphertext carries the 16-byte tag at its end.
pub fn encrypt(key: &SecureKey, nonce: &[u8; 12], plaintext: &[u8]) -> (r: Result<Vec<u8>, CryptoError>)
    ensures
        r is Ok <==> plaintext@.len() <= AES_GCM_MAX_PLAINTEXT,
        r matches Ok(c) ==> c@ == aes256gcm_seal(key@, nonce@, plaintext@),
        r matches Ok(c) ==> c@.len() == plaintext@.len() + TAG_SIZE,
        r matches Ok(c) ==> aes256gcm_open(key@, nonce@, c@) == Some(plaintext@),
        r matches Err(e) ==> e is EncryptionFailed,
{
    match aes256gcm_encrypt(key.as_bytes(), nonce, plaintext) {
        Ok(c) => Ok(c),
        Err(e) => Err(CryptoError::EncryptionFailed(aead_error_text("Encryption failed", &e))),
    }
}

/// AES-256-GCM decryption. Fails with `DecryptionFailed` when the input is
/// shorter than a tag or does not authenticate under the key and nonce.
pub fn decrypt(key: &SecureKey, nonce: &[u8; 12], ciphertext: &[u8]) -> (r: Result<Vec<u8>, CryptoError>)
    ensures
        ciphertext@.len() < TAG_SIZE ==> r matches Err(CryptoError::DecryptionFailed(_)),
        ciphertext@.len() >= TAG_SIZE ==> match aes256gcm_open(key@, nonce@, ciphertext@) {
            Some(p) => r matches Ok(v) && v@ == p,
            None => r matches Err(CryptoError::DecryptionFailed(_)),
        },
{
    if ciphertext.len() < TAG_SIZE {
        return Err(CryptoError::DecryptionFailed("Ciphertext too short (missing auth tag)".to_string()));
    }
    match aes256gcm_decrypt(key.as_bytes(), nonce, ciphertext) {
        Ok(p) => Ok(p),
        Err(_) => Err(CryptoError::DecryptionFailed("Authentication failed".to_string())),
    }
}

/// Header of the vault format.
#[derive(Debug, Clone)]
pub struct VaultHeader {
    /// Format version.
    pub version: u8,
    /// Salt for key derivation.
    pub salt: [u8; 16],
    /// Nonce for encryption.
    pub nonce: [u8; 12],
}

/// Serialized header: version, salt, nonce.
pub open spec fn header_bytes(version: u8, salt: Seq<u8>, nonce: Seq<u8>) -> Seq<u8> {
    seq![version] + salt + nonce
}

impl VaultHeader {
    /// Header size in bytes.
    pub const SIZE: usize = 29;

    /// The header as bytes.
    pub fn to_bytes(&self) -> (r: [u8; 29])
        ensures
            r@ == header_bytes(self.version, self.salt@, self.nonce@),
    {
        let mut bytes = [0u8; 29];
        bytes[0] = self.version;
        let mut i: usize = 0;
        while i < 16
            invariant
                i <= 16,
                bytes@.len() == 29,
                bytes@[0] == self.version,
                forall|j: int| 0 <= j < i ==> bytes@[1 + j] == self.salt@[j],
            decreases 16 - i,
        {
            bytes[1 + i] = self.salt[i];
            i = i + 1;
        }
        let mut k: usize = 0;
        while k < 12
            invariant
                k <= 12,
                bytes@.len() == 29,
                bytes@[0] == self.version,
                forall|j: int| 0 <= j < 16 ==> bytes@[1 + j] == self.salt@[j],
                forall|j: int| 0 <= j < k ==> bytes@[17 + j] == self.nonce@[j],
            decreases 12 - k,
        {
            bytes[17 + k] = self.nonce[k];
            k = k + 1;
        }
        proof {
            assert(bytes@ =~= header_bytes(self.version, self.salt@, self.nonce@));
        }
        bytes
    }

    /// Parse a header from the first `SIZE` bytes. Fails with `InvalidInput`
    /// when fewer bytes are given or the version is not `VAULT_VERSION`.
    pub fn from_bytes(bytes: &[u8]) -> (r: Result<Self, CryptoError>)
        ensures
            bytes@.len() < 29 ==> r matches Err(CryptoError::InvalidInput(_)),
            bytes@.len() >= 29 && bytes@[0] != VAULT_VERSION ==> r matches Err(CryptoError::InvalidInput(_)),
            bytes@.len() >= 29 && bytes@[0] == VAULT_VERSION ==> (r matches Ok(h) && h.version == VAULT_VERSION
                && h.salt@ == bytes@.subrange(1, 17) && h.nonce@ == bytes@.subrange(17, 29)),
    {
        if bytes.len() < 29 {
            return Err(CryptoError::InvalidInput(header_too_short_text(bytes.len(), Self::SIZE)));
        }
        let version = bytes[0];
        if version != VAULT_VERSION {
            return Err(CryptoError::InvalidInput(unsupported_version_text(bytes[0], VAULT_VERSION)));
        }
        let mut salt = [0u8; 16];
        let mut i: usize = 0;
        while i < 16
            invariant
                i <= 16,
                bytes@.len() >= 29,
                salt@.len() == 16,
                forall|j: int| 0 <= j < i ==> salt@[j] == bytes@[1 + j],
            decreases 16 - i,
        {
            salt[i] = bytes[1 + i];
            i = i + 1;
        }
        let mut nonce = [0u8; 12];
        let mut k: usize = 0;
        while k < 12
            invariant
                k <= 12,
                bytes@.len() >= 29,
                nonce@.len() == 12,
                forall|j: int| 0 <= j < k ==> nonce@[j] == bytes@[17 + j],
            decreases 12 - k,
        {
            nonce[k] = bytes[17 + k];
            k = k + 1;
        }
        proof {
            assert(salt@ =~= bytes@.subrange(1, 17));
            assert(nonce@ =~= bytes@.subrange(17, 29));
        }
        Ok(Self { version, salt, nonce })
    }
}

/// Parsing the bytes of a header gives back its fields.
pub proof fn lemma_header_bytes_parse(version: u8, salt: Seq<u8>, nonce: Seq<u8>)
    requires
        salt.len() == 16,
        nonce.len() == 12,
    ensures
        header_bytes(version, salt, nonce).len() == 29,
        header_bytes(version, salt, nonce)[0] == version,
        header_bytes(version, salt, nonce).subrange(1, 17) == salt,
        header_bytes(version, salt, nonce).subrange(17, 29) == nonce,
{
    assert(header_bytes(version, salt, nonce).subrange(1, 17) =~= salt);
    assert(header_bytes(version, salt, nonce).subrange(17, 29) =~= nonce);
}

/// What opening a vault blob with a passphrase yields: the plaintext, or
/// `None` when the header, the passphrase or the authentication is refused.
pub open spec fn vault_plaintext(passphrase: Seq<u8>, data: Seq<u8>) -> Option<Seq<u8>> {
    if data.len() < 29 || data[0] != VAULT_VERSION || passphrase.len() > ARGON2_MAX_PASSPHRASE
        || data.len() < 29 + 16 {
        None
    } else {
        aes256gcm_open(vault_key(passphrase, data.subrange(1, 17)), data.subrange(17, 29), data.subrange(29, data.len() as int))
    }
}

/// The blob a vault seals to for a given salt and nonce.
pub open spec fn sealed_vault(passphrase: Seq<u8>, salt: Seq<u8>, nonce: Seq<u8>, plaintext: Seq<u8>) -> Seq<u8> {
    header_bytes(VAULT_VERSION, salt, nonce) + aes256gcm_seal(vault_key(passphrase, salt), nonce, plaintext)
}

/// Seal `plaintext` under `passphrase` with the given salt and nonce.
/// The blob opens with the same passphrase to the plaintext.
pub fn seal_vault_with(passphrase: &[u8], plaintext: &[u8], salt: &[u8; 16], nonce: &[u8; 12]) -> (r: Result<Vec<u8>, CryptoError>)
    ensures
        r is Ok <==> passphrase@.len() <= ARGON2_MAX_PASSPHRASE && plaintext@.len() <= AES_GCM_MAX_PLAINTEXT,
        passphrase@.len() > ARGON2_MAX_PASSPHRASE ==> r matches Err(CryptoError::KeyDerivationFailed(_)),
        passphrase@.len() <= ARGON2_MAX_PASSPHRASE && plaintext@.len() > AES_GCM_MAX_PLAINTEXT
            ==> r matches Err(CryptoError::EncryptionFailed(_)),
        r matches Ok(blob) ==> blob@ == sealed_vault(passphrase@, salt@, nonce@, plaintext@),
        r matches Ok(blob) ==> blob@.len() == 29 + plaintext@.len() + 16,
        r matches Ok(blob) ==> vault_plaintext(passphrase@, blob@) == Some(plaintext@),
{
    let key = derive_key(passphrase, salt)?;
    let ciphertext = encrypt(&key, nonce, plaintext)?;
    let header = VaultHeader { version: VAULT_VERSION, salt: *salt, nonce: *nonce };
    let hb = header.to_bytes();
    let mut vault: Vec<u8> = Vec::new();
    vault.extend_from_slice(&hb);
    vault.extend_from_slice(ciphertext.as_slice());
    proof {
        let hs = header_bytes(VAULT_VERSION, salt@, nonce@);
        assert(vault@ =~= hs + ciphertext@);
        lemma_header_bytes_parse(VAULT_VERSION, salt@, nonce@);
        assert(vault@.subrange(1, 17) =~= salt@);
        assert(vault@.subrange(17, 29) =~= nonce@);
        assert(vault@.subrange(29, vault@.len() as int) =~= ciphertext@);
    }
    Ok(vault)
}

/// Seal `plaintext` under `passphrase` with a fresh random salt and nonce:
/// `[version][salt][nonce][ciphertext + tag]`. The blob opens with the same
/// passphrase to the plaintext.
pub fn seal_vault(passphrase: &[u8], plaintext: &[u8]) -> (r: Result<Vec<u8>, CryptoError>)
    ensures
        r is Ok <==> passphrase@.len() <= ARGON2_MAX_PASSPHRASE && plaintext@.len() <= AES_GCM_MAX_PLAINTEXT,
        passphrase@.len() > ARGON2_MAX_PASSPHRASE ==> r matches Err(CryptoError::KeyDerivationFailed(_)),
        passphrase@.len() <= ARGON2_MAX_PASSPHRASE && plaintext@.len() > AES_GCM_MAX_PLAINTEXT
            ==> r matches Err(CryptoError::EncryptionFailed(_)),
        r matches Ok(blob) ==> blob@.len() == 29 + plaintext@.len() + 16 && blob@[0] == VAULT_VERSION,
        r matches Ok(blob) ==> vault_plaintext(passphrase@, blob@) == Some(plaintext@),
{
    let salt = generate_salt();
    let nonce = generate_nonce();
    seal_vault_with(passphrase, plaintext, &salt, &nonce)
}

/// Open a sealed vault. Fails with `InvalidInput` on a short or foreign
/// header, `KeyDerivationFailed` when Argon2 refuses the passphrase, and
/// `DecryptionFailed` when the ciphertext does not authenticate.
pub fn open_vault(passphrase: &[u8], vault_data: &[u8]) -> (r: Result<Vec<u8>, CryptoError>)
    ensures
        (r matches Ok(v) && vault_plaintext(passphrase@, vault_data@) == Some(v@))
            || (r is Err && vault_plaintext(passphrase@, vault_data@) is None),
        vault_data@.len() < 29 || vault_data@[0] != VAULT_VERSION ==> r matches Err(CryptoError::InvalidInput(_)),
        vault_data@.len() >= 29 && vault_data@[0] == VAULT_VERSION && passphrase@.len() > ARGON2_MAX_PASSPHRASE
            ==> r matches Err(CryptoError::KeyDerivationFailed(_)),
        vault_data@.len() >= 29 && vault_data@[0] == VAULT_VERSION && passphrase@.len() <= ARGON2_MAX_PASSPHRASE
            && vault_plaintext(passphrase@, vault_data@) is None ==> r matches Err(CryptoError::DecryptionFailed(_)),
{
    let header = VaultHeader::from_bytes(vault_data)?;
    let (_, ciphertext) = vault_data.split_at(29);
    let key = derive_key(passphrase, &header.salt)?;
    decrypt(&key, &header.nonce, ciphertext)
}

} // verus!
