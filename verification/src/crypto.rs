//! Password encryption of a rendered article.
//!
//! The payload is `salt ‖ IV ‖ ciphertext`: a random 16-byte salt, then the
//! IV and the AES-256-CBC ciphertext under a key and IV derived from the
//! password and the salt with PBKDF2-HMAC-SHA-256.

use vstd::prelude::*;
use vstd::string::{StrSliceExecFns, StringSliceAdditionalSpecFns};
use vstd::utf8::encode_utf8;
use aes::cipher::{BlockEncryptMut, KeyIvInit};
use base64::Engine;
use password_hash::rand_core::RngCore;

verus! {

/// The number of PBKDF2 rounds.
pub const ROUNDS: u32 = 100000;

/// The length of the salt, and of the IV, in bytes.
pub const SALT_LEN: usize = 16;

/// The length of the AES-256 key in bytes.
pub const KEY_LEN: usize = 32;

/// The length of a cipher block in bytes.
pub const BLOCK_LEN: usize = 16;

/// Why a text could not be encrypted.
#[derive(Debug, Clone, Copy, PartialEq, Eq, Structural)]
pub enum CryptoError {
    /// The system's random source failed.
    Random,
    /// The padded text would not fit in memory.
    TooLong,
}

/// The first `len` bytes of the PBKDF2-HMAC-SHA-256 stream of a password
/// and a salt after `rounds` rounds.
pub uninterp spec fn spec_pbkdf2_hmac_sha256(
    password: Seq<u8>,
    salt: Seq<u8>,
    rounds: u32,
    len: nat,
) -> Seq<u8>;

/// The AES-256-CBC ciphertext of a message under a key and an IV, the
/// message padded by PKCS#7.
pub uninterp spec fn spec_aes256_cbc_pkcs7(key: Seq<u8>, iv: Seq<u8>, message: Seq<u8>) -> Seq<
    u8,
>;

/// The text that stands for bytes in base64, with the standard alphabet and
/// padding.
pub uninterp spec fn spec_base64(bytes: Seq<u8>) -> Seq<char>;

/// The length of the ciphertext of a message of `len` bytes: the padding
/// adds at least one byte and fills the last block.
pub open spec fn spec_ciphertext_len(len: nat) -> nat {
    ((len + BLOCK_LEN) / BLOCK_LEN as int * BLOCK_LEN) as nat
}

/// Whether a buffer of `buffer_len` bytes has room for a message of
/// `msg_len` bytes and its padding: for the message's whole blocks and one
/// more block.
pub open spec fn spec_has_room(buffer_len: nat, msg_len: nat) -> bool {
    msg_len <= buffer_len && msg_len / 16 * 16 + 16 <= buffer_len
}

/// The key and the IV, 48 bytes in all, derived from a password and a salt.
pub open spec fn spec_key_iv(password: Seq<char>, salt: Seq<u8>) -> Seq<u8> {
    spec_pbkdf2_hmac_sha256(encode_utf8(password), salt, ROUNDS, (KEY_LEN + BLOCK_LEN) as nat)
}

/// The AES-256 key derived from a password and a salt: the first 32 bytes
/// of the derived bytes.
pub open spec fn spec_key(password: Seq<char>, salt: Seq<u8>) -> Seq<u8> {
    spec_key_iv(password, salt).subrange(0, KEY_LEN as int)
}

/// The IV derived from a password and a salt: the 16 bytes after the key.
pub open spec fn spec_iv(password: Seq<char>, salt: Seq<u8>) -> Seq<u8> {
    spec_key_iv(password, salt).subrange(KEY_LEN as int, KEY_LEN + BLOCK_LEN)
}

/// The ciphertext of a text under the key and the IV derived from a
/// password and a salt.
pub open spec fn spec_ciphertext(plaintext: Seq<char>, password: Seq<char>, salt: Seq<u8>) -> Seq<
    u8,
> {
    spec_aes256_cbc_pkcs7(
        spec_key(password, salt),
        spec_iv(password, salt),
        encode_utf8(plaintext),
    )
}

/// The payload for a text, a password and a salt: the salt, the IV, and the
/// ciphertext of the text's bytes.
pub open spec fn spec_payload(plaintext: Seq<char>, password: Seq<char>, salt: Seq<u8>) -> Seq<
    u8,
> {
    salt + spec_iv(password, salt) + spec_ciphertext(plaintext, password, salt)
}

/// Whether `bytes` are laid out as the payload for a text, a password and a
/// salt of sixteen bytes: 48 bytes are derived; the salt stands in the
/// first sixteen bytes, the IV in the next sixteen, and the ciphertext, in
/// whole blocks, in the rest.
pub open spec fn spec_framed(
    bytes: Seq<u8>,
    plaintext: Seq<char>,
    password: Seq<char>,
    salt: Seq<u8>,
) -> bool {
    &&& spec_key_iv(password, salt).len() == KEY_LEN + BLOCK_LEN
    &&& bytes.len() == 2 * SALT_LEN + spec_ciphertext_len(encode_utf8(plaintext).len())
    &&& bytes.subrange(0, SALT_LEN as int) == salt
    &&& bytes.subrange(SALT_LEN as int, 2 * SALT_LEN) == spec_iv(password, salt)
    &&& bytes.subrange(2 * SALT_LEN as int, bytes.len() as int) == spec_ciphertext(
        plaintext,
        password,
        salt,
    )
    &&& spec_ciphertext(plaintext, password, salt).len() == spec_ciphertext_len(
        encode_utf8(plaintext).len(),
    )
}

/// Fresh random bytes.
///
/// Trusted: calls `OsRng::try_fill_bytes` on a zeroed buffer of `len` bytes.
/// Only the length of what comes back is claimed.
#[verifier::external_body]
fn random_bytes(len: usize) -> (bytes: Option<Vec<u8>>)
    ensures
        bytes matches Some(b) ==> b@.len() == len,
{
    let mut buffer = vec![0u8; len];
    password_hash::rand_core::OsRng.try_fill_bytes(&mut buffer).ok()?;
    Some(buffer)
}

/// Derives `len` bytes from a password and a salt.
///
/// Trusted: calls `pbkdf2::pbkdf2_hmac` with SHA-256 on a buffer of `len`
/// bytes, which it fills. The bytes are a function of the arguments alone
/// and are named. Each block of 32 bytes is numbered in 32 bits, hence the
/// bound on `len`.
#[verifier::external_body]
fn pbkdf2_sha256(password: &[u8], salt: &[u8], rounds: u32, len: usize) -> (derived: Vec<u8>)
    requires
        len <= u32::MAX,
    ensures
        derived@.len() == len,
        derived@ == spec_pbkdf2_hmac_sha256(password@, salt@, rounds, len as nat),
{
    let mut derived = vec![0u8; len];
    pbkdf2::pbkdf2_hmac::<sha2::Sha256>(password, salt, rounds, &mut derived);
    derived
}

/// Pads and encrypts, in a buffer, the message that is its first `msg_len`
/// bytes.
///
/// Trusted: calls `cbc::Encryptor::<aes::Aes256>::new_from_slices`, which
/// takes a key of 32 bytes and an IV of 16, then `encrypt_padded_mut` with
/// PKCS#7, which needs room for the message's whole blocks and one more
/// block and hands back exactly that many bytes. The ciphertext is a
/// function of key, IV and message alone and is named.
#[verifier::external_body]
fn cbc_encrypt_padded(
    key: &[u8],
    iv: &[u8],
    buffer: Vec<u8>,
    msg_len: usize,
) -> (out: Option<Vec<u8>>)
    ensures
        out is Some <==> (key@.len() == 32 && iv@.len() == 16 && spec_has_room(
            buffer@.len(),
            msg_len as nat,
        )),
        out matches Some(c) ==> c@.len() == msg_len / 16 * 16 + 16,
        out matches Some(c) ==> c@ == spec_aes256_cbc_pkcs7(
            key@,
            iv@,
            buffer@.subrange(0, msg_len as int),
        ),
{
    let mut buffer = buffer;
    let cipher = cbc::Encryptor::<aes::Aes256>::new_from_slices(key, iv).ok()?;
    let ciphertext = cipher.encrypt_padded_mut::<cbc::cipher::block_padding::Pkcs7>(
        &mut buffer,
        msg_len,
    );
    ciphertext.ok().map(|bytes| bytes.to_vec())
}

/// Writes bytes in base64.
///
/// Trusted: calls `encode` of `base64::prelude::BASE64_STANDARD`, which
/// gives up where four characters for every three bytes, rounded up, are
/// more than a length can count. The text is a function of the bytes alone
/// and is named.
#[verifier::external_body]
fn base64_encode(bytes: &[u8]) -> (text: String)
    requires
        bytes@.len() / 3 * 4 + 4 <= usize::MAX,
    ensures
        text@ == spec_base64(bytes@),
{
    base64::prelude::BASE64_STANDARD.encode(bytes)
}

/// Encrypts a text under a password with a given salt.
///
/// The result is the salt, the IV and the ciphertext, in that order. It
/// fails only on a text too long to be padded in memory.
pub fn encrypt_with_salt(plaintext: &str, password: &str, salt: &[u8]) -> (payload: Result<
    Vec<u8>,
    CryptoError,
>)
    requires
        salt@.len() == SALT_LEN,
    ensures
        payload is Ok <==> plaintext.spec_bytes().len() + BLOCK_LEN <= usize::MAX,
        payload matches Ok(bytes) ==> bytes@ == spec_payload(plaintext@, password@, salt@)
            && bytes@.len() == 2 * SALT_LEN + spec_ciphertext_len(plaintext.spec_bytes().len())
            && bytes@.subrange(0, SALT_LEN as int) == salt@,
        payload matches Ok(bytes) ==> spec_framed(bytes@, plaintext@, password@, salt@),
        payload matches Err(error) ==> error == CryptoError::TooLong,
{
    let message = plaintext.as_bytes();
    let msg_len = message.len();
    if msg_len > usize::MAX - BLOCK_LEN {
        return Err(CryptoError::TooLong);
    }
    let key_iv = pbkdf2_sha256(password.as_bytes(), salt, ROUNDS, KEY_LEN + BLOCK_LEN);
    let key = vstd::slice::slice_subrange(key_iv.as_slice(), 0, KEY_LEN);
    let iv = vstd::slice::slice_subrange(key_iv.as_slice(), KEY_LEN, KEY_LEN + BLOCK_LEN);

    let mut buffer = plaintext.as_bytes_vec();
    let pad_len = BLOCK_LEN - msg_len % BLOCK_LEN;
    buffer.resize(msg_len + pad_len, 0u8);
    assert(buffer@.subrange(0, msg_len as int) == message@);
    assert(msg_len / 16 * 16 + 16 == msg_len + pad_len);
    assert(msg_len + pad_len == spec_ciphertext_len(msg_len as nat));

    match cbc_encrypt_padded(key, iv, buffer, msg_len) {
        Some(ciphertext) => {
            let mut bytes: Vec<u8> = Vec::new();
            bytes.extend_from_slice(salt);
            bytes.extend_from_slice(iv);
            bytes.extend_from_slice(ciphertext.as_slice());
            assert(bytes@ =~= spec_payload(plaintext@, password@, salt@));
            assert(bytes@.subrange(0, SALT_LEN as int) =~= salt@);
            assert(bytes@.subrange(SALT_LEN as int, 2 * SALT_LEN) =~= spec_iv(password@, salt@));
            assert(bytes@.subrange(2 * SALT_LEN as int, bytes@.len() as int) =~= spec_ciphertext(
                plaintext@,
                password@,
                salt@,
            ));
            Ok(bytes)
        },
        None => Err(CryptoError::TooLong),
    }
}

/// Encrypts a text under a password with a fresh random salt.
///
/// A text too long to be padded in memory is refused as `TooLong` before
/// the random source is asked. For any other text the result is the payload
/// for the text, the password and the salt that the payload starts with,
/// or `Random` where the random source failed. Two calls on the same text
/// and password differ in their salt, and so in everything after it.
pub fn encrypt_data(plaintext: &str, password: &str) -> (payload: Result<Vec<u8>, CryptoError>)
    ensures
        plaintext.spec_bytes().len() + BLOCK_LEN > usize::MAX ==> payload == Err::<
            Vec<u8>,
            CryptoError,
        >(CryptoError::TooLong),
        payload matches Err(error) ==> (error == CryptoError::TooLong
            <==> plaintext.spec_bytes().len() + BLOCK_LEN > usize::MAX),
        payload matches Ok(bytes) ==> bytes@.len() == 2 * SALT_LEN + spec_ciphertext_len(
            plaintext.spec_bytes().len(),
        ) && bytes@ == spec_payload(plaintext@, password@, bytes@.subrange(0, SALT_LEN as int)),
        payload matches Ok(bytes) ==> spec_framed(
            bytes@,
            plaintext@,
            password@,
            bytes@.subrange(0, SALT_LEN as int),
        ),
{
    if plaintext.as_bytes().len() > usize::MAX - BLOCK_LEN {
        return Err(CryptoError::TooLong);
    }
    match random_bytes(SALT_LEN) {
        Some(salt) => encrypt_with_salt(plaintext, password, salt.as_slice()),
        None => Err(CryptoError::Random),
    }
}

/// Writes a payload in base64, as it is embedded in a page. It fails only
/// on a payload too long for its text to fit in memory.
pub fn encode_payload(payload: &[u8]) -> (text: Result<String, CryptoError>)
    ensures
        text is Ok <==> payload@.len() / 3 * 4 + 4 <= usize::MAX,
        text matches Ok(encoded) ==> encoded@ == spec_base64(payload@),
        text matches Err(error) ==> error == CryptoError::TooLong,
{
    if payload.len() / 3 > (usize::MAX - 4) / 4 {
        return Err(CryptoError::TooLong);
    }
    Ok(base64_encode(payload))
}

/// Whether a text of `len` bytes can be encrypted and written in base64 in
/// memory: the padded text has to fit, and so has the text of the payload,
/// four characters for every three bytes.
pub open spec fn spec_payload_fits(len: nat) -> bool {
    &&& len + BLOCK_LEN <= usize::MAX
    &&& (2 * SALT_LEN + spec_ciphertext_len(len)) / 3 * 4 + 4 <= usize::MAX
}

/// Encrypts a text under a password with a fresh random salt and writes
/// the payload in base64.
///
/// A text that does not fit is refused as `TooLong` before the random
/// source is asked. For any other text the result is the base64 text of the
/// payload for some salt of sixteen bytes, or `Random` where the random
/// source failed.
pub fn secret_payload(plaintext: &str, password: &str) -> (text: Result<String, CryptoError>)
    ensures
        !spec_payload_fits(plaintext.spec_bytes().len()) ==> text == Err::<String, CryptoError>(
            CryptoError::TooLong,
        ),
        text matches Err(error) ==> (error == CryptoError::TooLong <==> !spec_payload_fits(
            plaintext.spec_bytes().len(),
        )),
        text matches Ok(encoded) ==> exists|salt: Seq<u8>|
            salt.len() == SALT_LEN && encoded@ == spec_base64(
                #[trigger] spec_payload(plaintext@, password@, salt),
            ),
{
    let len = plaintext.as_bytes().len();
    if len > usize::MAX - BLOCK_LEN {
        return Err(CryptoError::TooLong);
    }
    let ciphertext_len = len / BLOCK_LEN * BLOCK_LEN + BLOCK_LEN;
    assert(ciphertext_len == spec_ciphertext_len(len as nat));
    if ciphertext_len > usize::MAX - 2 * SALT_LEN {
        return Err(CryptoError::TooLong);
    }
    if (2 * SALT_LEN + ciphertext_len) / 3 > (usize::MAX - 4) / 4 {
        return Err(CryptoError::TooLong);
    }
    match encrypt_data(plaintext, password) {
        Ok(payload) => {
            assert(payload@.subrange(0, SALT_LEN as int).len() == SALT_LEN);
            encode_payload(payload.as_slice())
        },
        Err(error) => Err(error),
    }
}

/// The length of a ciphertext is the length of the message and one more
/// byte, rounded up to whole blocks; it is a multiple of the block length
/// and exceeds the message by one to sixteen bytes.
pub proof fn lemma_ciphertext_len(len: nat)
    ensures
        spec_ciphertext_len(len) == (len + 1 + 15) / 16 * 16,
        spec_ciphertext_len(len) % 16 == 0,
        len < spec_ciphertext_len(len) <= len + 16,
{
}

} // verus!
