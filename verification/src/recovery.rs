//! Recovery files: an encrypted copy of a secret key, protected by a
//! passphrase.  The encryption itself is the common crate's work; this
//! module validates the inputs, moves between hex, base64 and raw
//! bytes, and answers in the boundary shape.

use vstd::prelude::*;
use crate::enc::{base64_decode, base64_encode, spec_hex_bytes, spec_hex_valid, base64_decode_of,
    spec_hex_of, hex_encode};
use crate::keypair::get_keypair_from_secret_key;
use crate::response::create_response_vector;

verus! {

/// The secret key a recovery file yields for a passphrase, if the file
/// is well formed and the passphrase is the one it was made with.
pub uninterp spec fn recovered_secret_of(file: Seq<u8>, passphrase: Seq<char>) -> Option<Seq<u8>>;

/// Relies on pubky-common's `recovery_file::create_recovery_file` and
/// `crypto::Keypair::from_secret`.  The file embeds a random nonce, so
/// nothing relates two calls; no more is claimed of the bytes.
#[verifier::external_body]
fn create_recovery_bytes(secret_key: &Vec<u8>, passphrase: &str) -> (r: Vec<u8>)
    requires
        secret_key@.len() == 32,
    ensures
        r@.len() > 0,
{
    let bytes: [u8; 32] = secret_key.as_slice().try_into().unwrap();
    let keypair = pubky_common::crypto::Keypair::from_secret(&bytes);
    pubky_common::recovery_file::create_recovery_file(&keypair, passphrase)
}

/// Relies on pubky-common's `recovery_file::decrypt_recovery_file` and
/// `crypto::Keypair::secret`: decryption is a pure function of file
/// and passphrase, and a success always yields 32 secret bytes.
#[verifier::external_body]
fn decrypt_recovery_bytes(recovery_file: &Vec<u8>, passphrase: &str) -> (r: Option<Vec<u8>>)
    ensures
        r is Some <==> recovered_secret_of(recovery_file@, passphrase@) is Some,
        r is Some ==> r.unwrap()@ == recovered_secret_of(recovery_file@, passphrase@).unwrap(),
        r is Some ==> r.unwrap()@.len() == 32,
{
    match pubky_common::recovery_file::decrypt_recovery_file(recovery_file, passphrase) {
        Ok(keypair) => Some(keypair.secret().to_vec()),
        Err(_) => None,
    }
}

/// Encrypts a hex secret key into a base64 recovery file and answers
/// in the boundary shape.  Both inputs must be non-empty and the
/// secret key must be 64 hex digits.
pub fn create_recovery_file(secret_key: String, passphrase: String) -> (r: Vec<String>)
    ensures
        r@.len() == 2,
        r@[0]@ == if secret_key@.len() > 0 && passphrase@.len() > 0 && spec_hex_valid(secret_key@)
            && spec_hex_bytes(secret_key@).len() == 32 {
            "false"@
        } else {
            "true"@
        },
        (secret_key@.len() == 0 || passphrase@.len() == 0) ==> r@[1]@
            == "Secret key and passphrase must not be empty"@,
{
    if secret_key.as_str().unicode_len() == 0 || passphrase.as_str().unicode_len() == 0 {
        return create_response_vector(
            true,
            String::from_str("Secret key and passphrase must not be empty"),
        );
    }
    let keypair = match get_keypair_from_secret_key(secret_key.as_str()) {
        Ok(k) => k,
        Err(error) => {
            return create_response_vector(true, error);
        },
    };
    let recovery_file_bytes = create_recovery_bytes(&keypair.secret_key, passphrase.as_str());
    let recovery_file = base64_encode(&recovery_file_bytes);
    create_response_vector(false, recovery_file)
}

/// Decrypts a base64 recovery file back to the hex secret key and
/// answers in the boundary shape.  Both inputs must be non-empty; the
/// file must be valid base64 and must decrypt under the passphrase.
pub fn decrypt_recovery_file(recovery_file: String, passphrase: String) -> (r: Vec<String>)
    ensures
        r@.len() == 2,
        r@[0]@ == if recovery_file@.len() > 0 && passphrase@.len() > 0 && base64_decode_of(
            recovery_file@,
        ) is Some && recovered_secret_of(base64_decode_of(recovery_file@).unwrap(), passphrase@)
            is Some {
            "false"@
        } else {
            "true"@
        },
        (recovery_file@.len() == 0 || passphrase@.len() == 0) ==> r@[1]@
            == "Recovery file and passphrase must not be empty"@,
        (recovery_file@.len() > 0 && passphrase@.len() > 0 && base64_decode_of(recovery_file@)
            is Some && recovered_secret_of(base64_decode_of(recovery_file@).unwrap(), passphrase@)
            is Some) ==> r@[1]@ == spec_hex_of(
            recovered_secret_of(base64_decode_of(recovery_file@).unwrap(), passphrase@).unwrap(),
        ),
{
    if recovery_file.as_str().unicode_len() == 0 || passphrase.as_str().unicode_len() == 0 {
        return create_response_vector(
            true,
            String::from_str("Recovery file and passphrase must not be empty"),
        );
    }
    let recovery_file_bytes = match base64_decode(recovery_file.as_str()) {
        Ok(bytes) => bytes,
        Err(error) => {
            let mut m = String::from_str("Failed to decode recovery file: ");
            m.append(error.as_str());
            return create_response_vector(true, m);
        },
    };
    let secret_bytes = match decrypt_recovery_bytes(&recovery_file_bytes, passphrase.as_str()) {
        Some(bytes) => bytes,
        None => {
            return create_response_vector(
                true,
                String::from_str("Failed to decrypt recovery file"),
            );
        },
    };
    let secret_key = hex_encode(&secret_bytes);
    create_response_vector(false, secret_key)
}

} // verus!
