//! Keypairs and mnemonic phrases.
//!
//! A keypair is held as its 32 secret bytes together with the
//! z-base32 form of the public key derived from them; the derivation
//! itself is the signing crate's work.  Mnemonic phrases validate and
//! derive through the wordlist crate; the first 32 bytes of the
//! mnemonic seed become the secret key.

use vstd::prelude::*;
use crate::enc::{hex_decode, hex_encode, lemma_hex_round_trip, spec_hex_bytes, spec_hex_of,
    spec_hex_valid};
use crate::json::{JsonModel, JsonValue, spec_json, spec_obj_view};
use crate::response::create_response_vector;

verus! {

/// The z-base32 public key string derived from 32 secret bytes.
pub uninterp spec fn z32_public_key_of(sk: Seq<u8>) -> Seq<char>;

/// Relies on pkarr's `Keypair::from_secret_key` and
/// `PublicKey::to_z32`: the public key is a pure function of the
/// secret bytes.
#[verifier::external_body]
fn derive_public_key(sk: &Vec<u8>) -> (r: String)
    requires
        sk@.len() == 32,
    ensures
        r@ == z32_public_key_of(sk@),
{
    let bytes: [u8; 32] = sk.as_slice().try_into().unwrap();
    pkarr::Keypair::from_secret_key(&bytes).public_key().to_z32()
}

/// Relies on pkarr's `Keypair::random` and `Keypair::secret_key`: the
/// secret is always 32 bytes; nothing else can be said of a fresh key.
#[verifier::external_body]
fn random_secret_key() -> (r: Vec<u8>)
    ensures
        r@.len() == 32,
{
    pkarr::Keypair::random().secret_key().to_vec()
}

/// An Ed25519 keypair: the secret bytes and the derived public key in
/// z-base32 form.
#[derive(Debug)]
pub struct Keypair {
    pub secret_key: Vec<u8>,
    pub public_key: String,
}

impl Keypair {
    /// A well-formed keypair: 32 secret bytes, public key derived from
    /// them.
    pub open spec fn wf(&self) -> bool {
        self.secret_key@.len() == 32 && self.public_key@ == z32_public_key_of(self.secret_key@)
    }

    /// Builds the keypair of the given secret bytes.
    pub fn from_secret_bytes(secret_key: Vec<u8>) -> (r: Keypair)
        requires
            secret_key@.len() == 32,
        ensures
            r.wf(),
            r.secret_key@ == secret_key@,
    {
        let public_key = derive_public_key(&secret_key);
        Keypair { secret_key, public_key }
    }

    /// The `pk:` URI of the public key.
    pub fn to_uri_string(&self) -> (r: String)
        ensures
            r@ == "pk:"@ + self.public_key@,
    {
        let mut uri = String::from_str("pk:");
        uri.append(self.public_key.as_str());
        uri
    }
}

/// Decodes a hex secret key and derives its keypair.  The input must
/// be 64 hex digits; a string that is not hex, or decodes to any other
/// length, is rejected with the matching message.
pub fn get_keypair_from_secret_key(secret_key: &str) -> (r: Result<Keypair, String>)
    ensures
        r is Ok <==> (spec_hex_valid(secret_key@) && spec_hex_bytes(secret_key@).len() == 32),
        r is Ok ==> r.unwrap().wf() && r.unwrap().secret_key@ == spec_hex_bytes(secret_key@),
        !spec_hex_valid(secret_key@) ==> (r matches Err(m) && m@ == "Failed to decode secret key"@),
        spec_hex_valid(secret_key@) && spec_hex_bytes(secret_key@).len() != 32 ==> (r matches Err(m)
            && m@ == "Failed to convert secret key to 32-byte array"@),
{
    let bytes = match hex_decode(secret_key) {
        Ok(b) => b,
        Err(_) => {
            return Err(String::from_str("Failed to decode secret key"));
        },
    };
    if bytes.len() != 32 {
        return Err(String::from_str("Failed to convert secret key to 32-byte array"));
    }
    Ok(Keypair::from_secret_bytes(bytes))
}

/// The hex form of a keypair's secret bytes.
pub fn get_secret_key_from_keypair(keypair: &Keypair) -> (r: String)
    ensures
        r@ == spec_hex_of(keypair.secret_key@),
{
    hex_encode(&keypair.secret_key)
}

/// A fresh random keypair.
pub fn generate_keypair() -> (r: Keypair)
    ensures
        r.wf(),
{
    let secret_key = random_secret_key();
    Keypair::from_secret_bytes(secret_key)
}

/// Whether the wordlist crate accepts `s` as an English mnemonic.
pub uninterp spec fn is_valid_mnemonic(s: Seq<char>) -> bool;

/// The 64-byte seed an English mnemonic derives with an empty
/// passphrase.
pub uninterp spec fn seed_of_mnemonic(s: Seq<char>) -> Seq<u8>;

/// Relies on bip39's `Mnemonic::parse_in` (English) and
/// `Mnemonic::to_seed` with an empty passphrase: parsing accepts
/// exactly the valid phrases, and the seed is a pure 64-byte function
/// of the phrase.
#[verifier::external_body]
fn mnemonic_seed(phrase: &str) -> (r: Option<Vec<u8>>)
    ensures
        r is Some <==> is_valid_mnemonic(phrase@),
        r is Some ==> r.unwrap()@ == seed_of_mnemonic(phrase@) && r.unwrap()@.len() == 64,
{
    match bip39::Mnemonic::parse_in(bip39::Language::English, phrase) {
        Ok(m) => Some(m.to_seed("").to_vec()),
        Err(_) => None,
    }
}

/// Relies on bip39's `Mnemonic::generate_in` and its `Display`: a
/// fresh 12-word English phrase prints as words joined by single
/// spaces, which `parse_in` accepts again.
#[verifier::external_body]
fn generate_mnemonic_phrase_raw() -> (r: Result<String, String>)
    ensures
        r is Ok ==> is_valid_mnemonic(r.unwrap()@),
{
    match bip39::Mnemonic::generate_in(bip39::Language::English, 12) {
        Ok(m) => Ok(m.to_string()),
        Err(e) => Err(format!("{}", e)),
    }
}

/// A fresh 12-word mnemonic phrase.
pub fn generate_mnemonic() -> (r: Result<String, String>)
    ensures
        r is Ok ==> is_valid_mnemonic(r.unwrap()@),
{
    match generate_mnemonic_phrase_raw() {
        Ok(phrase) => Ok(phrase),
        Err(e) => {
            let mut m = String::from_str("Failed to generate mnemonic: ");
            m.append(e.as_str());
            Err(m)
        },
    }
}

/// The hex secret key a mnemonic derives: the first 32 seed bytes.
pub fn mnemonic_to_secret_key(mnemonic_phrase: &str) -> (r: Result<String, String>)
    ensures
        r is Ok <==> is_valid_mnemonic(mnemonic_phrase@),
        r is Ok ==> r.unwrap()@ == spec_hex_of(seed_of_mnemonic(mnemonic_phrase@).take(32)),
        r is Ok ==> seed_of_mnemonic(mnemonic_phrase@).len() == 64,
        r is Err ==> r.get_Err_0()@ == "Invalid mnemonic phrase"@,
{
    let seed = match mnemonic_seed(mnemonic_phrase) {
        Some(s) => s,
        None => {
            return Err(String::from_str("Invalid mnemonic phrase"));
        },
    };
    let mut first: Vec<u8> = Vec::new();
    let mut i: usize = 0;
    while i < 32
        invariant
            i <= 32,
            seed@.len() == 64,
            first@ == seed@.take(i as int),
        decreases 32 - i,
    {
        first.push(seed[i]);
        i = i + 1;
        proof {
            assert(first@ =~= seed@.take(i as int));
        }
    }
    Ok(hex_encode(&first))
}

/// The keypair a mnemonic derives.
pub fn mnemonic_to_keypair(mnemonic_phrase: &str) -> (r: Result<Keypair, String>)
    ensures
        r is Ok <==> is_valid_mnemonic(mnemonic_phrase@),
        r is Ok ==> r.unwrap().wf() && r.unwrap().secret_key@ == seed_of_mnemonic(
            mnemonic_phrase@,
        ).take(32),
        r is Err ==> r.get_Err_0()@ == "Invalid mnemonic phrase"@,
{
    let secret_key = match mnemonic_to_secret_key(mnemonic_phrase) {
        Ok(s) => s,
        Err(e) => {
            return Err(e);
        },
    };
    proof {
        lemma_hex_round_trip(seed_of_mnemonic(mnemonic_phrase@).take(32));
    }
    get_keypair_from_secret_key(secret_key.as_str())
}

/// A fresh mnemonic together with the keypair it derives.
pub fn generate_mnemonic_and_keypair() -> (r: Result<(String, Keypair), String>)
    ensures
        r is Ok ==> is_valid_mnemonic(r.unwrap().0@) && r.unwrap().1.wf(),
{
    let mnemonic = match generate_mnemonic() {
        Ok(m) => m,
        Err(e) => {
            return Err(e);
        },
    };
    let keypair = match mnemonic_to_keypair(mnemonic.as_str()) {
        Ok(k) => k,
        Err(e) => {
            return Err(e);
        },
    };
    Ok((mnemonic, keypair))
}

/// Whether `mnemonic_phrase` is a valid English mnemonic.
pub fn validate_mnemonic(mnemonic_phrase: &str) -> (r: bool)
    ensures
        r == is_valid_mnemonic(mnemonic_phrase@),
{
    match mnemonic_seed(mnemonic_phrase) {
        Some(_) => true,
        None => false,
    }
}

/// The JSON model of a keypair response, with the mnemonic when one
/// was involved.
pub open spec fn spec_keypair_json(kp: Keypair, mnemonic: Option<Seq<char>>) -> JsonModel {
    match mnemonic {
        Some(m) => JsonModel::Obj(
            seq![
                ("secret_key"@, JsonModel::Str(spec_hex_of(kp.secret_key@))),
                ("public_key"@, JsonModel::Str(kp.public_key@)),
                ("mnemonic"@, JsonModel::Str(m)),
            ],
        ),
        None => JsonModel::Obj(
            seq![
                ("secret_key"@, JsonModel::Str(spec_hex_of(kp.secret_key@))),
                ("public_key"@, JsonModel::Str(kp.public_key@)),
            ],
        ),
    }
}

/// Serializes a keypair — and the mnemonic it came from, if any — for
/// the call boundary.
pub fn keypair_to_json_string(keypair: &Keypair, mnemonic: Option<&str>) -> (r: Result<
    String,
    String,
>)
    ensures
        r is Ok,
        r is Ok ==> r.unwrap()@ == spec_json(
            spec_keypair_json(
                *keypair,
                match mnemonic {
                    Some(m) => Some(m@),
                    None => None,
                },
            ),
        ),
{
    let secret_key = get_secret_key_from_keypair(keypair);
    let mut m: Vec<(String, JsonValue)> = Vec::new();
    m.push((String::from_str("secret_key"), JsonValue::Str(secret_key)));
    m.push((String::from_str("public_key"), JsonValue::Str(keypair.public_key.clone())));
    match mnemonic {
        Some(phrase) => {
            m.push((String::from_str("mnemonic"), JsonValue::Str(String::from_str(phrase))));
            let value = JsonValue::Obj(m);
            proof {
                assert(spec_obj_view(m@) =~= seq![
                    ("secret_key"@, JsonModel::Str(spec_hex_of(keypair.secret_key@))),
                    ("public_key"@, JsonModel::Str(keypair.public_key@)),
                    ("mnemonic"@, JsonModel::Str(phrase@)),
                ]);
            }
            Ok(value.to_json_string())
        },
        None => {
            let value = JsonValue::Obj(m);
            proof {
                assert(spec_obj_view(m@) =~= seq![
                    ("secret_key"@, JsonModel::Str(spec_hex_of(keypair.secret_key@))),
                    ("public_key"@, JsonModel::Str(keypair.public_key@)),
                ]);
            }
            Ok(value.to_json_string())
        },
    }
}

/// The JSON model of a generated-secret response: hex secret key,
/// public key, and its URI.
pub open spec fn spec_secret_key_json(kp: Keypair) -> JsonModel {
    JsonModel::Obj(
        seq![
            ("secret_key"@, JsonModel::Str(spec_hex_of(kp.secret_key@))),
            ("public_key"@, JsonModel::Str(kp.public_key@)),
            ("uri"@, JsonModel::Str("pk:"@ + kp.public_key@)),
        ],
    )
}

/// The JSON text of a keypair with its URI.
pub fn secret_key_json(keypair: &Keypair) -> (r: String)
    ensures
        r@ == spec_json(spec_secret_key_json(*keypair)),
{
    let secret_key = get_secret_key_from_keypair(keypair);
    let uri = keypair.to_uri_string();
    let mut m: Vec<(String, JsonValue)> = Vec::new();
    m.push((String::from_str("secret_key"), JsonValue::Str(secret_key)));
    m.push((String::from_str("public_key"), JsonValue::Str(keypair.public_key.clone())));
    m.push((String::from_str("uri"), JsonValue::Str(uri)));
    let value = JsonValue::Obj(m);
    proof {
        assert(spec_obj_view(m@) =~= seq![
            ("secret_key"@, JsonModel::Str(spec_hex_of(keypair.secret_key@))),
            ("public_key"@, JsonModel::Str(keypair.public_key@)),
            ("uri"@, JsonModel::Str("pk:"@ + keypair.public_key@)),
        ]);
    }
    value.to_json_string()
}

/// Generates a fresh keypair and answers in the boundary shape with
/// its hex secret key, public key and URI.
pub fn generate_secret_key() -> (r: Vec<String>)
    ensures
        r@.len() == 2,
        r@[0]@ == "false"@,
{
    let keypair = generate_keypair();
    let json = secret_key_json(&keypair);
    create_response_vector(false, json)
}

/// The JSON model of a public-key response.
pub open spec fn spec_public_key_json(kp: Keypair) -> JsonModel {
    JsonModel::Obj(
        seq![
            ("public_key"@, JsonModel::Str(kp.public_key@)),
            ("uri"@, JsonModel::Str("pk:"@ + kp.public_key@)),
        ],
    )
}

/// Derives the public key of a hex secret key and answers in the
/// boundary shape: the public key and URI on success, the decoding
/// message on failure.
pub fn get_public_key_from_secret_key(secret_key: String) -> (r: Vec<String>)
    ensures
        r@.len() == 2,
        r@[0]@ == if spec_hex_valid(secret_key@) && spec_hex_bytes(secret_key@).len() == 32 {
            "false"@
        } else {
            "true"@
        },
        spec_hex_valid(secret_key@) && spec_hex_bytes(secret_key@).len() == 32 ==> r@[1]@
            == spec_json(
            JsonModel::Obj(
                seq![
                    (
                        "public_key"@,
                        JsonModel::Str(z32_public_key_of(spec_hex_bytes(secret_key@))),
                    ),
                    (
                        "uri"@,
                        JsonModel::Str("pk:"@ + z32_public_key_of(spec_hex_bytes(secret_key@))),
                    ),
                ],
            ),
        ),
        !spec_hex_valid(secret_key@) ==> r@[1]@ == "Failed to decode secret key"@,
        spec_hex_valid(secret_key@) && spec_hex_bytes(secret_key@).len() != 32 ==> r@[1]@
            == "Failed to convert secret key to 32-byte array"@,
{
    let keypair = match get_keypair_from_secret_key(secret_key.as_str()) {
        Ok(k) => k,
        Err(e) => {
            return create_response_vector(true, e);
        },
    };
    let uri = keypair.to_uri_string();
    let mut m: Vec<(String, JsonValue)> = Vec::new();
    m.push((String::from_str("public_key"), JsonValue::Str(keypair.public_key.clone())));
    m.push((String::from_str("uri"), JsonValue::Str(uri)));
    let value = JsonValue::Obj(m);
    proof {
        assert(spec_obj_view(m@) =~= seq![
            ("public_key"@, JsonModel::Str(keypair.public_key@)),
            ("uri"@, JsonModel::Str("pk:"@ + keypair.public_key@)),
        ]);
        assert(value@ == spec_public_key_json(keypair));
    }
    create_response_vector(false, value.to_json_string())
}

/// Generates a mnemonic phrase and answers in the boundary shape.
pub fn generate_mnemonic_phrase() -> (r: Vec<String>)
    ensures
        r@.len() == 2,
{
    match generate_mnemonic() {
        Ok(mnemonic) => create_response_vector(false, mnemonic),
        Err(error) => create_response_vector(true, error),
    }
}

/// Derives a keypair from a mnemonic phrase and answers in the
/// boundary shape with its JSON.
pub fn mnemonic_phrase_to_keypair(mnemonic_phrase: String) -> (r: Vec<String>)
    ensures
        r@.len() == 2,
        r@[0]@ == if is_valid_mnemonic(mnemonic_phrase@) {
            "false"@
        } else {
            "true"@
        },
        is_valid_mnemonic(mnemonic_phrase@) ==> r@[1]@ == spec_json(
            JsonModel::Obj(
                seq![
                    (
                        "secret_key"@,
                        JsonModel::Str(
                            spec_hex_of(seed_of_mnemonic(mnemonic_phrase@).take(32)),
                        ),
                    ),
                    (
                        "public_key"@,
                        JsonModel::Str(
                            z32_public_key_of(seed_of_mnemonic(mnemonic_phrase@).take(32)),
                        ),
                    ),
                ],
            ),
        ),
        !is_valid_mnemonic(mnemonic_phrase@) ==> r@[1]@ == "Invalid mnemonic phrase"@,
{
    match mnemonic_to_keypair(mnemonic_phrase.as_str()) {
        Ok(keypair) => match keypair_to_json_string(&keypair, None) {
            Ok(json_str) => create_response_vector(false, json_str),
            Err(error) => create_response_vector(true, error),
        },
        Err(error) => create_response_vector(true, error),
    }
}

/// Generates a mnemonic and its keypair and answers in the boundary
/// shape with both.
pub fn generate_mnemonic_phrase_and_keypair() -> (r: Vec<String>)
    ensures
        r@.len() == 2,
{
    match generate_mnemonic_and_keypair() {
        Ok(pair) => {
            let (mnemonic, keypair) = pair;
            match keypair_to_json_string(&keypair, Some(mnemonic.as_str())) {
                Ok(json_str) => create_response_vector(false, json_str),
                Err(error) => create_response_vector(true, error),
            }
        },
        Err(error) => create_response_vector(true, error),
    }
}

/// Checks a mnemonic phrase and answers `"true"` or `"false"` in the
/// boundary shape; checking itself never fails.
pub fn validate_mnemonic_phrase(mnemonic_phrase: String) -> (r: Vec<String>)
    ensures
        r@.len() == 2,
        r@[0]@ == "false"@,
        r@[1]@ == if is_valid_mnemonic(mnemonic_phrase@) {
            "true"@
        } else {
            "false"@
        },
{
    let is_valid = validate_mnemonic(mnemonic_phrase.as_str());
    let text = if is_valid {
        String::from_str("true")
    } else {
        String::from_str("false")
    };
    create_response_vector(false, text)
}

} // verus!
