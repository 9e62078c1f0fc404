//! Record-level codec and authorization-descriptor parser for a
//! decentralized, self-signed naming and storage network.
//!
//! Two cores: a resource-record codec (DNS-style records to a canonical
//! JSON representation, and record construction for publication), and a
//! `pubkyauth://` URL parser producing a structured descriptor of
//! relay, secret and path-scoped capabilities.  Around them: keypairs
//! and mnemonic phrases, recovery files, session summaries, and the
//! two-element response shape of the call boundary.

mod addr;
mod auth;
mod enc;
mod events;
mod json;
mod keypair;
mod laws;
mod packet;
mod record;
mod recovery;
mod response;
mod session;
mod text;

pub use addr::{ipv4_to_string, ipv6_to_string};
pub use auth::{
    AuthParseError, Capability, PubkyAuthDetails, parse_auth_url, parse_pubky_auth_url,
    pubky_auth_details_to_json,
};
pub use enc::fetched_body_to_string;
pub use events::{EventListener, EventNotifier};
pub use json::JsonValue;
pub use keypair::{
    Keypair, generate_keypair, generate_mnemonic, generate_mnemonic_and_keypair,
    generate_mnemonic_phrase, generate_mnemonic_phrase_and_keypair, generate_secret_key,
    get_keypair_from_secret_key, get_public_key_from_secret_key, get_secret_key_from_keypair,
    keypair_to_json_string, mnemonic_phrase_to_keypair, mnemonic_to_keypair,
    mnemonic_to_secret_key, secret_key_json, validate_mnemonic, validate_mnemonic_phrase,
};
pub use laws::{
    RDataModel, lemma_record_fields_recoverable, rdata_model, spec_rdata_of_json,
    spec_round_trip_supported,
};
pub use packet::{
    HttpsRecordInfo, HttpsRecordPlan, TxtRecordPlan, build_https_record, build_txt_record,
    https_record_to_json, resolve_https_json, signed_packet_to_json,
};
pub use record::{
    DnsRecord, OptCode, RData, SvcParam, TxtAttribute, alpn_protocols, dec_string, port_value,
    r_data_to_json, records_to_json, resource_record_to_json,
};
pub use recovery::{create_recovery_file, decrypt_recovery_file};
pub use response::{create_response_vector, switch_network_response};
pub use session::{Session, session_to_json, session_to_json_with_secret};
pub use text::{chars_to_string, str_to_chars, trim_trailing};
