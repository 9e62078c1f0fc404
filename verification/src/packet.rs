//! Signed-packet views and record plans.
//!
//! A resolved signed packet arrives as raw bytes plus metadata; the
//! bytes hold the public key, the signature and the DNS payload at
//! fixed offsets.  This module renders that to the boundary JSON, the
//! HTTPS-record summary of a packet, and validated plans for the two
//! records the publish path can build.

use vstd::prelude::*;
use crate::enc::{base64_encode, base64_of, hex_encode, spec_hex_of};
use crate::json::{JsonModel, JsonValue, spec_json, spec_obj_view, spec_arr_view};
use crate::record::{DnsRecord, SvcParam, ALPN_KEY, PORT_KEY, alpn_protocols, port_value,
    records_to_json, spec_records_json, spec_alpn_list, spec_port};
use crate::text::copy_range_bytes;

verus! {

/// The names the dns crate rejects, and its message for each.
pub uninterp spec fn is_valid_dns_name(s: Seq<char>) -> bool;

/// The message the dns crate's name check gives a rejected name.
pub uninterp spec fn dns_name_error_of(s: Seq<char>) -> Seq<char>;

/// Relies on simple-dns's `Name::new` (through pkarr): acceptance and
/// the error are pure functions of the text.
#[verifier::external_body]
fn check_dns_name(s: &str) -> (r: Result<(), String>)
    ensures
        r is Ok <==> is_valid_dns_name(s@),
        r is Err ==> r.get_Err_0()@ == dns_name_error_of(s@),
{
    match pkarr::dns::Name::new(s) {
        Ok(_) => Ok(()),
        Err(e) => Err(format!("{}", e)),
    }
}

/// A validated plan for one TXT record to publish: the name passed the
/// dns crate's check, and the content is carried verbatim.
#[derive(Debug)]
pub struct TxtRecordPlan {
    pub name: String,
    pub content: String,
    pub ttl: u32,
}

/// Validates a name and content for a TXT record to publish.  The dns
/// crate accepts any content by chunking it, so only the name can be
/// rejected.
pub fn build_txt_record(record_name: &str, record_content: &str) -> (r: Result<
    TxtRecordPlan,
    String,
>)
    ensures
        r is Ok <==> is_valid_dns_name(record_name@),
        r is Ok ==> r.unwrap().name@ == record_name@ && r.unwrap().content@ == record_content@
            && r.unwrap().ttl == 30,
        r is Err ==> r.get_Err_0()@ == "Failed to create DNS name: "@ + dns_name_error_of(
            record_name@,
        ),
{
    match check_dns_name(record_name) {
        Ok(_) => Ok(
            TxtRecordPlan {
                name: String::from_str(record_name),
                content: String::from_str(record_content),
                ttl: 30,
            },
        ),
        Err(e) => {
            let mut m = String::from_str("Failed to create DNS name: ");
            m.append(e.as_str());
            Err(m)
        },
    }
}

/// A validated plan for one HTTPS record to publish: alias-mode
/// priority zero, the checked target, and the fixed time to live.
#[derive(Debug)]
pub struct HttpsRecordPlan {
    pub name: String,
    pub target: String,
    pub priority: u16,
    pub ttl: u32,
}

/// Validates a name and target for an HTTPS record to publish: the
/// target is checked first, then the record name, each with the dns
/// crate's own message behind a prefix of its own.
pub fn build_https_record(record_name: &str, target: &str) -> (r: Result<HttpsRecordPlan, String>)
    ensures
        r is Ok <==> (is_valid_dns_name(target@) && is_valid_dns_name(record_name@)),
        r is Ok ==> r.unwrap().name@ == record_name@ && r.unwrap().target@ == target@
            && r.unwrap().priority == 0 && r.unwrap().ttl == 3600,
        !is_valid_dns_name(target@) ==> (r matches Err(m) && m@ == "Invalid target: "@
            + dns_name_error_of(target@)),
        is_valid_dns_name(target@) && !is_valid_dns_name(record_name@) ==> (r matches Err(m) && m@
            == "Invalid DNS name: "@ + dns_name_error_of(record_name@)),
{
    if let Err(e) = check_dns_name(target) {
        let mut m = String::from_str("Invalid target: ");
        m.append(e.as_str());
        return Err(m);
    }
    if let Err(e) = check_dns_name(record_name) {
        let mut m = String::from_str("Invalid DNS name: ");
        m.append(e.as_str());
        return Err(m);
    }
    Ok(
        HttpsRecordPlan {
            name: String::from_str(record_name),
            target: String::from_str(target),
            priority: 0,
            ttl: 3600,
        },
    )
}

/// The JSON model of a resolved signed packet: the whole packet in
/// hex, its parts in base64, the metadata, and the decoded records.
pub open spec fn spec_packet_json(
    bytes: Seq<u8>,
    timestamp: nat,
    last_seen: nat,
    records: Seq<DnsRecord>,
) -> JsonModel {
    JsonModel::Obj(
        seq![
            ("signed_packet"@, JsonModel::Str(spec_hex_of(bytes))),
            ("public_key"@, JsonModel::Str(base64_of(bytes.subrange(0, 32)))),
            ("signature"@, JsonModel::Str(base64_of(bytes.subrange(32, 96)))),
            ("timestamp"@, JsonModel::UInt(timestamp)),
            ("last_seen"@, JsonModel::UInt(last_seen)),
            ("dns_packet"@, JsonModel::Str(base64_of(bytes.skip(104)))),
            ("records"@, JsonModel::Arr(spec_records_json(records))),
        ],
    )
}

/// Renders a resolved signed packet for the boundary: the first 32
/// bytes are the public key, the next 64 the signature, and the DNS
/// payload starts at offset 104; records of an unsupported variant
/// are dropped from the list, not fatal.
pub fn signed_packet_to_json(
    packet_bytes: &Vec<u8>,
    timestamp: u64,
    last_seen: u64,
    records: &Vec<DnsRecord>,
) -> (r: String)
    requires
        packet_bytes@.len() >= 104,
    ensures
        r@ == spec_json(
            spec_packet_json(packet_bytes@, timestamp as nat, last_seen as nat, records@),
        ),
{
    let hex = hex_encode(packet_bytes);
    let public_key = copy_range_bytes(packet_bytes, 0, 32);
    let signature = copy_range_bytes(packet_bytes, 32, 96);
    let dns_packet = copy_range_bytes(packet_bytes, 104, packet_bytes.len());
    let json_records = records_to_json(records);
    let mut m: Vec<(String, JsonValue)> = Vec::new();
    m.push((String::from_str("signed_packet"), JsonValue::Str(hex)));
    m.push((String::from_str("public_key"), JsonValue::Str(base64_encode(&public_key))));
    m.push((String::from_str("signature"), JsonValue::Str(base64_encode(&signature))));
    m.push((String::from_str("timestamp"), JsonValue::UInt(timestamp)));
    m.push((String::from_str("last_seen"), JsonValue::UInt(last_seen)));
    m.push((String::from_str("dns_packet"), JsonValue::Str(base64_encode(&dns_packet))));
    m.push((String::from_str("records"), JsonValue::Arr(json_records)));
    let value = JsonValue::Obj(m);
    proof {
        assert(packet_bytes@.skip(104) =~= packet_bytes@.subrange(104,
            packet_bytes@.len() as int));
        let ghost expected_records = spec_records_json(records@);
        assert(spec_arr_view(json_records@) =~= expected_records);
        assert(spec_obj_view(m@) =~= seq![
            ("signed_packet"@, JsonModel::Str(spec_hex_of(packet_bytes@))),
            ("public_key"@, JsonModel::Str(base64_of(packet_bytes@.subrange(0, 32)))),
            ("signature"@, JsonModel::Str(base64_of(packet_bytes@.subrange(32, 96)))),
            ("timestamp"@, JsonModel::UInt(timestamp as nat)),
            ("last_seen"@, JsonModel::UInt(last_seen as nat)),
            ("dns_packet"@, JsonModel::Str(base64_of(packet_bytes@.skip(104)))),
            ("records"@, JsonModel::Arr(expected_records)),
        ]);
    }
    value.to_json_string()
}

/// One HTTPS record of a resolved packet, with its class name kept as
/// the packet carried it.
pub struct HttpsRecordInfo {
    pub name: String,
    pub class: String,
    pub ttl: u32,
    pub priority: u16,
    pub target: String,
    pub params: Vec<SvcParam>,
}

/// The first parameter value under `key`, if any.
pub open spec fn spec_first_param(ps: Seq<SvcParam>, key: u16) -> Option<Seq<u8>>
    decreases ps.len(),
{
    if ps.len() == 0 {
        None
    } else if ps[0].key == key {
        Some(ps[0].value@)
    } else {
        spec_first_param(ps.drop_first(), key)
    }
}

/// The JSON model of one HTTPS record summary: the base fields, then
/// `port` when a two-byte PORT parameter is present, then `alpn` when
/// an ALPN parameter is present.
pub open spec fn spec_https_record_json(
    name: Seq<char>,
    class: Seq<char>,
    ttl: nat,
    priority: nat,
    target: Seq<char>,
    params: Seq<SvcParam>,
) -> JsonModel {
    let base = seq![
        ("name"@, JsonModel::Str(name)),
        ("class"@, JsonModel::Str(class)),
        ("ttl"@, JsonModel::UInt(ttl)),
        ("priority"@, JsonModel::UInt(priority)),
        ("target"@, JsonModel::Str(target)),
    ];
    let with_port = match spec_first_param(params, PORT_KEY) {
        Some(v) => if v.len() == 2 {
            base.push(("port"@, JsonModel::UInt(spec_port(v))))
        } else {
            base
        },
        None => base,
    };
    match spec_first_param(params, ALPN_KEY) {
        Some(v) => JsonModel::Obj(
            with_port.push(
                (
                    "alpn"@,
                    JsonModel::Arr(
                        Seq::new(
                            spec_alpn_list(v).len(),
                            |i: int|
                                if 0 <= i < spec_alpn_list(v).len() {
                                    JsonModel::Str(spec_alpn_list(v)[i])
                                } else {
                                    JsonModel::UInt(0)
                                },
                        ),
                    ),
                ),
            ),
        ),
        None => JsonModel::Obj(with_port),
    }
}

/// The first parameter under `key`, if any.
fn first_param<'a>(ps: &'a Vec<SvcParam>, key: u16) -> (r: Option<&'a Vec<u8>>)
    ensures
        r is Some <==> spec_first_param(ps@, key) is Some,
        r is Some ==> r.unwrap()@ == spec_first_param(ps@, key).unwrap(),
{
    let mut i: usize = 0;
    proof {
        assert(ps@.skip(0) =~= ps@);
    }
    while i < ps.len()
        invariant
            i <= ps@.len(),
            spec_first_param(ps@, key) == spec_first_param(ps@.skip(i as int), key),
            forall|j: int| 0 <= j < i ==> ps@[j].key != key,
        decreases ps@.len() - i,
    {
        proof {
            let s = ps@.skip(i as int);
            assert(s[0] == ps@[i as int]);
            assert(s.drop_first() =~= ps@.skip(i as int + 1));
        }
        if ps[i].key == key {
            return Some(&ps[i].value);
        }
        i = i + 1;
    }
    proof {
        assert(ps@.skip(i as int).len() == 0);
    }
    None
}

/// Renders one HTTPS record summary.
pub fn https_record_to_json(info: &HttpsRecordInfo) -> (r: JsonValue)
    ensures
        r@ == spec_https_record_json(
            info.name@,
            info.class@,
            info.ttl as nat,
            info.priority as nat,
            info.target@,
            info.params@,
        ),
{
    let mut m: Vec<(String, JsonValue)> = Vec::new();
    m.push((String::from_str("name"), JsonValue::Str(info.name.clone())));
    m.push((String::from_str("class"), JsonValue::Str(info.class.clone())));
    m.push((String::from_str("ttl"), JsonValue::UInt(info.ttl as u64)));
    m.push((String::from_str("priority"), JsonValue::UInt(info.priority as u64)));
    m.push((String::from_str("target"), JsonValue::Str(info.target.clone())));
    let ghost base = seq![
        ("name"@, JsonModel::Str(info.name@)),
        ("class"@, JsonModel::Str(info.class@)),
        ("ttl"@, JsonModel::UInt(info.ttl as nat)),
        ("priority"@, JsonModel::UInt(info.priority as nat)),
        ("target"@, JsonModel::Str(info.target@)),
    ];
    if let Some(port_param) = first_param(&info.params, PORT_KEY) {
        if port_param.len() == 2 {
            let port = port_value(port_param);
            m.push((String::from_str("port"), JsonValue::UInt(port as u64)));
        }
    }
    let ghost with_port = match spec_first_param(info.params@, PORT_KEY) {
        Some(v) => if v.len() == 2 {
            base.push(("port"@, JsonModel::UInt(spec_port(v))))
        } else {
            base
        },
        None => base,
    };
    if let Some(alpn_param) = first_param(&info.params, ALPN_KEY) {
        let names = alpn_protocols(alpn_param);
        let mut items: Vec<JsonValue> = Vec::new();
        let mut i: usize = 0;
        let ghost alpn_bytes = spec_first_param(info.params@, ALPN_KEY).unwrap();
        while i < names.len()
            invariant
                i <= names@.len(),
                names.deep_view() == spec_alpn_list(alpn_bytes),
                items@.len() == i,
                forall|j: int| 0 <= j < i ==> #[trigger] items@[j]@ == JsonModel::Str(
                    spec_alpn_list(alpn_bytes)[j],
                ),
            decreases names@.len() - i,
        {
            proof {
                assert(names.deep_view()[i as int] == names@[i as int]@);
            }
            items.push(JsonValue::Str(names[i].clone()));
            i = i + 1;
        }
        proof {
            assert(names.deep_view().len() == names@.len());
        }
        let arr = JsonValue::Arr(items);
        proof {
            let expected = Seq::new(
                spec_alpn_list(alpn_bytes).len(),
                |k: int|
                    if 0 <= k < spec_alpn_list(alpn_bytes).len() {
                        JsonModel::Str(spec_alpn_list(alpn_bytes)[k])
                    } else {
                        JsonModel::UInt(0)
                    },
            );
            assert forall|k: int| 0 <= k < items@.len() implies spec_arr_view(items@)[k]
                == expected[k] by {
                assert(items@[k]@ == JsonModel::Str(spec_alpn_list(alpn_bytes)[k]));
            }
            assert(spec_arr_view(items@) =~= expected);
        }
        m.push((String::from_str("alpn"), arr));
        let r = JsonValue::Obj(m);
        proof {
            assert(spec_obj_view(m@) =~= with_port.push(
                (
                    "alpn"@,
                    JsonModel::Arr(
                        Seq::new(
                            spec_alpn_list(alpn_bytes).len(),
                            |k: int|
                                if 0 <= k < spec_alpn_list(alpn_bytes).len() {
                                    JsonModel::Str(spec_alpn_list(alpn_bytes)[k])
                                } else {
                                    JsonModel::UInt(0)
                                },
                        ),
                    ),
                ),
            ));
        }
        r
    } else {
        let r = JsonValue::Obj(m);
        proof {
            assert(spec_obj_view(m@) =~= with_port);
        }
        r
    }
}

/// The JSON model of a whole HTTPS resolution answer.
pub open spec fn spec_https_answer_json(
    public_key: Seq<char>,
    infos: Seq<HttpsRecordInfo>,
    last_seen: nat,
    timestamp: nat,
) -> JsonModel {
    JsonModel::Obj(
        seq![
            ("public_key"@, JsonModel::Str(public_key)),
            (
                "https_records"@,
                JsonModel::Arr(
                    Seq::new(
                        infos.len(),
                        |i: int|
                            if 0 <= i < infos.len() {
                                spec_https_record_json(
                                    infos[i].name@,
                                    infos[i].class@,
                                    infos[i].ttl as nat,
                                    infos[i].priority as nat,
                                    infos[i].target@,
                                    infos[i].params@,
                                )
                            } else {
                                JsonModel::UInt(0)
                            },
                    ),
                ),
            ),
            ("last_seen"@, JsonModel::UInt(last_seen)),
            ("timestamp"@, JsonModel::UInt(timestamp)),
        ],
    )
}

/// Renders an HTTPS resolution answer: the packet's HTTPS records with
/// their metadata.  A packet without any HTTPS record is an error, so
/// the caller reports it instead of answering with an empty list.
pub fn resolve_https_json(
    public_key: &str,
    infos: &Vec<HttpsRecordInfo>,
    last_seen: u64,
    timestamp: u64,
) -> (r: Result<String, String>)
    ensures
        r is Ok <==> infos@.len() > 0,
        r is Ok ==> r.unwrap()@ == spec_json(
            spec_https_answer_json(public_key@, infos@, last_seen as nat, timestamp as nat),
        ),
        r is Err ==> r.get_Err_0()@ == "No HTTPS records found"@,
{
    if infos.len() == 0 {
        return Err(String::from_str("No HTTPS records found"));
    }
    let mut items: Vec<JsonValue> = Vec::new();
    let mut i: usize = 0;
    while i < infos.len()
        invariant
            i <= infos@.len(),
            items@.len() == i,
            forall|j: int| 0 <= j < i ==> #[trigger] items@[j]@ == spec_https_record_json(
                infos@[j].name@,
                infos@[j].class@,
                infos@[j].ttl as nat,
                infos@[j].priority as nat,
                infos@[j].target@,
                infos@[j].params@,
            ),
        decreases infos@.len() - i,
    {
        let obj = https_record_to_json(&infos[i]);
        items.push(obj);
        i = i + 1;
    }
    let mut m: Vec<(String, JsonValue)> = Vec::new();
    m.push((String::from_str("public_key"), JsonValue::Str(String::from_str(public_key))));
    m.push((String::from_str("https_records"), JsonValue::Arr(items)));
    m.push((String::from_str("last_seen"), JsonValue::UInt(last_seen)));
    m.push((String::from_str("timestamp"), JsonValue::UInt(timestamp)));
    let value = JsonValue::Obj(m);
    proof {
        let expected_items = Seq::new(
            infos@.len(),
            |k: int|
                if 0 <= k < infos@.len() {
                    spec_https_record_json(
                        infos@[k].name@,
                        infos@[k].class@,
                        infos@[k].ttl as nat,
                        infos@[k].priority as nat,
                        infos@[k].target@,
                        infos@[k].params@,
                    )
                } else {
                    JsonModel::UInt(0)
                },
        );
        assert forall|k: int| 0 <= k < items@.len() implies spec_arr_view(items@)[k]
            == expected_items[k] by {
            assert(items@[k]@ == spec_https_record_json(
                infos@[k].name@,
                infos@[k].class@,
                infos@[k].ttl as nat,
                infos@[k].priority as nat,
                infos@[k].target@,
                infos@[k].params@,
            ));
        }
        assert(spec_arr_view(items@) =~= expected_items);
        assert(spec_obj_view(m@) =~= seq![
            ("public_key"@, JsonModel::Str(public_key@)),
            ("https_records"@, JsonModel::Arr(expected_items)),
            ("last_seen"@, JsonModel::UInt(last_seen as nat)),
            ("timestamp"@, JsonModel::UInt(timestamp as nat)),
        ]);
    }
    Ok(value.to_json_string())
}

} // verus!
