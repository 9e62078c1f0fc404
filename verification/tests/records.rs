use base64::Engine;
use pubkymobile::{
    alpn_protocols, build_https_record, build_txt_record, dec_string, ipv4_to_string,
    ipv6_to_string, port_value, r_data_to_json, records_to_json, resolve_https_json,
    resource_record_to_json, signed_packet_to_json, DnsRecord, HttpsRecordInfo, OptCode, RData,
    SvcParam, TxtAttribute,
};

fn expect_b64(bs: &[u8]) -> String {
    base64::engine::general_purpose::STANDARD.encode(bs)
}

#[test]
fn ipv4_renders_dotted_quad() {
    assert_eq!(ipv4_to_string(0x01020304), "1.2.3.4");
    assert_eq!(ipv4_to_string(0), "0.0.0.0");
    assert_eq!(ipv4_to_string(0xFFFFFFFF), "255.255.255.255");
}

#[test]
fn ipv6_renders_colon_hex_with_shortening() {
    assert_eq!(ipv6_to_string(1), "::1");
    assert_eq!(ipv6_to_string(0), "::");
    assert_eq!(ipv6_to_string(0x20010db8000000000000000000000001), "2001:db8::1");
    assert_eq!(ipv6_to_string(0x00010002000300040005000600070008), "1:2:3:4:5:6:7:8");
    // the longest zero run wins, not the first
    let a = (1u128 << 80) | (1u128 << 16) | 1u128;
    assert_eq!(ipv6_to_string(a), "0:0:1::1:1");
    // on a tie the leftmost run wins
    let b = (1u128 << 80) | (1u128 << 32) | (1u128 << 16) | 1u128;
    assert_eq!(ipv6_to_string(b), "::1:0:0:1:1:1");
    // an IPv4-mapped address prints its low bytes dotted
    assert_eq!(ipv6_to_string(0xffff01020304), "::ffff:1.2.3.4");
}

#[test]
fn alpn_bytes_decode_to_protocol_list() {
    let bytes: Vec<u8> = vec![2, b'h', b'2', 2, b'h', b'3'];
    let protocols = alpn_protocols(&bytes);
    assert_eq!(protocols, vec!["h2".to_string(), "h3".to_string()]);
}

#[test]
fn truncated_alpn_bytes_decode_to_empty_list() {
    let bytes: Vec<u8> = vec![2, b'h'];
    let protocols = alpn_protocols(&bytes);
    assert_eq!(protocols.len(), 0);
}

#[test]
fn alpn_keeps_entries_before_the_overrun() {
    let bytes: Vec<u8> = vec![2, b'h', b'2', 9, b'x'];
    let protocols = alpn_protocols(&bytes);
    assert_eq!(protocols, vec!["h2".to_string()]);
}

#[test]
fn port_bytes_decode_big_endian() {
    let bytes: Vec<u8> = vec![0x1F, 0x90];
    assert_eq!(port_value(&bytes), 8080);
}

#[test]
fn a_record_encodes_type_and_address() {
    let json = r_data_to_json(&RData::A { address: 0x01020304 });
    assert_eq!(json.to_json_string(), "{\"type\":\"A\",\"address\":\"1.2.3.4\"}");
}

#[test]
fn aaaa_record_encodes_colon_hex() {
    let json = r_data_to_json(&RData::AAAA { address: 1 });
    assert_eq!(json.to_json_string(), "{\"type\":\"AAAA\",\"address\":\"::1\"}");
}

#[test]
fn caa_record_encodes_value_base64() {
    let json = r_data_to_json(
        &RData::CAA { flag: 0, tag: "issue".to_string(), value: vec![1, 2, 3] },
    );
    assert_eq!(
        json.to_json_string(),
        "{\"type\":\"CAA\",\"flag\":0,\"tag\":\"issue\",\"value\":\"AQID\"}",
    );
}

#[test]
fn null_record_encodes_data_base64() {
    let json = r_data_to_json(&RData::NULL { data: b"hello".to_vec() });
    assert_eq!(json.to_json_string(), "{\"type\":\"NULL\",\"data\":\"aGVsbG8=\"}");
}

#[test]
fn mx_record_encodes_preference_and_exchange() {
    let json = r_data_to_json(
        &RData::MX { preference: 10, exchange: "mail.example.com".to_string() },
    );
    let v: serde_json::Value = serde_json::from_str(&json.to_json_string()).unwrap();
    assert_eq!(v["type"].as_str().unwrap(), "MX");
    assert_eq!(v["preference"].as_u64().unwrap(), 10);
    assert_eq!(v["exchange"].as_str().unwrap(), "mail.example.com");
}

#[test]
fn soa_record_keeps_signed_fields() {
    let json = r_data_to_json(
        &RData::SOA {
            mname: "ns.example".to_string(),
            rname: "admin.example".to_string(),
            serial: 7,
            refresh: -5,
            retry: 600,
            expire: 86400,
            minimum: 60,
        },
    );
    let v: serde_json::Value = serde_json::from_str(&json.to_json_string()).unwrap();
    assert_eq!(v["type"].as_str().unwrap(), "SOA");
    assert_eq!(v["serial"].as_u64().unwrap(), 7);
    assert_eq!(v["refresh"].as_i64().unwrap(), -5);
    assert_eq!(v["retry"].as_i64().unwrap(), 600);
    assert_eq!(v["minimum"].as_u64().unwrap(), 60);
}

#[test]
fn srv_record_encodes_all_numbers() {
    let json = r_data_to_json(
        &RData::SRV { priority: 1, weight: 2, port: 443, target: "svc.example".to_string() },
    );
    assert_eq!(
        json.to_json_string(),
        "{\"type\":\"SRV\",\"priority\":1,\"weight\":2,\"port\":443,\"target\":\"svc.example\"}",
    );
}

#[test]
fn txt_record_encodes_attributes() {
    let json = r_data_to_json(
        &RData::TXT {
            attributes: vec![
                TxtAttribute { key: "a".to_string(), value: Some("b".to_string()) },
                TxtAttribute { key: "flag".to_string(), value: None },
            ],
        },
    );
    assert_eq!(json.to_json_string(), "{\"type\":\"TXT\",\"txt_data\":[\"a=b\",\"flag\"]}");
}

#[test]
fn txt_strings_escape_json_characters() {
    let json = r_data_to_json(
        &RData::TXT {
            attributes: vec![
                TxtAttribute { key: "q".to_string(), value: Some("say \"hi\"\n".to_string()) },
            ],
        },
    );
    let text = json.to_json_string();
    let v: serde_json::Value = serde_json::from_str(&text).unwrap();
    assert_eq!(v["txt_data"][0].as_str().unwrap(), "q=say \"hi\"\n");
}

#[test]
fn opt_record_encodes_codes() {
    let json = r_data_to_json(
        &RData::OPT {
            version: 0,
            opt_codes: vec![OptCode { code: 10, data: vec![1, 2, 3] }],
        },
    );
    assert_eq!(
        json.to_json_string(),
        "{\"type\":\"OPT\",\"version\":0,\"opt_codes\":[{\"code\":10,\"data\":\"AQID\"}]}",
    );
}

#[test]
fn wks_record_encodes_address_and_bitmap() {
    let json = r_data_to_json(
        &RData::WKS { address: 0x01020304, protocol: 6, bit_map: vec![1, 2, 3] },
    );
    assert_eq!(
        json.to_json_string(),
        "{\"type\":\"WKS\",\"address\":\"1.2.3.4\",\"protocol\":6,\"bit_map\":\"AQID\"}",
    );
}

#[test]
fn https_record_decodes_params_in_stored_order() {
    let json = r_data_to_json(
        &RData::HTTPS {
            priority: 1,
            target: "example.com".to_string(),
            params: vec![
                SvcParam { key: 3, value: vec![0x1F, 0x90] },
                SvcParam { key: 1, value: vec![2, b'h', b'2', 2, b'h', b'3'] },
                SvcParam { key: 7, value: vec![1, 2, 3] },
            ],
        },
    );
    assert_eq!(
        json.to_json_string(),
        "{\"type\":\"HTTPS\",\"priority\":1,\"target\":\"example.com\",\"params\":{\"3\":8080,\"1\":[\"h2\",\"h3\"],\"7\":\"AQID\"}}",
    );
}

#[test]
fn svcb_port_param_of_other_length_stays_base64() {
    let json = r_data_to_json(
        &RData::SVCB {
            priority: 2,
            target: "t".to_string(),
            params: vec![SvcParam { key: 3, value: vec![1, 2, 3] }],
        },
    );
    assert_eq!(
        json.to_json_string(),
        "{\"type\":\"SVCB\",\"priority\":2,\"target\":\"t\",\"params\":{\"3\":\"AQID\"}}",
    );
}

#[test]
fn unknown_variant_encodes_fallback_tag() {
    let json = r_data_to_json(&RData::Unknown);
    assert_eq!(json.to_json_string(), "{\"type\":\"UNKNOWN\"}");
}

#[test]
fn whole_record_carries_name_and_ttl() {
    let record = DnsRecord {
        name: "example.com".to_string(),
        ttl: 300,
        rdata: RData::NS { nsdname: "ns1.example.com".to_string() },
    };
    let json = resource_record_to_json(&record);
    assert_eq!(
        json.to_json_string(),
        "{\"name\":\"example.com\",\"ttl\":300,\"rdata\":{\"type\":\"NS\",\"nsdname\":\"ns1.example.com\"}}",
    );
}

#[test]
fn record_fields_read_back_from_the_json() {
    let json = r_data_to_json(
        &RData::AFSDB { subtype: 4, hostname: "afs.example".to_string() },
    );
    let v: serde_json::Value = serde_json::from_str(&json.to_json_string()).unwrap();
    assert_eq!(v["type"].as_str().unwrap(), "AFSDB");
    assert_eq!(v["subtype"].as_u64().unwrap(), 4);
    assert_eq!(v["hostname"].as_str().unwrap(), "afs.example");
}

#[test]
fn unknown_record_in_batch_of_five_yields_four_objects() {
    let mk = |name: &str, rdata: RData| DnsRecord { name: name.to_string(), ttl: 60, rdata };
    let records = vec![
        mk("a", RData::A { address: 1 }),
        mk("b", RData::NS { nsdname: "n".to_string() }),
        mk("c", RData::Unknown),
        mk("d", RData::PTR { ptrdname: "p".to_string() }),
        mk("e", RData::HINFO { cpu: "arm".to_string(), os: "unix".to_string() }),
    ];
    let encoded = records_to_json(&records);
    assert_eq!(encoded.len(), 4);
}

#[test]
fn decimal_strings_render_plainly() {
    assert_eq!(dec_string(0), "0");
    assert_eq!(dec_string(65535), "65535");
    assert_eq!(dec_string(18446744073709551615), "18446744073709551615");
}

#[test]
fn txt_record_plan_accepts_valid_name() {
    let plan = build_txt_record("test.domain", "some content").unwrap();
    assert_eq!(plan.name, "test.domain");
    assert_eq!(plan.content, "some content");
    assert_eq!(plan.ttl, 30);
}

#[test]
fn txt_record_plan_rejects_invalid_name() {
    let err = build_txt_record("bad name", "content").unwrap_err();
    assert!(err.starts_with("Failed to create DNS name: "));
}

#[test]
fn https_record_plan_checks_target_first() {
    let plan = build_https_record("test.domain", "target.domain").unwrap();
    assert_eq!(plan.priority, 0);
    assert_eq!(plan.ttl, 3600);

    let err = build_https_record("also bad", "bad target").unwrap_err();
    assert!(err.starts_with("Invalid target: "));

    let err = build_https_record("bad name", "target.domain").unwrap_err();
    assert!(err.starts_with("Invalid DNS name: "));
}

#[test]
fn signed_packet_renders_parts_and_records() {
    let mut bytes: Vec<u8> = vec![0; 104];
    for (i, b) in bytes.iter_mut().enumerate() {
        *b = i as u8;
    }
    bytes.extend_from_slice(&[9, 9, 9]);
    let records = vec![
        DnsRecord {
            name: "x".to_string(),
            ttl: 1,
            rdata: RData::A { address: 0x7F000001 },
        },
        DnsRecord { name: "y".to_string(), ttl: 1, rdata: RData::Unknown },
    ];
    let text = signed_packet_to_json(&bytes, 1111, 2222, &records);
    let v: serde_json::Value = serde_json::from_str(&text).unwrap();
    assert_eq!(v["signed_packet"].as_str().unwrap(), hex::encode(&bytes));
    assert_eq!(v["public_key"].as_str().unwrap(), expect_b64(&bytes[..32]));
    assert_eq!(v["signature"].as_str().unwrap(), expect_b64(&bytes[32..96]));
    assert_eq!(v["dns_packet"].as_str().unwrap(), expect_b64(&bytes[104..]));
    assert_eq!(v["timestamp"].as_u64().unwrap(), 1111);
    assert_eq!(v["last_seen"].as_u64().unwrap(), 2222);
    let records_json = v["records"].as_array().unwrap();
    assert_eq!(records_json.len(), 1);
    assert_eq!(records_json[0]["rdata"]["address"].as_str().unwrap(), "127.0.0.1");
}

#[test]
fn resolve_https_answer_includes_port_and_alpn() {
    let infos = vec![
        HttpsRecordInfo {
            name: "example.com".to_string(),
            class: "IN".to_string(),
            ttl: 300,
            priority: 1,
            target: "svc.example.com".to_string(),
            params: vec![
                SvcParam { key: 3, value: vec![0x1F, 0x90] },
                SvcParam { key: 1, value: vec![2, b'h', b'2', 2, b'h', b'3'] },
            ],
        },
    ];
    let text = resolve_https_json("pubkey123", &infos, 5, 6).unwrap();
    let v: serde_json::Value = serde_json::from_str(&text).unwrap();
    assert_eq!(v["public_key"].as_str().unwrap(), "pubkey123");
    let recs = v["https_records"].as_array().unwrap();
    assert_eq!(recs.len(), 1);
    assert_eq!(recs[0]["name"].as_str().unwrap(), "example.com");
    assert_eq!(recs[0]["class"].as_str().unwrap(), "IN");
    assert_eq!(recs[0]["port"].as_u64().unwrap(), 8080);
    let alpn = recs[0]["alpn"].as_array().unwrap();
    assert_eq!(alpn[0].as_str().unwrap(), "h2");
    assert_eq!(alpn[1].as_str().unwrap(), "h3");
}

#[test]
fn resolve_https_without_records_is_an_error() {
    let infos: Vec<HttpsRecordInfo> = vec![];
    let err = resolve_https_json("pk", &infos, 0, 0).unwrap_err();
    assert_eq!(err, "No HTTPS records found");
}
