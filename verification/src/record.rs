//! The resource-record model and its JSON encoding.
//!
//! A record holds a name, a time-to-live and one variant of a closed
//! union of record data.  Encoding is total: every supported variant
//! maps to an object of its own fields, and anything else degrades to
//! an `UNKNOWN` tag instead of failing, so one bad record never aborts
//! a batch.

use vstd::prelude::*;
use crate::enc::{base64_encode, base64_of, utf8_lossy, utf8_lossy_of};
use crate::json::{JsonModel, JsonValue, spec_obj_view, spec_arr_view};
use crate::addr::{ipv4_to_string, ipv6_to_string, spec_ipv4_string, spec_ipv6_string};
use crate::text::{push_char, spec_dec, write_dec};

verus! {

/// One service-binding parameter: a small integer key and its raw
/// value bytes, kept in the order they were read.
pub struct SvcParam {
    pub key: u16,
    pub value: Vec<u8>,
}

/// One code/data pair of an OPT record.
pub struct OptCode {
    pub code: u16,
    pub data: Vec<u8>,
}

/// One TXT attribute: a key alone, or a key with a value.
pub struct TxtAttribute {
    pub key: String,
    pub value: Option<String>,
}

/// The data of a resource record, exactly one variant per record.
pub enum RData {
    A { address: u32 },
    AAAA { address: u128 },
    AFSDB { subtype: u16, hostname: String },
    CAA { flag: u8, tag: String, value: Vec<u8> },
    HINFO { cpu: String, os: String },
    HTTPS { priority: u16, target: String, params: Vec<SvcParam> },
    MX { preference: u16, exchange: String },
    NAPTR {
        order: u16,
        preference: u16,
        flags: String,
        services: String,
        regexp: String,
        replacement: String,
    },
    NS { nsdname: String },
    NULL { data: Vec<u8> },
    OPT { version: u8, opt_codes: Vec<OptCode> },
    PTR { ptrdname: String },
    SOA {
        mname: String,
        rname: String,
        serial: u32,
        refresh: i32,
        retry: i32,
        expire: i32,
        minimum: u32,
    },
    SRV { priority: u16, weight: u16, port: u16, target: String },
    SVCB { priority: u16, target: String, params: Vec<SvcParam> },
    TXT { attributes: Vec<TxtAttribute> },
    WKS { address: u32, protocol: u8, bit_map: Vec<u8> },
    Unknown,
}

/// A resource record as handed to the codec.
pub struct DnsRecord {
    pub name: String,
    pub ttl: u32,
    pub rdata: RData,
}

/// The service-binding parameter key carrying an ALPN protocol list.
pub const ALPN_KEY: u16 = 1;

/// The service-binding parameter key carrying a port number.
pub const PORT_KEY: u16 = 3;

/// The protocol names read from ALPN parameter bytes: a sequence of
/// length-prefixed strings; a length that would overrun the buffer
/// ends the walk, keeping what was read so far.
pub open spec fn spec_alpn_list(b: Seq<u8>) -> Seq<Seq<char>>
    decreases b.len(),
{
    if b.len() == 0 {
        Seq::empty()
    } else {
        let l = b[0] as int;
        if 1 + l <= b.len() {
            seq![utf8_lossy_of(b.subrange(1, 1 + l))] + spec_alpn_list(b.skip(1 + l))
        } else {
            Seq::empty()
        }
    }
}

/// The big-endian value of two port bytes.
pub open spec fn spec_port(b: Seq<u8>) -> nat
    recommends
        b.len() == 2,
{
    (b[0] as nat) * 256 + (b[1] as nat)
}

/// The JSON value of one service-binding parameter: ALPN bytes decode
/// to a protocol list, a two-byte PORT decodes to its integer, and
/// everything else is base64 of the raw bytes.
pub open spec fn spec_param_value(key: u16, v: Seq<u8>) -> JsonModel {
    if key == ALPN_KEY {
        JsonModel::Arr(
            Seq::new(
                spec_alpn_list(v).len(),
                |i: int|
                    if 0 <= i < spec_alpn_list(v).len() {
                        JsonModel::Str(spec_alpn_list(v)[i])
                    } else {
                        JsonModel::UInt(0)
                    },
            ),
        )
    } else if key == PORT_KEY && v.len() == 2 {
        JsonModel::UInt(spec_port(v))
    } else {
        JsonModel::Str(base64_of(v))
    }
}

/// The params object: one member per parameter, in stored order, keyed
/// by the decimal form of the parameter key.
pub open spec fn spec_params_json(ps: Seq<SvcParam>) -> JsonModel {
    JsonModel::Obj(
        Seq::new(
            ps.len(),
            |i: int|
                if 0 <= i < ps.len() {
                    (spec_dec(ps[i].key as nat), spec_param_value(ps[i].key, ps[i].value@))
                } else {
                    (Seq::empty(), JsonModel::UInt(0))
                },
        ),
    )
}

/// The string one TXT attribute contributes: `key` alone, or
/// `key=value`.
pub open spec fn spec_txt_attr(a: TxtAttribute) -> Seq<char> {
    match a.value {
        Some(v) => a.key@ + seq!['='] + v@,
        None => a.key@,
    }
}

/// The `txt_data` array of a TXT record.
pub open spec fn spec_txt_strings(attrs: Seq<TxtAttribute>) -> JsonModel {
    JsonModel::Arr(
        Seq::new(
            attrs.len(),
            |i: int|
                if 0 <= i < attrs.len() {
                    JsonModel::Str(spec_txt_attr(attrs[i]))
                } else {
                    JsonModel::UInt(0)
                },
        ),
    )
}

/// The `opt_codes` array of an OPT record.
pub open spec fn spec_opt_codes(codes: Seq<OptCode>) -> JsonModel {
    JsonModel::Arr(
        Seq::new(
            codes.len(),
            |i: int|
                if 0 <= i < codes.len() {
                    JsonModel::Obj(
                        seq![
                            ("code"@, JsonModel::UInt(codes[i].code as nat)),
                            ("data"@, JsonModel::Str(base64_of(codes[i].data@))),
                        ],
                    )
                } else {
                    JsonModel::UInt(0)
                },
        ),
    )
}

/// The JSON object a record's data encodes to: the exhaustive
/// variant-to-fields table, with `UNKNOWN` as the fallback tag.
pub open spec fn spec_rdata_json(r: RData) -> JsonModel {
    match r {
        RData::A { address } => JsonModel::Obj(
            seq![
                ("type"@, JsonModel::Str("A"@)),
                ("address"@, JsonModel::Str(spec_ipv4_string(address))),
            ],
        ),
        RData::AAAA { address } => JsonModel::Obj(
            seq![
                ("type"@, JsonModel::Str("AAAA"@)),
                ("address"@, JsonModel::Str(spec_ipv6_string(address))),
            ],
        ),
        RData::AFSDB { subtype, hostname } => JsonModel::Obj(
            seq![
                ("type"@, JsonModel::Str("AFSDB"@)),
                ("subtype"@, JsonModel::UInt(subtype as nat)),
                ("hostname"@, JsonModel::Str(hostname@)),
            ],
        ),
        RData::CAA { flag, tag, value } => JsonModel::Obj(
            seq![
                ("type"@, JsonModel::Str("CAA"@)),
                ("flag"@, JsonModel::UInt(flag as nat)),
                ("tag"@, JsonModel::Str(tag@)),
                ("value"@, JsonModel::Str(base64_of(value@))),
            ],
        ),
        RData::HINFO { cpu, os } => JsonModel::Obj(
            seq![
                ("type"@, JsonModel::Str("HINFO"@)),
                ("cpu"@, JsonModel::Str(cpu@)),
                ("os"@, JsonModel::Str(os@)),
            ],
        ),
        RData::HTTPS { priority, target, params } => JsonModel::Obj(
            seq![
                ("type"@, JsonModel::Str("HTTPS"@)),
                ("priority"@, JsonModel::UInt(priority as nat)),
                ("target"@, JsonModel::Str(target@)),
                ("params"@, spec_params_json(params@)),
            ],
        ),
        RData::MX { preference, exchange } => JsonModel::Obj(
            seq![
                ("type"@, JsonModel::Str("MX"@)),
                ("preference"@, JsonModel::UInt(preference as nat)),
                ("exchange"@, JsonModel::Str(exchange@)),
            ],
        ),
        RData::NAPTR { order, preference, flags, services, regexp, replacement } => JsonModel::Obj(
            seq![
                ("type"@, JsonModel::Str("NAPTR"@)),
                ("order"@, JsonModel::UInt(order as nat)),
                ("preference"@, JsonModel::UInt(preference as nat)),
                ("flags"@, JsonModel::Str(flags@)),
                ("services"@, JsonModel::Str(services@)),
                ("regexp"@, JsonModel::Str(regexp@)),
                ("replacement"@, JsonModel::Str(replacement@)),
            ],
        ),
        RData::NS { nsdname } => JsonModel::Obj(
            seq![("type"@, JsonModel::Str("NS"@)), ("nsdname"@, JsonModel::Str(nsdname@))],
        ),
        RData::NULL { data } => JsonModel::Obj(
            seq![("type"@, JsonModel::Str("NULL"@)), ("data"@, JsonModel::Str(base64_of(data@)))],
        ),
        RData::OPT { version, opt_codes } => JsonModel::Obj(
            seq![
                ("type"@, JsonModel::Str("OPT"@)),
                ("version"@, JsonModel::UInt(version as nat)),
                ("opt_codes"@, spec_opt_codes(opt_codes@)),
            ],
        ),
        RData::PTR { ptrdname } => JsonModel::Obj(
            seq![("type"@, JsonModel::Str("PTR"@)), ("ptrdname"@, JsonModel::Str(ptrdname@))],
        ),
        RData::SOA { mname, rname, serial, refresh, retry, expire, minimum } => JsonModel::Obj(
            seq![
                ("type"@, JsonModel::Str("SOA"@)),
                ("mname"@, JsonModel::Str(mname@)),
                ("rname"@, JsonModel::Str(rname@)),
                ("serial"@, JsonModel::UInt(serial as nat)),
                ("refresh"@, JsonModel::Int(refresh as int)),
                ("retry"@, JsonModel::Int(retry as int)),
                ("expire"@, JsonModel::Int(expire as int)),
                ("minimum"@, JsonModel::UInt(minimum as nat)),
            ],
        ),
        RData::SRV { priority, weight, port, target } => JsonModel::Obj(
            seq![
                ("type"@, JsonModel::Str("SRV"@)),
                ("priority"@, JsonModel::UInt(priority as nat)),
                ("weight"@, JsonModel::UInt(weight as nat)),
                ("port"@, JsonModel::UInt(port as nat)),
                ("target"@, JsonModel::Str(target@)),
            ],
        ),
        RData::SVCB { priority, target, params } => JsonModel::Obj(
            seq![
                ("type"@, JsonModel::Str("SVCB"@)),
                ("priority"@, JsonModel::UInt(priority as nat)),
                ("target"@, JsonModel::Str(target@)),
                ("params"@, spec_params_json(params@)),
            ],
        ),
        RData::TXT { attributes } => JsonModel::Obj(
            seq![
                ("type"@, JsonModel::Str("TXT"@)),
                ("txt_data"@, spec_txt_strings(attributes@)),
            ],
        ),
        RData::WKS { address, protocol, bit_map } => JsonModel::Obj(
            seq![
                ("type"@, JsonModel::Str("WKS"@)),
                ("address"@, JsonModel::Str(spec_ipv4_string(address))),
                ("protocol"@, JsonModel::UInt(protocol as nat)),
                ("bit_map"@, JsonModel::Str(base64_of(bit_map@))),
            ],
        ),
        RData::Unknown => JsonModel::Obj(seq![("type"@, JsonModel::Str("UNKNOWN"@))]),
    }
}

/// The JSON object of a whole record: name, ttl, and the data object.
pub open spec fn spec_record_json(r: DnsRecord) -> JsonModel {
    JsonModel::Obj(
        seq![
            ("name"@, JsonModel::Str(r.name@)),
            ("ttl"@, JsonModel::UInt(r.ttl as nat)),
            ("rdata"@, spec_rdata_json(r.rdata)),
        ],
    )
}

/// A string value copied from `s`.
fn jstr(s: &str) -> (r: JsonValue)
    ensures
        r@ == JsonModel::Str(s@),
{
    JsonValue::Str(String::from_str(s))
}

/// A member with key copied from `k`.
fn member(k: &str, v: JsonValue) -> (r: (String, JsonValue))
    ensures
        r.0@ == k@,
        r.1 == v,
{
    (String::from_str(k), v)
}

/// The decimal string of `n`.
pub fn dec_string(n: u64) -> (r: String)
    ensures
        r@ == spec_dec(n as nat),
{
    let mut out = String::new();
    write_dec(n, &mut out);
    proof {
        assert(out@ =~= spec_dec(n as nat));
    }
    out
}

/// The protocol names read from ALPN parameter bytes.  Each entry is
/// one length byte and that many bytes of UTF-8; an entry whose length
/// would overrun the buffer is dropped along with everything after it.
pub fn alpn_protocols(b: &Vec<u8>) -> (r: Vec<String>)
    ensures
        r.deep_view() == spec_alpn_list(b@),
{
    let mut r: Vec<String> = Vec::new();
    let mut pos: usize = 0;
    proof {
        assert(b@.skip(0) =~= b@);
        assert(r.deep_view() =~= Seq::<Seq<char>>::empty());
        assert(r.deep_view() + spec_alpn_list(b@) =~= spec_alpn_list(b@));
    }
    loop
        invariant
            pos <= b@.len(),
            spec_alpn_list(b@) =~~= r.deep_view() + spec_alpn_list(b@.skip(pos as int)),
        decreases b@.len() - pos,
    {
        let ghost prev = r.deep_view();
        if pos >= b.len() {
            proof {
                assert(spec_alpn_list(b@.skip(pos as int)) =~= Seq::<Seq<char>>::empty());
                assert(r.deep_view() =~~= spec_alpn_list(b@));
            }
            return r;
        }
        let l = b[pos] as usize;
        if l > b.len() - (pos + 1) {
            proof {
                let s = b@.skip(pos as int);
                assert(s[0] == b@[pos as int]);
                assert(1 + (s[0] as int) > s.len());
                assert(spec_alpn_list(s) =~= Seq::<Seq<char>>::empty());
                assert(r.deep_view() =~~= spec_alpn_list(b@));
            }
            return r;
        }
        let end: usize = pos + 1 + l;
        let mut chunk: Vec<u8> = Vec::new();
        let mut i: usize = pos + 1;
        while i < end
            invariant
                end == pos + 1 + l,
                pos + 1 <= i <= end,
                end <= b@.len(),
                chunk@ == b@.subrange(pos as int + 1, i as int),
            decreases end - i,
        {
            chunk.push(b[i]);
            i = i + 1;
            proof {
                assert(chunk@ =~= b@.subrange(pos as int + 1, i as int));
            }
        }
        let name = utf8_lossy(&chunk);
        r.push(name);
        proof {
            let s = b@.skip(pos as int);
            assert(s[0] == b@[pos as int]);
            assert(1 + (s[0] as int) <= s.len());
            assert(s.subrange(1, 1 + l as int) =~= b@.subrange(pos as int + 1, pos as int + 1
                + l as int));
            assert(s.skip(1 + l as int) =~= b@.skip(pos as int + 1 + l as int));
            assert(spec_alpn_list(s) == seq![utf8_lossy_of(s.subrange(1, 1 + l as int))]
                + spec_alpn_list(s.skip(1 + l as int)));
            assert(r.deep_view() =~~= prev.push(utf8_lossy_of(chunk@)));
            assert(prev + spec_alpn_list(s) =~~= r.deep_view() + spec_alpn_list(
                b@.skip(pos as int + 1 + l as int)));
        }
        pos = pos + 1 + l;
    }
}

/// The big-endian integer of exactly two port bytes.
pub fn port_value(b: &Vec<u8>) -> (r: u16)
    requires
        b@.len() == 2,
    ensures
        r as nat == spec_port(b@),
{
    (b[0] as u16) * 256 + (b[1] as u16)
}

/// The JSON value of one service-binding parameter.
fn param_value_to_json(key: u16, value: &Vec<u8>) -> (r: JsonValue)
    ensures
        r@ == spec_param_value(key, value@),
{
    if key == ALPN_KEY {
        let names = alpn_protocols(value);
        let mut items: Vec<JsonValue> = Vec::new();
        let mut i: usize = 0;
        while i < names.len()
            invariant
                i <= names@.len(),
                names.deep_view() == spec_alpn_list(value@),
                items@.len() == i,
                forall|j: int| 0 <= j < i ==> items@[j]@ == JsonModel::Str(
                    spec_alpn_list(value@)[j],
                ),
            decreases names@.len() - i,
        {
            proof {
                assert(names.deep_view()[i as int] == names@[i as int]@);
            }
            items.push(JsonValue::Str(names[i].clone()));
            i = i + 1;
        }
        let r = JsonValue::Arr(items);
        proof {
            assert(names.deep_view().len() == names@.len());
            let expected = Seq::new(
                spec_alpn_list(value@).len(),
                |j: int|
                    if 0 <= j < spec_alpn_list(value@).len() {
                        JsonModel::Str(spec_alpn_list(value@)[j])
                    } else {
                        JsonModel::UInt(0)
                    },
            );
            assert(spec_arr_view(items@) =~= expected);
            assert(r@ == spec_param_value(key, value@));
        }
        r
    } else if key == PORT_KEY && value.len() == 2 {
        JsonValue::UInt(port_value(value) as u64)
    } else {
        JsonValue::Str(base64_encode(value))
    }
}

/// The params object of an SVCB or HTTPS record, in stored order.
fn params_to_json(params: &Vec<SvcParam>) -> (r: JsonValue)
    ensures
        r@ == spec_params_json(params@),
{
    let mut members: Vec<(String, JsonValue)> = Vec::new();
    let mut i: usize = 0;
    while i < params.len()
        invariant
            i <= params@.len(),
            members@.len() == i,
            forall|j: int| 0 <= j < i ==> #[trigger] members@[j].0@ == spec_dec(
                params@[j].key as nat,
            ) && members@[j].1@ == spec_param_value(params@[j].key, params@[j].value@),
        decreases params@.len() - i,
    {
        let key_string = dec_string(params[i].key as u64);
        let value = param_value_to_json(params[i].key, &params[i].value);
        members.push((key_string, value));
        i = i + 1;
    }
    let r = JsonValue::Obj(members);
    proof {
        let expected = Seq::new(
            params@.len(),
            |j: int|
                if 0 <= j < params@.len() {
                    (spec_dec(params@[j].key as nat), spec_param_value(
                        params@[j].key,
                        params@[j].value@,
                    ))
                } else {
                    (Seq::empty(), JsonModel::UInt(0))
                },
        );
        assert(spec_obj_view(members@) =~= expected);
        assert(r@ == spec_params_json(params@));
    }
    r
}

/// The string one TXT attribute contributes.
fn txt_attr_string(a: &TxtAttribute) -> (r: String)
    ensures
        r@ == spec_txt_attr(*a),
{
    match &a.value {
        Some(v) => {
            let mut out = a.key.clone();
            push_char(&mut out, '=');
            out.append(v.as_str());
            proof {
                reveal_strlit("=");
                assert(out@ =~= spec_txt_attr(*a));
            }
            out
        },
        None => a.key.clone(),
    }
}

/// The `txt_data` array of a TXT record.
fn txt_strings_to_json(attrs: &Vec<TxtAttribute>) -> (r: JsonValue)
    ensures
        r@ == spec_txt_strings(attrs@),
{
    let mut items: Vec<JsonValue> = Vec::new();
    let mut i: usize = 0;
    while i < attrs.len()
        invariant
            i <= attrs@.len(),
            items@.len() == i,
            forall|j: int| 0 <= j < i ==> #[trigger] items@[j]@ == JsonModel::Str(
                spec_txt_attr(attrs@[j]),
            ),
        decreases attrs@.len() - i,
    {
        let s = txt_attr_string(&attrs[i]);
        items.push(JsonValue::Str(s));
        i = i + 1;
    }
    let r = JsonValue::Arr(items);
    proof {
        let expected = Seq::new(
            attrs@.len(),
            |j: int|
                if 0 <= j < attrs@.len() {
                    JsonModel::Str(spec_txt_attr(attrs@[j]))
                } else {
                    JsonModel::UInt(0)
                },
        );
        assert forall|j: int| 0 <= j < items@.len() implies spec_arr_view(items@)[j]
            == expected[j] by {
            assert(items@[j]@ == JsonModel::Str(spec_txt_attr(attrs@[j])));
        }
        assert(spec_arr_view(items@) =~= expected);
        assert(r@ == spec_txt_strings(attrs@));
    }
    r
}

/// The `opt_codes` array of an OPT record.
fn opt_codes_to_json(codes: &Vec<OptCode>) -> (r: JsonValue)
    ensures
        r@ == spec_opt_codes(codes@),
{
    let mut items: Vec<JsonValue> = Vec::new();
    let mut i: usize = 0;
    while i < codes.len()
        invariant
            i <= codes@.len(),
            items@.len() == i,
            forall|j: int| 0 <= j < i ==> #[trigger] items@[j]@ == JsonModel::Obj(
                seq![
                    ("code"@, JsonModel::UInt(codes@[j].code as nat)),
                    ("data"@, JsonModel::Str(base64_of(codes@[j].data@))),
                ],
            ),
        decreases codes@.len() - i,
    {
        let mut m: Vec<(String, JsonValue)> = Vec::new();
        m.push(member("code", JsonValue::UInt(codes[i].code as u64)));
        m.push(member("data", JsonValue::Str(base64_encode(&codes[i].data))));
        let obj = JsonValue::Obj(m);
        proof {
            assert(spec_obj_view(m@) =~= seq![
                ("code"@, JsonModel::UInt(codes@[i as int].code as nat)),
                ("data"@, JsonModel::Str(base64_of(codes@[i as int].data@))),
            ]);
        }
        items.push(obj);
        i = i + 1;
    }
    let r = JsonValue::Arr(items);
    proof {
        let expected = Seq::new(
            codes@.len(),
            |j: int|
                if 0 <= j < codes@.len() {
                    JsonModel::Obj(
                        seq![
                            ("code"@, JsonModel::UInt(codes@[j].code as nat)),
                            ("data"@, JsonModel::Str(base64_of(codes@[j].data@))),
                        ],
                    )
                } else {
                    JsonModel::UInt(0)
                },
        );
        assert forall|j: int| 0 <= j < items@.len() implies spec_arr_view(items@)[j]
            == expected[j] by {
            assert(items@[j]@ == JsonModel::Obj(
                seq![
                    ("code"@, JsonModel::UInt(codes@[j].code as nat)),
                    ("data"@, JsonModel::Str(base64_of(codes@[j].data@))),
                ],
            ));
        }
        assert(spec_arr_view(items@) =~= expected);
        assert(r@ == spec_opt_codes(codes@));
    }
    r
}

/// Encodes a record's data to its JSON object, per the variant table;
/// an unsupported variant encodes to the `UNKNOWN` tag.
pub fn r_data_to_json(rdata: &RData) -> (r: JsonValue)
    ensures
        r@ == spec_rdata_json(*rdata),
{
    let mut m: Vec<(String, JsonValue)> = Vec::new();
    match rdata {
        RData::A { address } => {
            m.push(member("type", jstr("A")));
            m.push(member("address", JsonValue::Str(ipv4_to_string(*address))));
        },
        RData::AAAA { address } => {
            m.push(member("type", jstr("AAAA")));
            m.push(member("address", JsonValue::Str(ipv6_to_string(*address))));
        },
        RData::AFSDB { subtype, hostname } => {
            m.push(member("type", jstr("AFSDB")));
            m.push(member("subtype", JsonValue::UInt(*subtype as u64)));
            m.push(member("hostname", JsonValue::Str(hostname.clone())));
        },
        RData::CAA { flag, tag, value } => {
            m.push(member("type", jstr("CAA")));
            m.push(member("flag", JsonValue::UInt(*flag as u64)));
            m.push(member("tag", JsonValue::Str(tag.clone())));
            m.push(member("value", JsonValue::Str(base64_encode(value))));
        },
        RData::HINFO { cpu, os } => {
            m.push(member("type", jstr("HINFO")));
            m.push(member("cpu", JsonValue::Str(cpu.clone())));
            m.push(member("os", JsonValue::Str(os.clone())));
        },
        RData::HTTPS { priority, target, params } => {
            m.push(member("type", jstr("HTTPS")));
            m.push(member("priority", JsonValue::UInt(*priority as u64)));
            m.push(member("target", JsonValue::Str(target.clone())));
            m.push(member("params", params_to_json(params)));
        },
        RData::MX { preference, exchange } => {
            m.push(member("type", jstr("MX")));
            m.push(member("preference", JsonValue::UInt(*preference as u64)));
            m.push(member("exchange", JsonValue::Str(exchange.clone())));
        },
        RData::NAPTR { order, preference, flags, services, regexp, replacement } => {
            m.push(member("type", jstr("NAPTR")));
            m.push(member("order", JsonValue::UInt(*order as u64)));
            m.push(member("preference", JsonValue::UInt(*preference as u64)));
            m.push(member("flags", JsonValue::Str(flags.clone())));
            m.push(member("services", JsonValue::Str(services.clone())));
            m.push(member("regexp", JsonValue::Str(regexp.clone())));
            m.push(member("replacement", JsonValue::Str(replacement.clone())));
        },
        RData::NS { nsdname } => {
            m.push(member("type", jstr("NS")));
            m.push(member("nsdname", JsonValue::Str(nsdname.clone())));
        },
        RData::NULL { data } => {
            m.push(member("type", jstr("NULL")));
            m.push(member("data", JsonValue::Str(base64_encode(data))));
        },
        RData::OPT { version, opt_codes } => {
            m.push(member("type", jstr("OPT")));
            m.push(member("version", JsonValue::UInt(*version as u64)));
            m.push(member("opt_codes", opt_codes_to_json(opt_codes)));
        },
        RData::PTR { ptrdname } => {
            m.push(member("type", jstr("PTR")));
            m.push(member("ptrdname", JsonValue::Str(ptrdname.clone())));
        },
        RData::SOA { mname, rname, serial, refresh, retry, expire, minimum } => {
            m.push(member("type", jstr("SOA")));
            m.push(member("mname", JsonValue::Str(mname.clone())));
            m.push(member("rname", JsonValue::Str(rname.clone())));
            m.push(member("serial", JsonValue::UInt(*serial as u64)));
            m.push(member("refresh", JsonValue::Int(*refresh as i64)));
            m.push(member("retry", JsonValue::Int(*retry as i64)));
            m.push(member("expire", JsonValue::Int(*expire as i64)));
            m.push(member("minimum", JsonValue::UInt(*minimum as u64)));
        },
        RData::SRV { priority, weight, port, target } => {
            m.push(member("type", jstr("SRV")));
            m.push(member("priority", JsonValue::UInt(*priority as u64)));
            m.push(member("weight", JsonValue::UInt(*weight as u64)));
            m.push(member("port", JsonValue::UInt(*port as u64)));
            m.push(member("target", JsonValue::Str(target.clone())));
        },
        RData::SVCB { priority, target, params } => {
            m.push(member("type", jstr("SVCB")));
            m.push(member("priority", JsonValue::UInt(*priority as u64)));
            m.push(member("target", JsonValue::Str(target.clone())));
            m.push(member("params", params_to_json(params)));
        },
        RData::TXT { attributes } => {
            m.push(member("type", jstr("TXT")));
            m.push(member("txt_data", txt_strings_to_json(attributes)));
        },
        RData::WKS { address, protocol, bit_map } => {
            m.push(member("type", jstr("WKS")));
            m.push(member("address", JsonValue::Str(ipv4_to_string(*address))));
            m.push(member("protocol", JsonValue::UInt(*protocol as u64)));
            m.push(member("bit_map", JsonValue::Str(base64_encode(bit_map))));
        },
        RData::Unknown => {
            m.push(member("type", jstr("UNKNOWN")));
        },
    }
    let r = JsonValue::Obj(m);
    proof {
        let shown = spec_rdata_json(*rdata);
        assert(shown matches JsonModel::Obj(mm) && spec_obj_view(m@) =~= mm);
        assert(r@ == shown);
    }
    r
}

/// Encodes a whole record: name, ttl and the data object.
pub fn resource_record_to_json(rr: &DnsRecord) -> (r: JsonValue)
    ensures
        r@ == spec_record_json(*rr),
{
    let mut m: Vec<(String, JsonValue)> = Vec::new();
    m.push(member("name", JsonValue::Str(rr.name.clone())));
    m.push(member("ttl", JsonValue::UInt(rr.ttl as u64)));
    m.push(member("rdata", r_data_to_json(&rr.rdata)));
    let r = JsonValue::Obj(m);
    proof {
        assert(spec_obj_view(m@) =~= seq![
            ("name"@, JsonModel::Str(rr.name@)),
            ("ttl"@, JsonModel::UInt(rr.ttl as nat)),
            ("rdata"@, spec_rdata_json(rr.rdata)),
        ]);
        assert(r@ == spec_record_json(*rr));
    }
    r
}

/// Whether a record's data is the unsupported fallback.
pub open spec fn spec_is_unknown(r: RData) -> bool {
    r is Unknown
}

/// The JSON objects of the records whose variant is supported; an
/// unknown record is dropped from the batch, never fatal to it.
pub open spec fn spec_records_json(rs: Seq<DnsRecord>) -> Seq<JsonModel>
    decreases rs.len(),
{
    if rs.len() == 0 {
        Seq::empty()
    } else if spec_is_unknown(rs[0].rdata) {
        spec_records_json(rs.drop_first())
    } else {
        seq![spec_record_json(rs[0])] + spec_records_json(rs.drop_first())
    }
}

/// Encodes a batch of records, dropping the unsupported ones.
pub fn records_to_json(records: &Vec<DnsRecord>) -> (r: Vec<JsonValue>)
    ensures
        Seq::new(r@.len(), |i: int| if 0 <= i < r@.len() { r@[i]@ } else { JsonModel::UInt(0) })
            == spec_records_json(records@),
{
    let mut r: Vec<JsonValue> = Vec::new();
    let mut i: usize = 0;
    proof {
        assert(records@.skip(0) =~= records@);
    }
    while i < records.len()
        invariant
            i <= records@.len(),
            spec_records_json(records@) =~= Seq::new(
                r@.len(),
                |k: int| if 0 <= k < r@.len() { r@[k]@ } else { JsonModel::UInt(0) },
            ) + spec_records_json(records@.skip(i as int)),
        decreases records@.len() - i,
    {
        let ghost prev = Seq::new(
            r@.len(),
            |k: int| if 0 <= k < r@.len() { r@[k]@ } else { JsonModel::UInt(0) },
        );
        let is_unknown = match &records[i].rdata {
            RData::Unknown => true,
            _ => false,
        };
        proof {
            let s = records@.skip(i as int);
            assert(s[0] == records@[i as int]);
            assert(s.drop_first() =~= records@.skip(i as int + 1));
        }
        if !is_unknown {
            let obj = resource_record_to_json(&records[i]);
            r.push(obj);
            proof {
                assert(Seq::new(
                    r@.len(),
                    |k: int| if 0 <= k < r@.len() { r@[k]@ } else { JsonModel::UInt(0) },
                ) =~= prev.push(spec_record_json(records@[i as int])));
            }
        }
        i = i + 1;
    }
    proof {
        assert(spec_records_json(records@.skip(i as int)) =~= Seq::<JsonModel>::empty());
    }
    r
}

} // verus!
