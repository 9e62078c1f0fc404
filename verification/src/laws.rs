//! Round-trip law of the record codec: for the variants whose JSON
//! carries every field in a readable form, the structured fields can
//! be re-derived from the encoded object, value for value.
//!
//! Variants whose encoding goes through a named outside function —
//! base64 payloads, ALPN protocol strings, the shortened IPv6 form —
//! are outside this statement: nothing relates those names back to
//! the bytes they encode.

use vstd::prelude::*;
use crate::addr::{lemma_ipv4_round_trip, spec_parse_ipv4, spec_ipv4_string};
use crate::json::JsonModel;
use crate::record::{RData, TxtAttribute, spec_rdata_json, spec_txt_attr};
use crate::text::{lemma_find_absent, lemma_find_at, spec_find};

verus! {

/// The structured fields of a record's data, as mathematical values.
pub enum RDataModel {
    A { address: nat },
    AFSDB { subtype: nat, hostname: Seq<char> },
    HINFO { cpu: Seq<char>, os: Seq<char> },
    MX { preference: nat, exchange: Seq<char> },
    NAPTR {
        order: nat,
        preference: nat,
        flags: Seq<char>,
        services: Seq<char>,
        regexp: Seq<char>,
        replacement: Seq<char>,
    },
    NS { nsdname: Seq<char> },
    PTR { ptrdname: Seq<char> },
    SOA {
        mname: Seq<char>,
        rname: Seq<char>,
        serial: nat,
        refresh: int,
        retry: int,
        expire: int,
        minimum: nat,
    },
    SRV { priority: nat, weight: nat, port: nat, target: Seq<char> },
    TXT { attributes: Seq<(Seq<char>, Option<Seq<char>>)> },
    Unsupported,
}

/// The attribute a TXT data string denotes: split at the first `=`,
/// or a bare key when there is none.
pub open spec fn spec_txt_attr_of_string(s: Seq<char>) -> (Seq<char>, Option<Seq<char>>) {
    let i = spec_find(s, '=');
    if i < s.len() {
        (s.take(i), Some(s.skip(i + 1)))
    } else {
        (s, None)
    }
}

/// The attribute views of a TXT record's attributes.
pub open spec fn spec_txt_attr_views(attrs: Seq<TxtAttribute>) -> Seq<
    (Seq<char>, Option<Seq<char>>),
> {
    Seq::new(
        attrs.len(),
        |i: int|
            if 0 <= i < attrs.len() {
                (
                    attrs[i].key@,
                    match attrs[i].value {
                        Some(v) => Some(v@),
                        None => None,
                    },
                )
            } else {
                (Seq::empty(), None)
            },
    )
}

/// The model of a record's data.
pub open spec fn rdata_model(r: RData) -> RDataModel {
    match r {
        RData::A { address } => RDataModel::A { address: address as nat },
        RData::AFSDB { subtype, hostname } => RDataModel::AFSDB {
            subtype: subtype as nat,
            hostname: hostname@,
        },
        RData::HINFO { cpu, os } => RDataModel::HINFO { cpu: cpu@, os: os@ },
        RData::MX { preference, exchange } => RDataModel::MX {
            preference: preference as nat,
            exchange: exchange@,
        },
        RData::NAPTR { order, preference, flags, services, regexp, replacement } => {
            RDataModel::NAPTR {
                order: order as nat,
                preference: preference as nat,
                flags: flags@,
                services: services@,
                regexp: regexp@,
                replacement: replacement@,
            }
        },
        RData::NS { nsdname } => RDataModel::NS { nsdname: nsdname@ },
        RData::PTR { ptrdname } => RDataModel::PTR { ptrdname: ptrdname@ },
        RData::SOA { mname, rname, serial, refresh, retry, expire, minimum } => RDataModel::SOA {
            mname: mname@,
            rname: rname@,
            serial: serial as nat,
            refresh: refresh as int,
            retry: retry as int,
            expire: expire as int,
            minimum: minimum as nat,
        },
        RData::SRV { priority, weight, port, target } => RDataModel::SRV {
            priority: priority as nat,
            weight: weight as nat,
            port: port as nat,
            target: target@,
        },
        RData::TXT { attributes } => RDataModel::TXT {
            attributes: spec_txt_attr_views(attributes@),
        },
        _ => RDataModel::Unsupported,
    }
}

/// The text of a string value, if it is one.
pub open spec fn spec_as_str(m: JsonModel) -> Option<Seq<char>> {
    match m {
        JsonModel::Str(s) => Some(s),
        _ => None,
    }
}

/// The number of an unsigned value, if it is one.
pub open spec fn spec_as_uint(m: JsonModel) -> Option<nat> {
    match m {
        JsonModel::UInt(n) => Some(n),
        _ => None,
    }
}

/// The integer of a signed value, if it is one.
pub open spec fn spec_as_int(m: JsonModel) -> Option<int> {
    match m {
        JsonModel::Int(n) => Some(n),
        _ => None,
    }
}

/// Whether the member at `i` is named `key` and holds a string.
pub open spec fn member_str(ps: Seq<(Seq<char>, JsonModel)>, i: int, key: Seq<char>) -> bool {
    0 <= i < ps.len() && ps[i].0 == key && spec_as_str(ps[i].1) is Some
}

/// Whether the member at `i` is named `key` and holds an unsigned
/// number.
pub open spec fn member_uint(ps: Seq<(Seq<char>, JsonModel)>, i: int, key: Seq<char>) -> bool {
    0 <= i < ps.len() && ps[i].0 == key && spec_as_uint(ps[i].1) is Some
}

/// Whether the member at `i` is named `key` and holds an integer.
pub open spec fn member_int(ps: Seq<(Seq<char>, JsonModel)>, i: int, key: Seq<char>) -> bool {
    0 <= i < ps.len() && ps[i].0 == key && spec_as_int(ps[i].1) is Some
}

/// The string of the member at `i`.
pub open spec fn mstr(ps: Seq<(Seq<char>, JsonModel)>, i: int) -> Seq<char> {
    spec_as_str(ps[i].1).unwrap_or(Seq::empty())
}

/// The number of the member at `i`.
pub open spec fn muint(ps: Seq<(Seq<char>, JsonModel)>, i: int) -> nat {
    spec_as_uint(ps[i].1).unwrap_or(0)
}

/// The integer of the member at `i`.
pub open spec fn mint(ps: Seq<(Seq<char>, JsonModel)>, i: int) -> int {
    spec_as_int(ps[i].1).unwrap_or(0)
}

/// The TXT attributes of a `txt_data` array of strings, if it is one.
pub open spec fn spec_txt_attrs_of_json(m: JsonModel) -> Option<
    Seq<(Seq<char>, Option<Seq<char>>)>,
> {
    match m {
        JsonModel::Arr(items) => if forall|i: int|
            0 <= i < items.len() ==> spec_as_str(#[trigger] items[i]) is Some {
            Some(
                Seq::new(
                    items.len(),
                    |i: int|
                        if 0 <= i < items.len() {
                            spec_txt_attr_of_string(spec_as_str(items[i]).unwrap_or(Seq::empty()))
                        } else {
                            (Seq::empty(), None)
                        },
                ),
            )
        } else {
            None
        },
        _ => None,
    }
}

/// Reads the structured fields back out of an encoded record object,
/// for the variants whose encoding keeps every field readable.
pub open spec fn spec_rdata_of_json(m: JsonModel) -> Option<RDataModel> {
    match m {
        JsonModel::Obj(ps) => {
            if ps.len() >= 1 && ps[0].0 == "type"@ && spec_as_str(ps[0].1) is Some {
                let t = spec_as_str(ps[0].1).unwrap_or(Seq::empty());
                if t == "A"@ {
                    if ps.len() == 2 && member_str(ps, 1, "address"@) && spec_parse_ipv4(
                        mstr(ps, 1),
                    ) is Some {
                        Some(
                            RDataModel::A {
                                address: spec_parse_ipv4(mstr(ps, 1)).unwrap_or(0),
                            },
                        )
                    } else {
                        None
                    }
                } else if t == "AFSDB"@ {
                    if ps.len() == 3 && member_uint(ps, 1, "subtype"@) && member_str(
                        ps,
                        2,
                        "hostname"@,
                    ) {
                        Some(
                            RDataModel::AFSDB {
                                subtype: muint(ps, 1),
                                hostname: mstr(ps, 2),
                            },
                        )
                    } else {
                        None
                    }
                } else if t == "HINFO"@ {
                    if ps.len() == 3 && member_str(ps, 1, "cpu"@) && member_str(ps, 2, "os"@) {
                        Some(RDataModel::HINFO { cpu: mstr(ps, 1), os: mstr(ps, 2) })
                    } else {
                        None
                    }
                } else if t == "MX"@ {
                    if ps.len() == 3 && member_uint(ps, 1, "preference"@) && member_str(
                        ps,
                        2,
                        "exchange"@,
                    ) {
                        Some(
                            RDataModel::MX {
                                preference: muint(ps, 1),
                                exchange: mstr(ps, 2),
                            },
                        )
                    } else {
                        None
                    }
                } else if t == "NAPTR"@ {
                    if ps.len() == 7 && member_uint(ps, 1, "order"@) && member_uint(
                        ps,
                        2,
                        "preference"@,
                    ) && member_str(ps, 3, "flags"@) && member_str(ps, 4, "services"@)
                        && member_str(ps, 5, "regexp"@) && member_str(ps, 6, "replacement"@) {
                        Some(
                            RDataModel::NAPTR {
                                order: muint(ps, 1),
                                preference: muint(ps, 2),
                                flags: mstr(ps, 3),
                                services: mstr(ps, 4),
                                regexp: mstr(ps, 5),
                                replacement: mstr(ps, 6),
                            },
                        )
                    } else {
                        None
                    }
                } else if t == "NS"@ {
                    if ps.len() == 2 && member_str(ps, 1, "nsdname"@) {
                        Some(RDataModel::NS { nsdname: mstr(ps, 1) })
                    } else {
                        None
                    }
                } else if t == "PTR"@ {
                    if ps.len() == 2 && member_str(ps, 1, "ptrdname"@) {
                        Some(RDataModel::PTR { ptrdname: mstr(ps, 1) })
                    } else {
                        None
                    }
                } else if t == "SOA"@ {
                    if ps.len() == 8 && member_str(ps, 1, "mname"@) && member_str(ps, 2, "rname"@)
                        && member_uint(ps, 3, "serial"@) && member_int(ps, 4, "refresh"@)
                        && member_int(ps, 5, "retry"@) && member_int(ps, 6, "expire"@)
                        && member_uint(ps, 7, "minimum"@) {
                        Some(
                            RDataModel::SOA {
                                mname: mstr(ps, 1),
                                rname: mstr(ps, 2),
                                serial: muint(ps, 3),
                                refresh: mint(ps, 4),
                                retry: mint(ps, 5),
                                expire: mint(ps, 6),
                                minimum: muint(ps, 7),
                            },
                        )
                    } else {
                        None
                    }
                } else if t == "SRV"@ {
                    if ps.len() == 5 && member_uint(ps, 1, "priority"@) && member_uint(
                        ps,
                        2,
                        "weight"@,
                    ) && member_uint(ps, 3, "port"@) && member_str(ps, 4, "target"@) {
                        Some(
                            RDataModel::SRV {
                                priority: muint(ps, 1),
                                weight: muint(ps, 2),
                                port: muint(ps, 3),
                                target: mstr(ps, 4),
                            },
                        )
                    } else {
                        None
                    }
                } else if t == "TXT"@ {
                    if ps.len() == 2 && ps[1].0 == "txt_data"@ && spec_txt_attrs_of_json(
                        ps[1].1,
                    ) is Some {
                        Some(
                            RDataModel::TXT {
                                attributes: spec_txt_attrs_of_json(ps[1].1).unwrap_or(
                                    Seq::empty(),
                                ),
                            },
                        )
                    } else {
                        None
                    }
                } else {
                    None
                }
            } else {
                None
            }
        },
        _ => None,
    }
}

/// The variants this law covers: every field of their encoding is
/// readable, and a TXT key carries no `=` of its own — a key with one
/// would be indistinguishable from a shorter key with a value.
pub open spec fn spec_round_trip_supported(r: RData) -> bool {
    match r {
        RData::A { .. } => true,
        RData::AFSDB { .. } => true,
        RData::HINFO { .. } => true,
        RData::MX { .. } => true,
        RData::NAPTR { .. } => true,
        RData::NS { .. } => true,
        RData::PTR { .. } => true,
        RData::SOA { .. } => true,
        RData::SRV { .. } => true,
        RData::TXT { attributes } => forall|i: int, j: int|
            0 <= i < attributes@.len() && 0 <= j < attributes@[i].key@.len()
                ==> #[trigger] attributes@[i].key@[j] != '=',
        _ => false,
    }
}

/// The record type tags are pairwise distinct strings.
proof fn lemma_type_literals()
    ensures
        "A"@.len() == 1,
        "AAAA"@.len() == 4,
        "AFSDB"@.len() == 5,
        "HINFO"@.len() == 5,
        "MX"@.len() == 2,
        "NAPTR"@.len() == 5,
        "NS"@.len() == 2,
        "PTR"@.len() == 3,
        "SOA"@.len() == 3,
        "SRV"@.len() == 3,
        "TXT"@.len() == 3,
        "AFSDB"@ != "HINFO"@,
        "AFSDB"@ != "NAPTR"@,
        "HINFO"@ != "NAPTR"@,
        "MX"@ != "NS"@,
        "PTR"@ != "SOA"@,
        "PTR"@ != "SRV"@,
        "PTR"@ != "TXT"@,
        "SOA"@ != "SRV"@,
        "SOA"@ != "TXT"@,
        "SRV"@ != "TXT"@,
{
    reveal_strlit("A");
    reveal_strlit("AAAA");
    reveal_strlit("AFSDB");
    reveal_strlit("HINFO");
    reveal_strlit("MX");
    reveal_strlit("NAPTR");
    reveal_strlit("NS");
    reveal_strlit("PTR");
    reveal_strlit("SOA");
    reveal_strlit("SRV");
    reveal_strlit("TXT");
    assert("AFSDB"@[0] != "HINFO"@[0]);
    assert("AFSDB"@[0] != "NAPTR"@[0]);
    assert("HINFO"@[0] != "NAPTR"@[0]);
    assert("MX"@[0] != "NS"@[0]);
    assert("PTR"@[0] != "SOA"@[0]);
    assert("PTR"@[0] != "SRV"@[0]);
    assert("PTR"@[0] != "TXT"@[0]);
    assert("SOA"@[1] != "SRV"@[1]);
    assert("SOA"@[0] != "TXT"@[0]);
    assert("SRV"@[0] != "TXT"@[0]);
}

/// One TXT attribute string reads back as the attribute it encodes,
/// as long as the key holds no `=`.
proof fn lemma_txt_attr_round_trip(a: TxtAttribute)
    requires
        forall|j: int| 0 <= j < a.key@.len() ==> a.key@[j] != '=',
    ensures
        spec_txt_attr_of_string(spec_txt_attr(a)) == (
            a.key@,
            match a.value {
                Some(v) => Some(v@),
                None => None,
            },
        ),
{
    match a.value {
        Some(v) => {
            let s = a.key@ + seq!['='] + v@;
            assert(spec_txt_attr(a) == s);
            lemma_find_at(s, '=', a.key@.len() as int);
            assert(s.take(a.key@.len() as int) =~= a.key@);
            assert(s.skip(a.key@.len() as int + 1) =~= v@);
        },
        None => {
            lemma_find_absent(a.key@, '=');
        },
    }
}

/// Round trip of the record codec: for every covered variant, the
/// encoded JSON object yields the original structured fields back,
/// value for value.
pub proof fn lemma_record_fields_recoverable(r: RData)
    requires
        spec_round_trip_supported(r),
    ensures
        spec_rdata_of_json(spec_rdata_json(r)) == Some(rdata_model(r)),
{
    lemma_type_literals();
    match r {
        RData::A { address } => {
            lemma_ipv4_round_trip(address);
            lemma_type_literals();
            let m = spec_rdata_json(r);
            let ps = m->Obj_0;
            assert(ps.len() == 2);
            assert(ps[0].0 == "type"@);
            assert(spec_as_str(ps[0].1) == Some("A"@));
            assert(ps[1].0 == "address"@);
            assert(spec_as_str(ps[1].1) == Some(spec_ipv4_string(address)));
            assert(mstr(ps, 1) == spec_ipv4_string(address));
            assert(spec_parse_ipv4(mstr(ps, 1)) == Some(address as nat));
            assert(spec_rdata_of_json(m) == Some(rdata_model(r)));
        },
        RData::AFSDB { subtype, hostname } => {
            lemma_type_literals();
            let m = spec_rdata_json(r);
            let ps = m->Obj_0;
            assert(ps.len() == 3);
            assert(ps[0].0 == "type"@ && spec_as_str(ps[0].1) == Some("AFSDB"@));
            assert(ps[1].0 == "subtype"@ && spec_as_uint(ps[1].1) == Some(subtype as nat));
            assert(ps[2].0 == "hostname"@ && spec_as_str(ps[2].1) == Some(hostname@));
            assert(spec_rdata_of_json(m) == Some(rdata_model(r)));
        },
        RData::HINFO { cpu, os } => {
            lemma_type_literals();
            let m = spec_rdata_json(r);
            let ps = m->Obj_0;
            assert(ps.len() == 3);
            assert(ps[0].0 == "type"@ && spec_as_str(ps[0].1) == Some("HINFO"@));
            assert(ps[1].0 == "cpu"@ && spec_as_str(ps[1].1) == Some(cpu@));
            assert(ps[2].0 == "os"@ && spec_as_str(ps[2].1) == Some(os@));
            assert(spec_rdata_of_json(m) == Some(rdata_model(r)));
        },
        RData::MX { preference, exchange } => {
            lemma_type_literals();
            let m = spec_rdata_json(r);
            let ps = m->Obj_0;
            assert(ps.len() == 3);
            assert(ps[0].0 == "type"@ && spec_as_str(ps[0].1) == Some("MX"@));
            assert(ps[1].0 == "preference"@ && spec_as_uint(ps[1].1) == Some(preference as nat));
            assert(ps[2].0 == "exchange"@ && spec_as_str(ps[2].1) == Some(exchange@));
            assert(spec_rdata_of_json(m) == Some(rdata_model(r)));
        },
        RData::NAPTR { order, preference, flags, services, regexp, replacement } => {
            lemma_type_literals();
            let m = spec_rdata_json(r);
            let ps = m->Obj_0;
            assert(ps.len() == 7);
            assert(ps[0].0 == "type"@ && spec_as_str(ps[0].1) == Some("NAPTR"@));
            assert(ps[1].0 == "order"@ && spec_as_uint(ps[1].1) == Some(order as nat));
            assert(ps[2].0 == "preference"@ && spec_as_uint(ps[2].1) == Some(preference as nat));
            assert(ps[3].0 == "flags"@ && spec_as_str(ps[3].1) == Some(flags@));
            assert(ps[4].0 == "services"@ && spec_as_str(ps[4].1) == Some(services@));
            assert(ps[5].0 == "regexp"@ && spec_as_str(ps[5].1) == Some(regexp@));
            assert(ps[6].0 == "replacement"@ && spec_as_str(ps[6].1) == Some(replacement@));
            assert(spec_rdata_of_json(m) == Some(rdata_model(r)));
        },
        RData::NS { nsdname } => {
            lemma_type_literals();
            let m = spec_rdata_json(r);
            let ps = m->Obj_0;
            assert(ps.len() == 2);
            assert(ps[0].0 == "type"@ && spec_as_str(ps[0].1) == Some("NS"@));
            assert(ps[1].0 == "nsdname"@ && spec_as_str(ps[1].1) == Some(nsdname@));
            assert(spec_rdata_of_json(m) == Some(rdata_model(r)));
        },
        RData::PTR { ptrdname } => {
            lemma_type_literals();
            let m = spec_rdata_json(r);
            let ps = m->Obj_0;
            assert(ps.len() == 2);
            assert(ps[0].0 == "type"@ && spec_as_str(ps[0].1) == Some("PTR"@));
            assert(ps[1].0 == "ptrdname"@ && spec_as_str(ps[1].1) == Some(ptrdname@));
            assert(spec_rdata_of_json(m) == Some(rdata_model(r)));
        },
        RData::SOA { mname, rname, serial, refresh, retry, expire, minimum } => {
            lemma_type_literals();
            let m = spec_rdata_json(r);
            let ps = m->Obj_0;
            assert(ps.len() == 8);
            assert(ps[0].0 == "type"@ && spec_as_str(ps[0].1) == Some("SOA"@));
            assert(ps[1].0 == "mname"@ && spec_as_str(ps[1].1) == Some(mname@));
            assert(ps[2].0 == "rname"@ && spec_as_str(ps[2].1) == Some(rname@));
            assert(ps[3].0 == "serial"@ && spec_as_uint(ps[3].1) == Some(serial as nat));
            assert(ps[4].0 == "refresh"@ && spec_as_int(ps[4].1) == Some(refresh as int));
            assert(ps[5].0 == "retry"@ && spec_as_int(ps[5].1) == Some(retry as int));
            assert(ps[6].0 == "expire"@ && spec_as_int(ps[6].1) == Some(expire as int));
            assert(ps[7].0 == "minimum"@ && spec_as_uint(ps[7].1) == Some(minimum as nat));
            assert(spec_rdata_of_json(m) == Some(rdata_model(r)));
        },
        RData::SRV { priority, weight, port, target } => {
            lemma_type_literals();
            let m = spec_rdata_json(r);
            let ps = m->Obj_0;
            assert(ps.len() == 5);
            assert(ps[0].0 == "type"@ && spec_as_str(ps[0].1) == Some("SRV"@));
            assert(ps[1].0 == "priority"@ && spec_as_uint(ps[1].1) == Some(priority as nat));
            assert(ps[2].0 == "weight"@ && spec_as_uint(ps[2].1) == Some(weight as nat));
            assert(ps[3].0 == "port"@ && spec_as_uint(ps[3].1) == Some(port as nat));
            assert(ps[4].0 == "target"@ && spec_as_str(ps[4].1) == Some(target@));
            assert(spec_rdata_of_json(m) == Some(rdata_model(r)));
        },
        RData::TXT { attributes } => {
            lemma_type_literals();
            let m = spec_rdata_json(r);
            let ps = m->Obj_0;
            let items = ps[1].1->Arr_0;
            assert forall|i: int| 0 <= i < items.len() implies spec_as_str(
                #[trigger] items[i],
            ) is Some by {
                assert(items[i] == JsonModel::Str(spec_txt_attr(attributes@[i])));
            }
            let decoded = spec_txt_attrs_of_json(ps[1].1).unwrap_or(Seq::empty());
            assert forall|i: int| 0 <= i < attributes@.len() implies decoded[i]
                == spec_txt_attr_views(attributes@)[i] by {
                assert(items[i] == JsonModel::Str(spec_txt_attr(attributes@[i])));
                assert(forall|j: int| 0 <= j < attributes@[i].key@.len()
                    ==> attributes@[i].key@[j] != '=');
                lemma_txt_attr_round_trip(attributes@[i]);
            }
            assert(decoded =~= spec_txt_attr_views(attributes@));
        },
        _ => {},
    }
}

} // verus!
