//! The `pubkyauth://` authorization URL codec.
//!
//! A URL of that scheme carries a relay endpoint, a one-time secret
//! and an optional comma-separated list of path-scoped capability
//! grants.  Parsing yields a structured descriptor or one terminal
//! error; the descriptor serializes back to a JSON object.

use vstd::prelude::*;
use crate::json::{JsonModel, JsonValue, spec_json, spec_obj_view, spec_arr_view};
use crate::response::create_response_vector;
use crate::text::{chars_to_string, copy_range, find_char, spec_find, spec_split, split_chars,
    str_to_chars, lemma_find_bounds};

verus! {

/// One path-scoped permission grant.
pub struct Capability {
    pub path: String,
    pub permission: String,
}

/// The structured content of an authorization URL.
pub struct PubkyAuthDetails {
    pub relay: String,
    pub capabilities: Vec<Capability>,
    pub secret: String,
}

/// A terminal parse failure of an authorization URL.
#[derive(Debug)]
pub enum AuthParseError {
    InvalidUrl,
    InvalidScheme,
    MissingRelay,
    MissingSecret,
    InvalidCapabilityFormat { token: String },
}

/// Whether the url crate parses `s` at all.
pub uninterp spec fn is_parseable_url(s: Seq<char>) -> bool;

/// The scheme the url crate reads out of `s`, already lowercased.
pub uninterp spec fn url_scheme_of(s: Seq<char>) -> Seq<char>;

/// The percent-decoded query pairs the url crate reads out of `s`, in
/// order of appearance.
pub uninterp spec fn url_query_pairs_of(s: Seq<char>) -> Seq<(Seq<char>, Seq<char>)>;

/// The views of a pair list.
pub open spec fn spec_pairs_view(ps: Seq<(String, String)>) -> Seq<(Seq<char>, Seq<char>)> {
    Seq::new(
        ps.len(),
        |i: int|
            if 0 <= i < ps.len() {
                (ps[i].0@, ps[i].1@)
            } else {
                (Seq::empty(), Seq::empty())
            },
    )
}

/// Relies on url's `Url::parse`, `Url::scheme` and `Url::query_pairs`:
/// parsing is a pure function of the text; the scheme comes back
/// lowercased, and the query pairs come back percent-decoded, in
/// order, split on `&` and on the first `=` of each piece.
#[verifier::external_body]
fn parse_url_parts(s: &str) -> (r: Option<(String, Vec<(String, String)>)>)
    ensures
        r is Some <==> is_parseable_url(s@),
        r is Some ==> r.unwrap().0@ == url_scheme_of(s@),
        r is Some ==> spec_pairs_view(r.unwrap().1@) == url_query_pairs_of(s@),
{
    match url::Url::parse(s) {
        Ok(u) => {
            let scheme = u.scheme().to_string();
            let pairs: Vec<(String, String)> = u.query_pairs().into_owned().collect();
            Some((scheme, pairs))
        },
        Err(_) => None,
    }
}

/// The value of the last pair whose key is `key`, if any: a later
/// occurrence of a query parameter overrides an earlier one.
pub open spec fn spec_last_param(ps: Seq<(Seq<char>, Seq<char>)>, key: Seq<char>) -> Option<
    Seq<char>,
>
    decreases ps.len(),
{
    if ps.len() == 0 {
        None
    } else if ps.last().0 == key {
        Some(ps.last().1)
    } else {
        spec_last_param(ps.drop_last(), key)
    }
}

/// The capability string of the query: `capabilities` if present, else
/// its alias `caps`, else empty.
pub open spec fn spec_caps_str(ps: Seq<(Seq<char>, Seq<char>)>) -> Seq<char> {
    match spec_last_param(ps, "capabilities"@) {
        Some(s) => s,
        None => match spec_last_param(ps, "caps"@) {
            Some(s) => s,
            None => Seq::empty(),
        },
    }
}

/// A capability token split at its first colon: the part before is the
/// path, everything after — colons included — is the permission.  A
/// token without a colon (the empty token among them) is malformed.
pub open spec fn spec_parse_cap(tok: Seq<char>) -> Option<(Seq<char>, Seq<char>)> {
    let i = spec_find(tok, ':');
    if i < tok.len() {
        Some((tok.take(i), tok.skip(i + 1)))
    } else {
        None
    }
}

/// The capability tokens of a non-empty capability string.
pub open spec fn spec_cap_tokens(s: Seq<char>) -> Seq<Seq<char>> {
    spec_split(s, ',')
}

/// Whether every capability token of `s` is well formed.
pub open spec fn spec_caps_ok(s: Seq<char>) -> bool {
    forall|i: int| 0 <= i < spec_cap_tokens(s).len() ==> spec_parse_cap(
        #[trigger] spec_cap_tokens(s)[i],
    ) is Some
}

/// Whether the token at `i` is the first malformed one of `s`.
pub open spec fn spec_cap_bad_at(s: Seq<char>, i: int) -> bool {
    0 <= i < spec_cap_tokens(s).len() && spec_parse_cap(spec_cap_tokens(s)[i]) is None && forall|
        j: int,
    | 0 <= j < i ==> spec_parse_cap(#[trigger] spec_cap_tokens(s)[j]) is Some
}

/// The index of the first malformed capability token of `s`.
pub open spec fn spec_first_bad_cap(s: Seq<char>) -> int {
    choose|i: int| spec_cap_bad_at(s, i)
}

/// The parsed capability list of a well-formed capability string.
pub open spec fn spec_caps_list(s: Seq<char>) -> Seq<(Seq<char>, Seq<char>)> {
    Seq::new(
        spec_cap_tokens(s).len(),
        |i: int|
            if 0 <= i < spec_cap_tokens(s).len() {
                spec_parse_cap(spec_cap_tokens(s)[i]).unwrap_or((Seq::empty(), Seq::empty()))
            } else {
                (Seq::empty(), Seq::empty())
            },
    )
}

/// The views of a capability vector.
pub open spec fn spec_cap_views(cs: Seq<Capability>) -> Seq<(Seq<char>, Seq<char>)> {
    Seq::new(
        cs.len(),
        |i: int|
            if 0 <= i < cs.len() {
                (cs[i].path@, cs[i].permission@)
            } else {
                (Seq::empty(), Seq::empty())
            },
    )
}

/// A capability token splits only at its first colon: a token built
/// from a colon-free path keeps everything after that first colon —
/// later colons included — as the permission.
pub proof fn lemma_capability_splits_at_first_colon(path: Seq<char>, permission: Seq<char>)
    requires
        forall|j: int| 0 <= j < path.len() ==> path[j] != ':',
    ensures
        spec_parse_cap(path + seq![':'] + permission) == Some((path, permission)),
{
    let tok = path + seq![':'] + permission;
    crate::text::lemma_find_at(tok, ':', path.len() as int);
    assert(tok.take(path.len() as int) =~= path);
    assert(tok.skip(path.len() as int + 1) =~= permission);
}

/// Whether the characters of `a` equal those of `b`.
pub fn str_eq(a: &str, b: &str) -> (r: bool)
    ensures
        r == (a@ == b@),
{
    let na = a.unicode_len();
    let nb = b.unicode_len();
    if na != nb {
        proof {
            assert(a@ != b@);
        }
        return false;
    }
    let mut i: usize = 0;
    while i < na
        invariant
            na == a@.len() && na == b@.len(),
            i <= na,
            forall|j: int| 0 <= j < i ==> a@[j] == b@[j],
        decreases na - i,
    {
        if a.get_char(i) != b.get_char(i) {
            proof {
                assert(a@[i as int] != b@[i as int]);
            }
            return false;
        }
        i = i + 1;
    }
    proof {
        assert(a@ =~= b@);
    }
    true
}

/// The value of the last query pair named `key`, if any.
fn last_param(pairs: &Vec<(String, String)>, key: &str) -> (r: Option<String>)
    ensures
        r is Some <==> spec_last_param(spec_pairs_view(pairs@), key@) is Some,
        r is Some ==> r.unwrap()@ == spec_last_param(spec_pairs_view(pairs@), key@).unwrap(),
{
    let ghost pv = spec_pairs_view(pairs@);
    let mut k: usize = pairs.len();
    proof {
        assert(pv.take(k as int) =~= pv);
    }
    while k > 0
        invariant
            k <= pairs@.len(),
            pv == spec_pairs_view(pairs@),
            pv.len() == pairs@.len(),
            spec_last_param(pv, key@) == spec_last_param(pv.take(k as int), key@),
        decreases k,
    {
        proof {
            let pre = pv.take(k as int);
            assert(pre.last() == pv[k - 1]);
            assert(pre.drop_last() =~= pv.take(k as int - 1));
        }
        if str_eq(pairs[k - 1].0.as_str(), key) {
            return Some(pairs[k - 1].1.clone());
        }
        k = k - 1;
    }
    proof {
        assert(pv.take(0) =~= Seq::<(Seq<char>, Seq<char>)>::empty());
    }
    None
}

/// Parses a non-empty capability string: every comma-separated token
/// splits at its first colon into path and permission; the first
/// malformed token aborts the parse and is named in the error.
fn parse_caps(s: &String) -> (r: Result<Vec<Capability>, AuthParseError>)
    ensures
        r is Ok <==> spec_caps_ok(s@),
        r is Ok ==> spec_cap_views(r.unwrap()@) == spec_caps_list(s@),
        r is Err ==> (r.get_Err_0() matches AuthParseError::InvalidCapabilityFormat { token }
            && token@ == spec_cap_tokens(s@)[spec_first_bad_cap(s@)]),
{
    let chars = str_to_chars(s.as_str());
    let tokens = split_chars(&chars, ',');
    let ghost toks = spec_cap_tokens(s@);
    proof {
        assert(tokens.deep_view() == toks);
    }
    let mut caps: Vec<Capability> = Vec::new();
    let mut i: usize = 0;
    while i < tokens.len()
        invariant
            i <= tokens@.len(),
            toks == spec_cap_tokens(s@),
            tokens.deep_view() == toks,
            tokens@.len() == toks.len(),
            caps@.len() == i,
            forall|j: int| 0 <= j < i ==> spec_parse_cap(#[trigger] toks[j]) is Some,
            forall|j: int| 0 <= j < i ==> (#[trigger] caps@[j].path@, caps@[j].permission@)
                == spec_parse_cap(toks[j]).unwrap(),
        decreases tokens@.len() - i,
    {
        let tok = &tokens[i];
        proof {
            assert(tokens.deep_view()[i as int] == tok@);
            lemma_find_bounds(tok@, ':');
        }
        let colon = find_char(tok, 0, ':');
        proof {
            assert(tok@.skip(0) =~= tok@);
        }
        if colon == tok.len() {
            let token = chars_to_string(tok);
            proof {
                assert(spec_parse_cap(toks[i as int]) is None);
                assert(spec_cap_bad_at(s@, i as int));
                assert(exists|x: int| spec_cap_bad_at(s@, x));
                let bad = spec_first_bad_cap(s@);
                assert(spec_cap_bad_at(s@, bad));
                assert(bad == i as int) by {
                    if bad < i as int {
                        assert(spec_parse_cap(toks[bad]) is Some);
                    }
                    if bad > i as int {
                        assert(spec_parse_cap(toks[i as int]) is Some);
                    }
                }
            }
            return Err(AuthParseError::InvalidCapabilityFormat { token });
        }
        let path_chars = copy_range(tok, 0, colon);
        let perm_chars = copy_range(tok, colon + 1, tok.len());
        let path = chars_to_string(&path_chars);
        let permission = chars_to_string(&perm_chars);
        proof {
            assert(spec_find(tok@, ':') == colon as int);
            assert(tok@.take(colon as int) =~= tok@.subrange(0, colon as int));
            assert(tok@.skip(colon as int + 1) =~= tok@.subrange(colon as int + 1,
                tok@.len() as int));
            assert(spec_parse_cap(toks[i as int]) == Some((path@, permission@)));
        }
        caps.push(Capability { path, permission });
        i = i + 1;
    }
    proof {
        assert(spec_cap_views(caps@) =~= spec_caps_list(s@));
    }
    Ok(caps)
}

/// Parses an authorization URL into its descriptor.
///
/// The input must parse as a URL of scheme `pubkyauth`; the query must
/// name `relay` and `secret` (a later duplicate overrides an earlier
/// one); the capability list comes from `capabilities`, or its alias
/// `caps`, and may be absent or empty.  Each error names the first
/// check that failed, in that order.
pub fn parse_pubky_auth_url(url_str: &str) -> (r: Result<PubkyAuthDetails, AuthParseError>)
    ensures
        r matches Err(AuthParseError::InvalidUrl) <==> !is_parseable_url(url_str@),
        r matches Err(AuthParseError::InvalidScheme) <==> (is_parseable_url(url_str@)
            && url_scheme_of(url_str@) != "pubkyauth"@),
        r matches Err(AuthParseError::MissingRelay) <==> (is_parseable_url(url_str@)
            && url_scheme_of(url_str@) == "pubkyauth"@ && spec_last_param(
            url_query_pairs_of(url_str@),
            "relay"@,
        ) is None),
        r matches Err(AuthParseError::MissingSecret) <==> (is_parseable_url(url_str@)
            && url_scheme_of(url_str@) == "pubkyauth"@ && spec_last_param(
            url_query_pairs_of(url_str@),
            "relay"@,
        ) is Some && spec_last_param(url_query_pairs_of(url_str@), "secret"@) is None),
        r is Ok <==> (is_parseable_url(url_str@) && url_scheme_of(url_str@) == "pubkyauth"@
            && spec_last_param(url_query_pairs_of(url_str@), "relay"@) is Some && spec_last_param(
            url_query_pairs_of(url_str@),
            "secret"@,
        ) is Some && (spec_caps_str(url_query_pairs_of(url_str@)).len() == 0 || spec_caps_ok(
            spec_caps_str(url_query_pairs_of(url_str@)),
        ))),
        r is Ok ==> r.unwrap().relay@ == spec_last_param(
            url_query_pairs_of(url_str@),
            "relay"@,
        ).unwrap(),
        r is Ok ==> r.unwrap().secret@ == spec_last_param(
            url_query_pairs_of(url_str@),
            "secret"@,
        ).unwrap(),
        r is Ok ==> spec_cap_views(r.unwrap().capabilities@) == if spec_caps_str(
            url_query_pairs_of(url_str@),
        ).len() == 0 {
            Seq::<(Seq<char>, Seq<char>)>::empty()
        } else {
            spec_caps_list(spec_caps_str(url_query_pairs_of(url_str@)))
        },
        r matches Err(AuthParseError::InvalidCapabilityFormat { token }) ==> ({
            let cs = spec_caps_str(url_query_pairs_of(url_str@));
            cs.len() > 0 && !spec_caps_ok(cs) && token@ == spec_cap_tokens(
                cs,
            )[spec_first_bad_cap(cs)]
        }),
{
    let parts = match parse_url_parts(url_str) {
        Some(p) => p,
        None => {
            return Err(AuthParseError::InvalidUrl);
        },
    };
    let (scheme, pairs) = parts;
    if !str_eq(scheme.as_str(), "pubkyauth") {
        return Err(AuthParseError::InvalidScheme);
    }
    let relay = match last_param(&pairs, "relay") {
        Some(v) => v,
        None => {
            return Err(AuthParseError::MissingRelay);
        },
    };
    let secret = match last_param(&pairs, "secret") {
        Some(v) => v,
        None => {
            return Err(AuthParseError::MissingSecret);
        },
    };
    let caps_str = match last_param(&pairs, "capabilities") {
        Some(v) => v,
        None => match last_param(&pairs, "caps") {
            Some(v) => v,
            None => String::new(),
        },
    };
    let capabilities = if caps_str.as_str().unicode_len() == 0 {
        Vec::new()
    } else {
        match parse_caps(&caps_str) {
            Ok(cs) => cs,
            Err(e) => {
                return Err(e);
            },
        }
    };
    proof {
        if caps_str@.len() == 0 {
            assert(spec_cap_views(Seq::<Capability>::empty()) =~= Seq::<(
                Seq<char>,
                Seq<char>,
            )>::empty());
        }
    }
    Ok(PubkyAuthDetails { relay, capabilities, secret })
}

/// The JSON model of a descriptor: relay, secret, then the capability
/// list in original order, each entry an object of path and permission.
pub open spec fn spec_auth_json(relay: Seq<char>, secret: Seq<char>, caps: Seq<(Seq<char>, Seq<char>)>) -> JsonModel {
    JsonModel::Obj(
        seq![
            ("relay"@, JsonModel::Str(relay)),
            ("secret"@, JsonModel::Str(secret)),
            (
                "capabilities"@,
                JsonModel::Arr(
                    Seq::new(
                        caps.len(),
                        |i: int|
                            if 0 <= i < caps.len() {
                                JsonModel::Obj(
                                    seq![
                                        ("path"@, JsonModel::Str(caps[i].0)),
                                        ("permission"@, JsonModel::Str(caps[i].1)),
                                    ],
                                )
                            } else {
                                JsonModel::UInt(0)
                            },
                    ),
                ),
            ),
        ],
    )
}

/// Serializes a descriptor to its JSON text.
pub fn pubky_auth_details_to_json(details: &PubkyAuthDetails) -> (r: Result<String, String>)
    ensures
        r is Ok,
        r is Ok ==> r.unwrap()@ == spec_json(
            spec_auth_json(
                details.relay@,
                details.secret@,
                spec_cap_views(details.capabilities@),
            ),
        ),
{
    let mut items: Vec<JsonValue> = Vec::new();
    let mut i: usize = 0;
    while i < details.capabilities.len()
        invariant
            i <= details.capabilities@.len(),
            items@.len() == i,
            forall|j: int| 0 <= j < i ==> #[trigger] items@[j]@ == JsonModel::Obj(
                seq![
                    ("path"@, JsonModel::Str(details.capabilities@[j].path@)),
                    ("permission"@, JsonModel::Str(details.capabilities@[j].permission@)),
                ],
            ),
        decreases details.capabilities@.len() - i,
    {
        let mut m: Vec<(String, JsonValue)> = Vec::new();
        m.push((String::from_str("path"), JsonValue::Str(details.capabilities[i].path.clone())));
        m.push(
            (
                String::from_str("permission"),
                JsonValue::Str(details.capabilities[i].permission.clone()),
            ),
        );
        let obj = JsonValue::Obj(m);
        proof {
            assert(spec_obj_view(m@) =~= seq![
                ("path"@, JsonModel::Str(details.capabilities@[i as int].path@)),
                ("permission"@, JsonModel::Str(details.capabilities@[i as int].permission@)),
            ]);
        }
        items.push(obj);
        i = i + 1;
    }
    let mut top: Vec<(String, JsonValue)> = Vec::new();
    top.push((String::from_str("relay"), JsonValue::Str(details.relay.clone())));
    top.push((String::from_str("secret"), JsonValue::Str(details.secret.clone())));
    top.push((String::from_str("capabilities"), JsonValue::Arr(items)));
    let value = JsonValue::Obj(top);
    proof {
        let caps = spec_cap_views(details.capabilities@);
        let expected_items = Seq::new(
            caps.len(),
            |k: int|
                if 0 <= k < caps.len() {
                    JsonModel::Obj(
                        seq![
                            ("path"@, JsonModel::Str(caps[k].0)),
                            ("permission"@, JsonModel::Str(caps[k].1)),
                        ],
                    )
                } else {
                    JsonModel::UInt(0)
                },
        );
        assert forall|k: int| 0 <= k < items@.len() implies spec_arr_view(items@)[k]
            == expected_items[k] by {
            assert(items@[k]@ == JsonModel::Obj(
                seq![
                    ("path"@, JsonModel::Str(details.capabilities@[k].path@)),
                    ("permission"@, JsonModel::Str(details.capabilities@[k].permission@)),
                ],
            ));
            assert(caps[k].0 == details.capabilities@[k].path@ && caps[k].1
                == details.capabilities@[k].permission@);
        }
        assert(spec_arr_view(items@) =~= expected_items);
        assert(spec_obj_view(top@) =~= seq![
            ("relay"@, JsonModel::Str(details.relay@)),
            ("secret"@, JsonModel::Str(details.secret@)),
            ("capabilities"@, JsonModel::Arr(expected_items)),
        ]);
        assert(value@ == spec_auth_json(
            details.relay@,
            details.secret@,
            spec_cap_views(details.capabilities@),
        ));
    }
    Ok(value.to_json_string())
}

impl AuthParseError {
    /// The boundary message of this error, as a single line.
    pub fn message(&self) -> (r: String)
        ensures
            self matches AuthParseError::InvalidUrl ==> r@ == "Invalid URL"@,
            self matches AuthParseError::InvalidScheme ==> r@
                == "Invalid scheme, expected 'pubkyauth'"@,
            self matches AuthParseError::MissingRelay ==> r@ == "Missing relay"@,
            self matches AuthParseError::MissingSecret ==> r@ == "Missing secret"@,
            self matches AuthParseError::InvalidCapabilityFormat { token } ==> r@
                == "Invalid capability format in '"@ + token@ + "'"@,
    {
        match self {
            AuthParseError::InvalidUrl => String::from_str("Invalid URL"),
            AuthParseError::InvalidScheme => String::from_str(
                "Invalid scheme, expected 'pubkyauth'",
            ),
            AuthParseError::MissingRelay => String::from_str("Missing relay"),
            AuthParseError::MissingSecret => String::from_str("Missing secret"),
            AuthParseError::InvalidCapabilityFormat { token } => {
                let mut s = String::from_str("Invalid capability format in '");
                s.append(token.as_str());
                s.append("'");
                proof {
                    assert(s@ =~= "Invalid capability format in '"@ + token@ + "'"@);
                }
                s
            },
        }
    }
}

/// Whether an authorization URL parses clean through: a URL of scheme
/// `pubkyauth` naming relay and secret, with a well-formed capability
/// list where one is given.
pub open spec fn spec_auth_url_ok(s: Seq<char>) -> bool {
    is_parseable_url(s) && url_scheme_of(s) == "pubkyauth"@ && spec_last_param(
        url_query_pairs_of(s),
        "relay"@,
    ) is Some && spec_last_param(url_query_pairs_of(s), "secret"@) is Some && (spec_caps_str(
        url_query_pairs_of(s),
    ).len() == 0 || spec_caps_ok(spec_caps_str(url_query_pairs_of(s))))
}

/// Parses an authorization URL and answers in the boundary shape: on
/// success the JSON text of the descriptor, on failure the error line.
pub fn parse_auth_url(url: String) -> (r: Vec<String>)
    ensures
        r@.len() == 2,
        r@[0]@ == if spec_auth_url_ok(url@) {
            "false"@
        } else {
            "true"@
        },
        spec_auth_url_ok(url@) ==> r@[1]@ == spec_json(
            spec_auth_json(
                spec_last_param(url_query_pairs_of(url@), "relay"@).unwrap(),
                spec_last_param(url_query_pairs_of(url@), "secret"@).unwrap(),
                if spec_caps_str(url_query_pairs_of(url@)).len() == 0 {
                    Seq::empty()
                } else {
                    spec_caps_list(spec_caps_str(url_query_pairs_of(url@)))
                },
            ),
        ),
        !is_parseable_url(url@) ==> r@[1]@ == "Invalid URL"@,
        is_parseable_url(url@) && url_scheme_of(url@) != "pubkyauth"@ ==> r@[1]@
            == "Invalid scheme, expected 'pubkyauth'"@,
        is_parseable_url(url@) && url_scheme_of(url@) == "pubkyauth"@ && spec_last_param(
            url_query_pairs_of(url@),
            "relay"@,
        ) is None ==> r@[1]@ == "Missing relay"@,
        is_parseable_url(url@) && url_scheme_of(url@) == "pubkyauth"@ && spec_last_param(
            url_query_pairs_of(url@),
            "relay"@,
        ) is Some && spec_last_param(url_query_pairs_of(url@), "secret"@) is None ==> r@[1]@
            == "Missing secret"@,
{
    let details = match parse_pubky_auth_url(url.as_str()) {
        Ok(d) => d,
        Err(e) => {
            return create_response_vector(true, e.message());
        },
    };
    match pubky_auth_details_to_json(&details) {
        Ok(json) => create_response_vector(false, json),
        Err(e) => create_response_vector(true, e),
    }
}

} // verus!
