//! Session summaries for the call boundary: the session's public key
//! and its granted capability strings, as a JSON object.

use vstd::prelude::*;
use crate::json::{JsonModel, JsonValue, spec_json, spec_obj_view, spec_arr_view};

verus! {

/// What the boundary reads out of a session: the owner's public key
/// string and the capability strings granted to it, in order.
pub struct Session {
    pub pubky: String,
    pub capabilities: Vec<String>,
}

/// The capability strings of a session as string models.
pub open spec fn spec_session_caps(caps: Seq<String>) -> Seq<JsonModel> {
    Seq::new(
        caps.len(),
        |i: int|
            if 0 <= i < caps.len() {
                JsonModel::Str(caps[i]@)
            } else {
                JsonModel::UInt(0)
            },
    )
}

/// The JSON model of a session summary.
pub open spec fn spec_session_json(s: Session) -> JsonModel {
    JsonModel::Obj(
        seq![
            ("pubky"@, JsonModel::Str(s.pubky@)),
            ("capabilities"@, JsonModel::Arr(spec_session_caps(s.capabilities@))),
        ],
    )
}

/// The JSON model of a session summary that also carries its secret.
pub open spec fn spec_session_json_with_secret(s: Session, secret: Seq<char>) -> JsonModel {
    JsonModel::Obj(
        seq![
            ("pubky"@, JsonModel::Str(s.pubky@)),
            ("capabilities"@, JsonModel::Arr(spec_session_caps(s.capabilities@))),
            ("session_secret"@, JsonModel::Str(secret)),
        ],
    )
}

fn session_caps_json(caps: &Vec<String>) -> (r: JsonValue)
    ensures
        r@ == JsonModel::Arr(spec_session_caps(caps@)),
{
    let mut items: Vec<JsonValue> = Vec::new();
    let mut i: usize = 0;
    while i < caps.len()
        invariant
            i <= caps@.len(),
            items@.len() == i,
            forall|j: int| 0 <= j < i ==> #[trigger] items@[j]@ == JsonModel::Str(caps@[j]@),
        decreases caps@.len() - i,
    {
        items.push(JsonValue::Str(caps[i].clone()));
        i = i + 1;
    }
    let r = JsonValue::Arr(items);
    proof {
        assert forall|j: int| 0 <= j < items@.len() implies spec_arr_view(items@)[j]
            == spec_session_caps(caps@)[j] by {
            assert(items@[j]@ == JsonModel::Str(caps@[j]@));
        }
        assert(spec_arr_view(items@) =~= spec_session_caps(caps@));
    }
    r
}

/// The JSON text of a session summary.
pub fn session_to_json(session: &Session) -> (r: String)
    ensures
        r@ == spec_json(spec_session_json(*session)),
{
    let caps = session_caps_json(&session.capabilities);
    let mut m: Vec<(String, JsonValue)> = Vec::new();
    m.push((String::from_str("pubky"), JsonValue::Str(session.pubky.clone())));
    m.push((String::from_str("capabilities"), caps));
    let value = JsonValue::Obj(m);
    proof {
        assert(spec_obj_view(m@) =~= seq![
            ("pubky"@, JsonModel::Str(session.pubky@)),
            ("capabilities"@, JsonModel::Arr(spec_session_caps(session.capabilities@))),
        ]);
    }
    value.to_json_string()
}

/// The JSON text of a session summary with its secret alongside.
pub fn session_to_json_with_secret(session: &Session, session_secret: &str) -> (r: String)
    ensures
        r@ == spec_json(spec_session_json_with_secret(*session, session_secret@)),
{
    let caps = session_caps_json(&session.capabilities);
    let mut m: Vec<(String, JsonValue)> = Vec::new();
    m.push((String::from_str("pubky"), JsonValue::Str(session.pubky.clone())));
    m.push((String::from_str("capabilities"), caps));
    m.push((String::from_str("session_secret"), JsonValue::Str(String::from_str(session_secret))));
    let value = JsonValue::Obj(m);
    proof {
        assert(spec_obj_view(m@) =~= seq![
            ("pubky"@, JsonModel::Str(session.pubky@)),
            ("capabilities"@, JsonModel::Arr(spec_session_caps(session.capabilities@))),
            ("session_secret"@, JsonModel::Str(session_secret@)),
        ]);
    }
    value.to_json_string()
}

} // verus!
