//! A small JSON document model with a verified serializer.
//!
//! Values are built by the codecs and rendered to a string once, at the
//! call boundary.  Objects keep their members in insertion order, which
//! the record codec relies on for deterministic output.

use vstd::prelude::*;
use crate::text::{push_char, spec_dec, spec_hex_digit, write_dec};

verus! {

/// Mathematical model of a JSON value.
#[verifier::ext_equal]
pub enum JsonModel {
    Str(Seq<char>),
    UInt(nat),
    Int(int),
    Arr(Seq<JsonModel>),
    Obj(Seq<(Seq<char>, JsonModel)>),
}

/// A JSON value: string, unsigned integer, signed integer, array, or
/// object with ordered members.
pub enum JsonValue {
    Str(String),
    UInt(u64),
    Int(i64),
    Arr(Vec<JsonValue>),
    Obj(Vec<(String, JsonValue)>),
}

/// The models of the values of `a`, element by element.
pub open spec fn spec_arr_view(a: Seq<JsonValue>) -> Seq<JsonModel>
    decreases a, 1nat,
{
    Seq::new(
        a.len(),
        |i: int|
            if 0 <= i < a.len() {
                a[i]@
            } else {
                JsonModel::UInt(0)
            },
    )
}

/// The models of the members of `m`, key views paired with value models.
pub open spec fn spec_obj_view(m: Seq<(String, JsonValue)>) -> Seq<(Seq<char>, JsonModel)>
    decreases m, 1nat,
{
    Seq::new(
        m.len(),
        |i: int|
            if 0 <= i < m.len() {
                (m[i].0@, m[i].1@)
            } else {
                (Seq::empty(), JsonModel::UInt(0))
            },
    )
}

impl View for JsonValue {
    type V = JsonModel;

    open spec fn view(&self) -> JsonModel
        decreases self, 2nat,
    {
        match self {
            JsonValue::Str(s) => JsonModel::Str(s@),
            JsonValue::UInt(n) => JsonModel::UInt(*n as nat),
            JsonValue::Int(n) => JsonModel::Int(*n as int),
            JsonValue::Arr(a) => JsonModel::Arr(spec_arr_view(a@)),
            JsonValue::Obj(m) => JsonModel::Obj(spec_obj_view(m@)),
        }
    }
}

/// The escape sequence a character contributes inside a JSON string:
/// quote and backslash get a backslash; control characters get their
/// short escapes or a `\u00..` form; everything else stands as itself.
pub open spec fn spec_escape_char(c: char) -> Seq<char> {
    if c == '"' {
        seq!['\\', '"']
    } else if c == '\\' {
        seq!['\\', '\\']
    } else if c == '\u{8}' {
        seq!['\\', 'b']
    } else if c == '\t' {
        seq!['\\', 't']
    } else if c == '\n' {
        seq!['\\', 'n']
    } else if c == '\u{c}' {
        seq!['\\', 'f']
    } else if c == '\r' {
        seq!['\\', 'r']
    } else if (c as u32) < 32 {
        seq!['\\', 'u', '0', '0', spec_hex_digit(((c as u32) / 16) as nat),
            spec_hex_digit(((c as u32) % 16) as nat)]
    } else {
        seq![c]
    }
}

/// The body of a JSON string: every character escaped in order.
pub open spec fn spec_escape(s: Seq<char>) -> Seq<char>
    decreases s.len(),
{
    if s.len() == 0 {
        Seq::empty()
    } else {
        spec_escape_char(s[0]) + spec_escape(s.drop_first())
    }
}

pub proof fn lemma_escape_snoc(s: Seq<char>, c: char)
    ensures
        spec_escape(s.push(c)) =~= spec_escape(s) + spec_escape_char(c),
    decreases s.len(),
{
    if s.len() == 0 {
        assert(s.push(c)[0] == c);
        assert(s.push(c).drop_first() =~= Seq::<char>::empty());
        assert(spec_escape(Seq::<char>::empty()) == Seq::<char>::empty());
        assert(spec_escape(s.push(c)) =~= spec_escape_char(c));
        assert(spec_escape(s) == Seq::<char>::empty());
        assert(spec_escape(s) + spec_escape_char(c) =~= spec_escape_char(c));
    } else {
        assert(s.push(c)[0] == s[0]);
        assert(s.push(c).drop_first() =~= s.drop_first().push(c));
        lemma_escape_snoc(s.drop_first(), c);
        assert(spec_escape(s.push(c)) =~= spec_escape_char(s[0]) + (spec_escape(s.drop_first())
            + spec_escape_char(c)));
    }
}

/// A quoted, escaped JSON string.
pub open spec fn spec_quoted(s: Seq<char>) -> Seq<char> {
    seq!['"'] + spec_escape(s) + seq!['"']
}

/// Decimal rendering of a possibly negative integer.
pub open spec fn spec_int_dec(n: int) -> Seq<char> {
    if n >= 0 {
        spec_dec(n as nat)
    } else {
        seq!['-'] + spec_dec((-n) as nat)
    }
}

/// The serialized form of a JSON model value.
pub open spec fn spec_json(m: JsonModel) -> Seq<char>
    decreases m, 0nat, 0nat,
{
    match m {
        JsonModel::Str(s) => spec_quoted(s),
        JsonModel::UInt(n) => spec_dec(n),
        JsonModel::Int(n) => spec_int_dec(n),
        JsonModel::Arr(a) => seq!['['] + spec_json_items(a, 0) + seq![']'],
        JsonModel::Obj(ms) => seq!['{'] + spec_json_members(ms, 0) + seq!['}'],
    }
}

/// Comma-separated serialization of the array items from `from` on.
pub open spec fn spec_json_items(a: Seq<JsonModel>, from: int) -> Seq<char>
    decreases a, a.len() - from, 1nat,
{
    if from < 0 || from >= a.len() {
        Seq::empty()
    } else {
        let head = spec_json(a[from]);
        if from == a.len() - 1 {
            head
        } else {
            head + seq![','] + spec_json_items(a, from + 1)
        }
    }
}

/// Comma-separated serialization of the object members from `from` on.
pub open spec fn spec_json_members(ms: Seq<(Seq<char>, JsonModel)>, from: int) -> Seq<char>
    decreases ms, ms.len() - from, 1nat,
{
    if from < 0 || from >= ms.len() {
        Seq::empty()
    } else {
        let head = spec_quoted(ms[from].0) + seq![':'] + spec_json(ms[from].1);
        if from == ms.len() - 1 {
            head
        } else {
            head + seq![','] + spec_json_members(ms, from + 1)
        }
    }
}

/// Appends the escaped form of `s` (no surrounding quotes).
fn write_escaped(s: &str, out: &mut String)
    ensures
        final(out)@ == old(out)@ + spec_escape(s@),
{
    let n = s.unicode_len();
    let mut i: usize = 0;
    while i < n
        invariant
            n == s@.len(),
            i <= n,
            out@ == old(out)@ + spec_escape(s@.take(i as int)),
        decreases n - i,
    {
        let c = s.get_char(i);
        let u = c as u32;
        if c == '"' {
            push_char(out, '\\');
            push_char(out, '"');
        } else if c == '\\' {
            push_char(out, '\\');
            push_char(out, '\\');
        } else if u == 8 {
            push_char(out, '\\');
            push_char(out, 'b');
        } else if u == 9 {
            push_char(out, '\\');
            push_char(out, 't');
        } else if u == 10 {
            push_char(out, '\\');
            push_char(out, 'n');
        } else if u == 12 {
            push_char(out, '\\');
            push_char(out, 'f');
        } else if u == 13 {
            push_char(out, '\\');
            push_char(out, 'r');
        } else if u < 32 {
            push_char(out, '\\');
            push_char(out, 'u');
            push_char(out, '0');
            push_char(out, '0');
            let hi = if u / 16 < 10 { (48 + u / 16) as u8 } else { (87 + u / 16) as u8 };
            let lo = if u % 16 < 10 { (48 + u % 16) as u8 } else { (87 + u % 16) as u8 };
            push_char(out, hi as char);
            push_char(out, lo as char);
        } else {
            push_char(out, c);
        }
        proof {
            lemma_escape_snoc(s@.take(i as int), s@[i as int]);
            assert(s@.take(i as int).push(s@[i as int]) =~= s@.take(i as int + 1));
            assert(out@ =~= old(out)@ + spec_escape(s@.take(i as int + 1)));
        }
        i = i + 1;
    }
    proof {
        assert(s@.take(n as int) =~= s@);
    }
}

/// Appends the quoted, escaped form of `s`.
fn write_quoted(s: &str, out: &mut String)
    ensures
        final(out)@ == old(out)@ + spec_quoted(s@),
{
    push_char(out, '"');
    write_escaped(s, out);
    push_char(out, '"');
    proof {
        assert(final(out)@ =~= old(out)@ + spec_quoted(s@));
    }
}

/// Appends the decimal rendering of `n`, with a sign when negative.
fn write_int(n: i64, out: &mut String)
    ensures
        final(out)@ == old(out)@ + spec_int_dec(n as int),
{
    if n >= 0 {
        write_dec(n as u64, out);
    } else {
        push_char(out, '-');
        let m: u64 = if n == i64::MIN {
            9223372036854775808u64
        } else {
            (-n) as u64
        };
        write_dec(m, out);
        proof {
            assert(old(out)@.push('-') + spec_dec(m as nat)
                =~= old(out)@ + spec_int_dec(n as int));
        }
    }
}

/// Appends the serialized form of `v`.
pub fn write_json(v: &JsonValue, out: &mut String)
    ensures
        final(out)@ == old(out)@ + spec_json(v@),
    decreases *v, 0nat, 0nat,
{
    match v {
        JsonValue::Str(s) => {
            write_quoted(s.as_str(), out);
        },
        JsonValue::UInt(n) => {
            write_dec(*n, out);
        },
        JsonValue::Int(n) => {
            write_int(*n, out);
        },
        JsonValue::Arr(a) => {
            push_char(out, '[');
            write_json_items(a, 0, out);
            push_char(out, ']');
            proof {
                assert(final(out)@ =~= old(out)@ + spec_json(v@));
            }
        },
        JsonValue::Obj(m) => {
            push_char(out, '{');
            write_json_members(m, 0, out);
            push_char(out, '}');
            proof {
                assert(final(out)@ =~= old(out)@ + spec_json(v@));
            }
        },
    }
}

fn write_json_items(a: &Vec<JsonValue>, from: usize, out: &mut String)
    requires
        from <= a@.len(),
    ensures
        final(out)@ == old(out)@ + spec_json_items(spec_arr_view(a@), from as int),
    decreases a@, a@.len() - from, 2nat,
{
    let ghost av = spec_arr_view(a@);
    if from == a.len() {
        proof {
            assert(out@ =~= out@ + spec_json_items(av, from as int));
        }
    } else {
        proof {
            assert(av[from as int] == a@[from as int]@);
        }
        write_json(&a[from], out);
        if from + 1 < a.len() {
            push_char(out, ',');
        }
        write_json_items(a, from + 1, out);
        proof {
            assert(final(out)@ =~= old(out)@ + spec_json_items(av, from as int));
        }
    }
}

fn write_json_members(m: &Vec<(String, JsonValue)>, from: usize, out: &mut String)
    requires
        from <= m@.len(),
    ensures
        final(out)@ == old(out)@ + spec_json_members(spec_obj_view(m@), from as int),
    decreases m@, m@.len() - from, 2nat,
{
    let ghost mv = spec_obj_view(m@);
    if from == m.len() {
        proof {
            assert(out@ =~= out@ + spec_json_members(mv, from as int));
        }
    } else {
        proof {
            assert(mv[from as int] == (m@[from as int].0@, m@[from as int].1@));
        }
        write_quoted(m[from].0.as_str(), out);
        push_char(out, ':');
        write_json(&m[from].1, out);
        if from + 1 < m.len() {
            push_char(out, ',');
        }
        write_json_members(m, from + 1, out);
        proof {
            assert(final(out)@ =~= old(out)@ + spec_json_members(mv, from as int));
        }
    }
}

impl JsonValue {
    /// Serializes the value to its JSON text.
    pub fn to_json_string(&self) -> (r: String)
        ensures
            r@ == spec_json(self@),
    {
        let mut out = String::new();
        write_json(self, &mut out);
        proof {
            assert(out@ =~= spec_json(self@));
        }
        out
    }
}

} // verus!
