//! Character-level text utilities shared by the codecs: conversion
//! between `String` and `Vec<char>`, decimal and hexadecimal rendering
//! of integers, and splitting of character sequences.

use vstd::prelude::*;

verus! {

/// Relies on std's `String::push`: appends one character at the end.
#[verifier::external_body]
pub fn push_char(s: &mut String, c: char)
    ensures
        final(s)@ == old(s)@.push(c),
{
    s.push(c);
}

/// The characters of `s`, one per element.
pub fn str_to_chars(s: &str) -> (r: Vec<char>)
    ensures
        r@ == s@,
{
    let n = s.unicode_len();
    let mut r: Vec<char> = Vec::new();
    let mut i: usize = 0;
    while i < n
        invariant
            n == s@.len(),
            i <= n,
            r@ == s@.take(i as int),
        decreases n - i,
    {
        r.push(s.get_char(i));
        i = i + 1;
        proof {
            assert(r@ =~= s@.take(i as int));
        }
    }
    proof {
        assert(s@.take(n as int) =~= s@);
    }
    r
}

/// The string holding exactly the characters of `v`.
pub fn chars_to_string(v: &Vec<char>) -> (r: String)
    ensures
        r@ == v@,
{
    let mut r = String::new();
    let mut i: usize = 0;
    while i < v.len()
        invariant
            i <= v@.len(),
            r@ == v@.take(i as int),
        decreases v@.len() - i,
    {
        push_char(&mut r, v[i]);
        i = i + 1;
        proof {
            assert(r@ =~= v@.take(i as int));
        }
    }
    proof {
        assert(v@.take(v@.len() as int) =~= v@);
    }
    r
}

/// The characters of `v` from `from` (inclusive) to `to` (exclusive).
pub fn copy_range(v: &Vec<char>, from: usize, to: usize) -> (r: Vec<char>)
    requires
        from <= to <= v@.len(),
    ensures
        r@ == v@.subrange(from as int, to as int),
{
    let mut r: Vec<char> = Vec::new();
    let mut i: usize = from;
    while i < to
        invariant
            from <= i <= to <= v@.len(),
            r@ == v@.subrange(from as int, i as int),
        decreases to - i,
    {
        r.push(v[i]);
        i = i + 1;
        proof {
            assert(r@ =~= v@.subrange(from as int, i as int));
        }
    }
    r
}

/// The bytes of `v` from `from` (inclusive) to `to` (exclusive).
pub fn copy_range_bytes(v: &Vec<u8>, from: usize, to: usize) -> (r: Vec<u8>)
    requires
        from <= to <= v@.len(),
    ensures
        r@ == v@.subrange(from as int, to as int),
{
    let mut r: Vec<u8> = Vec::new();
    let mut i: usize = from;
    while i < to
        invariant
            from <= i <= to <= v@.len(),
            r@ == v@.subrange(from as int, i as int),
        decreases to - i,
    {
        r.push(v[i]);
        i = i + 1;
        proof {
            assert(r@ =~= v@.subrange(from as int, i as int));
        }
    }
    r
}

/// The character for a single decimal digit.
pub open spec fn spec_digit(d: nat) -> char
    recommends
        d < 10,
{
    ((48 + d) as u8) as char
}

/// Decimal rendering of a natural number, most significant digit first.
pub open spec fn spec_dec(n: nat) -> Seq<char>
    decreases n,
{
    if n < 10 {
        seq![spec_digit(n)]
    } else {
        spec_dec(n / 10).push(spec_digit(n % 10))
    }
}

/// Appends the decimal rendering of `n`.
pub fn write_dec(n: u64, out: &mut String)
    ensures
        final(out)@ == old(out)@ + spec_dec(n as nat),
    decreases n,
{
    if n < 10 {
        push_char(out, (48 + n as u8) as char);
        proof {
            assert(old(out)@.push(spec_digit(n as nat)) =~= old(out)@ + spec_dec(n as nat));
        }
    } else {
        write_dec(n / 10, out);
        push_char(out, (48 + (n % 10) as u8) as char);
        proof {
            assert((old(out)@ + spec_dec((n / 10) as nat)).push(spec_digit((n % 10) as nat))
                =~= old(out)@ + spec_dec(n as nat));
        }
    }
}

/// The character for a single lowercase hexadecimal digit.
pub open spec fn spec_hex_digit(d: nat) -> char
    recommends
        d < 16,
{
    if d < 10 {
        ((48 + d) as u8) as char
    } else {
        ((87 + d) as u8) as char
    }
}

/// Lowercase hexadecimal rendering without leading zeros.
pub open spec fn spec_hex(n: nat) -> Seq<char>
    decreases n,
{
    if n < 16 {
        seq![spec_hex_digit(n)]
    } else {
        spec_hex(n / 16).push(spec_hex_digit(n % 16))
    }
}

fn hex_digit_char(d: u8) -> (c: char)
    requires
        d < 16,
    ensures
        c == spec_hex_digit(d as nat),
{
    if d < 10 {
        (48 + d) as char
    } else {
        (87 + d) as char
    }
}

/// Appends the lowercase hexadecimal rendering of `n`, no leading zeros.
pub fn write_hex(n: u64, out: &mut String)
    ensures
        final(out)@ == old(out)@ + spec_hex(n as nat),
    decreases n,
{
    if n < 16 {
        let c = hex_digit_char(n as u8);
        push_char(out, c);
        proof {
            assert(old(out)@.push(spec_hex_digit(n as nat)) =~= old(out)@ + spec_hex(n as nat));
        }
    } else {
        write_hex(n / 16, out);
        let c = hex_digit_char((n % 16) as u8);
        push_char(out, c);
        proof {
            assert((old(out)@ + spec_hex((n / 16) as nat)).push(spec_hex_digit((n % 16) as nat))
                =~= old(out)@ + spec_hex(n as nat));
        }
    }
}

/// The length of `s` once trailing occurrences of `c` are removed.
pub open spec fn spec_trimmed_len(s: Seq<char>, c: char) -> int
    decreases s.len(),
{
    if s.len() > 0 && s.last() == c {
        spec_trimmed_len(s.drop_last(), c)
    } else {
        s.len() as int
    }
}

/// `s` without its trailing occurrences of `c`.
pub fn trim_trailing(s: &str, c: char) -> (r: String)
    ensures
        r@ == s@.take(spec_trimmed_len(s@, c)),
{
    let n = s.unicode_len();
    let mut end: usize = n;
    proof {
        assert(s@.take(n as int) =~= s@);
    }
    while end > 0 && s.get_char(end - 1) == c
        invariant
            end <= n,
            n == s@.len(),
            spec_trimmed_len(s@, c) == spec_trimmed_len(s@.take(end as int), c),
        decreases end,
    {
        proof {
            let pre = s@.take(end as int);
            assert(pre.last() == s@[end - 1]);
            assert(pre.drop_last() =~= s@.take(end as int - 1));
        }
        end = end - 1;
    }
    proof {
        let pre = s@.take(end as int);
        if end > 0 {
            assert(pre.last() == s@[end - 1]);
        }
        assert(spec_trimmed_len(s@.take(end as int), c) == end as int);
    }
    let chars = str_to_chars(s);
    let kept = copy_range(&chars, 0, end);
    let r = chars_to_string(&kept);
    proof {
        assert(chars@.subrange(0, end as int) =~= s@.take(end as int));
    }
    r
}

/// Index of the first occurrence of `sep` in `s`, or `s.len()` if absent.
pub open spec fn spec_find(s: Seq<char>, sep: char) -> int
    decreases s.len(),
{
    if s.len() == 0 {
        0
    } else if s[0] == sep {
        0
    } else {
        1 + spec_find(s.drop_first(), sep)
    }
}

pub proof fn lemma_find_bounds(s: Seq<char>, sep: char)
    ensures
        0 <= spec_find(s, sep) <= s.len(),
        forall|j: int| 0 <= j < spec_find(s, sep) ==> s[j] != sep,
        spec_find(s, sep) < s.len() ==> s[spec_find(s, sep)] == sep,
    decreases s.len(),
{
    if s.len() == 0 {
    } else if s[0] == sep {
    } else {
        lemma_find_bounds(s.drop_first(), sep);
        assert forall|j: int| 0 <= j < spec_find(s, sep) implies s[j] != sep by {
            if j > 0 {
                assert(s.drop_first()[j - 1] == s[j]);
            }
        }
    }
}

/// First index at or after `from` holding `sep`, or the length.
pub fn find_char(v: &Vec<char>, from: usize, sep: char) -> (r: usize)
    requires
        from <= v@.len(),
    ensures
        r == from + spec_find(v@.skip(from as int), sep),
        from <= r <= v@.len(),
        forall|j: int| from <= j < r ==> v@[j] != sep,
        r < v@.len() ==> v@[r as int] == sep,
{
    proof {
        lemma_find_bounds(v@.skip(from as int), sep);
    }
    let mut i: usize = from;
    while i < v.len()
        invariant
            from <= i <= v@.len(),
            forall|j: int| from <= j < i ==> v@[j] != sep,
            spec_find(v@.skip(from as int), sep) == i - from
                + spec_find(v@.skip(i as int), sep),
        decreases v@.len() - i,
    {
        proof {
            lemma_find_bounds(v@.skip(i as int), sep);
            assert(v@.skip(i as int)[0] == v@[i as int]);
            assert(v@.skip(i as int).drop_first() =~= v@.skip(i as int + 1));
        }
        if v[i] == sep {
            proof {
                assert(spec_find(v@.skip(i as int), sep) == 0);
            }
            return i;
        }
        i = i + 1;
    }
    proof {
        assert(v@.skip(i as int).len() == 0);
    }
    i
}

/// Whether `c` is an ASCII decimal digit.
pub open spec fn spec_is_digit(c: char) -> bool {
    48 <= c as u32 <= 57
}

/// The value of an ASCII decimal digit.
pub open spec fn spec_digit_val(c: char) -> nat
    recommends
        spec_is_digit(c),
{
    if 48 <= c as u32 <= 57 {
        (c as u32 - 48) as nat
    } else {
        0
    }
}

/// Whether every character of `s` is a decimal digit.
pub open spec fn spec_all_digits(s: Seq<char>) -> bool {
    forall|i: int| 0 <= i < s.len() ==> spec_is_digit(#[trigger] s[i])
}

/// The number a digit string denotes, most significant digit first.
pub open spec fn spec_dec_val(s: Seq<char>) -> nat
    decreases s.len(),
{
    if s.len() == 0 {
        0
    } else {
        10 * spec_dec_val(s.drop_last()) + spec_digit_val(s.last())
    }
}

/// The number a non-empty digit string denotes, or nothing.
pub open spec fn spec_parse_dec(s: Seq<char>) -> Option<nat> {
    if s.len() > 0 && spec_all_digits(s) {
        Some(spec_dec_val(s))
    } else {
        None
    }
}

pub proof fn lemma_dec_digits(n: nat)
    ensures
        spec_dec(n).len() > 0,
        spec_all_digits(spec_dec(n)),
    decreases n,
{
    if n < 10 {
    } else {
        lemma_dec_digits(n / 10);
        let pre = spec_dec(n / 10);
        assert forall|i: int| 0 <= i < spec_dec(n).len() implies spec_is_digit(
            #[trigger] spec_dec(n)[i],
        ) by {
            if i < pre.len() {
                assert(spec_dec(n)[i] == pre[i]);
            } else {
                assert(spec_dec(n)[i] == spec_digit(n % 10));
            }
        }
    }
}

/// Reading a decimal rendering back gives the number it came from.
pub proof fn lemma_dec_round_trip(n: nat)
    ensures
        spec_parse_dec(spec_dec(n)) == Some(n),
    decreases n,
{
    lemma_dec_digits(n);
    if n < 10 {
        assert(spec_dec(n).drop_last() =~= Seq::<char>::empty());
        assert(spec_dec(n).last() == spec_digit(n));
        assert(spec_digit(n) as u32 == 48 + n);
        assert(spec_digit_val(spec_digit(n)) == n);
        assert(spec_dec_val(Seq::<char>::empty()) == 0);
        assert(spec_dec_val(spec_dec(n)) == n);
    } else {
        lemma_dec_round_trip(n / 10);
        let whole = spec_dec(n);
        assert(whole.drop_last() =~= spec_dec(n / 10));
        assert(whole.last() == spec_digit(n % 10));
        lemma_dec_digits(n / 10);
        assert(spec_dec_val(whole) == 10 * (n / 10) + n % 10);
    }
}

pub proof fn lemma_find_at(s: Seq<char>, sep: char, i: int)
    requires
        0 <= i < s.len(),
        s[i] == sep,
        forall|j: int| 0 <= j < i ==> s[j] != sep,
    ensures
        spec_find(s, sep) == i,
    decreases i,
{
    if i == 0 {
    } else {
        assert(s[0] != sep);
        lemma_find_at(s.drop_first(), sep, i - 1);
    }
}

pub proof fn lemma_find_absent(s: Seq<char>, sep: char)
    requires
        forall|j: int| 0 <= j < s.len() ==> s[j] != sep,
    ensures
        spec_find(s, sep) == s.len(),
    decreases s.len(),
{
    if s.len() > 0 {
        lemma_find_absent(s.drop_first(), sep);
    }
}

/// Splitting `x + sep + rest` where `x` is separator-free peels `x`
/// off as the first piece.
pub proof fn lemma_split_prefix(x: Seq<char>, rest: Seq<char>, sep: char)
    requires
        forall|j: int| 0 <= j < x.len() ==> x[j] != sep,
    ensures
        spec_split(x + seq![sep] + rest, sep) == seq![x] + spec_split(rest, sep),
{
    let s = x + seq![sep] + rest;
    lemma_find_at(s, sep, x.len() as int);
    assert(s.take(x.len() as int) =~= x);
    assert(s.skip(x.len() as int + 1) =~= rest);
}

/// Splitting a separator-free string gives that one piece.
pub proof fn lemma_split_whole(x: Seq<char>, sep: char)
    requires
        forall|j: int| 0 <= j < x.len() ==> x[j] != sep,
    ensures
        spec_split(x, sep) == seq![x],
{
    lemma_find_absent(x, sep);
}

/// The pieces of `s` between occurrences of `sep`: an empty `s` gives
/// one empty piece, and every separator opens a new piece.
pub open spec fn spec_split(s: Seq<char>, sep: char) -> Seq<Seq<char>>
    decreases s.len(),
{
    let i = spec_find(s, sep);
    if 0 <= i < s.len() {
        seq![s.take(i)] + spec_split(s.skip(i + 1), sep)
    } else {
        seq![s]
    }
}

/// Splits `v` on every occurrence of `sep`.
pub fn split_chars(v: &Vec<char>, sep: char) -> (r: Vec<Vec<char>>)
    ensures
        r.deep_view() == spec_split(v@, sep),
{
    let mut r: Vec<Vec<char>> = Vec::new();
    let mut start: usize = 0;
    proof {
        assert(v@.skip(0) =~= v@);
        assert(r.deep_view() =~= Seq::<Seq<char>>::empty());
        assert(r.deep_view() + spec_split(v@, sep) =~= spec_split(v@, sep));
    }
    loop
        invariant
            start <= v@.len(),
            spec_split(v@, sep) =~= r.deep_view() + spec_split(v@.skip(start as int), sep),
        decreases v@.len() - start + 1,
    {
        let ghost prev = r.deep_view();
        let e = find_char(v, start, sep);
        let piece = copy_range(v, start, e);
        proof {
            let s = v@.skip(start as int);
            lemma_find_bounds(s, sep);
            assert(s.take(spec_find(s, sep)) =~= v@.subrange(start as int, e as int));
        }
        r.push(piece);
        proof {
            assert(piece.deep_view() =~= piece@);
            assert(r.deep_view() =~~= prev.push(piece@));
        }
        if e == v.len() {
            proof {
                let s = v@.skip(start as int);
                assert(spec_find(s, sep) == s.len());
                assert(s =~= v@.subrange(start as int, e as int));
                assert(spec_split(s, sep) == seq![s]);
                assert(prev.push(s) =~= prev + seq![s]);
                assert(r.deep_view() =~= spec_split(v@, sep));
            }
            return r;
        }
        proof {
            let s = v@.skip(start as int);
            let i = spec_find(s, sep);
            assert(i < s.len());
            assert(spec_split(s, sep) == seq![s.take(i)] + spec_split(s.skip(i + 1), sep));
            assert(s.skip(i + 1) =~= v@.skip(e as int + 1));
            assert(prev.push(piece@) + spec_split(v@.skip(e as int + 1), sep)
                =~= prev + (seq![s.take(i)] + spec_split(s.skip(i + 1), sep)));
        }
        start = e + 1;
    }
}

} // verus!
