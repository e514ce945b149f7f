//! A JSON document as the library reads it: the value of a device response.
//!
//! Numbers are held as their decimal text, exactly as the JSON number was written
//! out by the decoder (an integer as plain digits, any other number with a
//! fraction or exponent), so no floating-point value is needed to carry them.
//! Object members keep the order in which the decoder delivers them.

use vstd::prelude::*;
use crate::text::{all_digits, digit_of, digits_value, is_digit_char, push_char, to_chars};

verus! {

/// A JSON value.
#[derive(Debug)]
pub enum Json {
    Null,
    Bool(bool),
    /// A number, as its decimal text.
    Number(String),
    Str(String),
    Array(Vec<Json>),
    Object(Vec<(String, Json)>),
}

/// The value of the first member named `key`.
pub open spec fn find_key(es: Seq<(String, Json)>, key: Seq<char>) -> Option<Json>
    decreases es.len(),
{
    if es.len() == 0 {
        None
    } else if es[0].0@ == key {
        Some(es[0].1)
    } else {
        find_key(es.drop_first(), key)
    }
}

/// The first member named `key` is the one at `i` when no member before it has that name.
pub proof fn lemma_find_key_at(es: Seq<(String, Json)>, key: Seq<char>, i: int)
    requires
        0 <= i < es.len(),
        es[i].0@ == key,
        forall|j: int| 0 <= j < i ==> (#[trigger] es[j]).0@ != key,
    ensures
        find_key(es, key) == Some(es[i].1),
    decreases i,
{
    if i > 0 {
        assert(es[0].0@ != key);
        assert forall|j: int| 0 <= j < i - 1 implies (#[trigger] es.drop_first()[j]).0@ != key by {
            assert(es.drop_first()[j] == es[j + 1]);
        }
        lemma_find_key_at(es.drop_first(), key, i - 1);
    }
}

/// No member is found when none has the name `key`.
pub proof fn lemma_find_key_none(es: Seq<(String, Json)>, key: Seq<char>)
    requires
        forall|j: int| 0 <= j < es.len() ==> (#[trigger] es[j]).0@ != key,
    ensures
        find_key(es, key) is None,
    decreases es.len(),
{
    if es.len() > 0 {
        assert(es[0].0@ != key);
        assert forall|j: int| 0 <= j < es.len() - 1 implies (#[trigger] es.drop_first()[j]).0@ != key by {
            assert(es.drop_first()[j] == es[j + 1]);
        }
        lemma_find_key_none(es.drop_first(), key);
    }
}

/// `Value::get(key)`: the member `key` of an object; nothing for any other value.
pub open spec fn jget(j: Json, key: Seq<char>) -> Option<Json> {
    match j {
        Json::Object(es) => find_key(es@, key),
        _ => None,
    }
}

/// `Value::get(key)` on an optional value.
pub open spec fn oget(j: Option<Json>, key: Seq<char>) -> Option<Json> {
    match j {
        Some(v) => jget(v, key),
        None => None,
    }
}

/// `Value::as_str`.
pub open spec fn jstr(j: Json) -> Option<Seq<char>> {
    match j {
        Json::Str(s) => Some(s@),
        _ => None,
    }
}

/// `Value::as_str` on an optional value.
pub open spec fn ostr(j: Option<Json>) -> Option<Seq<char>> {
    match j {
        Some(v) => jstr(v),
        None => None,
    }
}

/// The text of a number (present exactly when `Value::as_f64` is).
pub open spec fn onum(j: Option<Json>) -> Option<Seq<char>> {
    match j {
        Some(Json::Number(t)) => Some(t@),
        _ => None,
    }
}

pub open spec fn is_object(j: Json) -> bool {
    j is Object
}

pub open spec fn i64_max() -> int {
    0x7fff_ffff_ffff_ffff
}

/// The integer a number text denotes, when it is an integer that fits in `i64`
/// (`Value::as_i64`).
pub open spec fn int_text(t: Seq<char>) -> Option<int> {
    if t.len() > 1 && t[0] == '-' {
        let d = t.drop_first();
        if all_digits(d) && digits_value(d) <= i64_max() + 1 {
            Some(-digits_value(d))
        } else {
            None
        }
    } else if t.len() > 0 && all_digits(t) && digits_value(t) <= i64_max() {
        Some(digits_value(t) as int)
    } else {
        None
    }
}

/// `Value::as_i64` on an optional value.
pub open spec fn oint(j: Option<Json>) -> Option<int> {
    match j {
        Some(Json::Number(t)) => int_text(t@),
        _ => None,
    }
}

/// The value of the decimal digits `s[from..to]`, when it is at most `max`.
fn digits_upto(s: &[char], from: usize, to: usize, max: u64) -> (r: Option<u64>)
    requires
        from <= to <= s.len(),
    ensures
        match r {
            Some(v) => all_digits(s@.subrange(from as int, to as int)) && digits_value(
                s@.subrange(from as int, to as int),
            ) == v && v <= max,
            None => !all_digits(s@.subrange(from as int, to as int)) || digits_value(
                s@.subrange(from as int, to as int),
            ) > max,
        },
{
    let ghost d = s@.subrange(from as int, to as int);
    let mut acc: u64 = 0;
    let mut k = from;
    while k < to
        invariant
            from <= k <= to <= s.len(),
            d == s@.subrange(from as int, to as int),
            all_digits(s@.subrange(from as int, k as int)),
            acc == digits_value(s@.subrange(from as int, k as int)),
            acc <= max,
        decreases to - k,
    {
        let c = s[k];
        if !is_digit_char(c) {
            assert(d[k - from] == c);
            return None;
        }
        let v: u128 = (acc as u128) * 10 + (digit_of(c) as u128);
        proof {
            let p = s@.subrange(from as int, k + 1);
            assert(p.drop_last() =~= s@.subrange(from as int, k as int));
            assert(digits_value(p) == v);
        }
        if v > max as u128 {
            proof {
                let p = s@.subrange(from as int, k + 1);
                assert(d.take(k + 1 - from) =~= p);
                crate::text::lemma_digits_prefix(d, k + 1 - from);
            }
            return None;
        }
        acc = v as u64;
        k = k + 1;
    }
    Some(acc)
}

/// The `i64` a number text denotes (see `int_text`).
pub fn int_of_text(t: &str) -> (r: Option<i64>)
    ensures
        match r {
            Some(v) => int_text(t@) == Some(v as int),
            None => int_text(t@) is None,
        },
{
    let cs = to_chars(t);
    let n = cs.len();
    if n > 1 && cs[0] == '-' {
        assert(cs@.subrange(1, n as int) == t@.drop_first());
        match digits_upto(cs.as_slice(), 1, n, 0x8000_0000_0000_0000u64) {
            Some(v) => {
                if v == 0x8000_0000_0000_0000u64 {
                    Some(i64::MIN)
                } else {
                    Some(-(v as i64))
                }
            },
            None => None,
        }
    } else if n > 0 {
        assert(cs@.subrange(0, n as int) == t@);
        match digits_upto(cs.as_slice(), 0, n, 0x7fff_ffff_ffff_ffffu64) {
            Some(v) => Some(v as i64),
            None => None,
        }
    } else {
        None
    }
}

impl Json {
    /// The member `key` of an object; `None` for a missing member or a non-object.
    pub fn get(&self, key: &str) -> (r: Option<&Json>)
        ensures
            match r {
                Some(v) => jget(*self, key@) == Some(*v),
                None => jget(*self, key@) is None,
            },
    {
        match self {
            Json::Object(es) => {
                let k = String::from_str(key);
                let mut i: usize = 0;
                assert(es@.skip(0) =~= es@);
                while i < es.len()
                    invariant
                        i <= es.len(),
                        k@ == key@,
                        *self == Json::Object(*es),
                        find_key(es@, key@) == find_key(es@.skip(i as int), key@),
                    decreases es.len() - i,
                {
                    assert(es@.skip(i as int).drop_first() =~= es@.skip(i + 1));
                    let e = &es[i];
                    if e.0 == k {
                        assert(es@.skip(i as int)[0] == es@[i as int]);
                        assert(es@[i as int].0@ == key@);
                        assert(find_key(es@.skip(i as int), key@) == Some(es@[i as int].1));
                        return Some(&e.1);
                    }
                    i = i + 1;
                }
                None
            },
            _ => None,
        }
    }

    /// The text of a string value.
    pub fn as_str(&self) -> (r: Option<&str>)
        ensures
            match r {
                Some(s) => jstr(*self) == Some(s@),
                None => jstr(*self) is None,
            },
    {
        match self {
            Json::Str(s) => Some(s.as_str()),
            _ => None,
        }
    }

    /// The `i64` value of an integral number that fits (`Value::as_i64`).
    pub fn as_i64(&self) -> (r: Option<i64>)
        ensures
            match r {
                Some(v) => oint(Some(*self)) == Some(v as int),
                None => oint(Some(*self)) is None,
            },
    {
        match self {
            Json::Number(t) => int_of_text(t.as_str()),
            _ => None,
        }
    }

    /// The text of a number value.
    pub fn as_number(&self) -> (r: Option<&String>)
        ensures
            match r {
                Some(t) => onum(Some(*self)) == Some(t@),
                None => onum(Some(*self)) is None,
            },
    {
        match self {
            Json::Number(t) => Some(t),
            _ => None,
        }
    }

    pub fn is_object(&self) -> (r: bool)
        ensures
            r == is_object(*self),
    {
        match self {
            Json::Object(_) => true,
            _ => false,
        }
    }
}


/// The lowercase hexadecimal digit of `d < 16`.
pub open spec fn hex_lower(d: nat) -> char {
    if d < 10 { (('0' as u32) + d) as char } else { (('a' as u32) + d - 10) as char }
}

/// How a character appears inside a JSON string in compact output: `"` and `\`
/// escaped, the control characters as `\b \f \n \r \t` or `\u00XX`, all others as is.
pub open spec fn escape_char(c: char) -> Seq<char> {
    if c == '"' {
        seq!['\\', '"']
    } else if c == '\\' {
        seq!['\\', '\\']
    } else if c == '\x08' {
        seq!['\\', 'b']
    } else if c == '\x0C' {
        seq!['\\', 'f']
    } else if c == '\n' {
        seq!['\\', 'n']
    } else if c == '\r' {
        seq!['\\', 'r']
    } else if c == '\t' {
        seq!['\\', 't']
    } else if (c as u32) < 0x20 {
        seq!['\\', 'u', '0', '0', hex_lower(((c as u32) / 16) as nat), hex_lower(((c as u32) % 16) as nat)]
    } else {
        seq![c]
    }
}

pub open spec fn escape(s: Seq<char>) -> Seq<char>
    decreases s.len(),
{
    if s.len() == 0 {
        Seq::empty()
    } else {
        escape(s.drop_last()) + escape_char(s.last())
    }
}

pub open spec fn quoted(s: Seq<char>) -> Seq<char> {
    seq!['"'] + escape(s) + seq!['"']
}

/// The compact JSON text of a value (no whitespace, members in order).
pub open spec fn compact(j: Json) -> Seq<char>
    decreases j,
{
    match j {
        Json::Null => "null"@,
        Json::Bool(b) => if b {
            "true"@
        } else {
            "false"@
        },
        Json::Number(t) => t@,
        Json::Str(s) => quoted(s@),
        Json::Array(a) => seq!['['] + compact_items(a@) + seq![']'],
        Json::Object(es) => seq!['{'] + compact_members(es@) + seq!['}'],
    }
}

pub open spec fn compact_items(a: Seq<Json>) -> Seq<char>
    decreases a,
{
    if a.len() == 0 {
        Seq::empty()
    } else if a.len() == 1 {
        compact(a[0])
    } else {
        compact_items(a.drop_last()) + seq![','] + compact(a.last())
    }
}

pub open spec fn compact_members(es: Seq<(String, Json)>) -> Seq<char>
    decreases es,
{
    if es.len() == 0 {
        Seq::empty()
    } else if es.len() == 1 {
        quoted(es[0].0@) + seq![':'] + compact(es[0].1)
    } else {
        compact_members(es.drop_last()) + seq![','] + quoted(es.last().0@) + seq![':'] + compact(
            es.last().1,
        )
    }
}

fn hex_digit(d: u32) -> (r: char)
    requires
        d < 16,
    ensures
        r == hex_lower(d as nat),
{
    if d < 10 {
        ((d as u8) + 48) as char
    } else {
        ((d as u8) + 87) as char
    }
}

fn write_escaped(s: &str, out: &mut String)
    ensures
        final(out)@ == old(out)@ + quoted(s@),
{
    let cs = to_chars(s);
    push_char(out, '"');
    let ghost start = out@;
    let mut i: usize = 0;
    while i < cs.len()
        invariant
            i <= cs.len(),
            cs@ == s@,
            start == old(out)@ + seq!['"'],
            out@ == start + escape(cs@.take(i as int)),
        decreases cs.len() - i,
    {
        let c = cs[i];
        assert(cs@.take(i + 1).drop_last() =~= cs@.take(i as int));
        let ghost before = out@;
        if c == '"' {
            push_char(out, '\\');
            push_char(out, '"');
        } else if c == '\\' {
            push_char(out, '\\');
            push_char(out, '\\');
        } else if c == '\x08' {
            push_char(out, '\\');
            push_char(out, 'b');
        } else if c == '\x0C' {
            push_char(out, '\\');
            push_char(out, 'f');
        } else if c == '\n' {
            push_char(out, '\\');
            push_char(out, 'n');
        } else if c == '\r' {
            push_char(out, '\\');
            push_char(out, 'r');
        } else if c == '\t' {
            push_char(out, '\\');
            push_char(out, 't');
        } else if (c as u32) < 0x20 {
            push_char(out, '\\');
            push_char(out, 'u');
            push_char(out, '0');
            push_char(out, '0');
            push_char(out, hex_digit((c as u32) / 16));
            push_char(out, hex_digit((c as u32) % 16));
        } else {
            push_char(out, c);
        }
        assert(out@ =~= before + escape_char(c));
        assert(escape(cs@.take(i + 1)) =~= escape(cs@.take(i as int)) + escape_char(c));
        i = i + 1;
    }
    assert(cs@.take(cs.len() as int) =~= cs@);
    push_char(out, '"');
    assert(out@ =~= old(out)@ + quoted(s@));
}

/// Appends the compact JSON text of `j` to `out`.
pub fn write_compact(j: &Json, out: &mut String)
    ensures
        final(out)@ == old(out)@ + compact(*j),
    decreases j,
{
    match j {
        Json::Null => out.append("null"),
        Json::Bool(b) => if *b {
            out.append("true")
        } else {
            out.append("false")
        },
        Json::Number(t) => out.append(t.as_str()),
        Json::Str(s) => write_escaped(s.as_str(), out),
        Json::Array(a) => {
            push_char(out, '[');
            let ghost start = out@;
            let mut i: usize = 0;
            while i < a.len()
                invariant
                    i <= a.len(),
                    *j == Json::Array(*a),
                    start == old(out)@ + seq!['['],
                    out@ == start + compact_items(a@.take(i as int)),
                decreases a.len() - i,
            {
                assert(a@.take(i + 1).drop_last() =~= a@.take(i as int));
                if i > 0 {
                    push_char(out, ',');
                }
                proof {
                    assert(decreases_to!(*j => j->Array_0));
                    assert(j->Array_0 == *a);
                    assert(decreases_to!(*a => a@));
                    assert(decreases_to!(a@ => a@[i as int]));
                    assert(decreases_to!(*j => a@[i as int]));
                }
                write_compact(&a[i], out);
                i = i + 1;
            }
            assert(a@.take(a.len() as int) =~= a@);
            push_char(out, ']');
        },
        Json::Object(es) => {
            push_char(out, '{');
            let ghost start = out@;
            let mut i: usize = 0;
            while i < es.len()
                invariant
                    i <= es.len(),
                    *j == Json::Object(*es),
                    start == old(out)@ + seq!['{'],
                    out@ == start + compact_members(es@.take(i as int)),
                decreases es.len() - i,
            {
                assert(es@.take(i + 1).drop_last() =~= es@.take(i as int));
                if i > 0 {
                    push_char(out, ',');
                }
                write_escaped(es[i].0.as_str(), out);
                push_char(out, ':');
                proof {
                    assert(decreases_to!(*j => j->Object_0));
                    assert(j->Object_0 == *es);
                    assert(decreases_to!(*es => es@));
                    assert(decreases_to!(es@ => es@[i as int]));
                    assert(decreases_to!(es@[i as int] => es@[i as int].1));
                    assert(decreases_to!(*j => es@[i as int].1));
                }
                write_compact(&es[i].1, out);
                i = i + 1;
            }
            assert(es@.take(es.len() as int) =~= es@);
            push_char(out, '}');
        },
    }
}

/// The compact JSON text of a value (what `to_string` of the value gives).
pub fn to_compact_string(j: &Json) -> (r: String)
    ensures
        r@ == compact(*j),
{
    let mut out = String::new();
    write_compact(j, &mut out);
    out
}

} // verus!
