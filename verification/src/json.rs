//! A JSON document model for request bodies and gateway payloads, with the
//! compact serialisation Discord is sent.
//!
//! Objects keep their keys in ascending order, one entry per key, which is
//! the order a `serde_json` map serialises in.
use vstd::prelude::*;

use crate::text::{decimal, decimal_string, push_char, push_str, same_text};

verus! {

/// A JSON value, as sent to Discord.
#[derive(Debug, PartialEq, Eq)]
pub enum JsonValue {
    Null,
    Bool(bool),
    UInt(u64),
    Int(i64),
    Str(String),
    Array(Vec<JsonValue>),
    Object(Vec<(String, JsonValue)>),
}

/// The mathematical shape of a JSON value: strings as character sequences.
pub enum Json {
    Null,
    Bool(bool),
    Num(int),
    Str(Seq<char>),
    Array(Seq<Json>),
    Object(Seq<(Seq<char>, Json)>),
}

impl JsonValue {
    pub open spec fn model(&self) -> Json
        decreases self,
    {
        match self {
            JsonValue::Null => Json::Null,
            JsonValue::Bool(b) => Json::Bool(*b),
            JsonValue::UInt(n) => Json::Num(*n as int),
            JsonValue::Int(n) => Json::Num(*n as int),
            JsonValue::Str(s) => Json::Str(s@),
            JsonValue::Array(items) => Json::Array(items_model(items@)),
            JsonValue::Object(fields) => Json::Object(fields_model(fields@)),
        }
    }
}

pub open spec fn items_model(items: Seq<JsonValue>) -> Seq<Json>
    decreases items,
{
    Seq::new(items.len(), |i: int| if 0 <= i < items.len() { items[i].model() } else { Json::Null })
}

pub open spec fn fields_model(fields: Seq<(String, JsonValue)>) -> Seq<(Seq<char>, Json)>
    decreases fields,
{
    Seq::new(
        fields.len(),
        |i: int| if 0 <= i < fields.len() { (fields[i].0@, fields[i].1.model()) } else { (Seq::empty(), Json::Null) },
    )
}

pub proof fn lemma_items_model_push(items: Seq<JsonValue>, x: JsonValue)
    ensures
        items_model(items.push(x)) == items_model(items).push(x.model()),
{
    assert forall|j: int| 0 <= j < items.len() + 1 implies #[trigger] items_model(items.push(x))[j] == items_model(items).push(x.model())[j] by {
        if j < items.len() {
            assert(items.push(x)[j] == items[j]);
        }
    }
    assert(items_model(items.push(x)) =~= items_model(items).push(x.model()));
}

/// Append to an array being built.
pub fn push_item(items: &mut Vec<JsonValue>, x: JsonValue)
    ensures
        items_model(final(items)@) == items_model(old(items)@).push(x.model()),
{
    let ghost m = x.model();
    items.push(x);
    proof {
        lemma_items_model_push(old(items)@, items@.last());
    }
}

// ---------------------------------------------------------------------------
// Building objects
// ---------------------------------------------------------------------------

/// Strict lexicographic order on character sequences, a prefix first: the
/// order of `String`'s `Ord`, which a `serde_json` map keeps its keys in.
pub open spec fn str_lt(a: Seq<char>, b: Seq<char>) -> bool
    decreases a.len(),
{
    if a.len() == 0 {
        b.len() > 0
    } else if b.len() == 0 {
        false
    } else if a[0] != b[0] {
        (a[0] as u32) < (b[0] as u32)
    } else {
        str_lt(a.drop_first(), b.drop_first())
    }
}

/// Insert into an ordered object: replace the entry for `k`, or place it
/// before the first key that comes after it.
pub open spec fn insert_sorted(fields: Seq<(Seq<char>, Json)>, k: Seq<char>, v: Json) -> Seq<(Seq<char>, Json)>
    decreases fields.len(),
{
    if fields.len() == 0 {
        seq![(k, v)]
    } else if fields[0].0 == k {
        fields.update(0, (k, v))
    } else if str_lt(k, fields[0].0) {
        seq![(k, v)] + fields
    } else {
        seq![fields[0]] + insert_sorted(fields.drop_first(), k, v)
    }
}

/// The value an object holds for `k`: its first entry with that key.
pub open spec fn obj_get(fields: Seq<(Seq<char>, Json)>, k: Seq<char>) -> Option<Json>
    decreases fields.len(),
{
    if fields.len() == 0 {
        None
    } else if fields[0].0 == k {
        Some(fields[0].1)
    } else {
        obj_get(fields.drop_first(), k)
    }
}

/// Reading after an insert gives what was inserted for its key and what was
/// there before for any other.
pub proof fn lemma_get_insert(fields: Seq<(Seq<char>, Json)>, k: Seq<char>, v: Json, q: Seq<char>)
    ensures
        obj_get(insert_sorted(fields, k, v), q) == if q == k { Some(v) } else { obj_get(fields, q) },
    decreases fields.len(),
{
    let out = insert_sorted(fields, k, v);
    if fields.len() == 0 {
        assert(out =~= seq![(k, v)]);
        assert(out.drop_first() =~= Seq::<(Seq<char>, Json)>::empty());
        assert(obj_get(out, q) == if q == k { Some(v) } else { obj_get(out.drop_first(), q) });
    } else if fields[0].0 == k {
        assert(out == fields.update(0, (k, v)));
        assert(out.drop_first() =~= fields.drop_first());
        assert(out[0] == (k, v));
        assert(obj_get(out, q) == if q == k { Some(v) } else { obj_get(out.drop_first(), q) });
        assert(obj_get(fields, q) == if q == k { Some(fields[0].1) } else { obj_get(fields.drop_first(), q) });
    } else if str_lt(k, fields[0].0) {
        assert(out == seq![(k, v)] + fields);
        assert(out.drop_first() =~= fields);
        assert(out[0] == (k, v));
        assert(obj_get(out, q) == if q == k { Some(v) } else { obj_get(out.drop_first(), q) });
    } else {
        let rest = insert_sorted(fields.drop_first(), k, v);
        lemma_get_insert(fields.drop_first(), k, v, q);
        assert(out == seq![fields[0]] + rest);
        assert(out.drop_first() =~= rest);
        assert(out[0] == fields[0]);
        assert(obj_get(out, q) == if q == fields[0].0 { Some(fields[0].1) } else { obj_get(rest, q) });
        assert(obj_get(fields, q) == if q == fields[0].0 { Some(fields[0].1) } else { obj_get(fields.drop_first(), q) });
    }
}

pub proof fn lemma_get_insert_all(fields: Seq<(Seq<char>, Json)>, k: Seq<char>, v: Json)
    ensures
        forall|q: Seq<char>| #[trigger] obj_get(insert_sorted(fields, k, v), q) == if q == k { Some(v) } else { obj_get(fields, q) },
{
    assert forall|q: Seq<char>| #[trigger] obj_get(insert_sorted(fields, k, v), q) == if q == k { Some(v) } else { obj_get(fields, q) } by {
        lemma_get_insert(fields, k, v, q);
    }
}

/// Whether `a` comes strictly before `b`.
pub fn str_less(a: &str, b: &str) -> (r: bool)
    ensures
        r == str_lt(a@, b@),
{
    let n = a.unicode_len();
    let m = b.unicode_len();
    let mut i: usize = 0;
    proof {
        assert(a@.skip(0) =~= a@);
        assert(b@.skip(0) =~= b@);
    }
    while i < n && i < m
        invariant
            n == a@.len(),
            m == b@.len(),
            i <= n,
            i <= m,
            str_lt(a@, b@) == str_lt(a@.skip(i as int), b@.skip(i as int)),
        decreases n - i,
    {
        let x = a.get_char(i);
        let y = b.get_char(i);
        proof {
            assert(a@.skip(i as int)[0] == x);
            assert(b@.skip(i as int)[0] == y);
            assert(a@.skip(i as int).drop_first() =~= a@.skip(i + 1));
            assert(b@.skip(i as int).drop_first() =~= b@.skip(i + 1));
        }
        if x != y {
            return (x as u32) < (y as u32);
        }
        i = i + 1;
    }
    i >= n && i < m
}

/// Insert `key` into an ordered object.
pub fn object_insert(fields: &mut Vec<(String, JsonValue)>, key: &str, value: JsonValue)
    ensures
        fields_model(final(fields)@) == insert_sorted(fields_model(old(fields)@), key@, value.model()),
{
    let ghost k = key@;
    let ghost v = value.model();
    let n = fields.len();
    let mut i: usize = 0;
    proof {
        let m = fields_model(fields@);
        assert(m.skip(0) =~= m);
        assert(m.take(0) + m =~= m);
    }
    while i < n
        invariant
            n == fields@.len(),
            fields@ == old(fields)@,
            i <= n,
            k == key@,
            v == value.model(),
            insert_sorted(fields_model(fields@), k, v) == fields_model(fields@).take(i as int) + insert_sorted(
                fields_model(fields@).skip(i as int),
                k,
                v,
            ),
        decreases n - i,
    {
        let ghost m = fields_model(fields@);
        let ghost rest = m.skip(i as int);
        assert(rest[0] == (fields@[i as int].0@, fields@[i as int].1.model()));
        if same_text(fields[i].0.as_str(), key) {
            fields.set(i, (crate::text::owned(key), value));
            proof {
                assert(rest.update(0, (k, v)) =~= seq![(k, v)] + rest.drop_first());
                assert(fields_model(fields@) =~= m.take(i as int) + rest.update(0, (k, v)));
            }
            return;
        }
        if str_less(key, fields[i].0.as_str()) {
            fields.insert(i, (crate::text::owned(key), value));
            proof {
                assert(fields_model(fields@) =~= m.take(i as int) + (seq![(k, v)] + rest));
            }
            return;
        }
        proof {
            assert(rest.drop_first() =~= m.skip(i + 1));
            assert(m.take(i as int) + (seq![rest[0]] + insert_sorted(rest.drop_first(), k, v)) =~= m.take(i + 1) + insert_sorted(m.skip(i + 1), k, v));
        }
        i = i + 1;
    }
    fields.push((crate::text::owned(key), value));
    proof {
        let m = fields_model(old(fields)@);
        assert(m.skip(n as int) =~= Seq::<(Seq<char>, Json)>::empty());
        assert(m.take(n as int) =~= m);
        assert(fields_model(fields@) =~= m + seq![(k, v)]);
    }
}

/// The entries of an object; anything else has none.
pub open spec fn entries(j: Json) -> Seq<(Seq<char>, Json)> {
    match j {
        Json::Object(f) => f,
        _ => Seq::empty(),
    }
}

/// Set `key` in an object being built: reading it back gives `value`, and
/// every other key reads as before.
pub fn put(fields: &mut Vec<(String, JsonValue)>, key: &str, value: JsonValue)
    ensures
        fields_model(final(fields)@) == insert_sorted(fields_model(old(fields)@), key@, value.model()),
        forall|q: Seq<char>| #[trigger] obj_get(fields_model(final(fields)@), q) == if q == key@ {
            Some(value.model())
        } else {
            obj_get(fields_model(old(fields)@), q)
        },
{
    let ghost v = value.model();
    object_insert(fields, key, value);
    proof {
        lemma_get_insert_all(fields_model(old(fields)@), key@, v);
    }
}

pub open spec fn json_u64(j: Json) -> Option<u64> {
    match j {
        Json::Num(n) => if 0 <= n <= u64::MAX { Some(n as u64) } else { None },
        _ => None,
    }
}

pub open spec fn json_bool(j: Json) -> Option<bool> {
    match j {
        Json::Bool(b) => Some(b),
        _ => None,
    }
}

pub open spec fn json_str(j: Json) -> Option<Seq<char>> {
    match j {
        Json::Str(s) => Some(s),
        _ => None,
    }
}

/// The value an object holds for `k`; anything else holds none.
pub open spec fn field(j: Json, k: Seq<char>) -> Option<Json> {
    match j {
        Json::Object(f) => obj_get(f, k),
        _ => None,
    }
}

/// The object a list of pairs makes when each is set in turn: a later pair
/// replaces an earlier one with the same key.
pub open spec fn from_pairs(pairs: Seq<(Seq<char>, Json)>) -> Seq<(Seq<char>, Json)>
    decreases pairs.len(),
{
    if pairs.len() == 0 {
        Seq::empty()
    } else {
        insert_sorted(from_pairs(pairs.drop_last()), pairs.last().0, pairs.last().1)
    }
}

/// Set `key` to `value` where there is a value, and leave the object as it
/// is where there is none.
pub open spec fn insert_opt(fields: Seq<(Seq<char>, Json)>, key: Seq<char>, value: Option<Json>) -> Seq<(Seq<char>, Json)> {
    match value {
        Some(v) => insert_sorted(fields, key, v),
        None => fields,
    }
}

/// The fields of an object built by setting each pair in turn, the values
/// copied.
pub fn object_from_pairs(pairs: &Vec<(String, JsonValue)>) -> (fields: Vec<(String, JsonValue)>)
    ensures
        fields_model(fields@) == from_pairs(fields_model(pairs@)),
{
    let mut fields: Vec<(String, JsonValue)> = Vec::new();
    let n = pairs.len();
    let mut i: usize = 0;
    proof {
        assert(fields_model(pairs@).take(0) =~= Seq::<(Seq<char>, Json)>::empty());
        assert(fields_model(fields@) =~= Seq::<(Seq<char>, Json)>::empty());
    }
    while i < n
        invariant
            n == pairs@.len(),
            i <= n,
            fields_model(fields@) == from_pairs(fields_model(pairs@).take(i as int)),
        decreases n - i,
    {
        let ghost m = fields_model(pairs@);
        put(&mut fields, pairs[i].0.as_str(), pairs[i].1.deep_clone());
        proof {
            assert(m.take(i + 1).drop_last() =~= m.take(i as int));
            assert(m.take(i + 1).last() == m[i as int]);
        }
        i = i + 1;
    }
    proof {
        assert(fields_model(pairs@).take(n as int) =~= fields_model(pairs@));
    }
    fields
}

/// A string value holding a copy of `s`.
pub fn str_value(s: &str) -> (v: JsonValue)
    ensures
        v.model() == Json::Str(s@),
{
    JsonValue::Str(crate::text::owned(s))
}

impl JsonValue {
    /// A copy of the whole document.
    pub fn deep_clone(&self) -> (r: JsonValue)
        ensures
            r.model() == self.model(),
        decreases self,
    {
        match self {
            JsonValue::Null => JsonValue::Null,
            JsonValue::Bool(b) => JsonValue::Bool(*b),
            JsonValue::UInt(n) => JsonValue::UInt(*n),
            JsonValue::Int(n) => JsonValue::Int(*n),
            JsonValue::Str(s) => JsonValue::Str(crate::text::owned(s.as_str())),
            JsonValue::Array(items) => {
                assert(decreases_to!(*self => items@));
                JsonValue::Array(clone_items(items))
            },
            JsonValue::Object(fields) => {
                assert(decreases_to!(*self => fields@));
                JsonValue::Object(clone_fields(fields))
            },
        }
    }

    /// The value an object holds for `key`.
    pub fn get(&self, key: &str) -> (r: Option<&JsonValue>)
        ensures
            match self.model() {
                Json::Object(f) => match r {
                    Some(v) => obj_get(f, key@) == Some(v.model()),
                    None => obj_get(f, key@) is None,
                },
                _ => r is None,
            },
    {
        match self {
            JsonValue::Object(fields) => {
                let n = fields.len();
                let mut i: usize = 0;
                proof {
                    assert(fields_model(fields@).skip(0) =~= fields_model(fields@));
                }
                while i < n
                    invariant
                        n == fields@.len(),
                        i <= n,
                        obj_get(fields_model(fields@), key@) == obj_get(fields_model(fields@).skip(i as int), key@),
                        self.model() == Json::Object(fields_model(fields@)),
                    decreases n - i,
                {
                    proof {
                        let rest = fields_model(fields@).skip(i as int);
                        assert(rest.drop_first() =~= fields_model(fields@).skip(i + 1));
                        assert(rest[0] == (fields@[i as int].0@, fields@[i as int].1.model()));
                    }
                    if same_text(fields[i].0.as_str(), key) {
                        return Some(&fields[i].1);
                    }
                    i = i + 1;
                }
                None
            },
            _ => None,
        }
    }

    /// The items of an array value.
    pub fn as_array(&self) -> (r: Option<&Vec<JsonValue>>)
        ensures
            match self {
                JsonValue::Array(items) => r == Some(items),
                _ => r is None,
            },
    {
        match self {
            JsonValue::Array(items) => Some(items),
            _ => None,
        }
    }

    /// The value of a whole number that fits in 64 unsigned bits.
    pub fn as_u64(&self) -> (r: Option<u64>)
        ensures
            r == json_u64(self.model()),
    {
        match self {
            JsonValue::UInt(n) => Some(*n),
            JsonValue::Int(n) => if *n >= 0 { Some(*n as u64) } else { None },
            _ => None,
        }
    }

    /// The value of a boolean.
    pub fn as_bool(&self) -> (r: Option<bool>)
        ensures
            r == json_bool(self.model()),
    {
        match self {
            JsonValue::Bool(b) => Some(*b),
            _ => None,
        }
    }

    /// The text of a string value.
    pub fn as_str(&self) -> (r: Option<&str>)
        ensures
            match self.model() {
                Json::Str(s) => r matches Some(t) && t@ == s,
                _ => r is None,
            },
    {
        match self {
            JsonValue::Str(s) => Some(s.as_str()),
            _ => None,
        }
    }
}

fn clone_items(items: &Vec<JsonValue>) -> (out: Vec<JsonValue>)
    ensures
        items_model(out@) == items_model(items@),
    decreases items@,
{
    let mut out: Vec<JsonValue> = Vec::new();
    let n = items.len();
    let mut i: usize = 0;
    while i < n
        invariant
            n == items@.len(),
            i <= n,
            out@.len() == i,
            forall|j: int| 0 <= j < i ==> #[trigger] out@[j].model() == items@[j].model(),
        decreases n - i,
    {
        assert(decreases_to!(items@ => items@[i as int]));
        out.push(items[i].deep_clone());
        i = i + 1;
    }
    assert forall|j: int| 0 <= j < n implies #[trigger] items_model(out@)[j] == items_model(items@)[j] by {
        assert(out@[j].model() == items@[j].model());
    }
    assert(items_model(out@) =~= items_model(items@));
    out
}

fn clone_fields(fields: &Vec<(String, JsonValue)>) -> (out: Vec<(String, JsonValue)>)
    ensures
        fields_model(out@) == fields_model(fields@),
    decreases fields@,
{
    let mut out: Vec<(String, JsonValue)> = Vec::new();
    let n = fields.len();
    let mut i: usize = 0;
    while i < n
        invariant
            n == fields@.len(),
            i <= n,
            out@.len() == i,
            forall|j: int| 0 <= j < i ==> (#[trigger] out@[j]).0@ == fields@[j].0@,
            forall|j: int| 0 <= j < i ==> (#[trigger] out@[j]).1.model() == fields@[j].1.model(),
        decreases n - i,
    {
        assert(decreases_to!(fields@ => fields@[i as int]));
        assert(decreases_to!(fields@[i as int] => fields@[i as int].1));
        out.push((crate::text::owned(fields[i].0.as_str()), fields[i].1.deep_clone()));
        i = i + 1;
    }
    assert forall|j: int| 0 <= j < n implies #[trigger] fields_model(out@)[j] == fields_model(fields@)[j] by {
        assert(out@[j].0@ == fields@[j].0@);
        assert(out@[j].1.model() == fields@[j].1.model());
    }
    assert(fields_model(out@) =~= fields_model(fields@));
    out
}

// ---------------------------------------------------------------------------
// Compact serialisation
// ---------------------------------------------------------------------------

pub open spec fn hex_lower(d: u32) -> char {
    if d < 10 { (48 + d) as char } else { (87 + d) as char }
}

/// How one character of a string is written: quote, backslash and control
/// characters escaped, the common ones by their short names.
pub open spec fn escape_char(c: char) -> Seq<char> {
    if c == '"' {
        seq!['\\', '"']
    } else if c == '\\' {
        seq!['\\', '\\']
    } else if c == '\n' {
        seq!['\\', 'n']
    } else if c == '\r' {
        seq!['\\', 'r']
    } else if c == '\t' {
        seq!['\\', 't']
    } else if (c as u32) == 8 {
        seq!['\\', 'b']
    } else if (c as u32) == 12 {
        seq!['\\', 'f']
    } else if (c as u32) < 32 {
        seq!['\\', 'u', '0', '0', hex_lower((c as u32) / 16), hex_lower((c as u32) % 16)]
    } else {
        seq![c]
    }
}

pub open spec fn escaped(s: Seq<char>) -> Seq<char>
    decreases s.len(),
{
    if s.len() == 0 {
        Seq::empty()
    } else {
        escaped(s.drop_last()) + escape_char(s.last())
    }
}

pub open spec fn quoted(s: Seq<char>) -> Seq<char> {
    seq!['"'] + escaped(s) + seq!['"']
}

pub open spec fn int_text(n: int) -> Seq<char> {
    if n < 0 { seq!['-'] + decimal((-n) as nat) } else { decimal(n as nat) }
}

/// The compact JSON text of a value, as `serde_json::to_string` writes it.
pub open spec fn serialize(j: Json) -> Seq<char>
    decreases j, 0int,
{
    match j {
        Json::Null => seq!['n', 'u', 'l', 'l'],
        Json::Bool(b) => if b { seq!['t', 'r', 'u', 'e'] } else { seq!['f', 'a', 'l', 's', 'e'] },
        Json::Num(n) => int_text(n),
        Json::Str(s) => quoted(s),
        Json::Array(items) => seq!['['] + serialize_items(items, 0) + seq![']'],
        Json::Object(fields) => seq!['{'] + serialize_fields(fields, 0) + seq!['}'],
    }
}

pub open spec fn serialize_items(items: Seq<Json>, i: int) -> Seq<char>
    decreases items, items.len() - i,
{
    if i < 0 || i >= items.len() {
        Seq::empty()
    } else {
        (if i > 0 { seq![','] } else { Seq::empty() }) + serialize(items[i]) + serialize_items(items, i + 1)
    }
}

pub open spec fn serialize_fields(fields: Seq<(Seq<char>, Json)>, i: int) -> Seq<char>
    decreases fields, fields.len() - i,
{
    if i < 0 || i >= fields.len() {
        Seq::empty()
    } else {
        (if i > 0 { seq![','] } else { Seq::empty() }) + quoted(fields[i].0) + seq![':'] + serialize(fields[i].1)
            + serialize_fields(fields, i + 1)
    }
}

fn hex_lower_char(d: u32) -> (c: char)
    requires
        d < 16,
    ensures
        c == hex_lower(d),
{
    if d < 10 {
        crate::text::char_from_ascii((48 + d) as u8)
    } else {
        crate::text::char_from_ascii((87 + d) as u8)
    }
}

fn write_escaped(s: &str, out: &mut String)
    ensures
        final(out)@ == old(out)@ + escaped(s@),
{
    let n = s.unicode_len();
    let mut i: usize = 0;
    while i < n
        invariant
            n == s@.len(),
            i <= n,
            out@ == old(out)@ + escaped(s@.take(i as int)),
        decreases n - i,
    {
        let c = s.get_char(i);
        let ghost before = out@;
        proof {
            assert(s@.take(i + 1).drop_last() =~= s@.take(i as int));
            assert(s@.take(i + 1).last() == c);
        }
        let u = c as u32;
        if c == '"' {
            push_char(out, '\\');
            push_char(out, '"');
        } else if c == '\\' {
            push_char(out, '\\');
            push_char(out, '\\');
        } else if c == '\n' {
            push_char(out, '\\');
            push_char(out, 'n');
        } else if c == '\r' {
            push_char(out, '\\');
            push_char(out, 'r');
        } else if c == '\t' {
            push_char(out, '\\');
            push_char(out, 't');
        } else if u == 8 {
            push_char(out, '\\');
            push_char(out, 'b');
        } else if u == 12 {
            push_char(out, '\\');
            push_char(out, 'f');
        } else if u < 32 {
            push_char(out, '\\');
            push_char(out, 'u');
            push_char(out, '0');
            push_char(out, '0');
            push_char(out, hex_lower_char(u / 16));
            push_char(out, hex_lower_char(u % 16));
        } else {
            push_char(out, c);
        }
        assert(out@ =~= before + escape_char(c));
        assert(out@ =~= old(out)@ + escaped(s@.take(i + 1)));
        i = i + 1;
    }
    assert(s@.take(n as int) =~= s@);
}

fn write_quoted(s: &str, out: &mut String)
    ensures
        final(out)@ == old(out)@ + quoted(s@),
{
    push_char(out, '"');
    write_escaped(s, out);
    push_char(out, '"');
    assert(out@ =~= old(out)@ + quoted(s@));
}

/// Append the compact JSON text of `v`.
pub fn write_json(v: &JsonValue, out: &mut String)
    ensures
        final(out)@ == old(out)@ + serialize(v.model()),
    decreases v,
{
    match v {
        JsonValue::Null => {
            push_str(out, "null");
            proof { reveal_strlit("null"); }
            assert(out@ =~= old(out)@ + seq!['n', 'u', 'l', 'l']);
        },
        JsonValue::Bool(b) => {
            if *b {
                push_str(out, "true");
                proof { reveal_strlit("true"); }
                assert(out@ =~= old(out)@ + seq!['t', 'r', 'u', 'e']);
            } else {
                push_str(out, "false");
                proof { reveal_strlit("false"); }
                assert(out@ =~= old(out)@ + seq!['f', 'a', 'l', 's', 'e']);
            }
        },
        JsonValue::UInt(n) => {
            push_str(out, decimal_string(*n).as_str());
        },
        JsonValue::Int(n) => {
            if *n < 0 {
                push_char(out, '-');
                let magnitude: u64 = ((-(*n + 1)) as u64) + 1;
                push_str(out, decimal_string(magnitude).as_str());
                assert(out@ =~= old(out)@ + int_text(*n as int));
            } else {
                push_str(out, decimal_string(*n as u64).as_str());
            }
        },
        JsonValue::Str(s) => {
            write_quoted(s.as_str(), out);
        },
        JsonValue::Array(items) => {
            push_char(out, '[');
            let ghost m = items_model(items@);
            assert(decreases_to!(*v => items@));
            let n = items.len();
            let mut i: usize = 0;
            proof {
                assert(out@ =~= old(out)@ + seq!['['] + serialize_items(m, 0).take(0));
            }
            while i < n
                invariant
                    n == items@.len(),
                    m == items_model(items@),
                    i <= n,
                    decreases_to!(*v => items@),
                    out@ + serialize_items(m, i as int) == old(out)@ + seq!['['] + serialize_items(m, 0),
                decreases n - i,
            {
                let ghost before = out@;
                if i > 0 {
                    push_char(out, ',');
                }
                write_json_item(items, i, out);
                assert(out@ + serialize_items(m, i + 1) =~= before + serialize_items(m, i as int));
                i = i + 1;
            }
            push_char(out, ']');
            assert(out@ =~= old(out)@ + serialize(v.model()));
        },
        JsonValue::Object(fields) => {
            push_char(out, '{');
            let ghost m = fields_model(fields@);
            assert(decreases_to!(*v => fields@));
            let n = fields.len();
            let mut i: usize = 0;
            proof {
                assert(out@ + serialize_fields(m, 0) =~= old(out)@ + seq!['{'] + serialize_fields(m, 0));
            }
            while i < n
                invariant
                    n == fields@.len(),
                    m == fields_model(fields@),
                    i <= n,
                    decreases_to!(*v => fields@),
                    out@ + serialize_fields(m, i as int) == old(out)@ + seq!['{'] + serialize_fields(m, 0),
                decreases n - i,
            {
                let ghost before = out@;
                if i > 0 {
                    push_char(out, ',');
                }
                write_quoted(fields[i].0.as_str(), out);
                push_char(out, ':');
                write_json_field(fields, i, out);
                assert(out@ + serialize_fields(m, i + 1) =~= before + serialize_fields(m, i as int));
                i = i + 1;
            }
            push_char(out, '}');
            assert(out@ =~= old(out)@ + serialize(v.model()));
        },
    }
}

fn write_json_item(items: &Vec<JsonValue>, i: usize, out: &mut String)
    requires
        i < items@.len(),
    ensures
        final(out)@ == old(out)@ + serialize(items_model(items@)[i as int]),
    decreases items@,
{
    assert(decreases_to!(items@ => items@[i as int]));
    write_json(&items[i], out);
}

fn write_json_field(fields: &Vec<(String, JsonValue)>, i: usize, out: &mut String)
    requires
        i < fields@.len(),
    ensures
        final(out)@ == old(out)@ + serialize(fields_model(fields@)[i as int].1),
    decreases fields@,
{
    assert(decreases_to!(fields@ => fields@[i as int]));
    assert(decreases_to!(fields@[i as int] => fields@[i as int].1));
    write_json(&fields[i].1, out);
}

/// The compact JSON text of `v`.
pub fn to_json_string(v: &JsonValue) -> (s: String)
    ensures
        s@ == serialize(v.model()),
{
    let mut s = String::new();
    write_json(v, &mut s);
    assert(s@ =~= serialize(v.model()));
    s
}

} // verus!
