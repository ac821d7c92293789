//! JSON values, their texts, and the sorted object map.

use serde_json::Value;
use vstd::prelude::*;
use vstd::utf8::encode_utf8;

use crate::text::{
    ascending, in_order, lemma_in_order, lemma_precedes_irreflexive, locate, opt_view, precedes, texts,
};

verus! {

/// A JSON number: a non-negative integer, a negative integer, or a binary64
/// fraction given by its bit pattern.
#[derive(Clone, Copy, PartialEq, Eq, Structural, Debug)]
pub enum Num {
    PosInt(u64),
    NegInt(i64),
    Float(u64),
}

/// A binary64 number, by its bit pattern.
#[derive(Clone, Copy, PartialEq, Eq, Structural, Debug)]
pub struct Double {
    pub bits: u64,
}

/// The mathematical value of a JSON document.
#[verifier::ext_equal]
pub enum JsonV {
    Null,
    Bool(bool),
    Number(Num),
    Str(Seq<char>),
    Array(Seq<JsonV>),
    Object(Map<Seq<char>, JsonV>),
}

/// A JSON number that JSON text can carry.
#[derive(Clone, Copy, PartialEq, Eq, Structural, Debug)]
pub struct Number {
    repr: Num,
}

/// A JSON document.
#[derive(PartialEq, Debug)]
pub enum Json {
    Null,
    Bool(bool),
    Number(Number),
    Str(String),
    Array(Vec<Json>),
    Object(JsonMap),
}

/// A JSON object: names in ascending order, none twice.
#[derive(PartialEq, Debug)]
pub struct JsonMap {
    keys: Vec<String>,
    vals: Vec<Json>,
}

/// Whether a binary64 bit pattern is a finite number.
pub open spec fn finite_bits(bits: u64) -> bool {
    (bits as int / 0x10_0000_0000_0000) % 0x800 != 0x7ff
}

impl Number {
    #[verifier::type_invariant]
    spec fn well_formed(self) -> bool {
        match self.repr {
            Num::PosInt(_) => true,
            Num::NegInt(n) => n < 0,
            Num::Float(bits) => finite_bits(bits),
        }
    }
}

impl JsonMap {
    #[verifier::type_invariant]
    spec fn well_formed(self) -> bool {
        self.keys@.len() == self.vals@.len() && ascending(texts(self.keys@))
    }
}

pub closed spec fn entries_view(keys: Seq<String>, vals: Seq<Json>) -> Map<Seq<char>, JsonV>
    decreases vals,
{
    if keys.len() == 0 || vals.len() == 0 {
        Map::empty()
    } else {
        entries_view(keys.drop_last(), vals.drop_last()).insert(keys.last()@, json_view(vals.last()))
    }
}

pub open spec fn seq_view(s: Seq<Json>) -> Seq<JsonV>
    decreases s,
{
    Seq::new(s.len(), |i: int| if 0 <= i < s.len() { json_view(s[i]) } else { JsonV::Null })
}

pub closed spec fn map_view(m: JsonMap) -> Map<Seq<char>, JsonV>
    decreases m,
{
    entries_view(m.keys@, m.vals@)
}

pub open spec fn json_view(j: Json) -> JsonV
    decreases j,
{
    match j {
        Json::Null => JsonV::Null,
        Json::Bool(b) => JsonV::Bool(b),
        Json::Number(n) => JsonV::Number(n@),
        Json::Str(s) => JsonV::Str(s@),
        Json::Array(a) => JsonV::Array(seq_view(a@)),
        Json::Object(m) => JsonV::Object(map_view(m)),
    }
}

impl View for Number {
    type V = Num;

    closed spec fn view(&self) -> Num {
        self.repr
    }
}

impl View for Json {
    type V = JsonV;

    open spec fn view(&self) -> JsonV {
        json_view(*self)
    }
}

impl View for JsonMap {
    type V = Map<Seq<char>, JsonV>;

    open spec fn view(&self) -> Map<Seq<char>, JsonV> {
        map_view(*self)
    }
}

proof fn lemma_entries(keys: Seq<String>, vals: Seq<Json>)
    requires
        keys.len() == vals.len(),
        ascending(texts(keys)),
    ensures
        forall|i: int|
            0 <= i < keys.len() ==> {
                &&& entries_view(keys, vals).dom().contains(#[trigger] keys[i]@)
                &&& entries_view(keys, vals)[keys[i]@] == vals[i]@
            },
        forall|k: Seq<char>| #[trigger]
            entries_view(keys, vals).dom().contains(k) ==> exists|i: int|
                0 <= i < keys.len() && k == #[trigger] keys[i]@,
        entries_view(keys, vals).dom() == texts(keys).to_set(),
        entries_view(keys, vals).dom().finite(),
    decreases keys.len(),
{
    let view = entries_view(keys, vals);
    if keys.len() > 0 {
        let n = keys.len() - 1;
        let k1 = keys.drop_last();
        let v1 = vals.drop_last();
        assert(texts(k1) == texts(keys).drop_last());
        lemma_entries(k1, v1);
        assert forall|i: int| 0 <= i < keys.len() implies {
            &&& view.dom().contains(#[trigger] keys[i]@)
            &&& view[keys[i]@] == vals[i]@
        } by {
            if i < n {
                assert(k1[i] == keys[i]);
                assert(v1[i] == vals[i]);
                assert(precedes(texts(keys)[i], texts(keys)[n]));
                lemma_precedes_irreflexive(keys[i]@);
            }
        }
        assert forall|k: Seq<char>| #[trigger] view.dom().contains(k) implies exists|i: int|
            0 <= i < keys.len() && k == #[trigger] keys[i]@ by {
            if k != keys.last()@ {
                assert(entries_view(k1, v1).dom().contains(k));
                let i = choose|i: int| 0 <= i < k1.len() && k == #[trigger] k1[i]@;
                assert(keys[i]@ == k);
            } else {
                assert(keys[n]@ == k);
            }
        }
    }
    assert forall|k: Seq<char>| view.dom().contains(k) == texts(keys).to_set().contains(k) by {
        if view.dom().contains(k) {
            let i = choose|i: int| 0 <= i < keys.len() && k == #[trigger] keys[i]@;
            assert(texts(keys)[i] == k);
        }
        if texts(keys).contains(k) {
            let i = choose|i: int| 0 <= i < texts(keys).len() && texts(keys)[i] == k;
            assert(keys[i]@ == k);
        }
    }
    assert(view.dom() == texts(keys).to_set());
}

impl JsonMap {
    /// The object without members.
    pub fn new() -> (r: JsonMap)
        ensures
            r@ == Map::<Seq<char>, JsonV>::empty(),
    {
        JsonMap { keys: Vec::new(), vals: Vec::new() }
    }

    /// How many members there are.
    pub fn len(&self) -> (r: usize)
        ensures
            r == in_order(self@.dom()).len(),
            in_order(self@.dom()).to_set() == self@.dom(),
            ascending(in_order(self@.dom())),
    {
        proof {
            use_type_invariant(self);
            lemma_entries(self.keys@, self.vals@);
            lemma_in_order(texts(self.keys@));
        }
        self.keys.len()
    }

    /// Whether there is no member.
    pub fn is_empty(&self) -> (r: bool)
        ensures
            r == (self@ == Map::<Seq<char>, JsonV>::empty()),
    {
        proof {
            use_type_invariant(self);
            lemma_entries(self.keys@, self.vals@);
        }
        if self.keys.len() > 0 {
            assert(self@.dom().contains(self.keys@[0]@));
            false
        } else {
            assert(self@ == Map::<Seq<char>, JsonV>::empty());
            true
        }
    }

    /// The name of the member at place `i` in ascending order.
    pub fn key_at(&self, i: usize) -> (r: &String)
        requires
            i < in_order(self@.dom()).len(),
        ensures
            r@ == in_order(self@.dom())[i as int],
            self@.dom().contains(r@),
    {
        proof {
            use_type_invariant(self);
            lemma_entries(self.keys@, self.vals@);
            lemma_in_order(texts(self.keys@));
        }
        &self.keys[i]
    }

    /// The value of the member at place `i` in ascending order of names.
    pub fn val_at(&self, i: usize) -> (r: &Json)
        requires
            i < in_order(self@.dom()).len(),
        ensures
            self@.dom().contains(in_order(self@.dom())[i as int]),
            r@ == self@[in_order(self@.dom())[i as int]],
    {
        proof {
            use_type_invariant(self);
            lemma_entries(self.keys@, self.vals@);
            lemma_in_order(texts(self.keys@));
            assert(texts(self.keys@)[i as int] == self.keys@[i as int]@);
        }
        &self.vals[i]
    }

    /// The value under a name.
    pub fn get(&self, key: &str) -> (r: Option<&Json>)
        ensures
            match r {
                Some(v) => self@.dom().contains(key@) && v@ == self@[key@],
                None => !self@.dom().contains(key@),
            },
    {
        proof {
            use_type_invariant(self);
            lemma_entries(self.keys@, self.vals@);
        }
        let (found, i) = locate(&self.keys, key);
        if found {
            Some(&self.vals[i])
        } else {
            proof {
                lemma_precedes_irreflexive(key@);
            }
            None
        }
    }

    /// Whether there is a member of that name.
    pub fn contains_key(&self, key: &str) -> (r: bool)
        ensures
            r == self@.dom().contains(key@),
    {
        self.get(key).is_some()
    }

    /// The object with one member set.
    pub fn with(self, key: String, val: Json) -> (r: JsonMap)
        ensures
            r@ == self@.insert(key@, val@),
    {
        proof {
            use_type_invariant(&self);
            lemma_entries(self.keys@, self.vals@);
            lemma_precedes_irreflexive(key@);
        }
        let ghost old_keys = self.keys@;
        let ghost old_vals = self.vals@;
        let ghost k = key@;
        let ghost v = val@;
        let (found, i) = locate(&self.keys, key.as_str());
        let JsonMap { mut keys, mut vals } = self;
        if found {
            vals.set(i, val);
            proof {
                lemma_entries(keys@, vals@);
                assert(entries_view(keys@, vals@) == entries_view(old_keys, old_vals).insert(k, v)) by {
                    assert forall|x: Seq<char>| entries_view(keys@, vals@).dom().contains(x) implies
                        entries_view(keys@, vals@)[x] == entries_view(old_keys, old_vals).insert(k, v)[x] by {
                        let j = choose|j: int| 0 <= j < keys@.len() && x == #[trigger] keys@[j]@;
                        if j < i {
                            assert(precedes(keys@[j]@, k));
                        } else if j > i {
                            assert(precedes(texts(keys@)[i as int], texts(keys@)[j]));
                        }
                    }
                }
            }
        } else {
            keys.insert(i, key);
            vals.insert(i, val);
            proof {
                let t = texts(keys@);
                assert forall|a: int, b: int| 0 <= a < b < t.len() implies precedes(
                    #[trigger] t[a],
                    #[trigger] t[b],
                ) by {
                    let ot = texts(old_keys);
                    let a1 = if a < i { a } else { a - 1 };
                    let b1 = if b < i { b } else { b - 1 };
                    if a != i && b != i {
                        assert(precedes(ot[a1], ot[b1]));
                    } else if a == i {
                        assert(precedes(k, old_keys[b1]@));
                    } else {
                        assert(precedes(old_keys[a1]@, k));
                    }
                }
                lemma_entries(keys@, vals@);
                let e0 = entries_view(old_keys, old_vals);
                let e1 = entries_view(keys@, vals@);
                assert(keys@[i as int]@ == k);
                assert forall|x: Seq<char>| e1.dom().contains(x) == e0.insert(k, v).dom().contains(x) by {
                    if e1.dom().contains(x) {
                        let j = choose|j: int| 0 <= j < keys@.len() && x == #[trigger] keys@[j]@;
                        if j < i {
                            assert(old_keys[j]@ == x);
                        } else if j > i {
                            assert(old_keys[j - 1]@ == x);
                        }
                    }
                    if e0.dom().contains(x) {
                        let j = choose|j: int| 0 <= j < old_keys.len() && x == #[trigger] old_keys[j]@;
                        if j < i {
                            assert(keys@[j]@ == x);
                        } else {
                            assert(keys@[j + 1]@ == x);
                        }
                    }
                }
                assert forall|x: Seq<char>| e1.dom().contains(x) implies e1[x] == e0.insert(k, v)[x] by {
                    let j = choose|j: int| 0 <= j < keys@.len() && x == #[trigger] keys@[j]@;
                    if j < i {
                        assert(old_keys[j]@ == x);
                        assert(precedes(x, k));
                    } else if j > i {
                        assert(old_keys[j - 1]@ == x);
                        assert(precedes(k, x));
                    }
                }
                assert(e1 == e0.insert(k, v));
            }
        }
        JsonMap { keys, vals }
    }

    /// The object with one member set.
    pub fn set(self, key: &str, val: Json) -> (r: JsonMap)
        ensures
            r@ == self@.insert(key@, val@),
    {
        self.with(key.to_owned(), val)
    }

    /// Sets one member.
    pub fn insert(&mut self, key: String, val: Json)
        ensures
            final(self)@ == old(self)@.insert(key@, val@),
    {
        let mut whole = JsonMap::new();
        std::mem::swap(&mut whole, self);
        *self = whole.with(key, val);
    }
}

impl JsonV {
    /// The member of an object under a name; nothing for other values.
    pub open spec fn get(self, key: Seq<char>) -> Option<JsonV> {
        match self {
            JsonV::Object(m) => if m.dom().contains(key) {
                Some(m[key])
            } else {
                None
            },
            _ => None,
        }
    }

    /// The text of a string value.
    pub open spec fn text(self) -> Option<Seq<char>> {
        match self {
            JsonV::Str(s) => Some(s),
            _ => None,
        }
    }

    /// The value of a non-negative integer.
    pub open spec fn uint(self) -> Option<u64> {
        match self {
            JsonV::Number(Num::PosInt(n)) => Some(n),
            _ => None,
        }
    }

    /// The value of a boolean.
    pub open spec fn boolean(self) -> Option<bool> {
        match self {
            JsonV::Bool(b) => Some(b),
            _ => None,
        }
    }

    /// The items of an array.
    pub open spec fn items(self) -> Option<Seq<JsonV>> {
        match self {
            JsonV::Array(a) => Some(a),
            _ => None,
        }
    }

    /// The members of an object.
    pub open spec fn members(self) -> Option<Map<Seq<char>, JsonV>> {
        match self {
            JsonV::Object(m) => Some(m),
            _ => None,
        }
    }

    /// The text of the string member under a name.
    pub open spec fn text_at(self, key: Seq<char>) -> Option<Seq<char>> {
        match self.get(key) {
            Some(v) => v.text(),
            None => None,
        }
    }

    /// The non-negative integer member under a name.
    pub open spec fn uint_at(self, key: Seq<char>) -> Option<u64> {
        match self.get(key) {
            Some(v) => v.uint(),
            None => None,
        }
    }

    /// The items of the array member under a name.
    pub open spec fn items_at(self, key: Seq<char>) -> Option<Seq<JsonV>> {
        match self.get(key) {
            Some(v) => v.items(),
            None => None,
        }
    }
}

/// Whether a value nests at most `depth` arrays and objects.
pub open spec fn nests_within(v: JsonV, depth: nat) -> bool
    decreases depth,
{
    match v {
        JsonV::Array(a) => depth > 0 && forall|i: int|
            0 <= i < a.len() ==> nests_within(#[trigger] a[i], (depth - 1) as nat),
        JsonV::Object(m) => depth > 0 && forall|k: Seq<char>|
            m.dom().contains(k) ==> nests_within(#[trigger] m[k], (depth - 1) as nat),
        _ => true,
    }
}

/// The nesting that a JSON text may have and still be read.
pub open spec fn read_depth() -> nat {
    127
}

/// A JSON document as serde_json holds it.
#[verifier::external_type_specification]
#[verifier::external_body]
pub struct ExValue(serde_json::Value);

/// The document that a `serde_json::Value` holds.
pub uninterp spec fn held(v: serde_json::Value) -> JsonV;

/// What `serde_json::from_slice` reads from a byte text: the document, or the
/// text of its error.
pub uninterp spec fn json_read(text: Seq<u8>) -> Result<JsonV, Seq<char>>;

/// Whether a byte text reads as a document.
pub open spec fn reads_as(text: Seq<u8>, v: JsonV) -> bool {
    json_read(text) == Ok::<JsonV, Seq<char>>(v)
}

/// Whether a document reads back from its own text.
pub open spec fn input_whole(v: JsonV) -> bool {
    reads_as(encode_utf8(json_text(v)), v)
}

/// Whether a document reads back from its own text, unless it nests too deep.
pub open spec fn reads_back(v: JsonV) -> bool {
    nests_within(v, read_depth()) ==> input_whole(v)
}

/// The outcome of reading, with the document that was read.
pub open spec fn outcome(r: Result<Json, String>) -> Result<JsonV, Seq<char>> {
    match r {
        Ok(j) => Ok(j@),
        Err(e) => Err(e@),
    }
}

/// The outcome of reading, with the document that serde_json holds.
pub open spec fn held_outcome(r: Result<serde_json::Value, String>) -> Result<JsonV, Seq<char>> {
    match r {
        Ok(v) => Ok(held(v)),
        Err(e) => Err(e@),
    }
}

/// The compact text that `serde_json::to_string` writes for a document.
pub uninterp spec fn json_text(v: JsonV) -> Seq<char>;

/// The binary64 bit pattern that `serde_json::Number::as_f64` gives for an
/// integer.
pub uninterp spec fn integer_double(n: int) -> u64;

/// Takes a `serde_json::Value` apart: variant for variant, an object's names in
/// ascending order as `serde_json::Map` keeps them.
#[verifier::external_body]
pub(crate) fn from_value(v: &Value) -> (j: Json)
    ensures
        j@ == held(*v),
{
    match v {
        Value::Null => Json::Null,
        Value::Bool(b) => Json::Bool(*b),
        Value::Number(n) => Json::Number(Number {
            repr: n.as_u64().map(Num::PosInt).or(n.as_i64().map(Num::NegInt)).unwrap_or(
                Num::Float(n.as_f64().unwrap_or_default().to_bits())),
        }),
        Value::String(s) => Json::Str(s.clone()),
        Value::Array(a) => Json::Array(a.iter().map(from_value).collect()),
        Value::Object(m) => Json::Object(
            JsonMap { keys: m.keys().cloned().collect(), vals: m.values().map(from_value).collect() }),
    }
}

/// Builds a `serde_json::Value`, variant for variant. Every number here is one
/// that `serde_json::Number` holds unchanged; `bytes::Buf::get_f64` turns a bit
/// pattern into the number it stands for.
#[verifier::external_body]
pub(crate) fn to_value(j: &Json) -> (v: Value)
    ensures
        held(v) == j@,
{
    match j {
        Json::Null => Value::Null,
        Json::Bool(b) => Value::Bool(*b),
        Json::Number(n) => match n.repr {
            Num::PosInt(u) => Value::from(u),
            Num::NegInt(i) => Value::from(i),
            Num::Float(bits) => Value::from(bytes::Buf::get_f64(&mut bits.to_be_bytes().as_slice())),
        },
        Json::Str(s) => Value::String(s.clone()),
        Json::Array(a) => Value::Array(a.iter().map(to_value).collect()),
        Json::Object(m) => Value::Object(
            m.keys.iter().cloned().zip(m.vals.iter().map(to_value)).collect()),
    }
}

/// Calls `serde_json::from_slice`: the result is a function of the bytes alone,
/// an error given by its text.
#[verifier::external_body]
fn read_value(text: &[u8]) -> (r: Result<serde_json::Value, String>)
    ensures
        held_outcome(r) == json_read(text@),
{
    serde_json::from_slice(text).map_err(|e| e.to_string())
}

/// Calls `serde_json::to_string`, which succeeds on every `serde_json::Value`.
/// The text is a function of the document, and `serde_json::from_slice` reads the
/// same document from its bytes unless it nests beyond the reader's limit.
#[verifier::external_body]
fn write_value(v: &serde_json::Value) -> (r: String)
    ensures
        r@ == json_text(held(*v)),
        nests_within(held(*v), read_depth()) ==> reads_as(encode_utf8(r@), held(*v)),
{
    serde_json::to_string(v).unwrap_or_default()
}

/// The object that members make, in order; of a name given twice the last counts.
pub open spec fn object_of(keys: Seq<Seq<char>>, vals: Seq<JsonV>) -> Map<Seq<char>, JsonV>
    decreases keys.len(),
{
    if keys.len() == 0 || vals.len() == 0 {
        Map::empty()
    } else {
        object_of(keys.drop_last(), vals.drop_last()).insert(keys.last(), vals.last())
    }
}

/// Calls `serde_json::Number::as_f64` on an integer: the nearest binary64 number.
#[verifier::external_body]
fn integer_as_double(n: i128) -> (bits: u64)
    requires
        i64::MIN <= n <= u64::MAX,
    ensures
        bits == integer_double(n as int),
        finite_bits(bits),
{
    serde_json::Number::from_i128(n).and_then(|x| x.as_f64()).unwrap_or_default().to_bits()
}

impl Number {
    /// A non-negative integer.
    pub fn from_u64(n: u64) -> (r: Number)
        ensures
            r@ == Num::PosInt(n),
    {
        Number { repr: Num::PosInt(n) }
    }

    /// A fraction by its binary64 bit pattern, if it is finite.
    pub fn from_bits(bits: u64) -> (r: Option<Number>)
        ensures
            r is Some <==> finite_bits(bits),
            r matches Some(n) ==> n@ == Num::Float(bits),
    {
        if (bits / 0x10_0000_0000_0000) % 0x800 != 0x7ff {
            Some(Number { repr: Num::Float(bits) })
        } else {
            None
        }
    }

    /// What kind of number this is, with its value.
    pub fn kind(&self) -> (r: Num)
        ensures
            r == self@,
            r matches Num::Float(bits) ==> finite_bits(bits),
    {
        proof {
            use_type_invariant(self);
        }
        self.repr
    }

    /// The binary64 number nearest to this one, by its bit pattern.
    pub fn as_double(&self) -> (bits: u64)
        ensures
            bits == double_of(self@),
            finite_bits(bits),
    {
        proof {
            use_type_invariant(self);
        }
        match self.repr {
            Num::PosInt(n) => integer_as_double(n as i128),
            Num::NegInt(n) => integer_as_double(n as i128),
            Num::Float(bits) => bits,
        }
    }
}

/// The binary64 number nearest to a JSON number, by its bit pattern.
pub open spec fn double_of(n: Num) -> u64 {
    match n {
        Num::PosInt(n) => integer_double(n as int),
        Num::NegInt(n) => integer_double(n as int),
        Num::Float(bits) => bits,
    }
}

/// Reads a JSON document from its text.
pub fn parse(text: &[u8]) -> (r: Result<Json, String>)
    ensures
        outcome(r) == json_read(text@),
{
    match read_value(text) {
        Ok(v) => Ok(from_value(&v)),
        Err(e) => Err(e),
    }
}

impl Json {
    /// The compact text of a document.
    pub fn to_text(&self) -> (r: String)
        ensures
            r@ == json_text(self@),
            nests_within(self@, read_depth()) ==> reads_as(encode_utf8(r@), self@),
    {
        write_value(&to_value(self))
    }

    /// A copy of a document.
    pub fn dup(&self) -> (r: Json)
        ensures
            r@ == self@,
        decreases self,
    {
        match self {
            Json::Null => Json::Null,
            Json::Bool(b) => Json::Bool(*b),
            Json::Number(n) => Json::Number(*n),
            Json::Str(s) => Json::Str(s.clone()),
            Json::Array(a) => {
                let mut out: Vec<Json> = Vec::new();
                let mut i: usize = 0;
                while i < a.len()
                    invariant
                        i <= a.len(),
                        *self == Json::Array(*a),
                        out@.len() == i,
                        forall|k: int| 0 <= k < i ==> out@[k]@ == a@[k]@,
                    decreases a.len() - i,
                {
                    assert(decreases_to!(self->Array_0@ => self->Array_0@[i as int]));
                    out.push(a[i].dup());
                    i += 1;
                }
                assert(seq_view(out@) == seq_view(a@));
                Json::Array(out)
            },
            Json::Object(m) => Json::Object(m.dup()),
        }
    }

    /// The member of an object under a name.
    pub fn get(&self, key: &str) -> (r: Option<&Json>)
        ensures
            match r {
                Some(v) => self@.get(key@) == Some(v@),
                None => self@.get(key@) is None,
            },
    {
        match self {
            Json::Object(m) => m.get(key),
            _ => None,
        }
    }

    /// The text of a string.
    pub fn as_str(&self) -> (r: Option<&String>)
        ensures
            match r {
                Some(s) => self@.text() == Some(s@),
                None => self@.text() is None,
            },
    {
        match self {
            Json::Str(s) => Some(s),
            _ => None,
        }
    }

    /// The value of a non-negative integer.
    pub fn as_u64(&self) -> (r: Option<u64>)
        ensures
            r == self@.uint(),
    {
        match self {
            Json::Number(n) => match n.kind() {
                Num::PosInt(u) => Some(u),
                _ => None,
            },
            _ => None,
        }
    }

    /// The value of a boolean.
    pub fn as_bool(&self) -> (r: Option<bool>)
        ensures
            r == self@.boolean(),
    {
        match self {
            Json::Bool(b) => Some(*b),
            _ => None,
        }
    }

    /// The items of an array.
    pub fn as_array(&self) -> (r: Option<&Vec<Json>>)
        ensures
            match r {
                Some(a) => self@.items() == Some(seq_view(a@)),
                None => self@.items() is None,
            },
    {
        match self {
            Json::Array(a) => Some(a),
            _ => None,
        }
    }

    /// The members of an object.
    pub fn as_object(&self) -> (r: Option<&JsonMap>)
        ensures
            match r {
                Some(m) => self@.members() == Some(m@),
                None => self@.members() is None,
            },
    {
        match self {
            Json::Object(m) => Some(m),
            _ => None,
        }
    }

    /// The text of the string member under a name.
    pub fn str_at(&self, key: &str) -> (r: Option<&String>)
        ensures
            match r {
                Some(s) => self@.text_at(key@) == Some(s@),
                None => self@.text_at(key@) is None,
            },
    {
        match self.get(key) {
            Some(v) => v.as_str(),
            None => None,
        }
    }

    /// The non-negative integer member under a name.
    pub fn u64_at(&self, key: &str) -> (r: Option<u64>)
        ensures
            r == self@.uint_at(key@),
    {
        match self.get(key) {
            Some(v) => v.as_u64(),
            None => None,
        }
    }

    /// The items of the array member under a name.
    pub fn array_at(&self, key: &str) -> (r: Option<&Vec<Json>>)
        ensures
            match r {
                Some(a) => self@.items_at(key@) == Some(seq_view(a@)),
                None => self@.items_at(key@) is None,
            },
    {
        match self.get(key) {
            Some(v) => v.as_array(),
            None => None,
        }
    }
}

impl JsonMap {
    /// A copy of an object.
    pub fn dup(&self) -> (r: JsonMap)
        ensures
            r@ == self@,
        decreases self,
    {
        proof {
            use_type_invariant(self);
            lemma_entries(self.keys@, self.vals@);
        }
        let mut keys: Vec<String> = Vec::new();
        let mut vals: Vec<Json> = Vec::new();
        let mut i: usize = 0;
        while i < self.keys.len()
            invariant
                i <= self.keys.len(),
                self.keys@.len() == self.vals@.len(),
                keys@ == self.keys@.take(i as int),
                vals@.len() == i,
                forall|k: int| 0 <= k < i ==> vals@[k]@ == self.vals@[k]@,
            decreases self.keys.len() - i,
        {
            keys.push(self.keys[i].clone());
            vals.push(self.vals[i].dup());
            i += 1;
        }
        assert(keys@ == self.keys@);
        proof {
            lemma_entries(keys@, vals@);
            let e0 = entries_view(self.keys@, self.vals@);
            let e1 = entries_view(keys@, vals@);
            assert forall|x: Seq<char>| e1.dom().contains(x) implies e1[x] == e0[x] by {
                let j = choose|j: int| 0 <= j < keys@.len() && x == #[trigger] keys@[j]@;
                assert(e1[keys@[j]@] == vals@[j]@);
            }
            assert(e1 == e0);
        }
        JsonMap { keys, vals }
    }
}

/// A string value.
pub fn string(s: &str) -> (r: Json)
    ensures
        r@ == JsonV::Str(s@),
{
    Json::Str(s.to_owned())
}

/// A non-negative integer value.
pub fn uint(n: u64) -> (r: Json)
    ensures
        r@ == JsonV::Number(Num::PosInt(n)),
{
    Json::Number(Number::from_u64(n))
}

/// The value of a binary64 number: null unless it is finite.
pub open spec fn double_value(d: Double) -> JsonV {
    if finite_bits(d.bits) {
        JsonV::Number(Num::Float(d.bits))
    } else {
        JsonV::Null
    }
}

/// The value of a binary64 number: null unless it is finite.
pub fn double(d: Double) -> (r: Json)
    ensures
        r@ == double_value(d),
{
    match Number::from_bits(d.bits) {
        Some(n) => Json::Number(n),
        None => Json::Null,
    }
}

/// The texts of the strings among some items, in order.
pub open spec fn string_items(items: Seq<JsonV>) -> Seq<Seq<char>>
    decreases items.len(),
{
    if items.len() == 0 {
        Seq::empty()
    } else {
        let rest = string_items(items.drop_last());
        match items.last() {
            JsonV::Str(s) => rest.push(s),
            _ => rest,
        }
    }
}

/// Copies the strings among some items.
pub fn strings_in(items: &Vec<Json>) -> (r: Vec<String>)
    ensures
        texts(r@) == string_items(seq_view(items@)),
{
    let ghost all = seq_view(items@);
    let mut out: Vec<String> = Vec::new();
    let mut i: usize = 0;
    while i < items.len()
        invariant
            i <= items.len(),
            all == seq_view(items@),
            texts(out@) == string_items(all.take(i as int)),
        decreases items.len() - i,
    {
        let ghost before = texts(out@);
        assert(all.take(i + 1).drop_last() == all.take(i as int));
        assert(all.take(i + 1).last() == items@[i as int]@);
        if let Json::Str(s) = &items[i] {
            out.push(s.clone());
            assert(texts(out@) == before.push(s@));
        }
        i += 1;
    }
    assert(all.take(i as int) == all);
    out
}

/// Whether all items are strings.
pub open spec fn all_texts(items: Seq<JsonV>) -> bool {
    forall|i: int| 0 <= i < items.len() ==> (#[trigger] items[i]) is Str
}

/// Copies items that are all strings; nothing if one is not.
pub fn texts_in(items: &Vec<Json>) -> (r: Option<Vec<String>>)
    ensures
        match r {
            Some(l) => all_texts(seq_view(items@)) && texts(l@) == string_items(seq_view(items@)),
            None => !all_texts(seq_view(items@)),
        },
{
    let ghost all = seq_view(items@);
    let mut i: usize = 0;
    while i < items.len()
        invariant
            i <= items.len(),
            all == seq_view(items@),
            forall|k: int| 0 <= k < i ==> (#[trigger] all[k]) is Str,
        decreases items.len() - i,
    {
        assert(all[i as int] == items@[i as int]@);
        match &items[i] {
            Json::Str(_) => {},
            _ => {
                assert(!all_texts(all));
                return None;
            },
        }
        i += 1;
    }
    Some(strings_in(items))
}

/// Text values, in order.
pub open spec fn str_values(s: Seq<Seq<char>>) -> Seq<JsonV> {
    s.map_values(|x: Seq<char>| JsonV::Str(x))
}

/// Texts survive being written and read.
pub proof fn lemma_strings_come_back(s: Seq<Seq<char>>)
    ensures
        string_items(str_values(s)) == s,
        all_texts(str_values(s)),
    decreases s.len(),
{
    if s.len() > 0 {
        lemma_strings_come_back(s.drop_last());
        assert(str_values(s).drop_last() == str_values(s.drop_last()));
        assert(s == s.drop_last().push(s.last()));
    }
}

/// An array of strings.
pub fn string_array(s: &Vec<String>) -> (r: Json)
    ensures
        r@ == JsonV::Array(str_values(texts(s@))),
{
    let mut out: Vec<Json> = Vec::new();
    let mut i: usize = 0;
    while i < s.len()
        invariant
            i <= s.len(),
            out@.len() == i,
            forall|k: int| 0 <= k < i ==> (#[trigger] out@[k])@ == JsonV::Str(s@[k]@),
        decreases s.len() - i,
    {
        out.push(Json::Str(s[i].clone()));
        i += 1;
    }
    assert(seq_view(out@) == str_values(texts(s@)));
    Json::Array(out)
}

impl JsonV {
    /// The binary64 reading of the number member under a name.
    pub open spec fn double_at(self, key: Seq<char>) -> Option<Double> {
        match self.get(key) {
            Some(JsonV::Number(n)) => Some(Double { bits: double_of(n) }),
            _ => None,
        }
    }
}

impl Json {
    /// The binary64 reading of the number member under a name.
    pub fn double_at(&self, key: &str) -> (r: Option<Double>)
        ensures
            r == self@.double_at(key@),
            r matches Some(d) ==> finite_bits(d.bits),
    {
        match self.get(key) {
            Some(Json::Number(n)) => Some(Double { bits: n.as_double() }),
            _ => None,
        }
    }
}

/// An object with one more member, where there is a value for it.
pub open spec fn put_opt(
    m: Map<Seq<char>, JsonV>,
    key: Seq<char>,
    val: Option<JsonV>,
) -> Map<Seq<char>, JsonV> {
    match val {
        Some(v) => m.insert(key, v),
        None => m,
    }
}

/// A copy of a value that may be absent, null where it is.
pub fn copy_or_null(v: Option<&Json>) -> (r: Json)
    ensures
        r@ == match v {
            Some(x) => x@,
            None => JsonV::Null,
        },
{
    match v {
        Some(x) => x.dup(),
        None => Json::Null,
    }
}

/// The value of a text that may be absent.
pub open spec fn opt_str(s: Option<Seq<char>>) -> Option<JsonV> {
    match s {
        Some(text) => Some(JsonV::Str(text)),
        None => None,
    }
}

/// The value of a count that may be absent.
pub open spec fn opt_uint(n: Option<u64>) -> Option<JsonV> {
    match n {
        Some(n) => Some(JsonV::Number(Num::PosInt(n))),
        None => None,
    }
}

/// The value of a number that may be absent.
pub open spec fn opt_double(d: Option<Double>) -> Option<JsonV> {
    match d {
        Some(d) => Some(double_value(d)),
        None => None,
    }
}

/// A value that may be absent, null where it is.
pub open spec fn or_null(v: Option<JsonV>) -> JsonV {
    match v {
        Some(v) => v,
        None => JsonV::Null,
    }
}

/// A count that may be absent, null where it is.
pub fn uint_or_null(n: Option<u64>) -> (r: Json)
    ensures
        r@ == or_null(opt_uint(n)),
{
    match n {
        Some(n) => uint(n),
        None => Json::Null,
    }
}

/// A number that may be absent, null where it is.
pub fn double_or_null(d: Option<Double>) -> (r: Json)
    ensures
        r@ == or_null(opt_double(d)),
{
    match d {
        Some(d) => double(d),
        None => Json::Null,
    }
}

/// A text that may be absent, null where it is.
pub fn string_or_null(s: &Option<String>) -> (r: Json)
    ensures
        r@ == or_null(opt_str(opt_view(*s))),
{
    match s {
        Some(s) => string(s.as_str()),
        None => Json::Null,
    }
}

impl Clone for Json {
    fn clone(&self) -> (r: Json)
        ensures
            r@ == self@,
    {
        self.dup()
    }
}

impl Clone for JsonMap {
    fn clone(&self) -> (r: JsonMap)
        ensures
            r@ == self@,
    {
        self.dup()
    }
}

impl Default for JsonMap {
    fn default() -> (r: JsonMap)
        ensures
            r@ == Map::<Seq<char>, JsonV>::empty(),
    {
        JsonMap::new()
    }
}

} // verus!
