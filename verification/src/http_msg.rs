//! HTTP messages as steps see them: a sorted header map and a base64 body.

use vstd::prelude::*;

use crate::json::{string, Json, JsonMap, JsonV};
use crate::llm::words::lemma_envelope_words;
use crate::shape::{pick, seat, seated};
use crate::text::{
    ascending, in_order, lemma_in_order, lemma_lowered_twice, lemma_precedes_irreflexive, locate,
    lowered, opt_view, precedes, strs, texts,
};

verus! {

/// Headers: names in ascending order, none twice.
#[derive(PartialEq, Debug)]
pub struct HeaderMap {
    keys: Vec<String>,
    vals: Vec<String>,
}

/// What headers stand for: a value under each name.
pub closed spec fn header_entries(keys: Seq<String>, vals: Seq<String>) -> Map<Seq<char>, Seq<char>>
    decreases vals.len(),
{
    if keys.len() == 0 || vals.len() == 0 {
        Map::empty()
    } else {
        header_entries(keys.drop_last(), vals.drop_last()).insert(keys.last()@, vals.last()@)
    }
}

impl View for HeaderMap {
    type V = Map<Seq<char>, Seq<char>>;

    closed spec fn view(&self) -> Map<Seq<char>, Seq<char>> {
        header_entries(self.keys@, self.vals@)
    }
}

proof fn lemma_headers(keys: Seq<String>, vals: Seq<String>)
    requires
        keys.len() == vals.len(),
        ascending(texts(keys)),
    ensures
        forall|i: int|
            0 <= i < keys.len() ==> {
                &&& header_entries(keys, vals).dom().contains(#[trigger] keys[i]@)
                &&& header_entries(keys, vals)[keys[i]@] == vals[i]@
            },
        forall|k: Seq<char>| #[trigger]
            header_entries(keys, vals).dom().contains(k) ==> exists|i: int|
                0 <= i < keys.len() && k == #[trigger] keys[i]@,
        header_entries(keys, vals).dom() == texts(keys).to_set(),
    decreases keys.len(),
{
    let view = header_entries(keys, vals);
    if keys.len() > 0 {
        let n = keys.len() - 1;
        let k1 = keys.drop_last();
        let v1 = vals.drop_last();
        assert(texts(k1) == texts(keys).drop_last());
        lemma_headers(k1, v1);
        assert forall|i: int| 0 <= i < keys.len() implies {
            &&& view.dom().contains(#[trigger] keys[i]@)
            &&& view[keys[i]@] == vals[i]@
        } by {
            if i < n {
                assert(k1[i] == keys[i] && v1[i] == vals[i]);
                assert(precedes(texts(keys)[i], texts(keys)[n]));
                lemma_precedes_irreflexive(keys[i]@);
            }
        }
        assert forall|k: Seq<char>| #[trigger] view.dom().contains(k) implies exists|i: int|
            0 <= i < keys.len() && k == #[trigger] keys[i]@ by {
            if k != keys.last()@ {
                assert(header_entries(k1, v1).dom().contains(k));
                let i = choose|i: int| 0 <= i < k1.len() && k == #[trigger] k1[i]@;
                assert(keys[i]@ == k);
            } else {
                assert(keys[n]@ == k);
            }
        }
    }
    assert forall|k: Seq<char>| view.dom().contains(k) == texts(keys).to_set().contains(k) by {
        if view.dom().contains(k) {
            let i = choose|i: int| 0 <= i < keys.len() && k == #[trigger] keys[i]@;
            assert(texts(keys)[i] == k);
        }
        if texts(keys).contains(k) {
            let i = choose|i: int| 0 <= i < texts(keys).len() && texts(keys)[i] == k;
            assert(keys[i]@ == k);
        }
    }
    assert(view.dom() == texts(keys).to_set());
}

impl HeaderMap {
    #[verifier::type_invariant]
    spec fn well_formed(self) -> bool {
        self.keys@.len() == self.vals@.len() && ascending(texts(self.keys@))
    }

    /// No headers.
    pub fn new() -> (r: HeaderMap)
        ensures
            r@ == Map::<Seq<char>, Seq<char>>::empty(),
    {
        HeaderMap { keys: Vec::new(), vals: Vec::new() }
    }

    /// How many headers there are.
    pub fn len(&self) -> (r: usize)
        ensures
            r == in_order(self@.dom()).len(),
            in_order(self@.dom()).to_set() == self@.dom(),
            ascending(in_order(self@.dom())),
    {
        proof {
            use_type_invariant(self);
            lemma_headers(self.keys@, self.vals@);
            lemma_in_order(texts(self.keys@));
        }
        self.keys.len()
    }

    /// Whether there is no header.
    pub fn is_empty(&self) -> (r: bool)
        ensures
            r == (self@ == Map::<Seq<char>, Seq<char>>::empty()),
    {
        proof {
            use_type_invariant(self);
            lemma_headers(self.keys@, self.vals@);
        }
        if self.keys.len() > 0 {
            assert(self@.dom().contains(self.keys@[0]@));
            false
        } else {
            assert(self@ == Map::<Seq<char>, Seq<char>>::empty());
            true
        }
    }

    /// The name at place `i` in ascending order.
    pub fn key_at(&self, i: usize) -> (r: &String)
        requires
            i < in_order(self@.dom()).len(),
        ensures
            r@ == in_order(self@.dom())[i as int],
            self@.dom().contains(r@),
    {
        proof {
            use_type_invariant(self);
            lemma_headers(self.keys@, self.vals@);
            lemma_in_order(texts(self.keys@));
        }
        &self.keys[i]
    }

    /// The value at place `i` in ascending order of names.
    pub fn val_at(&self, i: usize) -> (r: &String)
        requires
            i < in_order(self@.dom()).len(),
        ensures
            self@.dom().contains(in_order(self@.dom())[i as int]),
            r@ == self@[in_order(self@.dom())[i as int]],
    {
        proof {
            use_type_invariant(self);
            lemma_headers(self.keys@, self.vals@);
            lemma_in_order(texts(self.keys@));
            assert(texts(self.keys@)[i as int] == self.keys@[i as int]@);
        }
        &self.vals[i]
    }

    /// The value under a name.
    pub fn get(&self, key: &str) -> (r: Option<&String>)
        ensures
            match r {
                Some(v) => self@.dom().contains(key@) && v@ == self@[key@],
                None => !self@.dom().contains(key@),
            },
    {
        proof {
            use_type_invariant(self);
            lemma_headers(self.keys@, self.vals@);
        }
        let (found, i) = locate(&self.keys, key);
        if found {
            Some(&self.vals[i])
        } else {
            proof {
                lemma_precedes_irreflexive(key@);
            }
            None
        }
    }

    /// Whether there is a header of that name.
    pub fn contains_key(&self, key: &str) -> (r: bool)
        ensures
            r == self@.dom().contains(key@),
    {
        self.get(key).is_some()
    }

    fn with(self, key: String, val: String) -> (r: HeaderMap)
        ensures
            r@ == self@.insert(key@, val@),
    {
        proof {
            use_type_invariant(&self);
            lemma_headers(self.keys@, self.vals@);
            lemma_precedes_irreflexive(key@);
        }
        let ghost old_keys = self.keys@;
        let ghost old_vals = self.vals@;
        let ghost e0 = header_entries(old_keys, old_vals);
        let ghost k = key@;
        let ghost v = val@;
        let (found, i) = locate(&self.keys, key.as_str());
        let HeaderMap { mut keys, mut vals } = self;
        if found {
            vals.set(i, val);
            proof {
                lemma_headers(keys@, vals@);
                let e1 = header_entries(keys@, vals@);
                assert forall|x: Seq<char>| e1.dom().contains(x) implies e1[x] == e0.insert(k, v)[x] by {
                    let j = choose|j: int| 0 <= j < keys@.len() && x == #[trigger] keys@[j]@;
                    if j < i {
                        assert(precedes(keys@[j]@, k));
                    } else if j > i {
                        assert(precedes(texts(keys@)[i as int], texts(keys@)[j]));
                    }
                }
                assert(e1 == e0.insert(k, v));
            }
        } else {
            keys.insert(i, key);
            vals.insert(i, val);
            proof {
                let t = texts(keys@);
                assert forall|a: int, b: int| 0 <= a < b < t.len() implies precedes(
                    #[trigger] t[a],
                    #[trigger] t[b],
                ) by {
                    let ot = texts(old_keys);
                    let a1 = if a < i { a } else { a - 1 };
                    let b1 = if b < i { b } else { b - 1 };
                    if a != i && b != i {
                        assert(precedes(ot[a1], ot[b1]));
                    } else if a == i {
                        assert(precedes(k, old_keys[b1]@));
                    } else {
                        assert(precedes(old_keys[a1]@, k));
                    }
                }
                lemma_headers(keys@, vals@);
                let e1 = header_entries(keys@, vals@);
                assert(keys@[i as int]@ == k);
                assert forall|x: Seq<char>| e1.dom().contains(x) == e0.insert(k, v).dom().contains(x) by {
                    if e1.dom().contains(x) {
                        let j = choose|j: int| 0 <= j < keys@.len() && x == #[trigger] keys@[j]@;
                        if j < i {
                            assert(old_keys[j]@ == x);
                        } else if j > i {
                            assert(old_keys[j - 1]@ == x);
                        }
                    }
                    if e0.dom().contains(x) {
                        let j = choose|j: int| 0 <= j < old_keys.len() && x == #[trigger] old_keys[j]@;
                        if j < i {
                            assert(keys@[j]@ == x);
                        } else {
                            assert(keys@[j + 1]@ == x);
                        }
                    }
                }
                assert forall|x: Seq<char>| e1.dom().contains(x) implies e1[x] == e0.insert(k, v)[x] by {
                    let j = choose|j: int| 0 <= j < keys@.len() && x == #[trigger] keys@[j]@;
                    if j < i {
                        assert(old_keys[j]@ == x);
                        assert(precedes(x, k));
                    } else if j > i {
                        assert(old_keys[j - 1]@ == x);
                        assert(precedes(k, x));
                    }
                }
                assert(e1 == e0.insert(k, v));
            }
        }
        HeaderMap { keys, vals }
    }

    fn without(self, key: &str) -> (r: (HeaderMap, bool))
        ensures
            r.0@ == self@.remove(key@),
            r.1 == self@.dom().contains(key@),
    {
        proof {
            use_type_invariant(&self);
            lemma_headers(self.keys@, self.vals@);
            lemma_precedes_irreflexive(key@);
        }
        let ghost old_keys = self.keys@;
        let ghost e0 = header_entries(self.keys@, self.vals@);
        let ghost k = key@;
        let (found, i) = locate(&self.keys, key);
        if !found {
            assert(e0.remove(k) == e0);
            return (self, false);
        }
        let HeaderMap { mut keys, mut vals } = self;
        keys.remove(i);
        vals.remove(i);
        proof {
            let t = texts(keys@);
            let ot = texts(old_keys);
            assert forall|a: int, b: int| 0 <= a < b < t.len() implies precedes(
                #[trigger] t[a],
                #[trigger] t[b],
            ) by {
                let a1 = if a < i { a } else { a + 1 };
                let b1 = if b < i { b } else { b + 1 };
                assert(t[a] == ot[a1] && t[b] == ot[b1]);
                assert(precedes(ot[a1], ot[b1]));
            }
            lemma_headers(keys@, vals@);
            let e1 = header_entries(keys@, vals@);
            assert forall|x: Seq<char>| e1.dom().contains(x) == e0.remove(k).dom().contains(x) by {
                if e1.dom().contains(x) {
                    let j = choose|j: int| 0 <= j < keys@.len() && x == #[trigger] keys@[j]@;
                    if j < i {
                        assert(old_keys[j]@ == x);
                    } else {
                        assert(old_keys[j + 1]@ == x);
                        assert(precedes(ot[i as int], ot[j + 1]));
                    }
                }
                if e0.remove(k).dom().contains(x) {
                    let j = choose|j: int| 0 <= j < old_keys.len() && x == #[trigger] old_keys[j]@;
                    if j < i {
                        assert(keys@[j]@ == x);
                    } else {
                        assert(keys@[j - 1]@ == x);
                    }
                }
            }
            assert forall|x: Seq<char>| e1.dom().contains(x) implies e1[x] == e0.remove(k)[x] by {
                let j = choose|j: int| 0 <= j < keys@.len() && x == #[trigger] keys@[j]@;
                if j < i {
                    assert(old_keys[j]@ == x);
                } else {
                    assert(old_keys[j + 1]@ == x);
                }
            }
            assert(e1 == e0.remove(k));
        }
        (HeaderMap { keys, vals }, true)
    }

    /// Sets one header under the name as given.
    pub fn insert(&mut self, key: String, val: String)
        ensures
            final(self)@ == old(self)@.insert(key@, val@),
    {
        let mut whole = HeaderMap::new();
        std::mem::swap(&mut whole, self);
        *self = whole.with(key, val);
    }

    /// Removes the header of that name, and says whether there was one.
    pub fn remove(&mut self, key: &str) -> (r: bool)
        ensures
            final(self)@ == old(self)@.remove(key@),
            r == old(self)@.dom().contains(key@),
    {
        let mut whole = HeaderMap::new();
        std::mem::swap(&mut whole, self);
        let (rest, found) = whole.without(key);
        *self = rest;
        found
    }

    /// A copy of the headers.
    pub fn dup(&self) -> (r: HeaderMap)
        ensures
            r@ == self@,
    {
        let mut out = HeaderMap::new();
        let n = self.len();
        let ghost order = in_order(self@.dom());
        let mut i: usize = 0;
        while i < n
            invariant
                i <= n,
                n == order.len(),
                order == in_order(self@.dom()),
                order.to_set() == self@.dom(),
                ascending(order),
                forall|k: Seq<char>| #[trigger]
                    out@.dom().contains(k) ==> self@.dom().contains(k) && out@[k] == self@[k],
                forall|j: int| 0 <= j < i ==> out@.dom().contains(#[trigger] order[j]),
            decreases n - i,
        {
            let ghost before = out@;
            let name = self.key_at(i).clone();
            let value = self.val_at(i).clone();
            let ghost k = name@;
            let ghost v = value@;
            out.insert(name, value);
            assert(out@ == before.insert(k, v));
            assert forall|x: Seq<char>| #[trigger] out@.dom().contains(x) implies self@.dom().contains(x)
                && out@[x] == self@[x] by {
                if x != k {
                    assert(before.dom().contains(x));
                }
            }
            assert forall|j: int| 0 <= j < i + 1 implies out@.dom().contains(#[trigger] order[j]) by {
                if j < i {
                    assert(before.dom().contains(order[j]));
                }
            }
            i += 1;
        }
        proof {
            assert forall|k: Seq<char>| self@.dom().contains(k) implies out@.dom().contains(k) by {
                assert(order.to_set().contains(k));
                let j = choose|j: int| 0 <= j < order.len() && order[j] == k;
                assert(out@.dom().contains(order[j]));
            }
            assert forall|k: Seq<char>| #[trigger] self@.dom().contains(k) implies out@[k] == self@[k] by {
                assert(out@.dom().contains(k));
            }
            assert(out@.dom() == self@.dom());
            assert(out@ == self@);
        }
        out
    }
}

impl Clone for HeaderMap {
    fn clone(&self) -> (r: HeaderMap)
        ensures
            r@ == self@,
    {
        self.dup()
    }
}

impl Default for HeaderMap {
    fn default() -> (r: HeaderMap)
        ensures
            r@ == Map::<Seq<char>, Seq<char>>::empty(),
    {
        HeaderMap::new()
    }
}

/// Why a text is no base64.
#[derive(Clone, Copy, PartialEq, Eq, Structural, Debug)]
pub enum Base64Error {
    /// A byte outside the alphabet, or padding out of place: where, and which.
    InvalidByte(usize, u8),
    /// A length that no encoding has.
    InvalidLength(usize),
    /// A last symbol with bits that carry nothing: where, and which.
    InvalidLastSymbol(usize, u8),
    /// Padding that is missing or too much.
    InvalidPadding,
}

/// The text that base64's standard engine encodes bytes to.
pub uninterp spec fn standard_text(bytes: Seq<u8>) -> Seq<char>;

/// What base64's standard engine decodes a text to.
pub uninterp spec fn standard_bytes(text: Seq<char>) -> Result<Seq<u8>, Base64Error>;

/// Bytes that were read, or the error.
pub open spec fn bytes_view(r: Result<Vec<u8>, Base64Error>) -> Result<Seq<u8>, Base64Error> {
    match r {
        Ok(b) => Ok(b@),
        Err(e) => Err(e),
    }
}

/// Whether a text decodes to some bytes.
pub open spec fn decodes_to(text: Seq<char>, bytes: Seq<u8>) -> bool {
    standard_bytes(text) == Ok::<Seq<u8>, Base64Error>(bytes)
}

/// Calls `Engine::encode` of base64's `general_purpose::STANDARD`. The text is a
/// function of the bytes, and the same engine decodes it to the bytes again.
#[verifier::external_body]
fn encode_standard(bytes: &[u8]) -> (r: String)
    ensures
        r@ == standard_text(bytes@),
        decodes_to(r@, bytes@),
{
    base64::Engine::encode(&base64::engine::general_purpose::STANDARD, bytes)
}

/// Calls `Engine::decode` of base64's `general_purpose::STANDARD`: a function of
/// the text, the error taken over variant for variant.
#[verifier::external_body]
fn decode_standard(text: &str) -> (r: Result<Vec<u8>, Base64Error>)
    ensures
        bytes_view(r) == standard_bytes(text@),
{
    base64::Engine::decode(&base64::engine::general_purpose::STANDARD, text).map_err(|e| match e {
        base64::DecodeError::InvalidByte(at, byte) => Base64Error::InvalidByte(at, byte),
        base64::DecodeError::InvalidLength(len) => Base64Error::InvalidLength(len),
        base64::DecodeError::InvalidLastSymbol(at, byte) => Base64Error::InvalidLastSymbol(at, byte),
        base64::DecodeError::InvalidPadding => Base64Error::InvalidPadding,
    })
}

/// An HTTP message: a request, or a response with empty method and path.
#[derive(Clone, PartialEq, Debug)]
pub struct HttpMsg {
    pub method: String,
    pub path: String,
    pub headers: HeaderMap,
    pub body_b64: String,
}

#[verifier::ext_equal]
pub struct HttpMsgV {
    pub method: Seq<char>,
    pub path: Seq<char>,
    pub headers: Map<Seq<char>, Seq<char>>,
    pub body_b64: Seq<char>,
}

impl View for HttpMsg {
    type V = HttpMsgV;

    open spec fn view(&self) -> HttpMsgV {
        HttpMsgV {
            method: self.method@,
            path: self.path@,
            headers: self.headers@,
            body_b64: self.body_b64@,
        }
    }
}

impl HttpMsgV {
    /// The message with a header set, its name in small letters.
    pub open spec fn with_header(self, name: Seq<char>, value: Seq<char>) -> HttpMsgV {
        HttpMsgV { headers: self.headers.insert(lowered(name), value), ..self }
    }

    /// The message without a header.
    pub open spec fn without_header(self, name: Seq<char>) -> HttpMsgV {
        HttpMsgV { headers: self.headers.remove(lowered(name)), ..self }
    }

    /// The message with a body given in base64.
    pub open spec fn with_body(self, body_b64: Seq<char>) -> HttpMsgV {
        HttpMsgV { body_b64, ..self }
    }

    /// The message with another path.
    pub open spec fn with_path(self, path: Seq<char>) -> HttpMsgV {
        HttpMsgV { path, ..self }
    }
}

impl HttpMsg {
    /// The bytes of the body.
    pub fn body_bytes(&self) -> (r: Result<Vec<u8>, Base64Error>)
        ensures
            bytes_view(r) == standard_bytes(self@.body_b64),
    {
        decode_standard(self.body_b64.as_str())
    }

    /// Sets the bytes of the body, which `body_bytes` then gives back.
    pub fn set_body_bytes(&mut self, bytes: &[u8])
        ensures
            final(self)@ == old(self)@.with_body(standard_text(bytes@)),
            decodes_to(final(self)@.body_b64, bytes@),
    {
        self.body_b64 = encode_standard(bytes);
    }

    /// Sets a header, its name in small letters.
    pub fn set_header(&mut self, name: &str, value: &str)
        ensures
            final(self)@ == old(self)@.with_header(name@, value@),
    {
        self.headers.insert(name.to_ascii_lowercase(), value.to_owned());
    }

    /// Removes a header, whatever the case of its name, and says whether there was
    /// one.
    pub fn delete_header(&mut self, name: &str) -> (r: bool)
        ensures
            final(self)@ == old(self)@.without_header(name@),
            r == old(self)@.headers.dom().contains(lowered(name@)),
    {
        self.headers.remove(name.to_ascii_lowercase().as_str())
    }

    /// A copy of the message.
    pub fn dup(&self) -> (r: HttpMsg)
        ensures
            r@ == self@,
    {
        HttpMsg {
            method: self.method.clone(),
            path: self.path.clone(),
            headers: self.headers.dup(),
            body_b64: self.body_b64.clone(),
        }
    }
}

/// Header names are taken without regard to case: a header set under one spelling
/// is the one found, and removed, under any other.
pub proof fn law_header_case_does_not_matter(
    m: HttpMsgV,
    name: Seq<char>,
    spelled: Seq<char>,
    value: Seq<char>,
)
    requires
        lowered(name) == lowered(spelled),
    ensures
        m.with_header(name, value) == m.with_header(spelled, value),
        m.without_header(name) == m.without_header(spelled),
        m.with_header(name, value).headers[lowered(spelled)] == value,
        !m.with_header(name, value).without_header(spelled).headers.dom().contains(lowered(name)),
{
}

/// Setting a header keeps the names of all headers in small letters.
pub proof fn law_header_names_stay_small(m: HttpMsgV, name: Seq<char>, value: Seq<char>)
    requires
        forall|k: Seq<char>| m.headers.dom().contains(k) ==> lowered(k) == k,
    ensures
        forall|k: Seq<char>| #[trigger]
            m.with_header(name, value).headers.dom().contains(k) ==> lowered(k) == k,
{
    lemma_lowered_twice(name);
}

/// Setting a header touches no other header and nothing else of the message.
pub proof fn law_header_set_is_local(
    m: HttpMsgV,
    name: Seq<char>,
    value: Seq<char>,
    other: Seq<char>,
)
    requires
        other != lowered(name),
    ensures
        m.with_header(name, value).headers.dom().contains(other) == m.headers.dom().contains(other),
        m.headers.dom().contains(other) ==> m.with_header(name, value).headers[other]
            == m.headers[other],
        m.with_header(name, value).method == m.method,
        m.with_header(name, value).path == m.path,
        m.with_header(name, value).body_b64 == m.body_b64,
{
}

/// Whether all members of an object are strings.
pub open spec fn all_strings(m: Map<Seq<char>, JsonV>) -> bool {
    forall|k: Seq<char>| #[trigger] m.dom().contains(k) ==> m[k] is Str
}

/// The headers that a JSON value spells out: none where they are left out.
pub open spec fn read_headers(v: Option<JsonV>) -> Option<Map<Seq<char>, Seq<char>>> {
    match v {
        None => Some(Map::empty()),
        Some(JsonV::Object(m)) => if all_strings(m) {
            Some(Map::new(|k: Seq<char>| m.dom().contains(k), |k: Seq<char>| m[k]->Str_0))
        } else {
            None
        },
        Some(_) => None,
    }
}

/// The value of headers: each value under its name.
pub open spec fn headers_value(m: Map<Seq<char>, Seq<char>>) -> JsonV {
    JsonV::Object(m.map_values(|v: Seq<char>| JsonV::Str(v)))
}

/// The value of a message.
pub open spec fn msg_value(m: HttpMsgV) -> JsonV {
    JsonV::Object(
        Map::<Seq<char>, JsonV>::empty().insert("method"@, JsonV::Str(m.method)).insert(
            "path"@,
            JsonV::Str(m.path),
        ).insert("headers"@, headers_value(m.headers)).insert("body_b64"@, JsonV::Str(m.body_b64)),
    )
}

/// Reads headers from a JSON value.
pub(crate) fn headers_from(v: Option<&Json>) -> (r: Option<HeaderMap>)
    ensures
        opt_view(r) == read_headers(match v {
            Some(j) => Some(j@),
            None => None,
        }),
{
    let mut out = HeaderMap::new();
    match v {
        None => Some(out),
        Some(Json::Object(m)) => {
            let n = m.len();
            let ghost order = in_order(m@.dom());
            let mut i: usize = 0;
            while i < n
                invariant
                    i <= n,
                    v is Some && v->Some_0@ == JsonV::Object(m@),
                    n == order.len(),
                    order == in_order(m@.dom()),
                    order.to_set() == m@.dom(),
                    ascending(order),
                    forall|k: Seq<char>| #[trigger]
                        out@.dom().contains(k) ==> m@.dom().contains(k) && m@[k] == JsonV::Str(
                            out@[k],
                        ),
                    forall|j: int| 0 <= j < i ==> out@.dom().contains(#[trigger] order[j]),
                decreases n - i,
            {
                let ghost before = out@;
                let name = m.key_at(i).clone();
                let ghost k = name@;
                match m.val_at(i) {
                    Json::Str(value) => {
                        let ghost text = value@;
                        out.insert(name, value.clone());
                        assert(out@ == before.insert(k, text));
                        assert forall|x: Seq<char>| #[trigger]
                            out@.dom().contains(x) implies m@.dom().contains(x) && m@[x] == JsonV::Str(
                            out@[x],
                        ) by {
                            if x != k {
                                assert(before.dom().contains(x));
                            }
                        }
                        assert forall|j: int| 0 <= j < i + 1 implies out@.dom().contains(
                            #[trigger] order[j],
                        ) by {
                            if j < i {
                                assert(before.dom().contains(order[j]));
                            }
                        }
                    },
                    _ => {
                        assert(m@.dom().contains(k) && !(m@[k] is Str));
                        assert(!all_strings(m@));
                        return None;
                    },
                }
                i += 1;
            }
            proof {
                assert forall|k: Seq<char>| #[trigger] m@.dom().contains(k) implies out@.dom().contains(k)
                    && m@[k] == JsonV::Str(out@[k]) by {
                    assert(order.to_set().contains(k));
                    let j = choose|j: int| 0 <= j < order.len() && order[j] == k;
                    assert(out@.dom().contains(order[j]));
                }
                assert(all_strings(m@));
                assert(out@ == Map::new(|k: Seq<char>| m@.dom().contains(k), |k: Seq<char>| m@[k]->Str_0));
            }
            Some(out)
        },
        Some(_) => None,
    }
}

fn headers_json(m: &HeaderMap) -> (r: Json)
    ensures
        r@ == headers_value(m@),
{
    let mut out = JsonMap::new();
    let n = m.len();
    let ghost order = in_order(m@.dom());
    let mut i: usize = 0;
    while i < n
        invariant
            i <= n,
            n == order.len(),
            order == in_order(m@.dom()),
            order.to_set() == m@.dom(),
            ascending(order),
            forall|k: Seq<char>| #[trigger]
                out@.dom().contains(k) ==> m@.dom().contains(k) && out@[k] == JsonV::Str(m@[k]),
            forall|j: int| 0 <= j < i ==> out@.dom().contains(#[trigger] order[j]),
        decreases n - i,
    {
        let ghost before = out@;
        let name = m.key_at(i).clone();
        let value = string(m.val_at(i).as_str());
        let ghost k = name@;
        let ghost v = value@;
        out.insert(name, value);
        assert(out@ == before.insert(k, v));
        assert forall|x: Seq<char>| #[trigger] out@.dom().contains(x) implies m@.dom().contains(x)
            && out@[x] == JsonV::Str(m@[x]) by {
            if x != k {
                assert(before.dom().contains(x));
            }
        }
        assert forall|j: int| 0 <= j < i + 1 implies out@.dom().contains(#[trigger] order[j]) by {
            if j < i {
                assert(before.dom().contains(order[j]));
            }
        }
        i += 1;
    }
    proof {
        assert forall|k: Seq<char>| #[trigger] m@.dom().contains(k) implies out@.dom().contains(k)
            && out@[k] == JsonV::Str(m@[k]) by {
            assert(order.to_set().contains(k));
            let j = choose|j: int| 0 <= j < order.len() && order[j] == k;
            assert(out@.dom().contains(order[j]));
        }
        assert(out@ == m@.map_values(|v: Seq<char>| JsonV::Str(v)));
    }
    Json::Object(out)
}

/// The fields of a message, in order.
pub const MSG_FIELDS: [&'static str; 4] = ["method", "path", "headers", "body_b64"];

/// The message that a value spells out.
pub open spec fn msg_in(v: JsonV) -> Option<HttpMsgV> {
    let v = seated(v, strs(MSG_FIELDS@), 4);
    match (
        v.text_at("method"@),
        v.text_at("path"@),
        match v.get("headers"@) {
            Some(x) => read_headers(Some(x)),
            None => None,
        },
        v.text_at("body_b64"@),
    ) {
        (Some(method), Some(path), Some(headers), Some(body_b64)) => Some(
            HttpMsgV { method, path, headers, body_b64 },
        ),
        _ => None,
    }
}

impl HttpMsg {
    /// The value.
    pub fn to_json(&self) -> (r: Json)
        ensures
            r@ == msg_value(self@),
    {
        Json::Object(
            JsonMap::new().set("method", string(self.method.as_str())).set(
                "path",
                string(self.path.as_str()),
            ).set("headers", headers_json(&self.headers)).set("body_b64", string(self.body_b64.as_str())),
        )
    }

    /// Reads it from a value.
    pub fn from_json(v: &Json) -> (r: Option<HttpMsg>)
        ensures
            opt_view(r) == msg_in(v@),
    {
        let seats = seat(v, &MSG_FIELDS, 4);
        let v = pick(&seats, v);
        let headers = match v.get("headers") {
            Some(x) => headers_from(Some(x)),
            None => None,
        };
        match (v.str_at("method"), v.str_at("path"), headers, v.str_at("body_b64")) {
            (Some(method), Some(path), Some(headers), Some(body_b64)) => Some(
                HttpMsg { method: method.clone(), path: path.clone(), headers, body_b64: body_b64.clone() },
            ),
            _ => None,
        }
    }
}

/// Headers survive being written and read.
pub proof fn law_headers_survive(h: Map<Seq<char>, Seq<char>>)
    ensures
        read_headers(Some(headers_value(h))) == Some(h),
{
    let m = h.map_values(|v: Seq<char>| JsonV::Str(v));
    assert(all_strings(m));
    assert(Map::new(|k: Seq<char>| m.dom().contains(k), |k: Seq<char>| m[k]->Str_0) == h);
}

/// A message survives being written and read.
pub proof fn law_msg_survives(m: HttpMsgV)
    ensures
        msg_in(msg_value(m)) == Some(m),
{
    lemma_envelope_words();
    law_headers_survive(m.headers);
}

} // verus!
