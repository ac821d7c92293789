//! The shapes in which a value can give a record, a word or a tagged variant.
//!
//! A record is an object, or an array of its fields in order. A word is a string,
//! or an object whose one member has that name and holds nothing. A tagged variant
//! is an object with a tag, or an array that begins with it.

use vstd::prelude::*;

use crate::json::{object_of, seq_view, Json, JsonMap, JsonV, Num};
use crate::text::{in_order, lemma_precedes_irreflexive, precedes, same, strs};

verus! {

/// A value with the fields of a record under their names: an array that holds the
/// first `needed` fields at least, and no more than there are names, stands for the
/// object that gives each item the name at its place. Any other value stands for
/// itself.
pub open spec fn seated(v: JsonV, names: Seq<Seq<char>>, needed: nat) -> JsonV {
    match v {
        JsonV::Array(a) => if needed <= a.len() <= names.len() {
            JsonV::Object(object_of(names.take(a.len() as int), a))
        } else {
            v
        },
        _ => v,
    }
}

/// Gives the first items of an array the first names.
fn name_items(a: &Vec<Json>, names: &[&str], n: usize) -> (m: JsonMap)
    requires
        n <= a@.len(),
        n <= names@.len(),
    ensures
        m@ == object_of(strs(names@).take(n as int), seq_view(a@).take(n as int)),
{
    let ghost all = seq_view(a@);
    let ghost keys = strs(names@);
    let mut m = JsonMap::new();
    let mut i: usize = 0;
    while i < n
        invariant
            i <= n <= a@.len(),
            n <= names@.len(),
            all == seq_view(a@),
            keys == strs(names@),
            m@ == object_of(keys.take(i as int), all.take(i as int)),
        decreases n - i,
    {
        proof {
            assert(keys.take(i + 1).drop_last() == keys.take(i as int));
            assert(all.take(i + 1).drop_last() == all.take(i as int));
            assert(keys.take(i + 1).last() == names@[i as int]@);
            assert(all.take(i + 1).last() == a@[i as int]@);
        }
        m = m.set(names[i], a[i].dup());
        i += 1;
    }
    m
}

/// The object that an array of fields stands for, where it stands for one.
pub(crate) fn seat(v: &Json, names: &[&str], needed: usize) -> (r: Option<Json>)
    ensures
        r matches Some(x) ==> x@ == seated(v@, strs(names@), needed as nat),
        r is None ==> seated(v@, strs(names@), needed as nat) == v@,
{
    match v {
        Json::Array(a) => {
            if needed <= a.len() && a.len() <= names.len() {
                assert(seq_view(a@).take(a@.len() as int) == seq_view(a@));
                Some(Json::Object(name_items(a, names, a.len())))
            } else {
                None
            }
        },
        _ => None,
    }
}

/// A value with the fields of a table under their names: an array stands for the
/// object that gives each item the name at its place, items past the last name left
/// out. Any other value stands for itself.
pub open spec fn laid_out(v: JsonV, names: Seq<Seq<char>>) -> JsonV {
    match v {
        JsonV::Array(a) => {
            let n = if a.len() < names.len() {
                a.len() as int
            } else {
                names.len() as int
            };
            JsonV::Object(object_of(names.take(n), a.take(n)))
        },
        _ => v,
    }
}

/// The object that an array of a table's fields stands for.
pub(crate) fn lay_out(v: &Json, names: &[&str]) -> (r: Option<Json>)
    ensures
        r matches Some(x) ==> x@ == laid_out(v@, strs(names@)),
        r is None ==> laid_out(v@, strs(names@)) == v@,
{
    match v {
        Json::Array(a) => {
            let n = if a.len() < names.len() {
                a.len()
            } else {
                names.len()
            };
            Some(Json::Object(name_items(a, names, n)))
        },
        _ => None,
    }
}

/// An array of a table's fields gives each item the name at its place, as far as
/// there are names, and leaves out the fields past its end.
pub proof fn law_fields_are_laid_out_in_order(a: Seq<JsonV>, names: Seq<Seq<char>>, i: int)
    requires
        names.no_duplicates(),
        0 <= i < names.len(),
    ensures
        laid_out(JsonV::Array(a), names).get(names[i]) == if i < a.len() {
            Some(a[i])
        } else {
            None
        },
{
    let n = if a.len() < names.len() {
        a.len() as int
    } else {
        names.len() as int
    };
    law_fields_are_seated_in_order(a.take(n), names, 0, i);
    assert(a.take(n).len() == n);
}

/// The object that stands for a value, or the value itself.
pub(crate) fn pick<'a>(seat: &'a Option<Json>, v: &'a Json) -> (r: &'a Json)
    ensures
        r@ == match *seat {
            Some(x) => x@,
            None => v@,
        },
{
    match seat {
        Some(x) => x,
        None => v,
    }
}

/// An array of fields gives each item the name at its place, and leaves out the
/// fields past its end.
pub proof fn law_fields_are_seated_in_order(
    a: Seq<JsonV>,
    names: Seq<Seq<char>>,
    needed: nat,
    i: int,
)
    requires
        needed <= a.len() <= names.len(),
        names.no_duplicates(),
        0 <= i < names.len(),
    ensures
        seated(JsonV::Array(a), names, needed).get(names[i]) == if i < a.len() {
            Some(a[i])
        } else {
            None
        },
{
    lemma_object_of(names.take(a.len() as int), a, names[i]);
    if i < a.len() {
        assert(names.take(a.len() as int)[i] == names[i]);
    } else {
        assert forall|k: int| 0 <= k < a.len() implies names.take(a.len() as int)[k] != names[i] by {
            assert(names.take(a.len() as int)[k] == names[k]);
        }
    }
}

/// What members make under a name, where no name is given twice.
pub proof fn lemma_object_of(keys: Seq<Seq<char>>, vals: Seq<JsonV>, key: Seq<char>)
    requires
        keys.len() == vals.len(),
        keys.no_duplicates(),
    ensures
        object_of(keys, vals).dom().contains(key) == keys.contains(key),
        forall|i: int|
            0 <= i < keys.len() && #[trigger] keys[i] == key ==> object_of(keys, vals)[key] == vals[i],
    decreases keys.len(),
{
    if keys.len() > 0 {
        let n = keys.len() - 1;
        let before = keys.drop_last();
        lemma_object_of(before, vals.drop_last(), key);
        if key == keys.last() {
            assert(keys[n] == key);
        } else if keys.contains(key) {
            let i = choose|i: int| 0 <= i < keys.len() && keys[i] == key;
            assert(before[i] == key);
        } else if before.contains(key) {
            let i = choose|i: int| 0 <= i < before.len() && before[i] == key;
            assert(keys[i] == key);
        }
        assert forall|i: int| 0 <= i < keys.len() && #[trigger] keys[i] == key implies object_of(
            keys,
            vals,
        )[key] == vals[i] by {
            if i < n {
                assert(before[i] == key);
                assert(vals.drop_last()[i] == vals[i]);
            }
        }
    }
}

/// Whether an object has that one member and no other.
pub fn only_member(m: &JsonMap, key: &str) -> (r: bool)
    requires
        m@.dom().contains(key@),
    ensures
        r == (m@.dom() == set![key@]),
{
    let n = m.len();
    let ghost order = in_order(m@.dom());
    proof {
        assert(order.to_set().contains(key@));
    }
    if n == 1 {
        proof {
            assert forall|k: Seq<char>| m@.dom().contains(k) implies k == key@ by {
                assert(order.to_set().contains(k));
            }
            assert(m@.dom() == set![key@]);
        }
        true
    } else {
        proof {
            let i = choose|i: int| 0 <= i < order.len() && order[i] == key@;
            let j: int = if i == 0 {
                1
            } else {
                0
            };
            assert(precedes(order[0], order[1]));
            lemma_precedes_irreflexive(order[0]);
            assert(order.contains(order[j]));
            assert(order.to_set().contains(order[j]));
            assert(order[j] != key@);
        }
        false
    }
}

/// Whether a value stands for nothing: null, or, where `deep`, an object without
/// members.
pub open spec fn holds_nothing(v: JsonV, deep: bool) -> bool {
    v is Null || (deep && v == JsonV::Object(Map::empty()))
}

/// Whether a value gives a word.
pub open spec fn is_word(v: JsonV, word: Seq<char>, deep: bool) -> bool {
    match v {
        JsonV::Str(s) => s == word,
        JsonV::Object(m) => m.dom() == set![word] && holds_nothing(m[word], deep),
        _ => false,
    }
}

/// Whether a value gives a word.
pub fn gives_word(v: &Json, word: &str, deep: bool) -> (r: bool)
    ensures
        r == is_word(v@, word@, deep),
{
    match v {
        Json::Str(s) => same(s.as_str(), word),
        Json::Object(m) => match m.get(word) {
            Some(x) => only_member(m, word) && match x {
                Json::Null => true,
                Json::Object(inner) => deep && inner.is_empty(),
                _ => false,
            },
            None => {
                proof {
                    assert(set![word@].contains(word@));
                }
                false
            },
        },
        _ => false,
    }
}

/// Whether a value of a TOML document is a list or a table without anything in it.
pub open spec fn hollow(v: JsonV) -> bool {
    v == JsonV::Array(Seq::empty()) || v == JsonV::Object(Map::empty())
}

/// The word that a value of a TOML document gives: a string, or the one key of a
/// table that holds a hollow value.
pub open spec fn word_in(v: JsonV) -> Option<Seq<char>> {
    match v {
        JsonV::Str(word) => Some(word),
        JsonV::Object(m) => {
            let keys = in_order(m.dom());
            if keys.len() == 1 && hollow(m[keys[0]]) {
                Some(keys[0])
            } else {
                None
            }
        },
        _ => None,
    }
}

/// The word of a table's field.
pub open spec fn word_at(v: JsonV, key: Seq<char>) -> Option<Seq<char>> {
    match v.get(key) {
        Some(x) => word_in(x),
        None => None,
    }
}

/// Finds the word that a value of a TOML document gives.
pub fn find_word(v: &Json) -> (r: Option<&String>)
    ensures
        match r {
            Some(word) => word_in(v@) == Some(word@),
            None => word_in(v@) is None,
        },
{
    match v {
        Json::Str(word) => Some(word),
        Json::Object(m) => {
            if m.len() != 1 {
                return None;
            }
            let is_hollow = match m.val_at(0) {
                Json::Array(a) => {
                    if a.len() == 0 {
                        assert(seq_view(a@) == Seq::<JsonV>::empty());
                        true
                    } else {
                        assert(seq_view(a@).len() != 0);
                        false
                    }
                },
                Json::Object(inner) => inner.is_empty(),
                _ => false,
            };
            if is_hollow {
                Some(m.key_at(0))
            } else {
                None
            }
        },
        _ => None,
    }
}

/// The tag of a variant: the member under a name, or the first item.
pub open spec fn tag_in(v: JsonV, key: Seq<char>) -> Option<JsonV> {
    match v {
        JsonV::Array(a) => if a.len() > 0 {
            Some(a[0])
        } else {
            None
        },
        _ => v.get(key),
    }
}

/// Finds the tag of a variant.
pub fn find_tag<'a>(v: &'a Json, key: &str) -> (r: Option<&'a Json>)
    ensures
        match r {
            Some(tag) => tag_in(v@, key@) == Some(tag@),
            None => tag_in(v@, key@) is None,
        },
{
    match v {
        Json::Array(a) => {
            if a.len() > 0 {
                assert(seq_view(a@)[0] == a@[0]@);
                Some(&a[0])
            } else {
                None
            }
        },
        _ => v.get(key),
    }
}

/// Whether a tag picks the variant of that name, which is the one at that place;
/// a place picks a variant only where `deep`.
pub open spec fn is_tag(tag: JsonV, name: Seq<char>, place: u64, deep: bool) -> bool {
    tag == JsonV::Str(name) || (deep && tag == JsonV::Number(Num::PosInt(place)))
}

/// Whether a tag picks the variant of that name.
pub fn picks(tag: &Json, name: &str, place: u64, deep: bool) -> (r: bool)
    ensures
        r == is_tag(tag@, name@, place, deep),
{
    match tag {
        Json::Str(s) => same(s.as_str(), name),
        _ => deep && match tag.as_u64() {
            Some(n) => n == place,
            None => false,
        },
    }
}

} // verus!
