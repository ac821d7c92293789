//! The members of a JSON object and the items of a JSON array as their text gives
//! them: in order, with a name as often as it stands there.

use vstd::prelude::*;
use vstd::slice::slice_subrange;
use vstd::utf8::encode_utf8;

use crate::json::{
    json_read, nests_within, object_of, parse, read_depth, reads_as, seq_view, to_value, Json, JsonMap, JsonV,
};
use crate::text::{opt_view, same, strs};

verus! {

/// How many bytes of a text serde_json's stream reader takes for its first value,
/// the blanks before it counted in; nothing where it finds no value.
pub uninterp spec fn first_value_end(text: Seq<u8>) -> Option<nat>;

/// Calls `StreamDeserializer::next` over `serde::de::IgnoredAny` on a text, then
/// `StreamDeserializer::byte_offset`: where the first value of the text ends. A
/// value takes a byte at least, and ends within the text.
#[verifier::external_body]
fn skip_value(text: &[u8]) -> (r: Option<usize>)
    ensures
        match r {
            Some(n) => first_value_end(text@) == Some(n as nat) && 0 < n <= text@.len(),
            None => first_value_end(text@) is None,
        },
{
    let mut values = serde_json::Deserializer::from_slice(text).into_iter::<serde::de::IgnoredAny>();
    let found = values.next().and_then(|value| value.ok());
    found.map(|_| values.byte_offset())
}

/// Whether a byte is a blank between the tokens of a JSON text.
pub open spec fn blank(b: u8) -> bool {
    b == 0x20 || b == 0x09 || b == 0x0a || b == 0x0d
}

/// A text without the blanks that it begins with.
pub open spec fn unblanked(text: Seq<u8>) -> Seq<u8>
    decreases text.len(),
{
    if text.len() > 0 && blank(text[0]) {
        unblanked(text.skip(1))
    } else {
        text
    }
}

/// What follows a byte that a text begins with, blanks aside.
pub open spec fn past(text: Seq<u8>, b: u8) -> Option<Seq<u8>> {
    let rest = unblanked(text);
    if rest.len() > 0 && rest[0] == b {
        Some(rest.skip(1))
    } else {
        None
    }
}

/// The text of the first value of a text, and what follows it.
pub open spec fn first_value(text: Seq<u8>) -> Option<(Seq<u8>, Seq<u8>)> {
    match first_value_end(text) {
        Some(n) => if 0 < n <= text.len() {
            Some((text.take(n as int), text.skip(n as int)))
        } else {
            None
        },
        None => None,
    }
}

/// A member: its name, and the text of its value.
#[verifier::ext_equal]
pub struct MemberV {
    pub name: Seq<char>,
    pub value: Seq<u8>,
}

/// The first member of a text, and what follows it.
pub open spec fn first_member(text: Seq<u8>) -> Option<(MemberV, Seq<u8>)> {
    match first_value(text) {
        Some((name, after)) => match (json_read(name), past(after, 0x3a)) {
            (Ok(JsonV::Str(name)), Some(rest)) => match first_value(rest) {
                Some((value, after)) => Some((MemberV { name, value }, after)),
                None => None,
            },
            _ => None,
        },
        None => None,
    }
}

/// What follows a byte is shorter than the text.
pub proof fn lemma_past(text: Seq<u8>, b: u8)
    ensures
        past(text, b) matches Some(rest) ==> rest.len() < text.len(),
        unblanked(text).len() <= text.len(),
    decreases text.len(),
{
    if text.len() > 0 && blank(text[0]) {
        lemma_past(text.skip(1), b);
    }
}

/// What follows a member is shorter than the text.
pub proof fn lemma_first_member(text: Seq<u8>)
    ensures
        first_member(text) matches Some((_, rest)) ==> rest.len() < text.len(),
{
    if let Some((_, after)) = first_value(text) {
        lemma_past(after, 0x3a);
    }
}

/// The members that stand in a text up to the brace that ends it.
pub open spec fn members_until_brace(text: Seq<u8>) -> Option<Seq<MemberV>>
    decreases text.len(),
{
    match first_member(text) {
        None => None,
        Some((member, after)) => match (past(after, 0x7d), past(after, 0x2c)) {
            (Some(rest), _) => if unblanked(rest).len() == 0 {
                Some(seq![member])
            } else {
                None
            },
            (None, Some(rest)) => {
                proof {
                    lemma_first_member(text);
                    lemma_past(after, 0x2c);
                }
                match members_until_brace(rest) {
                    Some(others) => Some(seq![member] + others),
                    None => None,
                }
            },
            _ => None,
        },
    }
}

/// The members of a text that is an object; nothing for any other text.
pub open spec fn members_in(text: Seq<u8>) -> Option<Seq<MemberV>> {
    match past(text, 0x7b) {
        None => None,
        Some(inner) => match past(inner, 0x7d) {
            Some(rest) => if unblanked(rest).len() == 0 {
                Some(Seq::empty())
            } else {
                None
            },
            None => members_until_brace(inner),
        },
    }
}

/// The items that stand in a text up to the bracket that ends it.
pub open spec fn items_until_bracket(text: Seq<u8>) -> Option<Seq<Seq<u8>>>
    decreases text.len(),
{
    match first_value(text) {
        None => None,
        Some((item, after)) => match (past(after, 0x5d), past(after, 0x2c)) {
            (Some(rest), _) => if unblanked(rest).len() == 0 {
                Some(seq![item])
            } else {
                None
            },
            (None, Some(rest)) => {
                proof {
                    lemma_past(after, 0x2c);
                }
                match items_until_bracket(rest) {
                    Some(others) => Some(seq![item] + others),
                    None => None,
                }
            },
            _ => None,
        },
    }
}

/// The texts of the items of a text that is an array; nothing for any other text.
pub open spec fn items_in(text: Seq<u8>) -> Option<Seq<Seq<u8>>> {
    match past(text, 0x5b) {
        None => None,
        Some(inner) => match past(inner, 0x5d) {
            Some(rest) => if unblanked(rest).len() == 0 {
                Some(Seq::empty())
            } else {
                None
            },
            None => items_until_bracket(inner),
        },
    }
}

fn trim(text: &[u8]) -> (r: &[u8])
    ensures
        r@ == unblanked(text@),
{
    let mut i: usize = 0;
    assert(text@.skip(0) == text@);
    while i < text.len() && (text[i] == 0x20 || text[i] == 0x09 || text[i] == 0x0a || text[i] == 0x0d)
        invariant
            i <= text.len(),
            unblanked(text@.skip(i as int)) == unblanked(text@),
        decreases text.len() - i,
    {
        assert(text@.skip(i as int)[0] == text@[i as int]);
        assert(text@.skip(i as int).skip(1) == text@.skip(i + 1));
        i += 1;
    }
    if i < text.len() {
        assert(text@.skip(i as int)[0] == text@[i as int]);
    }
    slice_subrange(text, i, text.len())
}

/// The view of a text that may be absent.
pub open spec fn opt_slice(r: Option<&[u8]>) -> Option<Seq<u8>> {
    match r {
        Some(s) => Some(s@),
        None => None,
    }
}

fn step_past(text: &[u8], b: u8) -> (r: Option<&[u8]>)
    ensures
        opt_slice(r) == past(text@, b),
{
    let rest = trim(text);
    if rest.len() > 0 && rest[0] == b {
        Some(slice_subrange(rest, 1, rest.len()))
    } else {
        None
    }
}

fn take_value(text: &[u8]) -> (r: Option<(&[u8], &[u8])>)
    ensures
        match r {
            Some((value, rest)) => first_value(text@) == Some((value@, rest@)),
            None => first_value(text@) is None,
        },
{
    match skip_value(text) {
        Some(n) => {
            let value = slice_subrange(text, 0, n);
            let rest = slice_subrange(text, n, text.len());
            assert(value@ == text@.take(n as int));
            assert(rest@ == text@.skip(n as int));
            Some((value, rest))
        },
        None => None,
    }
}

/// A member: its name, and the text of its value.
pub struct Member<'a> {
    pub name: String,
    pub value: &'a [u8],
}

impl<'a> View for Member<'a> {
    type V = MemberV;

    open spec fn view(&self) -> MemberV {
        MemberV { name: self.name@, value: self.value@ }
    }
}

fn take_member(text: &[u8]) -> (r: Option<(Member<'_>, &[u8])>)
    ensures
        match r {
            Some((member, rest)) => first_member(text@) == Some((member@, rest@)),
            None => first_member(text@) is None,
        },
{
    let (name, after) = match take_value(text) {
        Some(parts) => parts,
        None => {
            return None;
        },
    };
    match (parse(name), step_past(after, 0x3a)) {
        (Ok(Json::Str(name)), Some(rest)) => match take_value(rest) {
            Some((value, after)) => Some((Member { name, value }, after)),
            None => None,
        },
        _ => None,
    }
}

/// The views of members.
pub open spec fn member_views(s: Seq<Member<'_>>) -> Seq<MemberV> {
    s.map_values(|m: Member<'_>| m@)
}

/// The views of members that may be absent.
pub open spec fn opt_members(r: Option<Vec<Member<'_>>>) -> Option<Seq<MemberV>> {
    match r {
        Some(s) => Some(member_views(s@)),
        None => None,
    }
}

/// Members that were read, followed by those that are still to be read.
pub open spec fn and_members(done: Seq<MemberV>, rest: Option<Seq<MemberV>>) -> Option<Seq<MemberV>> {
    match rest {
        Some(rest) => Some(done + rest),
        None => None,
    }
}

/// Reads the members of a text that is an object, in order, with a name as often as
/// it stands there.
pub fn read_members(text: &[u8]) -> (r: Option<Vec<Member<'_>>>)
    ensures
        opt_members(r) == members_in(text@),
{
    let mut out: Vec<Member<'_>> = Vec::new();
    assert(member_views(out@) == Seq::<MemberV>::empty());
    let inner = match step_past(text, 0x7b) {
        Some(inner) => inner,
        None => {
            return None;
        },
    };
    if let Some(rest) = step_past(inner, 0x7d) {
        if trim(rest).len() == 0 {
            return Some(out);
        } else {
            return None;
        }
    }
    let ghost whole = members_until_brace(inner@);
    let mut todo = inner;
    assert(and_members(member_views(out@), whole) == whole);
    loop
        invariant
            whole == members_in(text@),
            whole == and_members(member_views(out@), members_until_brace(todo@)),
        decreases todo@.len(),
    {
        let ghost before = member_views(out@);
        proof {
            lemma_first_member(todo@);
        }
        match take_member(todo) {
            None => {
                return None;
            },
            Some((member, after)) => {
                let ghost m = member@;
                let ghost rest_members = members_until_brace(todo@);
                out.push(member);
                assert(member_views(out@) == before.push(m));
                proof {
                    lemma_past(after@, 0x2c);
                }
                if let Some(rest) = step_past(after, 0x7d) {
                    if trim(rest).len() == 0 {
                        assert(before + seq![m] == before.push(m));
                        return Some(out);
                    } else {
                        return None;
                    }
                }
                match step_past(after, 0x2c) {
                    Some(rest) => {
                        proof {
                            match members_until_brace(rest@) {
                                Some(others) => {
                                    assert(before + (seq![m] + others) == before.push(m) + others);
                                },
                                None => {},
                            }
                        }
                        todo = rest;
                    },
                    None => {
                        return None;
                    },
                }
            },
        }
    }
}

/// The views of texts.
pub open spec fn slice_views(s: Seq<&[u8]>) -> Seq<Seq<u8>> {
    s.map_values(|x: &[u8]| x@)
}

/// The views of texts that may be absent.
pub open spec fn opt_items(r: Option<Vec<&[u8]>>) -> Option<Seq<Seq<u8>>> {
    match r {
        Some(s) => Some(slice_views(s@)),
        None => None,
    }
}

/// Items that were read, followed by those that are still to be read.
pub open spec fn and_items(done: Seq<Seq<u8>>, rest: Option<Seq<Seq<u8>>>) -> Option<Seq<Seq<u8>>> {
    match rest {
        Some(rest) => Some(done + rest),
        None => None,
    }
}

/// Reads the texts of the items of a text that is an array.
pub fn read_items(text: &[u8]) -> (r: Option<Vec<&[u8]>>)
    ensures
        opt_items(r) == items_in(text@),
{
    let mut out: Vec<&[u8]> = Vec::new();
    assert(slice_views(out@) == Seq::<Seq<u8>>::empty());
    let inner = match step_past(text, 0x5b) {
        Some(inner) => inner,
        None => {
            return None;
        },
    };
    if let Some(rest) = step_past(inner, 0x5d) {
        if trim(rest).len() == 0 {
            return Some(out);
        } else {
            return None;
        }
    }
    let ghost whole = items_until_bracket(inner@);
    let mut todo = inner;
    assert(and_items(slice_views(out@), whole) == whole);
    loop
        invariant
            whole == items_in(text@),
            whole == and_items(slice_views(out@), items_until_bracket(todo@)),
        decreases todo@.len(),
    {
        let ghost before = slice_views(out@);
        match take_value(todo) {
            None => {
                return None;
            },
            Some((item, after)) => {
                let ghost x = item@;
                out.push(item);
                assert(slice_views(out@) == before.push(x));
                proof {
                    lemma_past(after@, 0x2c);
                }
                if let Some(rest) = step_past(after, 0x5d) {
                    if trim(rest).len() == 0 {
                        assert(before + seq![x] == before.push(x));
                        return Some(out);
                    } else {
                        return None;
                    }
                }
                match step_past(after, 0x2c) {
                    Some(rest) => {
                        proof {
                            match items_until_bracket(rest@) {
                                Some(others) => {
                                    assert(before + (seq![x] + others) == before.push(x) + others);
                                },
                                None => {},
                            }
                        }
                        todo = rest;
                    },
                    None => {
                        return None;
                    },
                }
            },
        }
    }
}

/// The texts of the values that members give a name, in order.
pub open spec fn given(members: Seq<MemberV>, name: Seq<char>) -> Seq<Seq<u8>>
    decreases members.len(),
{
    if members.len() == 0 {
        Seq::empty()
    } else {
        let before = given(members.drop_last(), name);
        if members.last().name == name {
            before.push(members.last().value)
        } else {
            before
        }
    }
}

/// Finds the texts of the values that members give a name.
pub fn find_given<'a>(members: &Vec<Member<'a>>, name: &str) -> (r: Vec<&'a [u8]>)
    ensures
        slice_views(r@) == given(member_views(members@), name@),
{
    let ghost all = member_views(members@);
    let mut out: Vec<&'a [u8]> = Vec::new();
    assert(slice_views(out@) == Seq::<Seq<u8>>::empty());
    let mut i: usize = 0;
    while i < members.len()
        invariant
            i <= members.len(),
            all == member_views(members@),
            slice_views(out@) == given(all.take(i as int), name@),
        decreases members.len() - i,
    {
        let ghost before = slice_views(out@);
        assert(all.take(i + 1).drop_last() == all.take(i as int));
        assert(all.take(i + 1).last() == members@[i as int]@);
        if same(members[i].name.as_str(), name) {
            out.push(members[i].value);
            assert(slice_views(out@) == before.push(members@[i as int]@.value));
        }
        i += 1;
    }
    assert(all.take(i as int) == all);
    out
}

/// Whether members give none of some names twice.
pub open spec fn each_once(members: Seq<MemberV>, names: Seq<Seq<char>>) -> bool {
    forall|i: int| 0 <= i < names.len() ==> given(members, #[trigger] names[i]).len() <= 1
}

/// Whether members give none of some names twice.
pub fn has_each_once(members: &Vec<Member<'_>>, names: &[&str]) -> (r: bool)
    ensures
        r == each_once(member_views(members@), strs(names@)),
{
    let ghost all = member_views(members@);
    let ghost keys = strs(names@);
    let mut i: usize = 0;
    while i < names.len()
        invariant
            i <= names.len(),
            all == member_views(members@),
            keys == strs(names@),
            forall|j: int| 0 <= j < i ==> given(all, #[trigger] keys[j]).len() <= 1,
        decreases names.len() - i,
    {
        let found = find_given(members, names[i]);
        assert(keys[i as int] == names@[i as int]@);
        assert(slice_views(found@).len() == found@.len());
        if found.len() > 1 {
            return false;
        }
        i += 1;
    }
    true
}

/// Whether a text gives none of some names twice: where it is an object, each is the
/// name of one member at most.
pub open spec fn named_once(text: Seq<u8>, names: Seq<Seq<char>>) -> bool {
    match members_in(text) {
        Some(members) => each_once(members, names),
        None => true,
    }
}

/// Whether a text gives none of some names twice.
pub fn names_once(text: &[u8], names: &[&str]) -> (r: bool)
    ensures
        r == named_once(text@, strs(names@)),
{
    match read_members(text) {
        Some(members) => has_each_once(&members, names),
        None => true,
    }
}

/// The text of a record's field: of an object the last member of that name, of an
/// array the item at that place.
pub open spec fn field_text(text: Seq<u8>, name: Seq<char>, place: nat) -> Option<Seq<u8>> {
    match members_in(text) {
        Some(members) => if given(members, name).len() > 0 {
            Some(given(members, name).last())
        } else {
            None
        },
        None => match items_in(text) {
            Some(items) => if place < items.len() {
                Some(items[place as int])
            } else {
                None
            },
            None => None,
        },
    }
}

/// Finds the text of a record's field.
pub fn find_field<'a>(text: &'a [u8], name: &str, place: usize) -> (r: Option<&'a [u8]>)
    ensures
        opt_slice(r) == field_text(text@, name@, place as nat),
{
    if let Some(members) = read_members(text) {
        let found = find_given(&members, name);
        assert(slice_views(found@).len() == found@.len());
        return if found.len() > 0 {
            assert(slice_views(found@).last() == found@.last()@);
            Some(found[found.len() - 1])
        } else {
            None
        };
    }
    match read_items(text) {
        Some(items) => {
            assert(slice_views(items@).len() == items@.len());
            if place < items.len() {
                assert(slice_views(items@)[place as int] == items@[place as int]@);
                Some(items[place])
            } else {
                None
            }
        },
        None => None,
    }
}

/// The fields that members give under some names, each read from its text; nothing
/// where one is given twice, or has no value to be read.
pub open spec fn fields_of(members: Seq<MemberV>, names: Seq<Seq<char>>) -> Option<Map<Seq<char>, JsonV>>
    decreases names.len(),
{
    if names.len() == 0 {
        Some(Map::empty())
    } else {
        match fields_of(members, names.drop_last()) {
            None => None,
            Some(before) => {
                let found = given(members, names.last());
                if found.len() == 0 {
                    Some(before)
                } else if found.len() > 1 {
                    None
                } else {
                    match json_read(found[0]) {
                        Ok(v) => Some(before.insert(names.last(), v)),
                        Err(_) => None,
                    }
                }
            },
        }
    }
}

/// The values that texts give.
pub open spec fn values_of(items: Seq<Seq<u8>>) -> Option<Seq<JsonV>>
    decreases items.len(),
{
    if items.len() == 0 {
        Some(Seq::empty())
    } else {
        match (values_of(items.drop_last()), json_read(items.last())) {
            (Some(before), Ok(v)) => Some(before.push(v)),
            _ => None,
        }
    }
}

/// The record that a text gives: the fields of an object under some names, or the
/// items of an array. A member under any other name is passed over unread.
pub open spec fn record_in(text: Seq<u8>, names: Seq<Seq<char>>) -> Option<JsonV> {
    match members_in(text) {
        Some(members) => match fields_of(members, names) {
            Some(fields) => Some(JsonV::Object(fields)),
            None => None,
        },
        None => match items_in(text) {
            Some(items) => match values_of(items) {
                Some(values) => Some(JsonV::Array(values)),
                None => None,
            },
            None => None,
        },
    }
}

proof fn lemma_no_fields(members: Seq<MemberV>, names: Seq<Seq<char>>, k: int)
    requires
        0 <= k <= names.len(),
        fields_of(members, names.take(k)) is None,
    ensures
        fields_of(members, names) is None,
    decreases names.len() - k,
{
    if k < names.len() {
        assert(names.take(k + 1).drop_last() == names.take(k));
        lemma_no_fields(members, names, k + 1);
    } else {
        assert(names.take(k) == names);
    }
}

proof fn lemma_no_values(items: Seq<Seq<u8>>, k: int)
    requires
        0 <= k <= items.len(),
        values_of(items.take(k)) is None,
    ensures
        values_of(items) is None,
    decreases items.len() - k,
{
    if k < items.len() {
        assert(items.take(k + 1).drop_last() == items.take(k));
        lemma_no_values(items, k + 1);
    } else {
        assert(items.take(k) == items);
    }
}

/// A text that gives a field twice gives no record.
pub proof fn law_field_given_twice_is_refused(text: Seq<u8>, names: Seq<Seq<char>>, i: int)
    requires
        members_in(text) is Some,
        0 <= i < names.len(),
        given(members_in(text)->Some_0, names[i]).len() > 1,
    ensures
        record_in(text, names) is None,
{
    assert(names.take(i + 1).drop_last() == names.take(i));
    assert(names.take(i + 1).last() == names[i]);
    lemma_no_fields(members_in(text)->Some_0, names, i + 1);
}

/// The view of an object that may be absent.
pub open spec fn opt_map(r: Option<JsonMap>) -> Option<Map<Seq<char>, JsonV>> {
    match r {
        Some(m) => Some(m@),
        None => None,
    }
}

fn read_fields(members: &Vec<Member<'_>>, names: &[&str]) -> (r: Option<JsonMap>)
    ensures
        opt_map(r) == fields_of(member_views(members@), strs(names@)),
{
    let ghost all = member_views(members@);
    let ghost keys = strs(names@);
    let mut out = JsonMap::new();
    let mut i: usize = 0;
    while i < names.len()
        invariant
            i <= names.len(),
            all == member_views(members@),
            keys == strs(names@),
            fields_of(all, keys.take(i as int)) == Some(out@),
        decreases names.len() - i,
    {
        let found = find_given(members, names[i]);
        proof {
            assert(keys.take(i + 1).drop_last() == keys.take(i as int));
            assert(keys.take(i + 1).last() == names@[i as int]@);
            assert(slice_views(found@).len() == found@.len());
        }
        if found.len() > 1 {
            proof {
                lemma_no_fields(all, keys, i + 1);
            }
            return None;
        }
        if found.len() == 1 {
            assert(slice_views(found@)[0] == found@[0]@);
            match parse(found[0]) {
                Ok(v) => {
                    out = out.set(names[i], v);
                },
                Err(_) => {
                    proof {
                        lemma_no_fields(all, keys, i + 1);
                    }
                    return None;
                },
            }
        }
        i += 1;
    }
    assert(keys.take(i as int) == keys);
    Some(out)
}

/// The views of values that may be absent.
pub open spec fn opt_values(r: Option<Vec<Json>>) -> Option<Seq<JsonV>> {
    match r {
        Some(values) => Some(seq_view(values@)),
        None => None,
    }
}

fn read_values(items: &Vec<&[u8]>) -> (r: Option<Vec<Json>>)
    ensures
        opt_values(r) == values_of(slice_views(items@)),
{
    let ghost all = slice_views(items@);
    let mut out: Vec<Json> = Vec::new();
    assert(seq_view(out@) == Seq::<JsonV>::empty());
    let mut i: usize = 0;
    while i < items.len()
        invariant
            i <= items.len(),
            all == slice_views(items@),
            values_of(all.take(i as int)) == Some(seq_view(out@)),
        decreases items.len() - i,
    {
        let ghost before = seq_view(out@);
        proof {
            assert(all.take(i + 1).drop_last() == all.take(i as int));
            assert(all.take(i + 1).last() == items@[i as int]@);
        }
        match parse(items[i]) {
            Ok(v) => {
                let ghost x = v@;
                out.push(v);
                assert(seq_view(out@) == before.push(x));
            },
            Err(_) => {
                proof {
                    lemma_no_values(all, i + 1);
                }
                return None;
            },
        }
        i += 1;
    }
    assert(all.take(i as int) == all);
    Some(out)
}

/// Reads the record that a text gives: the fields of an object under some names,
/// none of them twice, or the items of an array.
pub fn read_record(text: &[u8], names: &[&str]) -> (r: Option<Json>)
    ensures
        opt_view(r) == record_in(text@, strs(names@)),
{
    if let Some(members) = read_members(text) {
        return match read_fields(&members, names) {
            Some(fields) => Some(Json::Object(fields)),
            None => None,
        };
    }
    match read_items(text) {
        Some(items) => match read_values(&items) {
            Some(values) => Some(Json::Array(values)),
            None => None,
        },
        None => None,
    }
}

/// The compact text of an object with its members in the order given, as
/// `serde::Serializer::collect_map` of serde_json's serializer writes it.
pub uninterp spec fn members_text(keys: Seq<Seq<char>>, vals: Seq<JsonV>) -> Seq<char>;

/// Whether a text is an object with some members in the order given, each of which
/// reads back from its own text unless it nests too deep.
pub open spec fn holds_members(text: Seq<u8>, keys: Seq<Seq<char>>, vals: Seq<JsonV>) -> bool {
    match members_in(text) {
        Some(members) => members.len() == keys.len() && forall|i: int|
            #![trigger members[i]]
            0 <= i < members.len() ==> members[i].name == keys[i] && (nests_within(vals[i], read_depth())
                ==> reads_as(members[i].value, vals[i])),
        None => false,
    }
}

/// Calls `serde::Serializer::collect_map` of serde_json's serializer on members in
/// the order given, and takes the bytes as the text that they are. The text is a
/// function of the members, and it is an object that has them in that order, each
/// with the text that serde_json reads its value from.
#[verifier::external_body]
pub(crate) fn write_members(keys: &[&str], vals: &[Json]) -> (r: String)
    requires
        keys@.len() == vals@.len(),
    ensures
        r@ == members_text(strs(keys@), seq_view(vals@)),
        holds_members(encode_utf8(r@), strs(keys@), seq_view(vals@)),
{
    let mut out: Vec<u8> = Vec::new();
    let members = keys.iter().zip(vals.iter().map(to_value));
    serde::Serializer::collect_map(&mut serde_json::Serializer::new(&mut out), members).unwrap_or_default();
    String::from_utf8(out).unwrap_or_default()
}

proof fn lemma_not_given(members: Seq<MemberV>, name: Seq<char>)
    requires
        forall|i: int| 0 <= i < members.len() ==> (#[trigger] members[i]).name != name,
    ensures
        given(members, name) == Seq::<Seq<u8>>::empty(),
    decreases members.len(),
{
    if members.len() > 0 {
        let before = members.drop_last();
        assert forall|i: int| 0 <= i < before.len() implies (#[trigger] before[i]).name != name by {
            assert(before[i] == members[i]);
        }
        lemma_not_given(before, name);
        assert(members[members.len() - 1].name != name);
    }
}

proof fn lemma_given_once(members: Seq<MemberV>, i: int)
    requires
        0 <= i < members.len(),
        forall|j: int| 0 <= j < members.len() && j != i ==> (#[trigger] members[j]).name != members[i].name,
    ensures
        given(members, members[i].name) == seq![members[i].value],
    decreases members.len(),
{
    let before = members.drop_last();
    if i == members.len() - 1 {
        assert forall|j: int| 0 <= j < before.len() implies (#[trigger] before[j]).name != members[i].name by {
            assert(before[j] == members[j]);
        }
        lemma_not_given(before, members[i].name);
        assert(given(members, members[i].name) == seq![members[i].value]);
    } else {
        assert forall|j: int| 0 <= j < before.len() && j != i implies (#[trigger] before[j]).name
            != before[i].name by {
            assert(before[j] == members[j]);
        }
        lemma_given_once(before, i);
        assert(members[members.len() - 1].name != members[i].name);
    }
}

proof fn lemma_fields_come_back(
    members: Seq<MemberV>,
    names: Seq<Seq<char>>,
    vals: Seq<JsonV>,
    k: int,
)
    requires
        names.no_duplicates(),
        members.len() == names.len() == vals.len(),
        forall|i: int|
            #![trigger members[i]]
            0 <= i < members.len() ==> members[i].name == names[i] && reads_as(members[i].value, vals[i]),
        0 <= k <= names.len(),
    ensures
        fields_of(members, names.take(k)) == Some(object_of(names.take(k), vals.take(k))),
    decreases k,
{
    if k > 0 {
        lemma_fields_come_back(members, names, vals, k - 1);
        assert(names.take(k).drop_last() == names.take(k - 1));
        assert(vals.take(k).drop_last() == vals.take(k - 1));
        assert(members[k - 1].name == names[k - 1]);
        lemma_given_once(members, k - 1);
        assert(names.take(k).last() == names[k - 1]);
    }
}

/// An object that was written with some members, none of them twice and none too
/// deep, gives them all back.
pub proof fn law_members_come_back(text: Seq<u8>, names: Seq<Seq<char>>, vals: Seq<JsonV>)
    requires
        names.no_duplicates(),
        names.len() == vals.len(),
        forall|i: int| 0 <= i < vals.len() ==> nests_within(#[trigger] vals[i], read_depth()),
        holds_members(text, names, vals),
    ensures
        record_in(text, names) == Some(JsonV::Object(object_of(names, vals))),
{
    let members = members_in(text)->Some_0;
    assert forall|i: int| #![trigger members[i]] 0 <= i < members.len() implies members[i].name == names[i]
        && reads_as(members[i].value, vals[i]) by {
        assert(nests_within(vals[i], read_depth()));
    }
    lemma_fields_come_back(members, names, vals, names.len() as int);
    assert(names.take(names.len() as int) == names);
    assert(vals.take(vals.len() as int) == vals);
}

} // verus!
