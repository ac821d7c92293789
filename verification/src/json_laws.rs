//! What looking into a JSON value gives, and how the members of a record are found in
//! its text.

use vstd::prelude::*;

use crate::json::{
    double_of, double_value, finite_bits, integer_double, json_read, str_values, Double, JsonV, Num,
};
use crate::members::{
    blank, each_once, field_text, fields_of, first_member, first_value, first_value_end, given, items_in,
    items_until_bracket, members_in, members_until_brace, named_once, past, record_in, unblanked, values_of, MemberV,
};

verus! {

/// A member is found in a table that has it, and nowhere else; it is taken as a text, a
/// count, a number or a list only where it is one.
pub proof fn law_members_are_looked_up(m: Map<Seq<char>, JsonV>, v: JsonV, key: Seq<char>)
    ensures
        m.dom().contains(key) ==> JsonV::Object(m).get(key) == Some(m[key]),
        !m.dom().contains(key) ==> JsonV::Object(m).get(key) is None,
        !(v is Object) ==> v.get(key) is None,
        match v.get(key) {
            Some(JsonV::Str(s)) => v.text_at(key) == Some(s) && v.uint_at(key) is None && v.items_at(key) is None
                && v.double_at(key) is None,
            Some(JsonV::Number(n)) => v.text_at(key) is None && v.items_at(key) is None && v.double_at(key) == Some(
                Double { bits: double_of(n) },
            ) && v.uint_at(key) == match n {
                Num::PosInt(u) => Some(u),
                _ => None,
            },
            Some(JsonV::Array(items)) => v.items_at(key) == Some(items) && v.text_at(key) is None && v.uint_at(
                key,
            ) is None && v.double_at(key) is None,
            _ => v.text_at(key) is None && v.uint_at(key) is None && v.items_at(key) is None && v.double_at(key) is None,
        },
        match v {
            JsonV::Str(s) => v.text() == Some(s),
            _ => v.text() is None,
        },
        match v {
            JsonV::Bool(b) => v.boolean() == Some(b),
            _ => v.boolean() is None,
        },
        match v {
            JsonV::Array(items) => v.items() == Some(items),
            _ => v.items() is None,
        },
        match v {
            JsonV::Object(members) => v.members() == Some(members),
            _ => v.members() is None,
        },
        match v {
            JsonV::Number(Num::PosInt(n)) => v.uint() == Some(n),
            _ => v.uint() is None,
        },
{
}

/// A double is written as its own bits unless its exponent is all ones, which no number
/// has; it is read from an integer's nearest double or its own bits.
pub proof fn law_doubles_are_kept(d: Double, n: Num)
    ensures
        (d.bits >> 52) & 0x7ff != 0x7ff ==> double_value(d) == JsonV::Number(Num::Float(d.bits)),
        (d.bits >> 52) & 0x7ff == 0x7ff ==> double_value(d) is Null,
        double_of(n) == match n {
            Num::PosInt(u) => integer_double(u as int),
            Num::NegInt(i) => integer_double(i as int),
            Num::Float(bits) => bits,
        },
        double_of(Num::Float(d.bits)) == d.bits,
{
    let bits = d.bits;
    assert((bits >> 52) & 0x7ff == (bits / 0x10_0000_0000_0000) % 0x800) by (bit_vector);
    assert(finite_bits(bits) <==> (bits >> 52) & 0x7ff != 0x7ff);
}

/// Whether a value is a table without any other members.
pub open spec fn has_only(v: JsonV, names: Set<Seq<char>>) -> bool {
    v matches JsonV::Object(m) && forall|k: Seq<char>| #[trigger] m.dom().contains(k) ==> names.contains(k)
}

/// Texts are written as strings, in order.
pub proof fn law_texts_are_written(s: Seq<Seq<char>>, i: int)
    requires
        0 <= i < s.len(),
    ensures
        str_values(s).len() == s.len(),
        str_values(s)[i] == JsonV::Str(s[i]),
{
}

/// Whether some bytes are all blanks: spaces, tabs and the two line ends.
pub open spec fn blanks(text: Seq<u8>) -> bool {
    forall|i: int|
        0 <= i < text.len() ==> (#[trigger] text[i]) == 0x20 || text[i] == 0x09 || text[i] == 0x0a || text[i] == 0x0d
}

proof fn lemma_unblanked(w: Seq<u8>, rest: Seq<u8>)
    requires
        blanks(w),
        rest.len() > 0 ==> !blank(rest[0]),
    ensures
        unblanked(w + rest) == rest,
    decreases w.len(),
{
    if w.len() > 0 {
        assert((w + rest)[0] == w[0]);
        assert((w + rest).skip(1) =~= w.skip(1) + rest);
        assert(blanks(w.skip(1))) by {
            assert forall|i: int| 0 <= i < w.skip(1).len() implies (#[trigger] w.skip(1)[i]) == 0x20 || w.skip(1)[i]
                == 0x09 || w.skip(1)[i] == 0x0a || w.skip(1)[i] == 0x0d by {
                assert(w.skip(1)[i] == w[i + 1]);
            }
        }
        lemma_unblanked(w.skip(1), rest);
    } else {
        assert(w + rest =~= rest);
    }
}

proof fn lemma_blanks_ahead(text: Seq<u8>) -> (w: Seq<u8>)
    ensures
        blanks(w),
        text == w + unblanked(text),
        unblanked(text).len() > 0 ==> !blank(unblanked(text)[0]),
    decreases text.len(),
{
    if text.len() > 0 && blank(text[0]) {
        let w = lemma_blanks_ahead(text.skip(1));
        let all = seq![text[0]] + w;
        assert forall|i: int| 0 <= i < all.len() implies (#[trigger] all[i]) == 0x20 || all[i] == 0x09 || all[i] == 0x0a
            || all[i] == 0x0d by {
            if i > 0 {
                assert(all[i] == w[i - 1]);
            }
        }
        let u = unblanked(text.skip(1));
        assert(unblanked(text) == u);
        assert(text =~= seq![text[0]] + text.skip(1));
        assert(all + u =~= seq![text[0]] + (w + u));
        all
    } else {
        assert(text =~= Seq::<u8>::empty() + text);
        Seq::empty()
    }
}

/// Going past a byte takes the blanks ahead of it and the byte, and nothing else.
pub proof fn law_only_blanks_are_passed_over(text: Seq<u8>, b: u8, rest: Seq<u8>)
    requires
        b != 0x20 && b != 0x09 && b != 0x0a && b != 0x0d,
    ensures
        past(text, b) == Some(rest) <==> exists|w: Seq<u8>| blanks(w) && text == #[trigger] (w + seq![b] + rest),
{
    if past(text, b) == Some(rest) {
        let w = lemma_blanks_ahead(text);
        let u = unblanked(text);
        assert(u =~= seq![b] + rest);
        assert(text =~= w + seq![b] + rest);
    }
    if exists|w: Seq<u8>| blanks(w) && text == #[trigger] (w + seq![b] + rest) {
        let w = choose|w: Seq<u8>| blanks(w) && text == #[trigger] (w + seq![b] + rest);
        assert(w + seq![b] + rest =~= w + (seq![b] + rest));
        lemma_unblanked(w, seq![b] + rest);
        assert((seq![b] + rest).skip(1) =~= rest);
    }
}

/// A member is a name that reads as a text, a colon, and a value's text as it stands.
pub proof fn law_members_are_read_one_by_one(text: Seq<u8>, n: nat)
    ensures
        first_value_end(text) is None ==> first_value(text) is None && first_member(text) is None,
        first_value_end(text) == Some(n) && 0 < n <= text.len() ==> first_value(text) == Some(
            (text.take(n as int), text.skip(n as int)),
        ) && {
            let named = json_read(text.take(n as int));
            match (named, past(text.skip(n as int), 0x3a)) {
                (Ok(JsonV::Str(name)), Some(rest)) => match first_value(rest) {
                    Some((value, after)) => first_member(text) == Some((MemberV { name, value }, after)),
                    None => first_member(text) is None,
                },
                _ => first_member(text) is None,
            }
        },
{
}

/// The members of a table follow each other, with a comma between neighbours and the
/// closing brace behind the last; nothing but blanks may follow.
pub proof fn law_members_follow_each_other(text: Seq<u8>, rest: Seq<u8>)
    ensures
        first_member(text) is None ==> members_until_brace(text) is None,
        first_member(text) matches Some((m, after)) ==> {
            &&& past(after, 0x7d) == Some(rest) ==> (blanks(rest) ==> members_until_brace(text) == Some(seq![m])) && (
            !blanks(rest) ==> members_until_brace(text) is None)
            &&& past(after, 0x7d) is None && past(after, 0x2c) == Some(rest) ==> match members_until_brace(rest) {
                Some(others) => members_until_brace(text) == Some(seq![m] + others),
                None => members_until_brace(text) is None,
            }
            &&& past(after, 0x7d) is None && past(after, 0x2c) is None ==> members_until_brace(text) is None
        },
{
    lemma_all_blank(rest);
}

proof fn lemma_all_blank(rest: Seq<u8>)
    ensures
        unblanked(rest).len() == 0 <==> blanks(rest),
{
    let w = lemma_blanks_ahead(rest);
    if unblanked(rest).len() == 0 {
        assert(rest =~= w);
    } else if blanks(rest) {
        assert(rest[w.len() as int] == unblanked(rest)[0]);
    }
}

/// A table is its members between braces, which may be none.
pub proof fn law_tables_stand_between_braces(text: Seq<u8>, inner: Seq<u8>, rest: Seq<u8>)
    ensures
        past(text, 0x7b) is None ==> members_in(text) is None,
        past(text, 0x7b) == Some(inner) && past(inner, 0x7d) is None ==> members_in(text) == members_until_brace(inner),
        past(text, 0x7b) == Some(inner) && past(inner, 0x7d) == Some(rest) ==> (blanks(rest) ==> members_in(text) == Some(
            Seq::<MemberV>::empty(),
        )) && (!blanks(rest) ==> members_in(text) is None),
{
    lemma_all_blank(rest);
}

/// The items of a list follow each other, with a comma between neighbours and the
/// closing bracket behind the last; nothing but blanks may follow.
pub proof fn law_items_follow_each_other(text: Seq<u8>, rest: Seq<u8>)
    ensures
        first_value(text) is None ==> items_until_bracket(text) is None,
        first_value(text) matches Some((item, after)) ==> {
            &&& past(after, 0x5d) == Some(rest) ==> (blanks(rest) ==> items_until_bracket(text) == Some(seq![item])) && (
            !blanks(rest) ==> items_until_bracket(text) is None)
            &&& past(after, 0x5d) is None && past(after, 0x2c) == Some(rest) ==> match items_until_bracket(rest) {
                Some(others) => items_until_bracket(text) == Some(seq![item] + others),
                None => items_until_bracket(text) is None,
            }
            &&& past(after, 0x5d) is None && past(after, 0x2c) is None ==> items_until_bracket(text) is None
        },
{
    lemma_all_blank(rest);
}

/// A list is its items between brackets, which may be none.
pub proof fn law_lists_stand_between_brackets(text: Seq<u8>, inner: Seq<u8>, rest: Seq<u8>)
    ensures
        past(text, 0x5b) is None ==> items_in(text) is None,
        past(text, 0x5b) == Some(inner) && past(inner, 0x5d) is None ==> items_in(text) == items_until_bracket(inner),
        past(text, 0x5b) == Some(inner) && past(inner, 0x5d) == Some(rest) ==> (blanks(rest) ==> items_in(text) == Some(
            Seq::<Seq<u8>>::empty(),
        )) && (!blanks(rest) ==> items_in(text) is None),
{
    lemma_all_blank(rest);
}

/// The text of a member with a name.
pub open spec fn text_if_named(m: MemberV, name: Seq<char>) -> Option<Seq<u8>> {
    if m.name == name {
        Some(m.value)
    } else {
        None
    }
}

/// The texts that members of a name give, in order.
pub proof fn law_members_are_gathered(members: Seq<MemberV>, name: Seq<char>)
    ensures
        given(members, name) == members.filter_map(|m: MemberV| text_if_named(m, name)),
    decreases members.len(),
{
    if members.len() > 0 {
        law_members_are_gathered(members.drop_last(), name);
    }
}

/// No name is given twice exactly where each is given at most once.
pub proof fn law_repetition_is_seen(text: Seq<u8>, members: Seq<MemberV>, names: Seq<Seq<char>>)
    ensures
        each_once(members, names) <==> forall|i: int|
            0 <= i < names.len() ==> given(members, #[trigger] names[i]).len() <= 1,
        members_in(text) is None ==> named_once(text, names),
        members_in(text) == Some(members) ==> named_once(text, names) == each_once(members, names),
{
}

/// The fields of a record are read from the members of their names: each that is given
/// once and can be read has its value, one that is not given is absent; one that is
/// given twice or cannot be read spoils the record.
pub proof fn law_fields_are_read(members: Seq<MemberV>, names: Seq<Seq<char>>)
    requires
        names.no_duplicates(),
    ensures
        fields_of(members, names) is Some <==> forall|i: int|
            0 <= i < names.len() ==> {
                let found = given(members, #[trigger] names[i]);
                found.len() == 0 || (found.len() == 1 && json_read(found[0]) is Ok)
            },
        fields_of(members, names) matches Some(m) ==> {
            &&& forall|k: Seq<char>| #[trigger] m.dom().contains(k) ==> names.contains(k)
            &&& forall|i: int|
                0 <= i < names.len() ==> {
                    let found = given(members, #[trigger] names[i]);
                    &&& m.dom().contains(names[i]) <==> found.len() == 1
                    &&& found.len() == 1 ==> json_read(found[0]) == Ok::<JsonV, Seq<char>>(m[names[i]])
                }
        },
    decreases names.len(),
{
    if names.len() > 0 {
        let before = names.drop_last();
        let n = names.len() - 1;
        assert(before.no_duplicates());
        law_fields_are_read(members, before);
        assert forall|i: int|
            #![trigger before[i]]
            #![trigger names[i]]
            0 <= i < before.len() implies before[i] == names[i] && names[i] != names[n] by {}
        assert(names.last() == names[n]);
        if let Some(m) = fields_of(members, names) {
            let less = fields_of(members, before)->Some_0;
            assert forall|k: Seq<char>| #[trigger] m.dom().contains(k) implies names.contains(k) by {
                if less.dom().contains(k) {
                    let i = choose|i: int| 0 <= i < before.len() && before[i] == k;
                    assert(names[i] == k);
                } else {
                    assert(k == names[n]);
                }
            }
            assert(!less.dom().contains(names[n])) by {
                if less.dom().contains(names[n]) {
                    let i = choose|i: int| 0 <= i < before.len() && before[i] == names[n];
                    assert(names[i] == names[n]);
                }
            }
            assert forall|i: int| 0 <= i < names.len() implies {
                let found = given(members, #[trigger] names[i]);
                &&& m.dom().contains(names[i]) <==> found.len() == 1
                &&& found.len() == 1 ==> json_read(found[0]) == Ok::<JsonV, Seq<char>>(m[names[i]])
            } by {
                if i < n {
                    assert(before[i] == names[i]);
                    let found = given(members, before[i]);
                    assert(less.dom().contains(before[i]) <==> found.len() == 1);
                }
            }
        } else if fields_of(members, before) is None {
            let i = choose|i: int|
                0 <= i < before.len() && !({
                    let found = given(members, #[trigger] before[i]);
                    found.len() == 0 || (found.len() == 1 && json_read(found[0]) is Ok)
                });
            assert(names[i] == before[i]);
        }
    }
}

/// Items are read one by one; one that cannot be read spoils the list.
pub proof fn law_items_are_read(items: Seq<Seq<u8>>)
    ensures
        values_of(items) is Some <==> forall|i: int| 0 <= i < items.len() ==> json_read(#[trigger] items[i]) is Ok,
        values_of(items) matches Some(values) ==> values.len() == items.len() && forall|i: int|
            0 <= i < items.len() ==> json_read(#[trigger] items[i]) == Ok::<JsonV, Seq<char>>(values[i]),
    decreases items.len(),
{
    if items.len() > 0 {
        let before = items.drop_last();
        law_items_are_read(before);
        assert(items.last() == items[items.len() - 1]);
        assert forall|i: int|
            #![trigger before[i]]
            #![trigger items[i]]
            0 <= i < before.len() implies before[i] == items[i] by {}
        if values_of(items) is None && values_of(before) is None {
            let i = choose|i: int| 0 <= i < before.len() && !(json_read(#[trigger] before[i]) is Ok);
            assert(items[i] == before[i]);
        }
    }
}

/// A record's text is a table, read by its fields, or a list, read by its items; a
/// single field of it is the last member of its name, or the item of its place.
pub proof fn law_records_are_read(text: Seq<u8>, names: Seq<Seq<char>>, name: Seq<char>, place: nat)
    ensures
        members_in(text) matches Some(members) ==> {
            &&& fields_of(members, names) matches Some(fields) ==> record_in(text, names) == Some(JsonV::Object(fields))
            &&& fields_of(members, names) is None ==> record_in(text, names) is None
            &&& given(members, name).len() > 0 ==> field_text(text, name, place) == Some(given(members, name).last())
            &&& given(members, name).len() == 0 ==> field_text(text, name, place) is None
        },
        members_in(text) is None ==> (items_in(text) matches Some(items) ==> {
            &&& values_of(items) matches Some(values) ==> record_in(text, names) == Some(JsonV::Array(values))
            &&& values_of(items) is None ==> record_in(text, names) is None
            &&& place < items.len() ==> field_text(text, name, place) == Some(items[place as int])
            &&& place >= items.len() ==> field_text(text, name, place) is None
        }),
        members_in(text) is None && items_in(text) is None ==> record_in(text, names) is None && field_text(
            text,
            name,
            place,
        ) is None,
{
}

} // verus!
