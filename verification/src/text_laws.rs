//! What the operations on texts come to.

use vstd::prelude::*;

use crate::text::{
    before_first, decimal, digit, first_at, first_occurrence, joined, lowered, occurs_at, precedes, rest_after,
    split_at_part, split_first, trimmed, white, without_leading, without_trailing,
};

verus! {

/// Joining puts the separator between neighbours and nowhere else.
pub proof fn law_joining_separates_neighbours(parts: Seq<Seq<char>>, last: Seq<char>, sep: Seq<char>)
    ensures
        joined(Seq::<Seq<char>>::empty(), sep) == Seq::<char>::empty(),
        joined(parts.push(last), sep) == if parts.len() == 0 {
            last
        } else {
            joined(parts, sep) + sep + last
        },
{
    assert(parts.push(last).drop_last() == parts);
}

/// Small letters: each of the capitals from A to Z becomes its small letter, every
/// other character stays.
pub proof fn law_lowering_is_ascii(s: Seq<char>, i: int)
    requires
        0 <= i < s.len(),
    ensures
        lowered(s).len() == s.len(),
        'A' <= s[i] && s[i] <= 'Z' ==> lowered(s)[i] as int == s[i] as int + 32,
        !('A' <= s[i] && s[i] <= 'Z') ==> lowered(s)[i] == s[i],
{
}

/// A text is split at the first separator: what stands before it has none, and the
/// two parts with the separator between them are the text. Without a separator there
/// is nothing to split.
pub proof fn law_splitting_loses_nothing(s: Seq<char>, c: char)
    ensures
        split_first(s, c) is Some <==> s.contains(c),
        split_first(s, c) matches Some((a, b)) ==> s == a.push(c) + b && !a.contains(c),
        before_first(s, c) == (match split_first(s, c) {
            Some((a, _)) => a,
            None => s,
        }),
{
    if s.contains(c) {
        lemma_first(s, c, s.len() as int);
        let i = choose|i: int| first_at(s, c, i);
        assert(first_at(s, c, i));
        assert(s == s.take(i).push(c) + s.skip(i + 1));
        assert forall|k: int| 0 <= k < s.take(i).len() implies s.take(i)[k] != c by {
            assert(s.take(i)[k] == s[k]);
        }
    } else if split_first(s, c) is Some {
        let i = choose|i: int| first_at(s, c, i);
        assert(s[i] == c);
    }
}

proof fn lemma_first(s: Seq<char>, c: char, n: int)
    requires
        0 <= n <= s.len(),
        exists|k: int| 0 <= k < n && s[k] == c,
    ensures
        exists|i: int| first_at(s, c, i),
    decreases n,
{
    let k = choose|k: int| 0 <= k < n && s[k] == c;
    if exists|j: int| 0 <= j < k && s[j] == c {
        lemma_first(s, c, k);
    } else {
        assert(first_at(s, c, k));
    }
}

/// A text starts with a prefix exactly where the prefix with what is left makes it.
pub proof fn law_prefixes_come_off(s: Seq<char>, prefix: Seq<char>, rest: Seq<char>)
    ensures
        rest_after(s, prefix) == Some(rest) <==> s == prefix + rest,
{
    if s == prefix + rest {
        assert(s.take(prefix.len() as int) == prefix);
        assert(s.skip(prefix.len() as int) == rest);
    }
    if rest_after(s, prefix) == Some(rest) {
        assert(s == s.take(prefix.len() as int) + s.skip(prefix.len() as int));
    }
}

/// Trimming takes white space off both ends and nothing else.
pub proof fn law_trimming_takes_white_space(s: Seq<char>)
    ensures
        exists|a: Seq<char>, b: Seq<char>|
            #![trigger a + trimmed(s) + b]
            s == a + trimmed(s) + b && (forall|i: int| 0 <= i < a.len() ==> white(#[trigger] a[i])) && (forall|
                i: int,
            | 0 <= i < b.len() ==> white(#[trigger] b[i])),
        trimmed(s).len() > 0 ==> !white(trimmed(s)[0]) && !white(trimmed(s).last()),
{
    lemma_leading(s);
    let t = without_leading(s);
    lemma_trailing(t);
    let u = without_trailing(t);
    let a = choose|a: Seq<char>|
        #![trigger a + t]
        s == a + t && (forall|i: int| 0 <= i < a.len() ==> white(#[trigger] a[i]));
    let b = choose|b: Seq<char>|
        #![trigger u + b]
        t == u + b && (forall|i: int| 0 <= i < b.len() ==> white(#[trigger] b[i]));
    assert(u == trimmed(s));
    assert(s == a + trimmed(s) + b);
    if u.len() > 0 {
        assert(u[0] == t[0]);
    }
}

proof fn lemma_leading(s: Seq<char>)
    ensures
        exists|a: Seq<char>|
            #![trigger a + without_leading(s)]
            s == a + without_leading(s) && (forall|i: int| 0 <= i < a.len() ==> white(#[trigger] a[i])),
        without_leading(s).len() > 0 ==> !white(without_leading(s)[0]),
    decreases s.len(),
{
    let t = without_leading(s);
    if s.len() > 0 && white(s[0]) {
        lemma_leading(s.drop_first());
        let a = choose|a: Seq<char>|
            #![trigger a + t]
            s.drop_first() == a + t && (forall|i: int| 0 <= i < a.len() ==> white(#[trigger] a[i]));
        let b = seq![s[0]] + a;
        assert(s == seq![s[0]] + s.drop_first());
        assert(s == b + t);
    } else {
        assert(s == Seq::<char>::empty() + t);
    }
}

proof fn lemma_trailing(s: Seq<char>)
    ensures
        exists|b: Seq<char>|
            #![trigger without_trailing(s) + b]
            s == without_trailing(s) + b && (forall|i: int| 0 <= i < b.len() ==> white(#[trigger] b[i])),
        without_trailing(s).len() > 0 ==> !white(without_trailing(s).last()),
    decreases s.len(),
{
    let t = without_trailing(s);
    if s.len() > 0 && white(s.last()) {
        lemma_trailing(s.drop_last());
        let b = choose|b: Seq<char>|
            #![trigger t + b]
            s.drop_last() == t + b && (forall|i: int| 0 <= i < b.len() ==> white(#[trigger] b[i]));
        let c = b.push(s.last());
        assert(s == s.drop_last().push(s.last()));
        assert(s == t + c);
    } else {
        assert(s == t + Seq::<char>::empty());
    }
}

/// The number that a numeral stands for.
pub open spec fn numeral_value(s: Seq<char>) -> int
    decreases s.len(),
{
    if s.len() == 0 {
        0
    } else {
        10 * numeral_value(s.drop_last()) + (s.last() as int - '0' as int)
    }
}

/// A decimal numeral is made of digits, stands for its number, and starts with no
/// idle zero.
pub proof fn law_numerals_stand_for_their_number(n: nat)
    ensures
        decimal(n).len() > 0,
        numeral_value(decimal(n)) == n,
        forall|i: int| 0 <= i < decimal(n).len() ==> '0' <= #[trigger] decimal(n)[i] && decimal(n)[i] <= '9',
        n > 0 ==> decimal(n)[0] != '0',
    decreases n,
{
    if n < 10 {
        assert(decimal(n).drop_last() == Seq::<char>::empty());
        assert(digit(n) as int == '0' as int + n);
        assert(decimal(n).last() == digit(n));
        assert(numeral_value(decimal(n).drop_last()) == 0);
    } else {
        law_numerals_stand_for_their_number(n / 10);
        let s = decimal(n / 10);
        let d = n % 10;
        assert(digit(d) as int == '0' as int + d);
        assert(s.push(digit(d)).drop_last() == s);
        assert forall|i: int| 0 <= i < decimal(n).len() implies '0' <= #[trigger] decimal(n)[i] && decimal(n)[i]
            <= '9' by {
            if i < s.len() {
                assert(decimal(n)[i] == s[i]);
            }
        }
        assert(decimal(n)[0] == s[0]);
    }
}

/// The order of texts is that of their first differing characters; a proper prefix
/// comes first.
pub proof fn law_texts_are_ordered_by_their_first_difference(a: Seq<char>, x: char, y: char, b: Seq<char>, c: Seq<char>)
    ensures
        x != y ==> (precedes(a.push(x) + b, a.push(y) + c) <==> x < y),
        precedes(a, a.push(x) + b),
        !precedes(a.push(x) + b, a),
        !precedes(a, a),
    decreases a.len(),
{
    let p = a.push(x) + b;
    let q = a.push(y) + c;
    if a.len() > 0 {
        let t = a.drop_first();
        law_texts_are_ordered_by_their_first_difference(t, x, y, b, c);
        assert(p.drop_first() == t.push(x) + b);
        assert(q.drop_first() == t.push(y) + c);
        assert(p[0] == a[0] && q[0] == a[0]);
    } else {
        assert(p[0] == x && q[0] == y);
    }
}

/// A text is split at the first place of a part: what stands before that place, the
/// part and what stands behind it make the text, and no earlier place has the part.
pub proof fn law_splitting_at_a_part_finds_the_first(s: Seq<char>, part: Seq<char>, x: Seq<char>, y: Seq<char>)
    ensures
        s == x + part + y ==> (split_at_part(s, part) matches Some((a, b)) && a.len() <= x.len()),
        split_at_part(s, part) matches Some((a, b)) ==> s == a + part + b,
{
    if s == x + part + y {
        assert(s.subrange(x.len() as int, (x.len() + part.len()) as int) == part);
        assert(occurs_at(s, part, x.len() as int));
        lemma_first_part(s, part, x.len() as int);
        let i = choose|i: int| first_occurrence(s, part, i);
        assert(first_occurrence(s, part, i));
        assert(i <= x.len());
    }
    if let Some((a, b)) = split_at_part(s, part) {
        let i = choose|i: int| first_occurrence(s, part, i);
        assert(s == s.take(i) + s.subrange(i, i + part.len()) + s.skip(i + part.len()));
    }
}

proof fn lemma_first_part(s: Seq<char>, part: Seq<char>, n: int)
    requires
        occurs_at(s, part, n),
    ensures
        exists|i: int| first_occurrence(s, part, i),
    decreases n,
{
    if exists|j: int| 0 <= j < n && occurs_at(s, part, j) {
        let j = choose|j: int| 0 <= j < n && occurs_at(s, part, j);
        lemma_first_part(s, part, j);
    } else {
        assert(first_occurrence(s, part, n));
    }
}

/// White space is what Unicode calls so: twenty-five characters.
pub proof fn law_white_space_is_unicode(c: char)
    ensures
        white(c) <==> set![
            9int, 10, 11, 12, 13, 32, 133, 160, 5760, 8192, 8193, 8194, 8195, 8196, 8197, 8198, 8199, 8200, 8201, 8202,
            8232, 8233, 8239, 8287, 12288,
        ].contains(c as int),
{
}

/// A text comes before every longer one that it starts, and after none of them.
pub proof fn law_shorter_texts_come_first(a: Seq<char>, rest: Seq<char>)
    ensures
        precedes(a, a + rest) <==> rest.len() > 0,
        !precedes(a + rest, a),
    decreases a.len(),
{
    if a.len() > 0 {
        law_shorter_texts_come_first(a.drop_first(), rest);
        assert((a + rest).drop_first() == a.drop_first() + rest);
        assert((a + rest)[0] == a[0]);
    } else {
        assert(a + rest == rest);
    }
}

} // verus!
