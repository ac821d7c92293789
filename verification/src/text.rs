//! Text as a sequence of Unicode scalar values.

use vstd::prelude::*;

verus! {

/// Text order: by the first differing scalar value, a proper prefix first.
pub open spec fn precedes(a: Seq<char>, b: Seq<char>) -> bool
    decreases a.len(),
{
    if b.len() == 0 {
        false
    } else if a.len() == 0 {
        true
    } else if a[0] != b[0] {
        a[0] < b[0]
    } else {
        precedes(a.drop_first(), b.drop_first())
    }
}

/// Whether each text comes before every later one.
pub open spec fn ascending(keys: Seq<Seq<char>>) -> bool {
    forall|i: int, j: int|
        0 <= i < j < keys.len() ==> precedes(#[trigger] keys[i], #[trigger] keys[j])
}

/// The texts of a sequence of strings.
pub open spec fn texts(s: Seq<String>) -> Seq<Seq<char>> {
    s.map_values(|k: String| k@)
}

/// The members of a set of texts, in ascending order.
pub open spec fn in_order(set: Set<Seq<char>>) -> Seq<Seq<char>> {
    choose|s: Seq<Seq<char>>| ascending(s) && #[trigger] s.to_set() == set
}

pub proof fn lemma_precedes_irreflexive(a: Seq<char>)
    ensures
        !precedes(a, a),
    decreases a.len(),
{
    if a.len() > 0 {
        lemma_precedes_irreflexive(a.drop_first());
    }
}

pub proof fn lemma_precedes_transitive(a: Seq<char>, b: Seq<char>, c: Seq<char>)
    requires
        precedes(a, b),
        precedes(b, c),
    ensures
        precedes(a, c),
    decreases a.len(),
{
    if a.len() > 0 && a[0] == b[0] && b[0] == c[0] {
        lemma_precedes_transitive(a.drop_first(), b.drop_first(), c.drop_first());
    }
}

pub proof fn lemma_precedes_total(a: Seq<char>, b: Seq<char>)
    ensures
        precedes(a, b) || precedes(b, a) || a == b,
    decreases a.len(),
{
    if a.len() > 0 && b.len() > 0 && a[0] == b[0] {
        lemma_precedes_total(a.drop_first(), b.drop_first());
        if a.drop_first() == b.drop_first() {
            assert(a == seq![a[0]] + a.drop_first());
            assert(b == seq![b[0]] + b.drop_first());
        }
    } else if a.len() == 0 && b.len() == 0 {
        assert(a == b);
    }
}

/// An ascending sequence is the ordered listing of its own members.
pub proof fn lemma_in_order(s: Seq<Seq<char>>)
    requires
        ascending(s),
    ensures
        in_order(s.to_set()) == s,
{
    let t = in_order(s.to_set());
    assert(ascending(s) && s.to_set() == s.to_set());
    assert(ascending(t) && t.to_set() == s.to_set());
    lemma_ascending_unique(s, t);
}

/// Every finite set of texts has an ordered listing.
pub proof fn lemma_order_exists(set: Set<Seq<char>>)
    requires
        set.finite(),
    ensures
        ascending(in_order(set)),
        in_order(set).to_set() == set,
    decreases set.len(),
{
    if set.len() == 0 {
        let s = Seq::<Seq<char>>::empty();
        assert(s.to_set() == set);
        assert(ascending(s) && s.to_set() == set);
    } else {
        let x = set.choose();
        let rest = set.remove(x);
        lemma_order_exists(rest);
        let r = in_order(rest);
        lemma_insert_ordered(r, x);
        let s = choose|s: Seq<Seq<char>>| ascending(s) && #[trigger] s.to_set() == r.to_set().insert(x);
        assert(r.to_set().insert(x) == set);
        assert(ascending(s) && s.to_set() == set);
    }
}

/// A text can be put into its place in an ascending sequence.
proof fn lemma_insert_ordered(r: Seq<Seq<char>>, x: Seq<char>)
    requires
        ascending(r),
        !r.contains(x),
    ensures
        exists|s: Seq<Seq<char>>| ascending(s) && #[trigger] s.to_set() == r.to_set().insert(x),
    decreases r.len(),
{
    if r.len() == 0 || precedes(r.last(), x) {
        let s = r.push(x);
        assert forall|i: int, j: int| 0 <= i < j < s.len() implies precedes(
            #[trigger] s[i],
            #[trigger] s[j],
        ) by {
            if j < r.len() {
                assert(precedes(r[i], r[j]));
            } else if i < r.len() - 1 {
                assert(precedes(r[i], r[r.len() - 1]));
                lemma_precedes_transitive(r[i], r.last(), x);
            }
        }
        assert forall|k: Seq<char>| s.to_set().contains(k) == r.to_set().insert(x).contains(k) by {
            assert(s.contains(k) <==> (r.contains(k) || k == x)) by {
                if r.contains(k) {
                    let i = choose|i: int| 0 <= i < r.len() && r[i] == k;
                    assert(s[i] == k);
                }
                if k == x {
                    assert(s[r.len() as int] == k);
                }
            }
        }
        assert(s.to_set() == r.to_set().insert(x));
    } else {
        let last = r.last();
        let r1 = r.drop_last();
        assert(r[r.len() - 1] == last);
        lemma_precedes_total(last, x);
        assert(precedes(x, last));
        assert forall|i: int, j: int| 0 <= i < j < r1.len() implies precedes(
            #[trigger] r1[i],
            #[trigger] r1[j],
        ) by {
            assert(precedes(r[i], r[j]));
        }
        assert(!r1.contains(x)) by {
            if r1.contains(x) {
                let i = choose|i: int| 0 <= i < r1.len() && r1[i] == x;
                assert(r[i] == x);
            }
        }
        lemma_insert_ordered(r1, x);
        let s1 = choose|s: Seq<Seq<char>>| ascending(s) && #[trigger] s.to_set() == r1.to_set().insert(x);
        let s = s1.push(last);
        assert forall|i: int, j: int| 0 <= i < j < s.len() implies precedes(
            #[trigger] s[i],
            #[trigger] s[j],
        ) by {
            if j < s1.len() {
                assert(precedes(s1[i], s1[j]));
            } else {
                assert(s1.to_set().contains(s1[i]));
                assert(r1.to_set().insert(x).contains(s1[i]));
                if s1[i] != x {
                    assert(r1.contains(s1[i]));
                    let k = choose|k: int| 0 <= k < r1.len() && r1[k] == s1[i];
                    assert(precedes(r[k], r[r.len() - 1]));
                }
            }
        }
        assert forall|k: Seq<char>| s.to_set().contains(k) == r.to_set().insert(x).contains(k) by {
            assert(s.contains(k) <==> (s1.contains(k) || k == last)) by {
                if s1.contains(k) {
                    let i = choose|i: int| 0 <= i < s1.len() && s1[i] == k;
                    assert(s[i] == k);
                }
                if k == last {
                    assert(s[s1.len() as int] == k);
                }
            }
            assert(s1.contains(k) == s1.to_set().contains(k));
            assert(r1.to_set().insert(x).contains(k) <==> (r1.contains(k) || k == x));
            assert(r.contains(k) <==> (r1.contains(k) || k == last)) by {
                if r.contains(k) {
                    let i = choose|i: int| 0 <= i < r.len() && r[i] == k;
                    if i < r1.len() {
                        assert(r1[i] == k);
                    }
                }
                if r1.contains(k) {
                    let i = choose|i: int| 0 <= i < r1.len() && r1[i] == k;
                    assert(r[i] == k);
                }
            }
        }
        assert(s.to_set() == r.to_set().insert(x));
    }
}

/// Two ascending sequences with the same members are equal.
pub proof fn lemma_ascending_unique(s: Seq<Seq<char>>, t: Seq<Seq<char>>)
    requires
        ascending(s),
        ascending(t),
        s.to_set() == t.to_set(),
    ensures
        s == t,
    decreases s.len(),
{
    assert forall|k: Seq<char>| s.contains(k) == t.contains(k) by {
        assert(s.contains(k) == s.to_set().contains(k));
        assert(t.contains(k) == t.to_set().contains(k));
    }
    if s.len() == 0 {
        if t.len() > 0 {
            assert(t.contains(t[0]));
        }
        assert(s == t);
    } else {
        assert(s.contains(s.last()));
        let n = t.len();
        let j = choose|j: int| 0 <= j < t.len() && t[j] == s.last();
        assert(s.contains(t.last())) by {
            assert(t.contains(t[n - 1]));
        }
        let i = choose|i: int| 0 <= i < s.len() && s[i] == t.last();
        if s.last() != t.last() {
            assert(precedes(t[j], t[n - 1]));
            assert(precedes(s[i], s[s.len() - 1]));
            lemma_precedes_transitive(s.last(), t.last(), s.last());
            lemma_precedes_irreflexive(s.last());
        }
        let s1 = s.drop_last();
        let t1 = t.drop_last();
        assert forall|k: Seq<char>| s1.to_set().contains(k) == t1.to_set().contains(k) by {
            if s1.contains(k) {
                let a = choose|a: int| 0 <= a < s1.len() && s1[a] == k;
                assert(s[a] == k);
                assert(t.contains(k));
                let b = choose|b: int| 0 <= b < t.len() && t[b] == k;
                assert(precedes(s[a], s[s.len() - 1]));
                lemma_precedes_irreflexive(k);
                assert(t1[b] == k);
            }
            if t1.contains(k) {
                let a = choose|a: int| 0 <= a < t1.len() && t1[a] == k;
                assert(t[a] == k);
                assert(s.contains(k));
                let b = choose|b: int| 0 <= b < s.len() && s[b] == k;
                assert(precedes(t[a], t[t.len() - 1]));
                lemma_precedes_irreflexive(k);
                assert(s1[b] == k);
            }
        }
        assert(s1.to_set() == t1.to_set());
        lemma_ascending_unique(s1, t1);
        assert(s == s1.push(s.last()));
        assert(t == t1.push(t.last()));
    }
}

/// The characters of `s`, in order.
pub fn chars_of(s: &str) -> (out: Vec<char>)
    ensures
        out@ == s@,
{
    let mut out: Vec<char> = Vec::new();
    for c in it: s.chars()
        invariant
            out@ == it.seq().take(it.index()),
            it.seq() == s@,
    {
        out.push(c);
    }
    assert(s@.take(s@.len() as int) == s@);
    out
}

/// Whether two texts are the same.
pub fn same(a: &str, b: &str) -> (r: bool)
    ensures
        r == (a@ == b@),
{
    let x = chars_of(a);
    let y = chars_of(b);
    if x.len() != y.len() {
        return false;
    }
    let mut i: usize = 0;
    while i < x.len()
        invariant
            x@ == a@,
            y@ == b@,
            x.len() == y.len(),
            i <= x.len(),
            x@.take(i as int) == y@.take(i as int),
        decreases x.len() - i,
    {
        if x[i] != y[i] {
            assert(a@[i as int] != b@[i as int]);
            return false;
        }
        i += 1;
        assert(x@.take(i as int) == x@.take(i - 1).push(x@[i - 1]));
        assert(y@.take(i as int) == y@.take(i - 1).push(y@[i - 1]));
    }
    assert(x@.take(i as int) == x@);
    assert(y@.take(i as int) == y@);
    true
}

/// Whether `a` comes before `b`.
pub fn is_before(a: &str, b: &str) -> (r: bool)
    ensures
        r == precedes(a@, b@),
{
    let x = chars_of(a);
    let y = chars_of(b);
    assert(x@.skip(0) == a@);
    assert(y@.skip(0) == b@);
    let mut i: usize = 0;
    while i < x.len() && i < y.len()
        invariant
            x@ == a@,
            y@ == b@,
            i <= x.len(),
            i <= y.len(),
            precedes(a@, b@) == precedes(x@.skip(i as int), y@.skip(i as int)),
        decreases x.len() - i,
    {
        let ghost p = x@.skip(i as int);
        let ghost q = y@.skip(i as int);
        assert(p[0] == x@[i as int]);
        assert(q[0] == y@[i as int]);
        if x[i] != y[i] {
            return x[i] < y[i];
        }
        assert(p.drop_first() == x@.skip(i + 1));
        assert(q.drop_first() == y@.skip(i + 1));
        i += 1;
    }
    i == x.len() && i < y.len()
}

/// Where `key` stands, or would stand, in a list of strings in ascending order.
pub fn locate(keys: &Vec<String>, key: &str) -> (r: (bool, usize))
    requires
        ascending(texts(keys@)),
    ensures
        r.1 <= keys@.len(),
        r.0 ==> r.1 < keys@.len() && keys@[r.1 as int]@ == key@,
        forall|i: int| 0 <= i < r.1 ==> precedes(#[trigger] keys@[i]@, key@),
        !r.0 ==> forall|i: int| r.1 <= i < keys@.len() ==> precedes(key@, #[trigger] keys@[i]@),
{
    let mut i: usize = 0;
    while i < keys.len()
        invariant
            i <= keys@.len(),
            ascending(texts(keys@)),
            forall|k: int| 0 <= k < i ==> precedes(#[trigger] keys@[k]@, key@),
        decreases keys.len() - i,
    {
        if !is_before(keys[i].as_str(), key) {
            let found = same(keys[i].as_str(), key);
            proof {
                lemma_precedes_total(keys@[i as int]@, key@);
                if !found {
                    assert forall|k: int| i <= k < keys@.len() implies precedes(
                        key@,
                        #[trigger] keys@[k]@,
                    ) by {
                        let t = texts(keys@);
                        if k > i {
                            assert(precedes(t[i as int], t[k]));
                            lemma_precedes_transitive(key@, t[i as int], t[k]);
                        }
                    }
                }
            }
            return (found, i);
        }
        i += 1;
    }
    (false, i)
}

/// The views of a sequence of values.
pub open spec fn views<T: View>(s: Seq<T>) -> Seq<T::V> {
    s.map_values(|x: T| x@)
}

/// The view of a value that may be absent.
pub open spec fn opt_view<T: View>(o: Option<T>) -> Option<T::V> {
    match o {
        Some(x) => Some(x@),
        None => None,
    }
}

/// The view of a text that may be absent.
pub open spec fn opt_text(s: Option<&str>) -> Option<Seq<char>> {
    match s {
        Some(s) => Some(s@),
        None => None,
    }
}

/// A text that may be absent, as the empty text where it is.
pub open spec fn or_empty(o: Option<Seq<char>>) -> Seq<char> {
    match o {
        Some(s) => s,
        None => Seq::empty(),
    }
}

/// The texts in order with a separator between neighbours.
pub open spec fn joined(parts: Seq<Seq<char>>, sep: Seq<char>) -> Seq<char>
    decreases parts.len(),
{
    if parts.len() == 0 {
        Seq::empty()
    } else if parts.len() == 1 {
        parts[0]
    } else {
        joined(parts.drop_last(), sep) + sep + parts.last()
    }
}

/// Joins texts with a separator between neighbours.
pub fn join(parts: &Vec<String>, sep: &str) -> (r: String)
    ensures
        r@ == joined(texts(parts@), sep@),
{
    let mut out = String::new();
    let mut i: usize = 0;
    while i < parts.len()
        invariant
            i <= parts.len(),
            out@ == joined(texts(parts@).take(i as int), sep@),
        decreases parts.len() - i,
    {
        let ghost t = texts(parts@).take(i + 1);
        assert(t.drop_last() == texts(parts@).take(i as int));
        assert(t.last() == parts@[i as int]@);
        if i > 0 {
            out.append(sep);
        }
        out.append(parts[i].as_str());
        assert(out@ == joined(t, sep@));
        i += 1;
    }
    assert(texts(parts@).take(i as int) == texts(parts@));
    out
}

/// A copy of a text that may be absent, the empty text where it is.
pub fn text_or_empty(o: Option<&String>) -> (r: String)
    ensures
        r@ == or_empty(match o {
            Some(s) => Some(s@),
            None => None,
        }),
{
    match o {
        Some(s) => s.clone(),
        None => String::new(),
    }
}

/// A copy of a text that may be absent.
pub fn copy_opt(o: &Option<String>) -> (r: Option<String>)
    ensures
        opt_view(r) == opt_view(*o),
{
    match o {
        Some(s) => Some(s.clone()),
        None => None,
    }
}

/// The decimal numeral of a natural number.
pub open spec fn decimal(n: nat) -> Seq<char>
    decreases n,
{
    if n < 10 {
        seq![digit(n)]
    } else {
        decimal(n / 10).push(digit(n % 10))
    }
}

/// The decimal digit of a number below ten.
pub open spec fn digit(d: nat) -> char {
    ('0' as int + d) as char
}

/// The decimal numeral of a number.
pub fn decimal_text(n: u64) -> (r: String)
    ensures
        r@ == decimal(n as nat),
    decreases n,
{
    let mut out = if n < 10 {
        String::new()
    } else {
        decimal_text(n / 10)
    };
    let d = n % 10;
    let last: &str = if d == 0 {
        "0"
    } else if d == 1 {
        "1"
    } else if d == 2 {
        "2"
    } else if d == 3 {
        "3"
    } else if d == 4 {
        "4"
    } else if d == 5 {
        "5"
    } else if d == 6 {
        "6"
    } else if d == 7 {
        "7"
    } else if d == 8 {
        "8"
    } else {
        "9"
    };
    proof {
        reveal_strlit("0");
        reveal_strlit("1");
        reveal_strlit("2");
        reveal_strlit("3");
        reveal_strlit("4");
        reveal_strlit("5");
        reveal_strlit("6");
        reveal_strlit("7");
        reveal_strlit("8");
        reveal_strlit("9");
        assert(last@ == seq![digit((n % 10) as nat)]);
    }
    out.append(last);
    assert(out@ == decimal(n as nat));
    out
}

/// Two texts, one after the other.
pub fn concat2(a: &str, b: &str) -> (r: String)
    ensures
        r@ == a@ + b@,
{
    let mut out = a.to_owned();
    out.append(b);
    out
}

/// Three texts, one after the other.
pub fn concat3(a: &str, b: &str, c: &str) -> (r: String)
    ensures
        r@ == a@ + b@ + c@,
{
    let mut out = a.to_owned();
    out.append(b);
    out.append(c);
    out
}

/// Whether `i` is the first place of `c` in `s`.
pub open spec fn first_at(s: Seq<char>, c: char, i: int) -> bool {
    0 <= i < s.len() && s[i] == c && forall|j: int| 0 <= j < i ==> s[j] != c
}

/// What stands before and after the first `c` in `s`.
pub open spec fn split_first(s: Seq<char>, c: char) -> Option<(Seq<char>, Seq<char>)> {
    if exists|i: int| first_at(s, c, i) {
        let i = choose|i: int| first_at(s, c, i);
        Some((s.take(i), s.skip(i + 1)))
    } else {
        None
    }
}

/// A text splits at the first separator.
pub proof fn lemma_split_first(a: Seq<char>, c: char, b: Seq<char>)
    requires
        !a.contains(c),
    ensures
        split_first(a + seq![c] + b, c) == Some((a, b)),
{
    let s = a + seq![c] + b;
    assert forall|j: int| 0 <= j < a.len() implies s[j] != c by {
        assert(a.contains(a[j]));
    }
    assert(first_at(s, c, a.len() as int));
    let i = choose|i: int| first_at(s, c, i);
    assert(i == a.len());
    assert(s.take(i) == a);
    assert(s.skip(i + 1) == b);
}

/// Splits a text at the first `c`.
pub fn split_once<'a>(s: &'a str, c: char) -> (r: Option<(&'a str, &'a str)>)
    ensures
        match r {
            Some((a, b)) => split_first(s@, c) == Some((a@, b@)),
            None => split_first(s@, c) is None,
        },
{
    let chars = chars_of(s);
    let mut i: usize = 0;
    while i < chars.len()
        invariant
            i <= chars.len(),
            chars@ == s@,
            forall|j: int| 0 <= j < i ==> s@[j] != c,
        decreases chars.len() - i,
    {
        if chars[i] == c {
            assert(first_at(s@, c, i as int));
            assert((choose|k: int| first_at(s@, c, k)) == i);
            return Some((s.substring_char(0, i), s.substring_char(i + 1, chars.len())));
        }
        i += 1;
    }
    None
}

/// The texts of string slices.
pub open spec fn strs(s: Seq<&str>) -> Seq<Seq<char>> {
    s.map_values(|x: &str| x@)
}

/// Whether a text is among some others.
pub fn is_one_of(s: &str, list: &[&str]) -> (r: bool)
    ensures
        r == strs(list@).contains(s@),
{
    let mut i: usize = 0;
    while i < list.len()
        invariant
            i <= list@.len(),
            forall|j: int| 0 <= j < i ==> list@[j]@ != s@,
        decreases list.len() - i,
    {
        if same(list[i], s) {
            assert(strs(list@)[i as int] == s@);
            return true;
        }
        i += 1;
    }
    false
}

/// Whether a character is white space: the Unicode property of that name.
pub open spec fn white(c: char) -> bool {
    ||| 0x9 <= c as u32 <= 0xd
    ||| c as u32 == 0x20
    ||| c as u32 == 0x85
    ||| c as u32 == 0xa0
    ||| c as u32 == 0x1680
    ||| 0x2000 <= c as u32 <= 0x200a
    ||| c as u32 == 0x2028
    ||| c as u32 == 0x2029
    ||| c as u32 == 0x202f
    ||| c as u32 == 0x205f
    ||| c as u32 == 0x3000
}

fn is_white(c: char) -> (r: bool)
    ensures
        r == white(c),
{
    let u = c as u32;
    (0x9 <= u && u <= 0xd) || u == 0x20 || u == 0x85 || u == 0xa0 || u == 0x1680 || (0x2000 <= u && u
        <= 0x200a) || u == 0x2028 || u == 0x2029 || u == 0x202f || u == 0x205f || u == 0x3000
}

/// A text without the white space in front.
pub open spec fn without_leading(s: Seq<char>) -> Seq<char>
    decreases s.len(),
{
    if s.len() > 0 && white(s[0]) {
        without_leading(s.drop_first())
    } else {
        s
    }
}

/// A text without the white space at its end.
pub open spec fn without_trailing(s: Seq<char>) -> Seq<char>
    decreases s.len(),
{
    if s.len() > 0 && white(s.last()) {
        without_trailing(s.drop_last())
    } else {
        s
    }
}

/// A text without the white space around it.
pub open spec fn trimmed(s: Seq<char>) -> Seq<char> {
    without_trailing(without_leading(s))
}

/// Removes the white space around a text.
pub fn trim<'a>(s: &'a str) -> (r: &'a str)
    ensures
        r@ == trimmed(s@),
{
    let chars = chars_of(s);
    let n = chars.len();
    let mut a: usize = 0;
    assert(s@.subrange(0, n as int) == s@);
    while a < n && is_white(chars[a])
        invariant
            a <= n,
            n == chars@.len(),
            chars@ == s@,
            without_leading(s@) == without_leading(s@.subrange(a as int, n as int)),
        decreases n - a,
    {
        assert(s@.subrange(a as int, n as int).drop_first() == s@.subrange(a + 1, n as int));
        a += 1;
    }
    assert(without_leading(s@) == s@.subrange(a as int, n as int));
    let mut b: usize = n;
    while a < b && is_white(chars[b - 1])
        invariant
            a <= b <= n,
            n == chars@.len(),
            chars@ == s@,
            trimmed(s@) == without_trailing(s@.subrange(a as int, b as int)),
        decreases b,
    {
        assert(s@.subrange(a as int, b as int).drop_last() == s@.subrange(a as int, b - 1));
        b -= 1;
    }
    s.substring_char(a, b)
}

/// What follows `prefix` in `s`, where `s` starts with it.
pub open spec fn rest_after(s: Seq<char>, prefix: Seq<char>) -> Option<Seq<char>> {
    if prefix.len() <= s.len() && s.take(prefix.len() as int) == prefix {
        Some(s.skip(prefix.len() as int))
    } else {
        None
    }
}

/// Takes a prefix off a text.
pub fn strip_prefix<'a>(s: &'a str, prefix: &str) -> (r: Option<&'a str>)
    ensures
        match r {
            Some(rest) => rest_after(s@, prefix@) == Some(rest@),
            None => rest_after(s@, prefix@) is None,
        },
{
    let n = s.unicode_len();
    let k = prefix.unicode_len();
    if k <= n && same(s.substring_char(0, k), prefix) {
        Some(s.substring_char(k, n))
    } else {
        None
    }
}

/// What stands before the first `c` in `s`, the whole text where there is none.
pub open spec fn before_first(s: Seq<char>, c: char) -> Seq<char> {
    match split_first(s, c) {
        Some((a, _)) => a,
        None => s,
    }
}

/// Whether `part` stands in `s` at place `i`.
pub open spec fn occurs_at(s: Seq<char>, part: Seq<char>, i: int) -> bool {
    0 <= i && i + part.len() <= s.len() && s.subrange(i, i + part.len()) == part
}

/// Whether `i` is the first place of `part` in `s`.
pub open spec fn first_occurrence(s: Seq<char>, part: Seq<char>, i: int) -> bool {
    occurs_at(s, part, i) && forall|j: int| 0 <= j < i ==> !occurs_at(s, part, j)
}

/// What stands before and after the first `part` in `s`.
pub open spec fn split_at_part(s: Seq<char>, part: Seq<char>) -> Option<(Seq<char>, Seq<char>)> {
    if exists|i: int| first_occurrence(s, part, i) {
        let i = choose|i: int| first_occurrence(s, part, i);
        Some((s.take(i), s.skip(i + part.len())))
    } else {
        None
    }
}

/// Splits a text at the first occurrence of another.
pub fn split_once_at<'a>(s: &'a str, part: &str) -> (r: Option<(&'a str, &'a str)>)
    ensures
        match r {
            Some((a, b)) => split_at_part(s@, part@) == Some((a@, b@)),
            None => split_at_part(s@, part@) is None,
        },
{
    let n = s.unicode_len();
    let k = part.unicode_len();
    if n < k {
        assert(forall|i: int| !first_occurrence(s@, part@, i));
        return None;
    }
    let mut i: usize = 0;
    while i <= n - k
        invariant
            n == s@.len(),
            k == part@.len(),
            k <= n,
            i <= n - k + 1,
            forall|j: int| 0 <= j < i ==> !occurs_at(s@, part@, j),
        decreases n - k + 1 - i,
    {
        if same(s.substring_char(i, i + k), part) {
            assert(first_occurrence(s@, part@, i as int));
            assert((choose|j: int| first_occurrence(s@, part@, j)) == i);
            return Some((s.substring_char(0, i), s.substring_char(i + k, n)));
        }
        if i == n - k {
            assert(forall|j: int| !first_occurrence(s@, part@, j));
            return None;
        }
        i += 1;
    }
    None
}

/// 4 texts, one after the other.
pub fn concat4(a: &str, b: &str, c: &str, d: &str) -> (r: String)
    ensures
        r@ == a@ + b@ + c@ + d@,
{
    let mut out = a.to_owned();
    out.append(b);
    out.append(c);
    out.append(d);
    out
}

/// 5 texts, one after the other.
pub fn concat5(a: &str, b: &str, c: &str, d: &str, e: &str) -> (r: String)
    ensures
        r@ == a@ + b@ + c@ + d@ + e@,
{
    let mut out = a.to_owned();
    out.append(b);
    out.append(c);
    out.append(d);
    out.append(e);
    out
}

/// 7 texts, one after the other.
pub fn concat7(a: &str, b: &str, c: &str, d: &str, e: &str, f: &str, g: &str) -> (r: String)
    ensures
        r@ == a@ + b@ + c@ + d@ + e@ + f@ + g@,
{
    let mut out = a.to_owned();
    out.append(b);
    out.append(c);
    out.append(d);
    out.append(e);
    out.append(f);
    out.append(g);
    out
}

/// 9 texts, one after the other.
pub fn concat9(a: &str, b: &str, c: &str, d: &str, e: &str, f: &str, g: &str, h: &str, i: &str) -> (r: String)
    ensures
        r@ == a@ + b@ + c@ + d@ + e@ + f@ + g@ + h@ + i@,
{
    let mut out = a.to_owned();
    out.append(b);
    out.append(c);
    out.append(d);
    out.append(e);
    out.append(f);
    out.append(g);
    out.append(h);
    out.append(i);
    out
}

/// Whether a text is among some strings.
pub fn is_listed(s: &str, list: &Vec<String>) -> (r: bool)
    ensures
        r == texts(list@).contains(s@),
{
    let mut i: usize = 0;
    while i < list.len()
        invariant
            i <= list@.len(),
            forall|j: int| 0 <= j < i ==> list@[j]@ != s@,
        decreases list.len() - i,
    {
        if same(list[i].as_str(), s) {
            assert(texts(list@)[i as int] == s@);
            return true;
        }
        i += 1;
    }
    false
}

/// Whether a text holds a character.
pub fn has_char(s: &str, c: char) -> (r: bool)
    ensures
        r == s@.contains(c),
{
    let chars = chars_of(s);
    let mut i: usize = 0;
    while i < chars.len()
        invariant
            i <= chars@.len(),
            chars@ == s@,
            forall|j: int| 0 <= j < i ==> s@[j] != c,
        decreases chars.len() - i,
    {
        if chars[i] == c {
            assert(s@[i as int] == c);
            return true;
        }
        i += 1;
    }
    false
}

/// Copies a list of strings.
pub fn copy_list(list: &Vec<String>) -> (r: Vec<String>)
    ensures
        r@ == list@,
{
    let mut out: Vec<String> = Vec::new();
    let mut i: usize = 0;
    while i < list.len()
        invariant
            i <= list.len(),
            out@ == list@.take(i as int),
        decreases list.len() - i,
    {
        out.push(list[i].clone());
        i += 1;
    }
    assert(out@ == list@);
    out
}

/// A character with the ASCII capitals made small.
pub open spec fn lower(c: char) -> char {
    if 'A' <= c && c <= 'Z' {
        (c as int + 32) as char
    } else {
        c
    }
}

/// A text with the ASCII capitals made small.
pub open spec fn lowered(s: Seq<char>) -> Seq<char> {
    s.map_values(|c: char| lower(c))
}

/// `str::to_ascii_lowercase`: a copy in which 'A' to 'Z' are mapped to 'a' to 'z'
/// and every other character is unchanged.
pub assume_specification[ str::to_ascii_lowercase ](s: &str) -> (r: String)
    ensures
        r@ == lowered(s@),
;

/// Lowering a text twice changes nothing more.
pub proof fn lemma_lowered_twice(s: Seq<char>)
    ensures
        lowered(lowered(s)) == lowered(s),
{
    assert forall|i: int| 0 <= i < s.len() implies #[trigger] lower(lower(s[i])) == lower(s[i]) by {
        if 'A' <= s[i] && s[i] <= 'Z' {
            assert(lower(s[i]) as int == s[i] as int + 32);
        }
    }
    assert(lowered(lowered(s)) == lowered(s));
}

} // verus!
