//! Lists of account names: a comma list is read into a sorted list without
//! repetitions, so that two spellings of one list are the same list.

use crate::text::{chars_of, lowered, same_text, string_of, to_lower, trim, trimmed};
use vstd::prelude::*;

verus! {

// ---------------------------------------------------------------------------
// The order of strings
// ---------------------------------------------------------------------------

/// `a` comes strictly before `b`: at the first place where they differ, `a`
/// ends or has the smaller code point. On UTF-8 bytes the order is the same.
pub open spec fn precedes(a: Seq<char>, b: Seq<char>) -> bool
    decreases a.len(),
{
    if b.len() == 0 {
        false
    } else if a.len() == 0 {
        true
    } else if a[0] == b[0] {
        precedes(a.skip(1), b.skip(1))
    } else {
        a[0] < b[0]
    }
}

/// No string comes before itself.
pub proof fn precedes_irreflexive(a: Seq<char>)
    ensures
        !precedes(a, a),
    decreases a.len(),
{
    if a.len() > 0 {
        precedes_irreflexive(a.skip(1));
    }
}

/// The order is transitive.
pub proof fn precedes_transitive(a: Seq<char>, b: Seq<char>, c: Seq<char>)
    requires
        precedes(a, b),
        precedes(b, c),
    ensures
        precedes(a, c),
    decreases a.len(),
{
    if a.len() > 0 && b.len() > 0 && c.len() > 0 && a[0] == b[0] && b[0] == c[0] {
        precedes_transitive(a.skip(1), b.skip(1), c.skip(1));
    }
}

/// Of two different strings one comes before the other.
pub proof fn precedes_total(a: Seq<char>, b: Seq<char>)
    ensures
        a == b || precedes(a, b) || precedes(b, a),
    decreases a.len(),
{
    if a.len() == 0 || b.len() == 0 {
        if a.len() == b.len() {
            assert(a == b);
        }
    } else if a[0] == b[0] {
        precedes_total(a.skip(1), b.skip(1));
        if a.skip(1) == b.skip(1) {
            assert(a == seq![a[0]] + a.skip(1));
            assert(b == seq![b[0]] + b.skip(1));
        }
    }
}

/// Compares two strings.
pub fn text_precedes(a: &str, b: &str) -> (r: bool)
    ensures
        r == precedes(a@, b@),
{
    let x = chars_of(a);
    let y = chars_of(b);
    let mut i: usize = 0;
    assert(a@.skip(0) == a@ && b@.skip(0) == b@);
    while i < x.len() && i < y.len() && x[i] == y[i]
        invariant
            x@ == a@,
            y@ == b@,
            i <= x@.len(),
            i <= y@.len(),
            precedes(a@, b@) == precedes(a@.skip(i as int), b@.skip(i as int)),
        decreases x@.len() - i,
    {
        assert(a@.skip(i as int).skip(1) == a@.skip(i + 1));
        assert(b@.skip(i as int).skip(1) == b@.skip(i + 1));
        i += 1;
    }
    if i >= y.len() {
        false
    } else if i >= x.len() {
        true
    } else {
        x[i] < y[i]
    }
}

// ---------------------------------------------------------------------------
// Comma lists
// ---------------------------------------------------------------------------

/// The pieces of `s` between commas; one more than there are commas.
pub open spec fn comma_pieces(s: Seq<char>) -> Seq<Seq<char>>
    decreases s.len(),
{
    if s.len() == 0 {
        seq![Seq::<char>::empty()]
    } else {
        let before = comma_pieces(s.drop_last());
        if s.last() == ',' {
            before.push(Seq::empty())
        } else {
            before.drop_last().push(before.last().push(s.last()))
        }
    }
}

/// A name as it is compared: no surrounding white space, ASCII letters small.
pub open spec fn normalized(name: Seq<char>) -> Seq<char> {
    lowered(trimmed(name))
}

/// The names in the comma list `s`, in order; empty pieces name nobody.
pub open spec fn names_in(s: Seq<char>) -> Seq<Seq<char>> {
    comma_pieces(s).map_values(|piece: Seq<char>| normalized(piece)).filter(
        |name: Seq<char>| name.len() > 0,
    )
}

// ---------------------------------------------------------------------------
// Sorted lists without repetitions
// ---------------------------------------------------------------------------

/// Every string comes strictly before those behind it.
pub open spec fn ascending(list: Seq<Seq<char>>) -> bool {
    forall|i: int, j: int| #![trigger list[i], list[j]]
        0 <= i < j < list.len() ==> precedes(list[i], list[j])
}

/// `name` put in its place in the ascending `list`, unless it is there.
pub open spec fn with_name(list: Seq<Seq<char>>, name: Seq<char>) -> Seq<Seq<char>>
    decreases list.len(),
{
    if list.len() == 0 {
        seq![name]
    } else if list[0] == name {
        list
    } else if precedes(name, list[0]) {
        seq![name] + list
    } else {
        seq![list[0]] + with_name(list.skip(1), name)
    }
}

/// The strings of `names`, each once, in ascending order.
pub open spec fn sorted_names(names: Seq<Seq<char>>) -> Seq<Seq<char>>
    decreases names.len(),
{
    if names.len() == 0 {
        Seq::empty()
    } else {
        with_name(sorted_names(names.drop_last()), names.last())
    }
}

proof fn with_name_ascending(list: Seq<Seq<char>>, name: Seq<char>)
    requires
        ascending(list),
    ensures
        ascending(with_name(list, name)),
        forall|x: Seq<char>| #[trigger]
            with_name(list, name).contains(x) <==> list.contains(x) || x == name,
    decreases list.len(),
{
    let r = with_name(list, name);
    if list.len() == 0 {
        assert(r[0] == name);
    } else if list[0] == name {
    } else if precedes(name, list[0]) {
        assert forall|i: int, j: int| #![trigger r[i], r[j]] 0 <= i < j < r.len() implies precedes(
            r[i],
            r[j],
        ) by {
            if i == 0 {
                if j > 1 {
                    assert(precedes(list[0], list[j - 1]));
                    precedes_transitive(name, list[0], list[j - 1]);
                }
            } else {
                assert(precedes(list[i - 1], list[j - 1]));
            }
        }
        assert forall|x: Seq<char>| #[trigger] r.contains(x) <==> list.contains(x) || x == name by {
            assert(r[0] == name);
            if list.contains(x) {
                let k = list.index_of(x);
                assert(r[k + 1] == x);
            }
            if r.contains(x) {
                let k = r.index_of(x);
                if k > 0 {
                    assert(list[k - 1] == x);
                }
            }
        }
    } else {
        let rest = list.skip(1);
        assert forall|i: int, j: int| #![trigger rest[i], rest[j]]
            0 <= i < j < rest.len() implies precedes(rest[i], rest[j]) by {
            assert(precedes(list[i + 1], list[j + 1]));
        }
        with_name_ascending(rest, name);
        let tail = with_name(rest, name);
        assert(r == seq![list[0]] + tail);
        precedes_total(name, list[0]);
        assert forall|i: int, j: int| #![trigger r[i], r[j]] 0 <= i < j < r.len() implies precedes(
            r[i],
            r[j],
        ) by {
            if i == 0 {
                assert(tail.contains(tail[j - 1]));
                if r[j] != name {
                    assert(rest.contains(r[j]));
                    let k = rest.index_of(r[j]);
                    assert(precedes(list[0], list[k + 1]));
                }
            } else {
                assert(precedes(tail[i - 1], tail[j - 1]));
            }
        }
        assert forall|x: Seq<char>| #[trigger] r.contains(x) <==> list.contains(x) || x == name by {
            assert(r[0] == list[0]);
            if r.contains(x) {
                let k = r.index_of(x);
                if k > 0 {
                    assert(tail[k - 1] == x);
                    assert(tail.contains(x));
                    if x != name {
                        assert(rest.contains(x));
                        assert(list[rest.index_of(x) + 1] == x);
                    }
                }
            }
            if list.contains(x) || x == name {
                if x != list[0] {
                    if x != name {
                        let k = list.index_of(x);
                        assert(rest[k - 1] == x);
                    }
                    assert(tail.contains(x));
                    assert(r[tail.index_of(x) + 1] == x);
                }
            }
        }
    }
}

/// A sorted list is in strictly ascending order, so nothing occurs twice, and
/// it holds the same strings as the list it was made of.
pub proof fn sorted_names_sorts(names: Seq<Seq<char>>)
    ensures
        ascending(sorted_names(names)),
        forall|x: Seq<char>| #[trigger] sorted_names(names).contains(x) <==> names.contains(x),
    decreases names.len(),
{
    if names.len() > 0 {
        let before = names.drop_last();
        sorted_names_sorts(before);
        with_name_ascending(sorted_names(before), names.last());
        assert forall|x: Seq<char>| #[trigger] sorted_names(names).contains(x) <==> names.contains(
            x,
        ) by {
            if names.contains(x) && x != names.last() {
                let k = names.index_of(x);
                assert(before[k] == x);
            }
            if before.contains(x) {
                assert(names[before.index_of(x)] == x);
            }
            assert(names[names.len() - 1] == names.last());
        }
    }
}

proof fn ascending_first(a: Seq<Seq<char>>, b: Seq<Seq<char>>)
    requires
        ascending(a),
        ascending(b),
        a.len() > 0,
        b.len() > 0,
        forall|x: Seq<char>| a.contains(x) <==> b.contains(x),
    ensures
        a[0] == b[0],
{
    assert(a.contains(a[0]));
    assert(b.contains(b[0]));
    let i = b.index_of(a[0]);
    let j = a.index_of(b[0]);
    if i > 0 && j > 0 {
        assert(precedes(b[0], b[i]));
        assert(precedes(a[0], a[j]));
        precedes_transitive(a[0], b[0], a[0]);
        precedes_irreflexive(a[0]);
    }
}

/// Only one ascending list holds a given set of strings: what a sorted list
/// holds decides what it is.
pub proof fn ascending_unique(a: Seq<Seq<char>>, b: Seq<Seq<char>>)
    requires
        ascending(a),
        ascending(b),
        forall|x: Seq<char>| a.contains(x) <==> b.contains(x),
    ensures
        a == b,
    decreases a.len(),
{
    if a.len() == 0 {
        if b.len() > 0 {
            assert(b.contains(b[0]));
            assert(a.contains(b[0]));
        }
        assert(a == b);
    } else {
        assert(a.contains(a[0]));
        assert(b.contains(a[0]));
        ascending_first(a, b);
        let s = a.skip(1);
        let t = b.skip(1);
        assert forall|i: int, j: int| #![trigger s[i], s[j]] 0 <= i < j < s.len() implies precedes(
            s[i],
            s[j],
        ) by {
            assert(precedes(a[i + 1], a[j + 1]));
        }
        assert forall|i: int, j: int| #![trigger t[i], t[j]] 0 <= i < j < t.len() implies precedes(
            t[i],
            t[j],
        ) by {
            assert(precedes(b[i + 1], b[j + 1]));
        }
        assert forall|x: Seq<char>| s.contains(x) <==> t.contains(x) by {
            if s.contains(x) {
                let k = s.index_of(x);
                assert(a[k + 1] == x);
                assert(a.contains(x));
                assert(precedes(a[0], a[k + 1]));
                precedes_irreflexive(a[0]);
                let m = b.index_of(x);
                assert(t[m - 1] == x);
            }
            if t.contains(x) {
                let k = t.index_of(x);
                assert(b[k + 1] == x);
                assert(b.contains(x));
                assert(precedes(b[0], b[k + 1]));
                precedes_irreflexive(b[0]);
                let m = a.index_of(x);
                assert(s[m - 1] == x);
            }
        }
        ascending_unique(s, t);
        assert(a == seq![a[0]] + s);
        assert(b == seq![b[0]] + t);
    }
}

proof fn with_name_at(list: Seq<Seq<char>>, name: Seq<char>, i: int)
    requires
        0 <= i <= list.len(),
        forall|j: int| 0 <= j < i ==> precedes(#[trigger] list[j], name),
        i < list.len() ==> !precedes(list[i], name),
    ensures
        i < list.len() && list[i] == name ==> with_name(list, name) == list,
        i == list.len() || list[i] != name ==> with_name(list, name) == list.insert(i, name),
    decreases i,
{
    if i == 0 {
        if list.len() > 0 {
            precedes_total(list[0], name);
        }
        if list.len() == 0 || list[0] != name {
            assert(seq![name] + list == list.insert(0, name));
        }
    } else {
        assert(precedes(list[0], name));
        precedes_irreflexive(name);
        if precedes(name, list[0]) {
            precedes_transitive(name, list[0], name);
        }
        let rest = list.skip(1);
        assert forall|j: int| 0 <= j < i - 1 implies precedes(#[trigger] rest[j], name) by {
            assert(precedes(list[j + 1], name));
        }
        with_name_at(rest, name, i - 1);
        assert(list == seq![list[0]] + rest);
        assert(list.insert(i, name) == seq![list[0]] + rest.insert(i - 1, name));
    }
}

/// The strings behind a list of `String`s.
pub open spec fn texts(list: Seq<String>) -> Seq<Seq<char>> {
    list.map_values(|s: String| s@)
}

/// Puts `name` in its place in an ascending list, unless it is there.
pub fn add_name(list: &mut Vec<String>, name: String)
    ensures
        texts(final(list)@) == with_name(texts(old(list)@), name@),
{
    let mut i: usize = 0;
    while i < list.len() && text_precedes(list[i].as_str(), name.as_str())
        invariant
            i <= list@.len(),
            forall|j: int| 0 <= j < i ==> precedes(#[trigger] texts(list@)[j], name@),
        decreases list@.len() - i,
    {
        i += 1;
    }
    let ghost before = list@;
    proof {
        with_name_at(texts(list@), name@, i as int);
    }
    if i < list.len() && list[i] == name {
    } else {
        let ghost added = name@;
        list.insert(i, name);
        assert(texts(list@) == texts(before).insert(i as int, added));
    }
}

/// Whether the list holds `name`.
pub fn has_name(list: &Vec<String>, name: &str) -> (r: bool)
    ensures
        r == texts(list@).contains(name@),
{
    let mut i: usize = 0;
    while i < list.len()
        invariant
            i <= list@.len(),
            forall|j: int| 0 <= j < i ==> #[trigger] texts(list@)[j] != name@,
        decreases list@.len() - i,
    {
        if same_text(list[i].as_str(), name) {
            assert(texts(list@)[i as int] == name@);
            return true;
        }
        i += 1;
    }
    false
}

/// Whether two lists hold the same strings in the same order.
pub fn same_names(a: &Vec<String>, b: &Vec<String>) -> (r: bool)
    ensures
        r == (texts(a@) == texts(b@)),
{
    if a.len() != b.len() {
        assert(texts(a@).len() != texts(b@).len());
        return false;
    }
    let mut i: usize = 0;
    while i < a.len()
        invariant
            i <= a@.len(),
            a@.len() == b@.len(),
            forall|j: int| 0 <= j < i ==> #[trigger] texts(a@)[j] == texts(b@)[j],
        decreases a@.len() - i,
    {
        if a[i] != b[i] {
            assert(texts(a@)[i as int] != texts(b@)[i as int]);
            return false;
        }
        i += 1;
    }
    assert(texts(a@) == texts(b@));
    true
}

/// Splits at commas.
pub fn split_commas(s: &str) -> (r: Vec<String>)
    ensures
        texts(r@) == comma_pieces(s@),
{
    let chars = chars_of(s);
    let mut r: Vec<String> = Vec::new();
    let mut start: usize = 0;
    let mut i: usize = 0;
    assert(s@.subrange(0, 0) == Seq::<char>::empty());
    assert(comma_pieces(s@.take(0)) == texts(r@).push(s@.subrange(0, 0)));
    while i < chars.len()
        invariant
            start <= i <= chars@.len(),
            chars@ == s@,
            comma_pieces(s@.take(i as int)) == texts(r@).push(s@.subrange(start as int, i as int)),
        decreases chars@.len() - i,
    {
        let ghost before = comma_pieces(s@.take(i as int));
        assert(s@.take(i + 1).drop_last() == s@.take(i as int));
        if chars[i] == ',' {
            let piece = string_of(&chars, start, i);
            r.push(piece);
            start = i + 1;
            assert(texts(r@) == before);
            assert(s@.subrange(start as int, i + 1) == Seq::<char>::empty());
        } else {
            assert(before.drop_last() == texts(r@));
            assert(s@.subrange(start as int, i + 1) == s@.subrange(start as int, i as int).push(
                s@[i as int],
            ));
        }
        i += 1;
        assert(comma_pieces(s@.take(i as int)) == texts(r@).push(
            s@.subrange(start as int, i as int),
        ));
    }
    assert(s@.take(i as int) == s@);
    let ghost done = texts(r@);
    let piece = string_of(&chars, start, i);
    r.push(piece);
    assert(texts(r@) == done.push(piece@));
    r
}

/// Reads a comma list of names: each name without surrounding white space and
/// in ASCII small letters, empty ones left out, sorted, each once.
pub fn read_names(s: &str) -> (r: Vec<String>)
    ensures
        texts(r@) == sorted_names(names_in(s@)),
{
    let pieces = split_commas(s);
    let mut r: Vec<String> = Vec::new();
    let ghost normal = |piece: Seq<char>| normalized(piece);
    let ghost named = |name: Seq<char>| name.len() > 0;
    let ghost all = comma_pieces(s@).map_values(normal);
    let mut i: usize = 0;
    proof {
        reveal(Seq::filter);
        assert(all.take(0).filter(named) == Seq::<Seq<char>>::empty());
        assert(texts(r@) == Seq::<Seq<char>>::empty());
    }
    while i < pieces.len()
        invariant
            i <= pieces@.len(),
            texts(pieces@) == comma_pieces(s@),
            normal == (|piece: Seq<char>| normalized(piece)),
            named == (|name: Seq<char>| name.len() > 0),
            all == comma_pieces(s@).map_values(normal),
            texts(r@) == sorted_names(all.take(i as int).filter(named)),
        decreases pieces@.len() - i,
    {
        let name = to_lower(trim(pieces[i].as_str()).as_str());
        proof {
            reveal(Seq::filter);
            assert(texts(pieces@)[i as int] == pieces@[i as int]@);
            assert(all[i as int] == name@);
            assert(all.take(i + 1).drop_last() == all.take(i as int));
            if named(name@) {
                let kept = all.take(i as int).filter(named);
                assert(all.take(i + 1).filter(named) == kept.push(name@));
                assert(kept.push(name@).drop_last() == kept);
            } else {
                assert(all.take(i + 1).filter(named) == all.take(i as int).filter(named));
            }
        }
        if !name.as_str().is_empty() {
            add_name(&mut r, name);
        }
        i += 1;
    }
    assert(all.take(i as int) == all);
    r
}

// ---------------------------------------------------------------------------
// Laws of names
// ---------------------------------------------------------------------------

/// `a` comes before `b` in a dictionary: they agree up to a place where `a`
/// ends or has the smaller character.
pub open spec fn before_in_dictionary(a: Seq<char>, b: Seq<char>) -> bool {
    exists|k: int|
        {
            &&& 0 <= k <= a.len()
            &&& k < b.len()
            &&& #[trigger] a.take(k) == b.take(k)
            &&& k == a.len() || (a[k] as int) < (b[k] as int)
        }
}

/// The order of strings is that of a dictionary.
pub proof fn precedes_is_dictionary_order(a: Seq<char>, b: Seq<char>)
    ensures
        precedes(a, b) <==> before_in_dictionary(a, b),
    decreases a.len(),
{
    if a.len() > 0 && b.len() > 0 && a[0] == b[0] {
        let x = a.skip(1);
        let y = b.skip(1);
        precedes_is_dictionary_order(x, y);
        if before_in_dictionary(x, y) {
            let k = choose|k: int|
                {
                    &&& 0 <= k <= x.len()
                    &&& k < y.len()
                    &&& #[trigger] x.take(k) == y.take(k)
                    &&& k == x.len() || (x[k] as int) < (y[k] as int)
                };
            assert(a.take(k + 1) =~= seq![a[0]] + x.take(k));
            assert(b.take(k + 1) =~= seq![b[0]] + y.take(k));
        }
        if before_in_dictionary(a, b) {
            let k = choose|k: int|
                {
                    &&& 0 <= k <= a.len()
                    &&& k < b.len()
                    &&& #[trigger] a.take(k) == b.take(k)
                    &&& k == a.len() || (a[k] as int) < (b[k] as int)
                };
            assert(k > 0);
            assert(x.take(k - 1) =~= a.take(k).skip(1));
            assert(y.take(k - 1) =~= b.take(k).skip(1));
            assert(x.take(k - 1) == y.take(k - 1));
        }
    } else {
        if precedes(a, b) {
            assert(a.take(0) =~= b.take(0));
        }
        if before_in_dictionary(a, b) {
            let k = choose|k: int|
                {
                    &&& 0 <= k <= a.len()
                    &&& k < b.len()
                    &&& #[trigger] a.take(k) == b.take(k)
                    &&& k == a.len() || (a[k] as int) < (b[k] as int)
                };
            if k > 0 {
                assert(a.take(k)[0] == b.take(k)[0]);
            }
        }
    }
}

/// The place from `i` to `j` lies between two commas or ends of the list, with
/// no comma inside.
pub open spec fn between_commas(list: Seq<char>, i: int, j: int) -> bool {
    &&& 0 <= i <= j <= list.len()
    &&& i == 0 || list[i - 1] == ','
    &&& j == list.len() || list[j] == ','
    &&& forall|k: int| i <= k < j ==> #[trigger] list[k] != ','
}

/// The comma list names `name`: it stands between commas, perhaps with blanks
/// around it and with capital letters, and is not empty.
pub open spec fn lists(list: Seq<char>, name: Seq<char>) -> bool {
    name.len() > 0 && exists|i: int, j: int| #[trigger]
        between_commas(list, i, j) && name == lowered(trimmed(list.subrange(i, j)))
}

/// The last piece runs from its comma to the end; the others are what lies
/// between commas before it.
proof fn pieces_lie_between(s: Seq<char>) -> (start: int)
    ensures
        comma_pieces(s).len() > 0,
        between_commas(s, start, s.len() as int),
        comma_pieces(s).last() == s.subrange(start, s.len() as int),
        forall|p: Seq<char>| #[trigger]
            comma_pieces(s).drop_last().contains(p) <==> exists|i: int, j: int| #[trigger]
                between_commas(s, i, j) && j < s.len() && p == s.subrange(i, j),
    decreases s.len(),
{
    let pieces = comma_pieces(s);
    if s.len() == 0 {
        assert(pieces.drop_last() =~= Seq::empty());
        assert(s.subrange(0, 0) =~= Seq::empty());
        assert(pieces.last() == s.subrange(0, 0));
        assert(between_commas(s, 0, 0));
        0
    } else {
        let t = s.drop_last();
        let n = t.len() as int;
        let before = comma_pieces(t);
        let start = pieces_lie_between(t);
        assert forall|i: int, j: int| j < n implies (#[trigger] between_commas(s, i, j)
            <==> between_commas(t, i, j)) by {
            if between_commas(s, i, j) {
                assert forall|k: int| i <= k < j implies #[trigger] t[k] != ',' by {
                    assert(s[k] != ',');
                }
            }
            if between_commas(t, i, j) {
                assert forall|k: int| i <= k < j implies #[trigger] s[k] != ',' by {
                    assert(t[k] != ',');
                }
            }
        }
        assert forall|i: int, j: int| 0 <= i <= j <= n implies #[trigger] s.subrange(i, j)
            == t.subrange(i, j) by {
            assert(s.subrange(i, j) =~= t.subrange(i, j));
        }
        if s.last() == ',' {
            assert(pieces.drop_last() =~= before);
            assert(s.subrange(n + 1, n + 1) =~= Seq::empty());
            assert(between_commas(s, n + 1, n + 1));
            assert forall|p: Seq<char>| #[trigger]
                pieces.drop_last().contains(p) <==> exists|i: int, j: int| #[trigger]
                    between_commas(s, i, j) && j < s.len() && p == s.subrange(i, j) by {
                if before.contains(p) {
                    let k = before.index_of(p);
                    if k < before.len() - 1 {
                        assert(before.drop_last()[k] == p);
                        assert(before.drop_last().contains(p));
                        let (i, j) = choose|i: int, j: int| #[trigger]
                            between_commas(t, i, j) && j < t.len() && p == t.subrange(i, j);
                        assert(between_commas(s, i, j));
                    } else {
                        assert forall|k: int| start <= k < n implies #[trigger] s[k] != ',' by {
                            assert(t[k] != ',');
                        }
                        assert(between_commas(s, start, n));
                    }
                }
                if exists|i: int, j: int| #[trigger]
                    between_commas(s, i, j) && j < s.len() && p == s.subrange(i, j) {
                    let (i, j) = choose|i: int, j: int| #[trigger]
                        between_commas(s, i, j) && j < s.len() && p == s.subrange(i, j);
                    if j < n {
                        assert(between_commas(t, i, j));
                        assert(before.drop_last().contains(p));
                        let k = before.drop_last().index_of(p);
                        assert(before[k] == p);
                    } else {
                        if i < start {
                            assert(s[start - 1] == t[start - 1]);
                        }
                        if start < i {
                            assert(t[i - 1] == s[i - 1]);
                        }
                        assert(i == start);
                        assert(before[before.len() - 1] == p);
                    }
                }
            }
            n + 1
        } else {
            assert(pieces.drop_last() =~= before.drop_last());
            assert(s.subrange(start, n + 1) =~= t.subrange(start, n).push(s.last()));
            assert forall|k: int| start <= k < n + 1 implies #[trigger] s[k] != ',' by {
                if k < n {
                    assert(t[k] != ',');
                }
            }
            assert forall|p: Seq<char>| #[trigger]
                pieces.drop_last().contains(p) <==> exists|i: int, j: int| #[trigger]
                    between_commas(s, i, j) && j < s.len() && p == s.subrange(i, j) by {
                if before.drop_last().contains(p) {
                    let (i, j) = choose|i: int, j: int| #[trigger]
                        between_commas(t, i, j) && j < t.len() && p == t.subrange(i, j);
                    assert(between_commas(s, i, j));
                }
                if exists|i: int, j: int| #[trigger]
                    between_commas(s, i, j) && j < s.len() && p == s.subrange(i, j) {
                    let (i, j) = choose|i: int, j: int| #[trigger]
                        between_commas(s, i, j) && j < s.len() && p == s.subrange(i, j);
                    assert(j < n);
                    assert(between_commas(t, i, j));
                }
            }
            start
        }
    }
}

/// A text is a piece of a comma list exactly if it lies between commas there.
pub proof fn pieces_are_between_commas(s: Seq<char>, p: Seq<char>)
    ensures
        comma_pieces(s).contains(p) <==> exists|i: int, j: int| #[trigger]
            between_commas(s, i, j) && p == s.subrange(i, j),
{
    let pieces = comma_pieces(s);
    let start = pieces_lie_between(s);
    let n = s.len() as int;
    if pieces.contains(p) {
        let k = pieces.index_of(p);
        if k < pieces.len() - 1 {
            assert(pieces.drop_last()[k] == p);
            assert(pieces.drop_last().contains(p));
        } else {
            assert(between_commas(s, start, n));
        }
    }
    if exists|i: int, j: int| #[trigger] between_commas(s, i, j) && p == s.subrange(i, j) {
        let (i, j) = choose|i: int, j: int| #[trigger]
            between_commas(s, i, j) && p == s.subrange(i, j);
        if j < n {
            assert(pieces.drop_last().contains(p));
            let k = pieces.drop_last().index_of(p);
            assert(pieces[k] == p);
        } else {
            if i < start {
                assert(s[start - 1] == ',');
            }
            if start < i {
                assert(s[i - 1] == ',');
            }
            assert(pieces[pieces.len() - 1] == p);
        }
    }
}

/// The sorted names of a comma list are those that it names.
pub proof fn sorted_names_are_listed(s: Seq<char>, name: Seq<char>)
    ensures
        ascending(sorted_names(names_in(s))),
        sorted_names(names_in(s)).contains(name) <==> lists(s, name),
{
    let pieces = comma_pieces(s);
    let all = pieces.map_values(|piece: Seq<char>| normalized(piece));
    let named = |name: Seq<char>| name.len() > 0;
    sorted_names_sorts(names_in(s));
    if names_in(s).contains(name) {
        let k = names_in(s).index_of(name);
        all.lemma_filter_pred(named, k);
        all.lemma_filter_contains_rev(named, name);
        let i = all.index_of(name);
        assert(pieces.contains(pieces[i]));
        pieces_are_between_commas(s, pieces[i]);
        let (a, b) = choose|a: int, b: int| #[trigger]
            between_commas(s, a, b) && pieces[i] == s.subrange(a, b);
        assert(between_commas(s, a, b) && name == lowered(trimmed(s.subrange(a, b))));
    }
    if lists(s, name) {
        let (a, b) = choose|a: int, b: int| #[trigger]
            between_commas(s, a, b) && name == lowered(trimmed(s.subrange(a, b)));
        pieces_are_between_commas(s, s.subrange(a, b));
        let i = pieces.index_of(s.subrange(a, b));
        assert(all[i] == name);
        all.lemma_filter_contains(named, i);
    }
}

/// Reading a comma list gives the names that stand between its commas, without
/// blanks around them and in small letters: all of them, no others, each once
/// and in the order of a dictionary.
pub proof fn read_names_reads_the_list(s: &str, r: Vec<String>)
    requires
        call_ensures(read_names, (s,), r),
    ensures
        forall|name: Seq<char>| #[trigger]
            lists(s@, name) <==> exists|k: int| 0 <= k < r@.len() && (#[trigger] r@[k])@ == name,
        forall|j: int, k: int| #![trigger r@[j], r@[k]]
            0 <= j < k < r@.len() ==> before_in_dictionary(r@[j]@, r@[k]@),
{
    let names = texts(r@);
    assert forall|name: Seq<char>| #[trigger] lists(s@, name) <==> exists|k: int|
        0 <= k < r@.len() && (#[trigger] r@[k])@ == name by {
        sorted_names_are_listed(s@, name);
        if lists(s@, name) {
            let k = names.index_of(name);
            assert(r@[k]@ == name);
        }
        if exists|k: int| 0 <= k < r@.len() && (#[trigger] r@[k])@ == name {
            let k = choose|k: int| 0 <= k < r@.len() && (#[trigger] r@[k])@ == name;
            assert(names[k] == name);
        }
    }
    assert forall|j: int, k: int| #![trigger r@[j], r@[k]]
        0 <= j < k < r@.len() implies before_in_dictionary(r@[j]@, r@[k]@) by {
        sorted_names_are_listed(s@, names[j]);
        assert(precedes(names[j], names[k]));
        precedes_is_dictionary_order(names[j], names[k]);
    }
}

} // verus!
