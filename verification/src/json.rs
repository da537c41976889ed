//! JSON as the hub writes and reads it: compact text with the members of an
//! object in the order of their names.

use crate::names::{
    ascending, precedes, precedes_irreflexive, precedes_total, precedes_transitive, texts,
};
use crate::token::hex_digit;
use vstd::prelude::*;

verus! {

// ---------------------------------------------------------------------------
// Text of values
// ---------------------------------------------------------------------------

/// What stands for `c` inside a JSON string.
pub open spec fn escaped(c: char) -> Seq<char> {
    if c == '"' || c == '\\' {
        seq!['\\', c]
    } else if c == '\u{8}' {
        seq!['\\', 'b']
    } else if c == '\t' {
        seq!['\\', 't']
    } else if c == '\n' {
        seq!['\\', 'n']
    } else if c == '\u{c}' {
        seq!['\\', 'f']
    } else if c == '\r' {
        seq!['\\', 'r']
    } else if (c as u32) < 0x20 {
        seq!['\\', 'u', '0', '0', hex_digit(c as int / 16), hex_digit(c as int % 16)]
    } else {
        seq![c]
    }
}

/// Every character of `s` as it stands inside a JSON string.
pub open spec fn escaped_text(s: Seq<char>) -> Seq<char>
    decreases s.len(),
{
    if s.len() == 0 {
        Seq::empty()
    } else {
        escaped(s[0]) + escaped_text(s.skip(1))
    }
}

/// `s` as a JSON string, quotes included.
pub open spec fn string_text(s: Seq<char>) -> Seq<char> {
    seq!['"'] + escaped_text(s) + seq!['"']
}

/// The texts of JSON strings.
pub open spec fn string_texts(list: Seq<Seq<char>>) -> Seq<Seq<char>> {
    list.map_values(|s: Seq<char>| string_text(s))
}

/// `n` in decimal digits, without leading zeros.
pub open spec fn decimal(n: nat) -> Seq<char>
    decreases n,
{
    if n < 10 {
        seq![hex_digit(n as int)]
    } else {
        decimal(n / 10).push(hex_digit(n as int % 10))
    }
}

/// `items` with commas between them.
pub open spec fn joined(items: Seq<Seq<char>>) -> Seq<char>
    decreases items.len(),
{
    if items.len() == 0 {
        Seq::empty()
    } else if items.len() == 1 {
        items[0]
    } else {
        items[0] + seq![','] + joined(items.skip(1))
    }
}

/// The JSON array of values whose texts are `items`.
pub open spec fn array_text(items: Seq<Seq<char>>) -> Seq<char> {
    seq!['['] + joined(items) + seq![']']
}

/// The JSON object of members given by name and text of value.
pub open spec fn object_text(members: Seq<(Seq<char>, Seq<char>)>) -> Seq<char> {
    seq!['{'] + joined(
        members.map_values(|m: (Seq<char>, Seq<char>)| string_text(m.0) + seq![':'] + m.1),
    ) + seq!['}']
}

/// `n` in decimal digits, with a sign where it is negative.
pub open spec fn integer_text(n: int) -> Seq<char> {
    if n < 0 {
        seq!['-'] + decimal((-n) as nat)
    } else {
        decimal(n as nat)
    }
}

// ---------------------------------------------------------------------------
// What a document says
// ---------------------------------------------------------------------------

/// What a JSON value is. The members of an object stand in the order of their
/// names; numbers that are not whole are all taken as one.
pub enum Json {
    Null,
    Bool(bool),
    Number(int),
    Fraction,
    Text(Seq<char>),
    List(Seq<Json>),
    Object(Seq<(Seq<char>, Json)>),
}

/// The compact text of a value without fractions.
pub open spec fn written(value: Json) -> Seq<char>
    decreases value,
{
    match value {
        Json::Null => "null"@,
        Json::Bool(true) => "true"@,
        Json::Bool(false) => "false"@,
        Json::Number(n) => integer_text(n),
        Json::Fraction => arbitrary(),
        Json::Text(s) => string_text(s),
        Json::List(items) => array_text(item_texts(items)),
        Json::Object(members) => object_text(member_texts(members)),
    }
}

/// The text of each value.
pub open spec fn item_texts(items: Seq<Json>) -> Seq<Seq<char>>
    decreases items,
{
    Seq::new(
        items.len(),
        |i: int|
            if 0 <= i < items.len() {
                written(items[i])
            } else {
                Seq::empty()
            },
    )
}

/// The text of each member, by name.
pub open spec fn member_texts(members: Seq<(Seq<char>, Json)>) -> Seq<(Seq<char>, Seq<char>)>
    decreases members,
{
    Seq::new(
        members.len(),
        |i: int|
            if 0 <= i < members.len() {
                (members[i].0, written(members[i].1))
            } else {
                (Seq::empty(), Seq::empty())
            },
    )
}

/// The value holds no fraction and nests at most `depth` deep.
pub open spec fn whole(value: Json, depth: nat) -> bool
    decreases depth,
{
    match value {
        Json::Fraction => false,
        Json::List(items) => depth > 0 && forall|i: int|
            0 <= i < items.len() ==> whole(#[trigger] items[i], (depth - 1) as nat),
        Json::Object(members) => depth > 0 && forall|i: int|
            0 <= i < members.len() ==> whole((#[trigger] members[i]).1, (depth - 1) as nat),
        _ => true,
    }
}

/// No name in the value begins with a dollar sign.
pub open spec fn plain(value: Json) -> bool
    decreases value,
{
    match value {
        Json::List(items) => forall|i: int|
            0 <= i < items.len() ==> plain(#[trigger] items[i]),
        Json::Object(members) => forall|i: int|
            0 <= i < members.len() ==> plain_name((#[trigger] members[i]).0) && plain(
                members[i].1,
            ),
        _ => true,
    }
}

/// The name does not begin with a dollar sign.
pub open spec fn plain_name(name: Seq<char>) -> bool {
    !(name.len() > 0 && name[0] == '$')
}

/// The member of this name.
pub open spec fn find(members: Seq<(Seq<char>, Json)>, name: Seq<char>) -> Option<Json>
    decreases members.len(),
{
    if members.len() == 0 {
        None
    } else if members[0].0 == name {
        Some(members[0].1)
    } else {
        find(members.skip(1), name)
    }
}

/// The string at the end of the path of member names `path` in a value; `None`
/// where a name on the path is missing, or what stands there is no string.
pub open spec fn text_at(value: Json, path: Seq<Seq<char>>) -> Option<Seq<char>>
    decreases path.len(),
{
    if path.len() == 0 {
        match value {
            Json::Text(s) => Some(s),
            _ => None,
        }
    } else {
        match value {
            Json::Object(members) => match find(members, path[0]) {
                Some(inner) => text_at(inner, path.skip(1)),
                None => None,
            },
            _ => None,
        }
    }
}

/// The string at the end of a path in the JSON document `text`; `None` also
/// where `text` is no JSON.
pub open spec fn json_text_at(text: Seq<char>, path: Seq<Seq<char>>) -> Option<Seq<char>> {
    match json_of(text) {
        Some(value) => text_at(value, path),
        None => None,
    }
}

// ---------------------------------------------------------------------------
// Values to write
// ---------------------------------------------------------------------------

/// A JSON value. The members of an object may stand in any order.
#[derive(Debug)]
pub enum Document {
    Null,
    Bool(bool),
    Natural(u64),
    Integer(i64),
    Text(String),
    List(Vec<Document>),
    Object(Vec<Member>),
}

/// A member of an object.
#[derive(Debug)]
pub struct Member {
    pub name: String,
    pub value: Document,
}

/// The names of members.
pub open spec fn member_names(members: Seq<(Seq<char>, Json)>) -> Seq<Seq<char>> {
    members.map_values(|m: (Seq<char>, Json)| m.0)
}

/// A member put in its place among members in the order of their names.
pub open spec fn placed(
    members: Seq<(Seq<char>, Json)>,
    member: (Seq<char>, Json),
) -> Seq<(Seq<char>, Json)>
    decreases members.len(),
{
    if members.len() == 0 {
        seq![member]
    } else if precedes(member.0, members[0].0) {
        seq![member] + members
    } else {
        seq![members[0]] + placed(members.skip(1), member)
    }
}

/// Members in the order of their names.
pub open spec fn ordered(members: Seq<(Seq<char>, Json)>) -> Seq<(Seq<char>, Json)>
    decreases members.len(),
{
    if members.len() == 0 {
        members
    } else {
        placed(ordered(members.drop_last()), members.last())
    }
}

/// What a value is.
pub open spec fn meaning(value: Document) -> Json
    decreases value,
{
    match value {
        Document::Null => Json::Null,
        Document::Bool(b) => Json::Bool(b),
        Document::Natural(n) => Json::Number(n as int),
        Document::Integer(n) => Json::Number(n as int),
        Document::Text(s) => Json::Text(s@),
        Document::List(items) => Json::List(item_meanings(items@)),
        Document::Object(members) => Json::Object(ordered(member_meanings(members@))),
    }
}

/// What each value is.
pub open spec fn item_meanings(items: Seq<Document>) -> Seq<Json>
    decreases items,
{
    Seq::new(
        items.len(),
        |i: int|
            if 0 <= i < items.len() {
                meaning(items[i])
            } else {
                Json::Null
            },
    )
}

/// What each member is, by name.
pub open spec fn member_meanings(members: Seq<Member>) -> Seq<(Seq<char>, Json)>
    decreases members,
{
    Seq::new(
        members.len(),
        |i: int|
            if 0 <= i < members.len() {
                (members[i].name@, meaning(members[i].value))
            } else {
                (Seq::empty(), Json::Null)
            },
    )
}

/// In every object of the value the names differ, and it nests at most `depth`
/// deep.
pub open spec fn valid(value: Document, depth: nat) -> bool
    decreases depth,
{
    match value {
        Document::List(items) => depth > 0 && forall|i: int|
            0 <= i < items@.len() ==> valid(#[trigger] items@[i], (depth - 1) as nat),
        Document::Object(members) => {
            &&& depth > 0
            &&& forall|i: int|
                0 <= i < members@.len() ==> valid(
                    (#[trigger] members@[i]).value,
                    (depth - 1) as nat,
                )
            &&& forall|i: int, j: int| #![trigger members@[i], members@[j]]
                0 <= i < j < members@.len() ==> members@[i].name@ != members@[j].name@
        },
        _ => true,
    }
}

// ---------------------------------------------------------------------------
// The order of members
// ---------------------------------------------------------------------------

proof fn placed_holds(
    members: Seq<(Seq<char>, Json)>,
    member: (Seq<char>, Json),
    x: (Seq<char>, Json),
)
    ensures
        placed(members, member).len() == members.len() + 1,
        placed(members, member).contains(x) <==> members.contains(x) || x == member,
    decreases members.len(),
{
    let all = placed(members, member);
    if members.len() == 0 {
        assert(all[0] == member);
    } else if precedes(member.0, members[0].0) {
        assert(all[0] == member);
        if members.contains(x) {
            assert(all[members.index_of(x) + 1] == x);
        }
        if all.contains(x) && x != member {
            assert(members[all.index_of(x) - 1] == x);
        }
    } else {
        let rest = members.skip(1);
        let tail = placed(rest, member);
        placed_holds(rest, member, x);
        assert(all[0] == members[0]);
        if members.contains(x) && x != members[0] {
            assert(rest[members.index_of(x) - 1] == x);
        }
        if rest.contains(x) {
            assert(members[rest.index_of(x) + 1] == x);
        }
        if tail.contains(x) {
            assert(all[tail.index_of(x) + 1] == x);
        }
        if all.contains(x) && x != members[0] {
            assert(tail[all.index_of(x) - 1] == x);
        }
    }
}

/// Put in order, members are the same members.
pub proof fn ordered_holds(members: Seq<(Seq<char>, Json)>, x: (Seq<char>, Json))
    ensures
        ordered(members).len() == members.len(),
        ordered(members).contains(x) <==> members.contains(x),
    decreases members.len(),
{
    if members.len() > 0 {
        let before = members.drop_last();
        ordered_holds(before, x);
        placed_holds(ordered(before), members.last(), x);
        if before.contains(x) {
            assert(members[before.index_of(x)] == x);
        }
        if members.contains(x) && x != members.last() {
            assert(before[members.index_of(x)] == x);
        }
        assert(members[members.len() - 1] == members.last());
    }
}

proof fn meaning_is_whole(value: Document, depth: nat)
    requires
        valid(value, depth),
    ensures
        whole(meaning(value), depth),
    decreases depth,
{
    match value {
        Document::List(items) => {
            let all = meaning(value)->List_0;
            assert forall|i: int| 0 <= i < all.len() implies whole(
                #[trigger] all[i],
                (depth - 1) as nat,
            ) by {
                meaning_is_whole(items@[i], (depth - 1) as nat);
            }
        },
        Document::Object(members) => {
            let given = member_meanings(members@);
            let all = ordered(given);
            assert forall|i: int| 0 <= i < all.len() implies whole(
                (#[trigger] all[i]).1,
                (depth - 1) as nat,
            ) by {
                ordered_holds(given, all[i]);
                let j = given.index_of(all[i]);
                meaning_is_whole(members@[j].value, (depth - 1) as nat);
            }
        },
        _ => {},
    }
}

proof fn placed_last(members: Seq<(Seq<char>, Json)>, member: (Seq<char>, Json))
    requires
        forall|i: int| 0 <= i < members.len() ==> precedes((#[trigger] members[i]).0, member.0),
    ensures
        placed(members, member) == members.push(member),
    decreases members.len(),
{
    if members.len() == 0 {
        assert(members.push(member) =~= seq![member]);
    } else {
        let rest = members.skip(1);
        if precedes(member.0, members[0].0) {
            precedes_transitive(members[0].0, member.0, members[0].0);
            precedes_irreflexive(members[0].0);
        }
        assert forall|i: int| 0 <= i < rest.len() implies precedes(
            (#[trigger] rest[i]).0,
            member.0,
        ) by {
            assert(rest[i] == members[i + 1]);
        }
        placed_last(rest, member);
        assert(seq![members[0]] + rest.push(member) =~= members.push(member));
    }
}

/// Members that are in order stay as they are.
pub proof fn ordered_stays(members: Seq<(Seq<char>, Json)>)
    requires
        ascending(member_names(members)),
    ensures
        ordered(members) == members,
    decreases members.len(),
{
    if members.len() > 0 {
        let names = member_names(members);
        let before = members.drop_last();
        assert(member_names(before) =~= names.drop_last());
        ordered_stays(before);
        assert forall|i: int| 0 <= i < before.len() implies precedes(
            (#[trigger] before[i]).0,
            members.last().0,
        ) by {
            assert(precedes(names[i], names[members.len() - 1]));
        }
        placed_last(before, members.last());
        assert(before.push(members.last()) =~= members);
    }
}

proof fn placed_ascends(members: Seq<(Seq<char>, Json)>, member: (Seq<char>, Json))
    requires
        ascending(member_names(members)),
        forall|i: int| 0 <= i < members.len() ==> (#[trigger] members[i]).0 != member.0,
    ensures
        ascending(member_names(placed(members, member))),
    decreases members.len(),
{
    let all = placed(members, member);
    let names = member_names(members);
    if members.len() > 0 {
        let rest = members.skip(1);
        assert(member_names(rest) =~= names.skip(1));
        precedes_total(member.0, members[0].0);
        if precedes(member.0, members[0].0) {
            assert forall|i: int, j: int|
                #![trigger member_names(all)[i], member_names(all)[j]]
                0 <= i < j < all.len() implies precedes(
                member_names(all)[i],
                member_names(all)[j],
            ) by {
                if i > 0 {
                    assert(precedes(names[i - 1], names[j - 1]));
                } else if j > 1 {
                    assert(precedes(names[0], names[j - 1]));
                    precedes_transitive(member.0, names[0], names[j - 1]);
                }
            }
        } else {
            let tail = placed(rest, member);
            assert forall|i: int| 0 <= i < rest.len() implies (#[trigger] rest[i]).0
                != member.0 by {
                assert(rest[i] == members[i + 1]);
            }
            assert forall|i: int, j: int| #![trigger member_names(rest)[i], member_names(rest)[j]]
                0 <= i < j < rest.len() implies precedes(
                member_names(rest)[i],
                member_names(rest)[j],
            ) by {
                assert(precedes(names[i + 1], names[j + 1]));
            }
            placed_ascends(rest, member);
            assert forall|i: int, j: int|
                #![trigger member_names(all)[i], member_names(all)[j]]
                0 <= i < j < all.len() implies precedes(
                member_names(all)[i],
                member_names(all)[j],
            ) by {
                if i > 0 {
                    assert(precedes(member_names(tail)[i - 1], member_names(tail)[j - 1]));
                } else {
                    let x = tail[j - 1];
                    placed_holds(rest, member, x);
                    if x != member {
                        let k = rest.index_of(x);
                        assert(precedes(names[0], names[k + 1]));
                    }
                }
            }
        }
    }
}

/// Members whose names differ are put in order by their names.
pub proof fn ordered_ascends(members: Seq<(Seq<char>, Json)>)
    requires
        member_names(members).no_duplicates(),
    ensures
        ascending(member_names(ordered(members))),
    decreases members.len(),
{
    if members.len() > 0 {
        let names = member_names(members);
        let before = members.drop_last();
        let sorted = ordered(before);
        assert(member_names(before) =~= names.drop_last());
        ordered_ascends(before);
        assert forall|i: int| 0 <= i < sorted.len() implies (#[trigger] sorted[i]).0
            != members.last().0 by {
            ordered_holds(before, sorted[i]);
            let k = before.index_of(sorted[i]);
            assert(names[k] != names[members.len() - 1]);
        }
        placed_ascends(sorted, members.last());
    }
}

proof fn find_among_distinct(members: Seq<(Seq<char>, Json)>, i: int)
    requires
        member_names(members).no_duplicates(),
        0 <= i < members.len(),
    ensures
        find(members, members[i].0) == Some(members[i].1),
    decreases members.len(),
{
    let names = member_names(members);
    if i > 0 {
        let rest = members.skip(1);
        assert(names[0] != names[i]);
        assert(member_names(rest) =~= names.skip(1));
        assert forall|a: int, b: int|
            0 <= a < rest.len() && 0 <= b < rest.len() && a != b implies member_names(rest)[a]
            != member_names(rest)[b] by {
            assert(names[a + 1] != names[b + 1]);
        }
        find_among_distinct(rest, i - 1);
    }
}

/// In whatever order members are given, each is found under its name.
pub proof fn members_are_found(members: Seq<(Seq<char>, Json)>, i: int)
    requires
        member_names(members).no_duplicates(),
        0 <= i < members.len(),
    ensures
        find(ordered(members), members[i].0) == Some(members[i].1),
{
    let all = ordered(members);
    let names = member_names(all);
    ordered_ascends(members);
    ordered_holds(members, members[i]);
    assert forall|a: int, b: int|
        0 <= a < all.len() && 0 <= b < all.len() && a != b implies names[a] != names[b] by {
        if names[a] == names[b] {
            precedes_irreflexive(names[a]);
            if a < b {
                assert(precedes(names[a], names[b]));
            } else {
                assert(precedes(names[b], names[a]));
            }
        }
    }
    find_among_distinct(all, all.index_of(members[i]));
}

// ---------------------------------------------------------------------------
// Writing and reading
// ---------------------------------------------------------------------------

/// How deep a document may nest that is to be read again.
pub const MAX_DEPTH: usize = 127;

/// `serde_json::Value`, a JSON value in memory.
#[verifier::external_type_specification]
#[verifier::external_body]
pub struct ExValue(serde_json::Value);

/// What a `serde_json::Value` holds.
pub uninterp spec fn value_json(value: serde_json::Value) -> Json;

/// What `serde_json::from_str` makes of a text: the value that it is the JSON
/// of, if it is any.
pub uninterp spec fn json_of(text: Seq<char>) -> Option<Json>;

/// The variants of `serde_json::Value` hold what they are made of. An object is
/// a `BTreeMap`, which keeps its members in the order of their names.
#[verifier::external_body]
fn to_serde(value: &Document) -> (r: serde_json::Value)
    requires
        valid(*value, MAX_DEPTH as nat),
    ensures
        value_json(r) == meaning(*value),
{
    match value {
        Document::Null => serde_json::Value::Null,
        Document::Bool(b) => serde_json::Value::from(*b),
        Document::Natural(n) => serde_json::Value::from(*n),
        Document::Integer(n) => serde_json::Value::from(*n),
        Document::Text(s) => serde_json::Value::from(s.as_str()),
        Document::List(items) => serde_json::Value::Array(items.iter().map(to_serde).collect()),
        Document::Object(members) => serde_json::Value::Object(
            members.iter().map(|m| (m.name.clone(), to_serde(&m.value))).collect(),
        ),
    }
}

/// `to_string` of a `serde_json::Value` writes it compactly, escapes as
/// `escaped` says, and keeps the order of members. `serde_json::from_str` reads
/// the same value again, unless it begins an object with a name that the crate
/// keeps for itself; all of those begin with a dollar sign. Documents that nest
/// deeper than `MAX_DEPTH` are not read, and nothing is said of the digits of
/// fractions.
#[verifier::external_body]
fn serde_text(value: &serde_json::Value) -> (r: String)
    requires
        whole(value_json(*value), MAX_DEPTH as nat),
    ensures
        r@ == written(value_json(*value)),
        plain(value_json(*value)) ==> json_of(r@) == Some(value_json(*value)),
{
    value.to_string()
}

/// Writes a value as compact JSON with the members of objects in the order of
/// their names. What is written is read again as it is, unless a name begins
/// with a dollar sign.
pub fn write_document(value: &Document) -> (r: String)
    requires
        valid(*value, MAX_DEPTH as nat),
    ensures
        r@ == written(meaning(*value)),
        plain(meaning(*value)) ==> json_of(r@) == Some(meaning(*value)),
{
    proof {
        meaning_is_whole(*value, MAX_DEPTH as nat);
    }
    serde_text(&to_serde(value))
}

/// `serde_json::from_str` reads a text that is JSON into a value and refuses
/// any other. Which texts are JSON, and of what, is left to the name `json_of`.
#[verifier::external_body]
fn read_value(text: &str) -> (r: Option<serde_json::Value>)
    ensures
        r is Some <==> json_of(text@) is Some,
        r matches Some(value) ==> json_of(text@) == Some(value_json(value)),
{
    serde_json::from_str(text).ok()
}

/// `serde_json::Value::get` with a string gives the member of that name, if the
/// value is an object that has one.
#[verifier::external_body]
fn member<'a>(value: &'a serde_json::Value, name: &str) -> (r: Option<&'a serde_json::Value>)
    ensures
        r is Some <==> (value_json(*value) matches Json::Object(members) && find(
            members,
            name@,
        ) is Some),
        r matches Some(inner) ==> find(value_json(*value)->Object_0, name@) == Some(
            value_json(*inner),
        ),
{
    value.get(name)
}

/// `serde_json::Value::as_str` gives the string that a value is, if it is one.
pub assume_specification[ serde_json::Value::as_str ](value: &serde_json::Value) -> (r: Option<
    &str,
>)
    ensures
        r is Some <==> value_json(*value) is Text,
        r matches Some(s) ==> value_json(*value) == Json::Text(s@),
;

/// The path of names behind a list of `&str`.
pub open spec fn path_of(path: Seq<&str>) -> Seq<Seq<char>> {
    path.map_values(|name: &str| name@)
}

/// Reads the string at the end of a path in a JSON document.
pub fn read_text_at(text: &str, path: &Vec<&str>) -> (r: Option<String>)
    ensures
        r is Some <==> json_text_at(text@, path_of(path@)) is Some,
        r matches Some(s) ==> json_text_at(text@, path_of(path@)) == Some(s@),
{
    let document = match read_value(text) {
        Some(value) => value,
        None => {
            return None;
        },
    };
    let ghost names = path_of(path@);
    let mut value: &serde_json::Value = &document;
    let mut i: usize = 0;
    assert(names.skip(0) =~= names);
    while i < path.len()
        invariant
            i <= path@.len(),
            names == path_of(path@),
            json_text_at(text@, names) == text_at(value_json(*value), names.skip(i as int)),
        decreases path@.len() - i,
    {
        assert(names.skip(i as int)[0] == path@[i as int]@);
        assert(names.skip(i as int).skip(1) =~= names.skip(i + 1));
        value = match member(value, path[i]) {
            Some(inner) => inner,
            None => {
                return None;
            },
        };
        i += 1;
    }
    match value.as_str() {
        Some(s) => Some(s.to_owned()),
        None => None,
    }
}

/// The text of two strings, a list of strings and two strings as an array.
pub open spec fn stamp_text(
    id: Seq<char>,
    secret: Seq<char>,
    users: Seq<Seq<char>>,
    revision: Seq<char>,
    site: Seq<char>,
) -> Seq<char> {
    array_text(
        seq![
            string_text(id),
            string_text(secret),
            array_text(string_texts(users)),
            string_text(revision),
            string_text(site),
        ],
    )
}

/// `serde_json::to_string` of a tuple writes a compact array of its parts; of
/// strings and lists of strings it does not fail.
#[verifier::external_body]
pub(crate) fn write_stamp(
    id: &str,
    secret: &str,
    users: &Vec<String>,
    revision: &str,
    site: &str,
) -> (r: String)
    ensures
        r@ == stamp_text(id@, secret@, texts(users@), revision@, site@),
{
    serde_json::to_string(&(id, secret, users, revision, site)).expect("strings are JSON")
}

// ---------------------------------------------------------------------------
// Different values have different texts
// ---------------------------------------------------------------------------

proof fn cut<A>(a: Seq<A>, b: Seq<A>, x: Seq<A>, y: Seq<A>)
    requires
        a + x == b + y,
        a.len() == b.len(),
    ensures
        a == b,
        x == y,
{
    let l = a + x;
    let r = b + y;
    assert(a == l.take(a.len() as int));
    assert(b == r.take(b.len() as int));
    assert(x == l.skip(a.len() as int));
    assert(y == r.skip(b.len() as int));
}

proof fn hex_digit_injective(m: int, n: int)
    requires
        0 <= m < 16,
        0 <= n < 16,
        hex_digit(m) == hex_digit(n),
    ensures
        m == n,
{
}

proof fn escaped_decides(c: char, d: char, x: Seq<char>, y: Seq<char>)
    requires
        escaped(c) + x == escaped(d) + y,
    ensures
        c == d,
        x == y,
{
    let l = escaped(c) + x;
    let r = escaped(d) + y;
    assert(l[0] == escaped(c)[0]);
    assert(r[0] == escaped(d)[0]);
    if l[0] == '\\' {
        assert(l[1] == escaped(c)[1]);
        assert(r[1] == escaped(d)[1]);
        if l[1] == 'u' {
            assert(l[4] == escaped(c)[4] && l[5] == escaped(c)[5]);
            assert(r[4] == escaped(d)[4] && r[5] == escaped(d)[5]);
            hex_digit_injective(c as int / 16, d as int / 16);
            hex_digit_injective(c as int % 16, d as int % 16);
        }
    }
    assert(c == d);
    cut(escaped(c), escaped(d), x, y);
}

proof fn escaped_text_decides(a: Seq<char>, b: Seq<char>, x: Seq<char>, y: Seq<char>)
    requires
        escaped_text(a) + seq!['"'] + x == escaped_text(b) + seq!['"'] + y,
    ensures
        a == b,
        x == y,
    decreases a.len(),
{
    let q = seq!['"'];
    let l = escaped_text(a) + q + x;
    let r = escaped_text(b) + q + y;
    if a.len() == 0 {
        assert(l[0] == '"');
        if b.len() > 0 {
            assert(r[0] == escaped(b[0])[0]);
        }
        assert(a == b);
        cut(q, q, x, y);
    } else {
        assert(l[0] == escaped(a[0])[0]);
        if b.len() == 0 {
            assert(r[0] == '"');
        }
        let at = a.skip(1);
        let bt = b.skip(1);
        assert(l == escaped(a[0]) + (escaped_text(at) + q + x));
        assert(r == escaped(b[0]) + (escaped_text(bt) + q + y));
        escaped_decides(
            a[0],
            b[0],
            escaped_text(at) + q + x,
            escaped_text(bt) + q + y,
        );
        escaped_text_decides(at, bt, x, y);
        assert(a == seq![a[0]] + at);
        assert(b == seq![b[0]] + bt);
    }
}

/// A JSON string tells where it ends and what it says: if two texts that begin
/// with a JSON string are equal, so are the strings and what follows them.
pub proof fn string_text_decides(a: Seq<char>, b: Seq<char>, x: Seq<char>, y: Seq<char>)
    requires
        string_text(a) + x == string_text(b) + y,
    ensures
        a == b,
        x == y,
{
    let q = seq!['"'];
    assert(string_text(a) + x == q + (escaped_text(a) + q + x));
    assert(string_text(b) + y == q + (escaped_text(b) + q + y));
    cut(q, q, escaped_text(a) + q + x, escaped_text(b) + q + y);
    escaped_text_decides(a, b, x, y);
}

proof fn joined_first(items: Seq<Seq<char>>)
    requires
        items.len() > 0,
    ensures
        joined(items) == items[0] + (if items.len() == 1 {
            Seq::<char>::empty()
        } else {
            seq![','] + joined(items.skip(1))
        }),
{
    if items.len() == 1 {
        assert(items[0] + Seq::<char>::empty() == items[0]);
    } else {
        assert(joined(items) == items[0] + (seq![','] + joined(items.skip(1))));
    }
}

proof fn joined_strings_decide(a: Seq<Seq<char>>, b: Seq<Seq<char>>, x: Seq<char>, y: Seq<char>)
    requires
        joined(string_texts(a)) + seq![']'] + x == joined(string_texts(b)) + seq![']'] + y,
    ensures
        a == b,
        x == y,
    decreases a.len(),
{
    let e = seq![']'];
    let l = joined(string_texts(a)) + e + x;
    let r = joined(string_texts(b)) + e + y;
    if a.len() > 0 {
        joined_first(string_texts(a));
        assert(l[0] == '"');
    } else {
        assert(l[0] == ']');
    }
    if b.len() > 0 {
        joined_first(string_texts(b));
        assert(r[0] == '"');
    } else {
        assert(r[0] == ']');
    }
    if a.len() == 0 {
        assert(a == b);
        cut(e, e, x, y);
    } else {
        let at = a.skip(1);
        let bt = b.skip(1);
        assert(string_texts(a).skip(1) == string_texts(at));
        assert(string_texts(b).skip(1) == string_texts(bt));
        let more_a = if a.len() == 1 {
            Seq::<char>::empty()
        } else {
            seq![','] + joined(string_texts(at))
        };
        let more_b = if b.len() == 1 {
            Seq::<char>::empty()
        } else {
            seq![','] + joined(string_texts(bt))
        };
        assert(l == string_text(a[0]) + (more_a + e + x));
        assert(r == string_text(b[0]) + (more_b + e + y));
        string_text_decides(a[0], b[0], more_a + e + x, more_b + e + y);
        let l2 = more_a + e + x;
        let r2 = more_b + e + y;
        if a.len() == 1 {
            assert(l2[0] == ']');
        } else {
            assert(l2[0] == ',');
        }
        if b.len() == 1 {
            assert(r2[0] == ']');
        } else {
            assert(r2[0] == ',');
        }
        if a.len() == 1 {
            assert(l2 == e + x);
            assert(r2 == e + y);
            cut(e, e, x, y);
            assert(at == bt);
        } else {
            assert(l2 == seq![','] + (joined(string_texts(at)) + e + x));
            assert(r2 == seq![','] + (joined(string_texts(bt)) + e + y));
            cut(
                seq![','],
                seq![','],
                joined(string_texts(at)) + e + x,
                joined(string_texts(bt)) + e + y,
            );
            joined_strings_decide(at, bt, x, y);
        }
        assert(a == seq![a[0]] + at);
        assert(b == seq![b[0]] + bt);
    }
}

/// The stamp text cut behind each of its parts.
spec fn stamp_parts(
    id: Seq<char>,
    secret: Seq<char>,
    users: Seq<Seq<char>>,
    revision: Seq<char>,
    site: Seq<char>,
) -> Seq<char> {
    let c = seq![','];
    let from_site = string_text(site) + seq![']'];
    let from_revision = string_text(revision) + (c + from_site);
    let from_users = joined(string_texts(users)) + seq![']'] + (c + from_revision);
    let from_secret = string_text(secret) + (seq![',', '['] + from_users);
    let from_id = string_text(id) + (c + from_secret);
    seq!['['] + from_id
}

proof fn stamp_text_parts(
    id: Seq<char>,
    secret: Seq<char>,
    users: Seq<Seq<char>>,
    revision: Seq<char>,
    site: Seq<char>,
)
    ensures
        stamp_text(id, secret, users, revision, site) == stamp_parts(
            id,
            secret,
            users,
            revision,
            site,
        ),
{
    let c = seq![','];
    let list = array_text(string_texts(users));
    let items = seq![
        string_text(id),
        string_text(secret),
        list,
        string_text(revision),
        string_text(site),
    ];
    let i1 = items.skip(1);
    let i2 = i1.skip(1);
    let i3 = i2.skip(1);
    let i4 = i3.skip(1);
    assert(i4 =~= seq![string_text(site)]);
    assert(joined(i4) == string_text(site));
    assert(joined(i3) == string_text(revision) + c + joined(i4));
    assert(joined(i2) == list + c + joined(i3));
    assert(joined(i1) == string_text(secret) + c + joined(i2));
    assert(joined(items) == string_text(id) + c + joined(i1));
    assert(stamp_text(id, secret, users, revision, site) == array_text(items));
    assert(array_text(items) =~= stamp_parts(id, secret, users, revision, site));
}

/// Two login configurations have the same stamp text only if they agree in
/// every part: client, secret, allowed users, revision and site.
pub proof fn stamp_text_decides(
    id1: Seq<char>,
    secret1: Seq<char>,
    users1: Seq<Seq<char>>,
    revision1: Seq<char>,
    site1: Seq<char>,
    id2: Seq<char>,
    secret2: Seq<char>,
    users2: Seq<Seq<char>>,
    revision2: Seq<char>,
    site2: Seq<char>,
)
    requires
        stamp_text(id1, secret1, users1, revision1, site1) == stamp_text(
            id2,
            secret2,
            users2,
            revision2,
            site2,
        ),
    ensures
        id1 == id2,
        secret1 == secret2,
        users1 == users2,
        revision1 == revision2,
        site1 == site2,
{
    stamp_text_parts(id1, secret1, users1, revision1, site1);
    stamp_text_parts(id2, secret2, users2, revision2, site2);
    let b = seq!['['];
    let c = seq![','];
    let cb = seq![',', '['];
    let e = seq![']'];
    let f1 = string_text(site1) + e;
    let f2 = string_text(site2) + e;
    let d1 = string_text(revision1) + (c + f1);
    let d2 = string_text(revision2) + (c + f2);
    let u1 = joined(string_texts(users1)) + e + (c + d1);
    let u2 = joined(string_texts(users2)) + e + (c + d2);
    let s1 = string_text(secret1) + (cb + u1);
    let s2 = string_text(secret2) + (cb + u2);
    let i1 = string_text(id1) + (c + s1);
    let i2 = string_text(id2) + (c + s2);
    cut(b, b, i1, i2);
    string_text_decides(id1, id2, c + s1, c + s2);
    cut(c, c, s1, s2);
    string_text_decides(secret1, secret2, cb + u1, cb + u2);
    cut(cb, cb, u1, u2);
    joined_strings_decide(users1, users2, c + d1, c + d2);
    cut(c, c, d1, d2);
    string_text_decides(revision1, revision2, c + f1, c + f2);
    cut(c, c, f1, f2);
    string_text_decides(site1, site2, e, e);
}

// ---------------------------------------------------------------------------
// Laws of texts
// ---------------------------------------------------------------------------

/// The number that decimal digits stand for.
pub open spec fn digits_value(digits: Seq<char>) -> int
    decreases digits.len(),
{
    if digits.len() == 0 {
        0
    } else {
        10 * digits_value(digits.drop_last()) + (digits.last() as int - '0' as int)
    }
}

/// A number is written in the digits that stand for it, without leading zeros.
pub proof fn decimal_digits_stand_for_the_number(n: nat)
    ensures
        digits_value(decimal(n)) == n,
        decimal(n).len() > 0,
        forall|i: int| 0 <= i < decimal(n).len() ==> '0' <= #[trigger] decimal(n)[i] <= '9',
        n > 0 ==> decimal(n)[0] != '0',
    decreases n,
{
    let digits = decimal(n);
    if n < 10 {
        reveal_with_fuel(digits_value, 2);
        assert(digits.drop_last() =~= Seq::empty());
        assert(digits.last() == hex_digit(n as int));
    } else {
        decimal_digits_stand_for_the_number(n / 10);
        assert(digits.drop_last() =~= decimal(n / 10));
        assert(digits.last() == hex_digit(n as int % 10));
    }
}

/// Inside a JSON string a quotation mark and a backslash get a backslash before
/// them, control characters are written as their names or numbers, and every
/// other character stands as it is.
pub proof fn characters_are_escaped(c: char)
    ensures
        c == '"' ==> escaped(c) == seq!['\\', '"'],
        c == '\\' ==> escaped(c) == seq!['\\', '\\'],
        c == '\u{8}' ==> escaped(c) == seq!['\\', 'b'],
        c == '\u{9}' ==> escaped(c) == seq!['\\', 't'],
        c == '\u{a}' ==> escaped(c) == seq!['\\', 'n'],
        c == '\u{c}' ==> escaped(c) == seq!['\\', 'f'],
        c == '\u{d}' ==> escaped(c) == seq!['\\', 'r'],
        (c as int) < 0x20 && c != '\u{8}' && c != '\u{9}' && c != '\u{a}' && c != '\u{c}' && c
            != '\u{d}' ==> escaped(c).len() == 6 && escaped(c).take(4) == seq![
            '\\',
            'u',
            '0',
            '0',
        ] && crate::token::spells(escaped(c).skip(4), seq![c as u8]),
        (c as int) >= 0x20 && c != '"' && c != '\\' ==> escaped(c) == seq![c],
{
    if (c as int) < 0x20 && c != '\u{8}' && c != '\u{9}' && c != '\u{a}' && c != '\u{c}' && c
        != '\u{d}' {
        let n = c as int;
        let text = escaped(c);
        assert(text =~= seq!['\\', 'u', '0', '0', hex_digit(n / 16), hex_digit(n % 16)]);
        assert(text.take(4) =~= seq!['\\', 'u', '0', '0']);
        assert(text.skip(4) =~= seq![hex_digit(n / 16), hex_digit(n % 16)]);
    }
}

/// A JSON string is its characters, one after the other, between quotation
/// marks.
pub proof fn string_is_its_characters(a: Seq<char>, c: char)
    ensures
        string_text(Seq::empty()) == seq!['"', '"'],
        string_text(a.push(c)) == string_text(a).drop_last() + escaped(c) + seq!['"'],
    decreases a.len(),
{
    let q = seq!['"'];
    assert(string_text(Seq::empty()) =~= seq!['"', '"']);
    escaped_text_push(a, c);
    assert(string_text(a).drop_last() =~= q + escaped_text(a));
    assert(string_text(a.push(c)) =~= q + escaped_text(a) + escaped(c) + q);
}

proof fn escaped_text_push(a: Seq<char>, c: char)
    ensures
        escaped_text(a.push(c)) == escaped_text(a) + escaped(c),
    decreases a.len(),
{
    let all = a.push(c);
    if a.len() == 0 {
        assert(all.skip(1) =~= a);
        assert(escaped_text(a) =~= Seq::empty());
        assert(escaped_text(all) == escaped(c) + escaped_text(a));
        assert(escaped_text(all) =~= escaped_text(a) + escaped(c));
    } else {
        escaped_text_push(a.skip(1), c);
        assert(all.skip(1) =~= a.skip(1).push(c));
        assert(escaped_text(all) =~= escaped_text(a) + escaped(c));
    }
}

/// The text behind a stamp is a JSON array of client, secret, the array of the
/// users, revision and site, in this order and with nothing between but commas.
pub proof fn stamp_text_is_an_array(
    id: Seq<char>,
    secret: Seq<char>,
    users: Seq<Seq<char>>,
    revision: Seq<char>,
    site: Seq<char>,
)
    ensures
        ({
            let last = string_text(revision) + (seq![','] + (string_text(site) + seq![']']));
            let list = joined(string_texts(users)) + seq![']'] + (seq![','] + last);
            stamp_text(id, secret, users, revision, site) == seq!['['] + (string_text(id) + (seq![
                ',',
            ] + (string_text(secret) + (seq![',', '['] + list))))
        }),
{
    stamp_text_parts(id, secret, users, revision, site);
}

/// Items of a list stand one after the other with commas between.
pub proof fn items_are_joined(first: Seq<char>, rest: Seq<Seq<char>>)
    ensures
        joined(Seq::empty()) == Seq::<char>::empty(),
        joined(seq![first]) == first,
        rest.len() > 0 ==> joined(seq![first] + rest) == first + (seq![','] + joined(rest)),
        string_texts(seq![first] + rest) == seq![string_text(first)] + string_texts(rest),
{
    let all = seq![first] + rest;
    if rest.len() > 0 {
        joined_first(all);
        assert(all.skip(1) =~= rest);
    }
    assert(string_texts(all) =~= seq![string_text(first)] + string_texts(rest));
}

} // verus!
