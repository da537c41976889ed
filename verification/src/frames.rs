//! The frames that travel between the hub, its agents and the browsers.

use crate::json::{
    decimal, find, json_of, json_text_at, meaning, member_meanings, member_names, member_texts,
    members_are_found, object_text, ordered_stays, path_of, plain, plain_name, read_text_at,
    string_text, text_at, valid, write_document, written, Document, Json, Member, MAX_DEPTH,
};
use crate::names::{ascending, precedes, precedes_irreflexive};
use vstd::prelude::*;

verus! {

pub const OPEN: &'static str = "terminal.open";

pub const INPUT: &'static str = "terminal.input";

pub const RESIZE: &'static str = "terminal.resize";

pub const CLOSE: &'static str = "terminal.close";

pub const EXIT: &'static str = "terminal.exit";

pub const ERROR: &'static str = "terminal.error";

// ---------------------------------------------------------------------------
// What frames say
// ---------------------------------------------------------------------------

/// A JSON-RPC notification of `method` with parameters whose text is `params`.
pub open spec fn rpc_text(method: Seq<char>, params: Seq<char>) -> Seq<char> {
    object_text(
        seq![
            ("jsonrpc"@, string_text("2.0"@)),
            ("method"@, string_text(method)),
            ("params"@, params),
        ],
    )
}

/// What such a notification says.
pub open spec fn rpc_json(method: Seq<char>, params: Json) -> Json {
    Json::Object(
        seq![
            ("jsonrpc"@, Json::Text("2.0"@)),
            ("method"@, Json::Text(method)),
            ("params"@, params),
        ],
    )
}

/// Asks an agent to open a terminal.
pub open spec fn open_text(id: Seq<char>, cols: nat, rows: nat) -> Seq<char> {
    rpc_text(
        OPEN@,
        object_text(
            seq![
                ("cols"@, decimal(cols)),
                ("rows"@, decimal(rows)),
                ("terminal_id"@, string_text(id)),
            ],
        ),
    )
}

/// Gives an agent input for a terminal.
pub open spec fn input_text(id: Seq<char>, data: Seq<char>) -> Seq<char> {
    rpc_text(
        INPUT@,
        object_text(seq![("data"@, string_text(data)), ("terminal_id"@, string_text(id))]),
    )
}

/// Tells an agent the new size of a terminal.
pub open spec fn resize_text(id: Seq<char>, cols: nat, rows: nat) -> Seq<char> {
    rpc_text(
        RESIZE@,
        object_text(
            seq![
                ("cols"@, decimal(cols)),
                ("rows"@, decimal(rows)),
                ("terminal_id"@, string_text(id)),
            ],
        ),
    )
}

/// Asks an agent to close a terminal.
pub open spec fn close_text(id: Seq<char>) -> Seq<char> {
    rpc_text(CLOSE@, object_text(seq![("terminal_id"@, string_text(id))]))
}

/// Tells a browser that its terminal failed.
pub open spec fn error_text(id: Seq<char>, message: Seq<char>) -> Seq<char> {
    rpc_text(
        ERROR@,
        object_text(seq![("message"@, string_text(message)), ("terminal_id"@, string_text(id))]),
    )
}

/// Tells a browser why it gets no terminal.
pub open spec fn notice_text(message: Seq<char>) -> Seq<char> {
    object_text(seq![("message"@, string_text(message)), ("type"@, string_text("error"@))])
}

/// What a frame that opens a terminal says.
pub open spec fn open_json(id: Seq<char>, cols: int, rows: int) -> Json {
    rpc_json(
        OPEN@,
        Json::Object(
            seq![
                ("cols"@, Json::Number(cols)),
                ("rows"@, Json::Number(rows)),
                ("terminal_id"@, Json::Text(id)),
            ],
        ),
    )
}

/// What a frame with input says.
pub open spec fn input_json(id: Seq<char>, data: Seq<char>) -> Json {
    rpc_json(
        INPUT@,
        Json::Object(seq![("data"@, Json::Text(data)), ("terminal_id"@, Json::Text(id))]),
    )
}

/// What a frame with a new size says.
pub open spec fn resize_json(id: Seq<char>, cols: int, rows: int) -> Json {
    rpc_json(
        RESIZE@,
        Json::Object(
            seq![
                ("cols"@, Json::Number(cols)),
                ("rows"@, Json::Number(rows)),
                ("terminal_id"@, Json::Text(id)),
            ],
        ),
    )
}

/// What a frame that closes a terminal says.
pub open spec fn close_json(id: Seq<char>) -> Json {
    rpc_json(CLOSE@, Json::Object(seq![("terminal_id"@, Json::Text(id))]))
}

/// What a frame about a failed terminal says.
pub open spec fn error_json(id: Seq<char>, message: Seq<char>) -> Json {
    rpc_json(
        ERROR@,
        Json::Object(seq![("message"@, Json::Text(message)), ("terminal_id"@, Json::Text(id))]),
    )
}

/// What a notice says.
pub open spec fn notice_json(message: Seq<char>) -> Json {
    Json::Object(seq![("message"@, Json::Text(message)), ("type"@, Json::Text("error"@))])
}

/// The method that a frame calls, if it names one.
pub open spec fn method_of(text: Seq<char>) -> Option<Seq<char>> {
    json_text_at(text, seq!["method"@])
}

/// The terminal that a frame is about, if it names one.
pub open spec fn terminal_of(text: Seq<char>) -> Option<Seq<char>> {
    json_text_at(text, seq!["params"@, "terminal_id"@])
}

// ---------------------------------------------------------------------------
// Making them
// ---------------------------------------------------------------------------

/// A member that is a string.
fn text_member(name: &str, value: &str) -> (r: Member)
    ensures
        r.name@ == name@,
        r.value matches Document::Text(s) && s@ == value@,
{
    Member { name: name.to_owned(), value: Document::Text(value.to_owned()) }
}

/// A member that is a number.
fn number_member(name: &str, value: u32) -> (r: Member)
    ensures
        r.name@ == name@,
        r.value == Document::Natural(value as u64),
{
    Member { name: name.to_owned(), value: Document::Natural(value as u64) }
}

/// An object of members whose names ascend means what its members mean, in the
/// order in which they stand.
proof fn object_meaning(members: Vec<Member>)
    requires
        ascending(member_names(member_meanings(members@))),
    ensures
        meaning(Document::Object(members)) == Json::Object(member_meanings(members@)),
        forall|i: int, j: int| #![trigger members@[i], members@[j]]
            0 <= i < j < members@.len() ==> members@[i].name@ != members@[j].name@,
{
    ordered_stays(member_meanings(members@));
    let names = member_names(member_meanings(members@));
    assert forall|i: int, j: int| #![trigger members@[i], members@[j]]
        0 <= i < j < members@.len() implies members@[i].name@ != members@[j].name@ by {
        assert(precedes(names[i], names[j]));
        precedes_irreflexive(names[i]);
    }
}

proof fn reveal_names()
    ensures
        ascending(seq!["jsonrpc"@, "method"@, "params"@]),
        ascending(seq!["cols"@, "rows"@, "terminal_id"@]),
        ascending(seq!["data"@, "terminal_id"@]),
        ascending(seq!["message"@, "terminal_id"@]),
        ascending(seq!["message"@, "type"@]),
        ascending(seq!["terminal_id"@]),
        plain_name("jsonrpc"@),
        plain_name("method"@),
        plain_name("params"@),
        plain_name("cols"@),
        plain_name("rows"@),
        plain_name("terminal_id"@),
        plain_name("data"@),
        plain_name("message"@),
        plain_name("type"@),
{
    reveal_strlit("jsonrpc");
    reveal_strlit("method");
    reveal_strlit("params");
    reveal_strlit("cols");
    reveal_strlit("rows");
    reveal_strlit("terminal_id");
    reveal_strlit("data");
    reveal_strlit("message");
    reveal_strlit("type");
}

/// Writes a JSON-RPC notification. The parameters may be any document, its
/// members in any order, that nests one level less than what can be read. The
/// notification is read again as it is, unless a name in the parameters begins
/// with a dollar sign.
pub fn rpc(method: &str, params: Document) -> (r: String)
    requires
        valid(params, (MAX_DEPTH - 1) as nat),
    ensures
        r@ == rpc_text(method@, written(meaning(params))),
        plain(meaning(params)) ==> json_of(r@) == Some(rpc_json(method@, meaning(params))),
        plain(meaning(params)) ==> method_of(r@) == Some(method@),
{
    let ghost inner = meaning(params);
    let mut members: Vec<Member> = Vec::new();
    members.push(text_member("jsonrpc", "2.0"));
    members.push(text_member("method", method));
    members.push(Member { name: "params".to_owned(), value: params });
    let ghost all = seq![
        ("jsonrpc"@, Json::Text("2.0"@)),
        ("method"@, Json::Text(method@)),
        ("params"@, inner),
    ];
    proof {
        reveal_names();
        assert(member_meanings(members@) =~= all);
        assert(member_names(all) =~= seq!["jsonrpc"@, "method"@, "params"@]);
        object_meaning(members);
        assert(member_texts(all) =~= seq![
            ("jsonrpc"@, string_text("2.0"@)),
            ("method"@, string_text(method@)),
            ("params"@, written(inner)),
        ]);
        rpc_members(method@, inner, "method"@);
        assert forall|i: int| 0 <= i < members@.len() implies valid(
            (#[trigger] members@[i]).value,
            (MAX_DEPTH - 1) as nat,
        ) by {
            assert(i == 0 || i == 1 || i == 2);
        }
    }
    write_document(&Document::Object(members))
}

/// What stands in a notification is found there.
pub proof fn rpc_members(method: Seq<char>, params: Json, name: Seq<char>)
    ensures
        text_at(rpc_json(method, params), seq!["method"@]) == Some(method),
        text_at(rpc_json(method, params), seq!["params"@, name]) == text_at(params, seq![name]),
        plain(params) ==> plain(rpc_json(method, params)),
{
    reveal_strlit("jsonrpc");
    reveal_strlit("method");
    reveal_strlit("params");
    let all = rpc_json(method, params)->Object_0;
    assert("jsonrpc"@.len() != "method"@.len());
    assert("jsonrpc"@.len() != "params"@.len());
    assert("method"@[0] != "params"@[0]);
    assert(all.skip(1).skip(1)[0] == all[2]);
    reveal_with_fuel(find, 4);
    assert(find(all, "method"@) == Some(Json::Text(method)));
    assert(find(all, "params"@) == Some(params));
    assert(seq!["method"@].skip(1) =~= Seq::empty());
    reveal_with_fuel(text_at, 2);
    assert(seq!["params"@, name].skip(1) =~= seq![name]);
    if plain(params) {
        reveal_names();
        assert forall|i: int| 0 <= i < all.len() implies plain_name((#[trigger] all[i]).0)
            && plain(all[i].1) by {
            assert(i == 0 || i == 1 || i == 2);
        }
    }
}

/// The member is a string or a number, and its name does not begin with a
/// dollar sign.
spec fn simple(member: Member) -> bool {
    &&& plain_name(member.name@)
    &&& member.value is Text || member.value is Natural
}

/// An object of simple members whose names ascend may be written, and means
/// what its members mean.
proof fn simple_object(members: Vec<Member>, depth: nat)
    requires
        ascending(member_names(member_meanings(members@))),
        forall|i: int| 0 <= i < members@.len() ==> simple(#[trigger] members@[i]),
        depth > 0,
    ensures
        valid(Document::Object(members), depth),
        meaning(Document::Object(members)) == Json::Object(member_meanings(members@)),
        plain(Json::Object(member_meanings(members@))),
        written(Json::Object(member_meanings(members@))) == object_text(
            member_texts(member_meanings(members@)),
        ),
{
    object_meaning(members);
    assert forall|i: int| 0 <= i < members@.len() implies valid(
        (#[trigger] members@[i]).value,
        (depth - 1) as nat,
    ) by {
        assert(simple(members@[i]));
    }
    let all = member_meanings(members@);
    assert forall|i: int| 0 <= i < all.len() implies plain_name((#[trigger] all[i]).0) && plain(
        all[i].1,
    ) by {
        assert(simple(members@[i]));
    }
}

/// What stands among ascending members is found there.
proof fn param_found(members: Seq<(Seq<char>, Json)>, i: int)
    requires
        ascending(member_names(members)),
        0 <= i < members.len(),
        members[i].1 is Text,
    ensures
        text_at(Json::Object(members), seq![members[i].0]) == Some(members[i].1->Text_0),
{
    let names = member_names(members);
    assert forall|a: int, b: int|
        0 <= a < names.len() && 0 <= b < names.len() && a != b implies names[a] != names[b] by {
        precedes_irreflexive(names[a]);
        if a < b {
            assert(precedes(names[a], names[b]));
        } else {
            assert(precedes(names[b], names[a]));
        }
    }
    ordered_stays(members);
    members_are_found(members, i);
    assert(seq![members[i].0].skip(1) =~= Seq::empty());
    reveal_with_fuel(text_at, 2);
}

/// Asks an agent to open a terminal of this size.
pub fn open_frame(id: &str, cols: u32, rows: u32) -> (r: String)
    ensures
        r@ == open_text(id@, cols as nat, rows as nat),
        json_of(r@) == Some(open_json(id@, cols as int, rows as int)),
        method_of(r@) == Some(OPEN@),
        terminal_of(r@) == Some(id@),
{
    let mut params: Vec<Member> = Vec::new();
    params.push(number_member("cols", cols));
    params.push(number_member("rows", rows));
    params.push(text_member("terminal_id", id));
    proof {
        let all = seq![
            ("cols"@, Json::Number(cols as int)),
            ("rows"@, Json::Number(rows as int)),
            ("terminal_id"@, Json::Text(id@)),
        ];
        reveal_names();
        assert(member_meanings(params@) =~= all);
        assert(member_names(all) =~= seq!["cols"@, "rows"@, "terminal_id"@]);
        simple_object(params, (MAX_DEPTH - 1) as nat);
        assert(member_texts(all) =~= seq![
            ("cols"@, decimal(cols as nat)),
            ("rows"@, decimal(rows as nat)),
            ("terminal_id"@, string_text(id@)),
        ]);
        rpc_members(OPEN@, Json::Object(all), "terminal_id"@);
        param_found(all, 2);
    }
    rpc(OPEN, Document::Object(params))
}

/// Gives an agent input for a terminal.
pub fn input_frame(id: &str, data: &str) -> (r: String)
    ensures
        r@ == input_text(id@, data@),
        json_of(r@) == Some(input_json(id@, data@)),
        method_of(r@) == Some(INPUT@),
        terminal_of(r@) == Some(id@),
        json_text_at(r@, seq!["params"@, "data"@]) == Some(data@),
{
    let mut params: Vec<Member> = Vec::new();
    params.push(text_member("data", data));
    params.push(text_member("terminal_id", id));
    proof {
        let all = seq![
            ("data"@, Json::Text(data@)),
            ("terminal_id"@, Json::Text(id@)),
        ];
        reveal_names();
        assert(member_meanings(params@) =~= all);
        assert(member_names(all) =~= seq!["data"@, "terminal_id"@]);
        simple_object(params, (MAX_DEPTH - 1) as nat);
        assert(member_texts(all) =~= seq![
            ("data"@, string_text(data@)),
            ("terminal_id"@, string_text(id@)),
        ]);
        rpc_members(INPUT@, Json::Object(all), "terminal_id"@);
        param_found(all, 1);
        rpc_members(INPUT@, Json::Object(all), "data"@);
        param_found(all, 0);
    }
    rpc(INPUT, Document::Object(params))
}

/// Tells an agent the new size of a terminal.
pub fn resize_frame(id: &str, cols: u32, rows: u32) -> (r: String)
    ensures
        r@ == resize_text(id@, cols as nat, rows as nat),
        json_of(r@) == Some(resize_json(id@, cols as int, rows as int)),
        method_of(r@) == Some(RESIZE@),
        terminal_of(r@) == Some(id@),
{
    let mut params: Vec<Member> = Vec::new();
    params.push(number_member("cols", cols));
    params.push(number_member("rows", rows));
    params.push(text_member("terminal_id", id));
    proof {
        let all = seq![
            ("cols"@, Json::Number(cols as int)),
            ("rows"@, Json::Number(rows as int)),
            ("terminal_id"@, Json::Text(id@)),
        ];
        reveal_names();
        assert(member_meanings(params@) =~= all);
        assert(member_names(all) =~= seq!["cols"@, "rows"@, "terminal_id"@]);
        simple_object(params, (MAX_DEPTH - 1) as nat);
        assert(member_texts(all) =~= seq![
            ("cols"@, decimal(cols as nat)),
            ("rows"@, decimal(rows as nat)),
            ("terminal_id"@, string_text(id@)),
        ]);
        rpc_members(RESIZE@, Json::Object(all), "terminal_id"@);
        param_found(all, 2);
    }
    rpc(RESIZE, Document::Object(params))
}

/// Asks an agent to close a terminal.
pub fn close_frame(id: &str) -> (r: String)
    ensures
        r@ == close_text(id@),
        json_of(r@) == Some(close_json(id@)),
        method_of(r@) == Some(CLOSE@),
        terminal_of(r@) == Some(id@),
{
    let mut params: Vec<Member> = Vec::new();
    params.push(text_member("terminal_id", id));
    proof {
        let all = seq![
            ("terminal_id"@, Json::Text(id@)),
        ];
        reveal_names();
        assert(member_meanings(params@) =~= all);
        assert(member_names(all) =~= seq!["terminal_id"@]);
        simple_object(params, (MAX_DEPTH - 1) as nat);
        assert(member_texts(all) =~= seq![
            ("terminal_id"@, string_text(id@)),
        ]);
        rpc_members(CLOSE@, Json::Object(all), "terminal_id"@);
        param_found(all, 0);
    }
    rpc(CLOSE, Document::Object(params))
}

/// Tells a browser that its terminal failed.
pub fn error_frame(id: &str, message: &str) -> (r: String)
    ensures
        r@ == error_text(id@, message@),
        json_of(r@) == Some(error_json(id@, message@)),
        method_of(r@) == Some(ERROR@),
        terminal_of(r@) == Some(id@),
{
    let mut params: Vec<Member> = Vec::new();
    params.push(text_member("message", message));
    params.push(text_member("terminal_id", id));
    proof {
        let all = seq![
            ("message"@, Json::Text(message@)),
            ("terminal_id"@, Json::Text(id@)),
        ];
        reveal_names();
        assert(member_meanings(params@) =~= all);
        assert(member_names(all) =~= seq!["message"@, "terminal_id"@]);
        simple_object(params, (MAX_DEPTH - 1) as nat);
        assert(member_texts(all) =~= seq![
            ("message"@, string_text(message@)),
            ("terminal_id"@, string_text(id@)),
        ]);
        rpc_members(ERROR@, Json::Object(all), "terminal_id"@);
        param_found(all, 1);
    }
    rpc(ERROR, Document::Object(params))
}

/// Tells a browser why it gets no terminal.
pub fn notice(message: &str) -> (r: String)
    ensures
        r@ == notice_text(message@),
        json_of(r@) == Some(notice_json(message@)),
{
    let mut members: Vec<Member> = Vec::new();
    members.push(text_member("message", message));
    members.push(text_member("type", "error"));
    proof {
        let all = seq![("message"@, Json::Text(message@)), ("type"@, Json::Text("error"@))];
        reveal_names();
        assert(member_meanings(members@) =~= all);
        assert(member_names(all) =~= seq!["message"@, "type"@]);
        simple_object(members, MAX_DEPTH as nat);
        assert(member_texts(all) =~= seq![
            ("message"@, string_text(message@)),
            ("type"@, string_text("error"@)),
        ]);
    }
    write_document(&Document::Object(members))
}

/// The method that a frame calls, if it is JSON and names one.
pub fn event_type(message: &str) -> (r: Option<String>)
    ensures
        r is Some <==> method_of(message@) is Some,
        r matches Some(method) ==> method_of(message@) == Some(method@),
{
    let mut path: Vec<&str> = Vec::new();
    path.push("method");
    assert(path_of(path@) =~= seq!["method"@]);
    read_text_at(message, &path)
}

/// The terminal that a frame is about, if it is JSON and names one.
pub fn terminal_named(text: &str) -> (r: Option<String>)
    ensures
        r is Some <==> terminal_of(text@) is Some,
        r matches Some(id) ==> terminal_of(text@) == Some(id@),
{
    let mut path: Vec<&str> = Vec::new();
    path.push("params");
    path.push("terminal_id");
    assert(path_of(path@) =~= seq!["params"@, "terminal_id"@]);
    read_text_at(text, &path)
}

} // verus!
