//! What the terminals and their frames do, said of channels, JSON and stages
//! alone.
//!
//! Each law speaks of a call: of what goes in and what comes out.

use crate::channel::{Line, Offer};
use crate::frames::{
    close_frame, error_frame, event_type, input_frame, notice, open_frame, resize_frame, rpc,
    terminal_named,
};
use crate::json::{
    find, json_of, json_text_at, meaning, member_meanings, members_are_found, ordered_holds, plain,
    text_at, valid, write_document, Document, Json,
};
use crate::login_laws::signed_in;
use crate::registry::{farewells, names_node, Registry, Route};
use crate::store::Db;
use crate::terminal::{
    addressed_terminal, admitted, agent_found, authed_hash, default_cols, default_rows, from_agent,
    step, to_agent, valid_size, Action, ClientMessage, Event, Forwarded, Stage, IDLE_CHECK_SECONDS,
};
use crate::text::lossy_text;
use crate::token::{by_chance, clock_shows, spells};
use tokio::sync::mpsc::Sender;
use vstd::prelude::*;
use vstd::utf8::{decode_utf8, encode_utf8, valid_utf8};

verus! {

// ---------------------------------------------------------------------------
// Documents
// ---------------------------------------------------------------------------

/// The member at place `i` has this name and value, and none before it has the
/// name.
pub open spec fn first_member(
    members: Seq<(Seq<char>, Json)>,
    i: int,
    name: Seq<char>,
    inner: Json,
) -> bool {
    &&& 0 <= i < members.len()
    &&& members[i].0 == name
    &&& members[i].1 == inner
    &&& forall|j: int| 0 <= j < i ==> (#[trigger] members[j]).0 != name
}

/// The value is an object, and the first of its members of this name is this.
pub open spec fn has_member(value: Json, name: Seq<char>, inner: Json) -> bool {
    value is Object && exists|i: int| first_member(value->Object_0, i, name, inner)
}

proof fn find_is_first(members: Seq<(Seq<char>, Json)>, name: Seq<char>, inner: Json)
    ensures
        find(members, name) == Some(inner) <==> has_member(Json::Object(members), name, inner),
    decreases members.len(),
{
    assert(Json::Object(members)->Object_0 == members);
    if members.len() > 0 {
        let rest = members.skip(1);
        assert(Json::Object(rest)->Object_0 == rest);
        find_is_first(rest, name, inner);
        if has_member(Json::Object(members), name, inner) {
            let i = choose|i: int| first_member(members, i, name, inner);
            if i > 0 {
                assert(members[0].0 != name);
                assert(rest[i - 1] == members[i]);
                assert forall|j: int| 0 <= j < i - 1 implies (#[trigger] rest[j]).0 != name by {
                    assert(rest[j] == members[j + 1]);
                }
                assert(first_member(rest, i - 1, name, inner));
            }
        }
        if find(members, name) == Some(inner) {
            if members[0].0 == name {
                assert(first_member(members, 0, name, inner));
            } else {
                let i = choose|i: int| first_member(rest, i, name, inner);
                assert(members[i + 1] == rest[i]);
                assert forall|j: int| 0 <= j < i + 1 implies (#[trigger] members[j]).0 != name by {
                    if j > 0 {
                        assert(rest[j - 1] == members[j]);
                    }
                }
                assert(first_member(members, i + 1, name, inner));
            }
        }
    }
}

proof fn text_one_down(value: Json, name: Seq<char>, text: Seq<char>)
    ensures
        text_at(value, seq![name]) == Some(text) <==> has_member(value, name, Json::Text(text)),
{
    reveal_with_fuel(text_at, 2);
    assert(seq![name].skip(1) =~= Seq::empty());
    match value {
        Json::Object(members) => {
            find_is_first(members, name, Json::Text(text));
        },
        _ => {},
    }
}

proof fn text_two_down(value: Json, outer: Seq<char>, name: Seq<char>, text: Seq<char>)
    ensures
        text_at(value, seq![outer, name]) == Some(text) <==> exists|inner: Json| #[trigger]
            has_member(value, outer, inner) && has_member(inner, name, Json::Text(text)),
{
    assert(seq![outer, name].skip(1) =~= seq![name]);
    match value {
        Json::Object(members) => {
            if let Some(inner) = find(members, outer) {
                find_is_first(members, outer, inner);
                text_one_down(inner, name, text);
            }
            assert forall|inner: Json| #[trigger] has_member(value, outer, inner) implies find(
                members,
                outer,
            ) == Some(inner) by {
                find_is_first(members, outer, inner);
            }
        },
        _ => {},
    }
}

/// The type of a frame is its method: there is one exactly where the text is
/// JSON, an object, and its method is a string, and it is that string.
pub proof fn event_type_is_the_method(message: &str, r: Option<String>)
    requires
        call_ensures(event_type, (message,), r),
    ensures
        r matches Some(method) ==> json_of(message@) is Some && has_member(
            json_of(message@)->0,
            "method"@,
            Json::Text(method@),
        ),
        r is None ==> json_of(message@) is None || forall|method: Seq<char>|
            !#[trigger] has_member(json_of(message@)->0, "method"@, Json::Text(method)),
{
    if let Some(value) = json_of(message@) {
        if let Some(method) = r {
            text_one_down(value, "method"@, method@);
        }
        assert forall|method: Seq<char>| r is None implies !#[trigger] has_member(
            value,
            "method"@,
            Json::Text(method),
        ) by {
            text_one_down(value, "method"@, method);
        }
    }
}

/// The frame names this terminal in its parameters.
pub open spec fn names_terminal(text: Seq<char>, id: Seq<char>) -> bool {
    json_of(text) matches Some(value) && exists|params: Json| #[trigger]
        has_member(value, "params"@, params) && has_member(params, "terminal_id"@, Json::Text(id))
}

proof fn terminal_is_named(text: Seq<char>, id: Seq<char>)
    ensures
        json_text_at(text, seq!["params"@, "terminal_id"@]) == Some(id) <==> names_terminal(
            text,
            id,
        ),
{
    if let Some(value) = json_of(text) {
        text_two_down(value, "params"@, "terminal_id"@, id);
    }
}

/// A frame is about the terminal that its parameters name, and about none
/// where they name none.
pub proof fn frame_is_about_the_terminal_it_names(text: &str, r: Option<String>)
    requires
        call_ensures(terminal_named, (text,), r),
    ensures
        r matches Some(id) ==> names_terminal(text@, id@),
        r is None ==> forall|id: Seq<char>| !#[trigger] names_terminal(text@, id),
{
    if let Some(id) = r {
        terminal_is_named(text@, id@);
    }
    assert forall|id: Seq<char>| r is None implies !#[trigger] names_terminal(text@, id) by {
        terminal_is_named(text@, id);
    }
}

/// A frame is for the terminal that it names unless that name takes more than
/// 128 bytes.
pub proof fn long_names_address_nobody(text: &str, r: Option<String>)
    requires
        call_ensures(addressed_terminal, (text,), r),
    ensures
        r matches Some(id) ==> names_terminal(text@, id@) && encode_utf8(id@).len() <= 128,
        r is None ==> forall|id: Seq<char>| #[trigger]
            names_terminal(text@, id) ==> encode_utf8(id).len() > 128,
{
    if let Some(id) = r {
        terminal_is_named(text@, id@);
    }
    assert forall|id: Seq<char>| r is None && #[trigger] names_terminal(
        text@,
        id,
    ) implies encode_utf8(id).len() > 128 by {
        terminal_is_named(text@, id);
    }
}

/// A document that is written is read again: the same strings, numbers and
/// words, lists in their order, and under every name the member of that name.
pub proof fn document_is_read_as_it_is_written(document: &Document, r: String)
    requires
        call_ensures(write_document, (document,), r),
        plain(meaning(*document)),
        valid(*document, 127),
    ensures
        json_of(r@) is Some,
        document is Null ==> json_of(r@) == Some(Json::Null),
        document matches Document::Bool(b) ==> json_of(r@) == Some(Json::Bool(*b)),
        document matches Document::Natural(n) ==> json_of(r@) == Some(Json::Number(*n as int)),
        document matches Document::Integer(n) ==> json_of(r@) == Some(Json::Number(*n as int)),
        document matches Document::Text(s) ==> json_of(r@) == Some(Json::Text(s@)),
        document matches Document::List(items) ==> {
            &&& json_of(r@)->0 matches Json::List(read)
            &&& read.len() == items@.len()
            &&& forall|i: int| 0 <= i < read.len() ==> #[trigger] read[i] == meaning(items@[i])
        },
        document matches Document::Object(members) ==> {
            &&& json_of(r@)->0 matches Json::Object(read)
            &&& read.len() == members@.len()
            &&& forall|i: int|
                0 <= i < members@.len() ==> has_member(
                    json_of(r@)->0,
                    (#[trigger] members@[i]).name@,
                    meaning(members@[i].value),
                )
        },
{
    if let Document::Object(members) = document {
        let given = member_meanings(members@);
        ordered_holds(given, given[0]);
        let names = crate::json::member_names(given);
        assert forall|a: int, b: int|
            0 <= a < names.len() && 0 <= b < names.len() && a != b implies names[a]
            != names[b] by {
            if a < b {
                assert(members@[a].name@ != members@[b].name@);
            } else {
                assert(members@[b].name@ != members@[a].name@);
            }
        }
        assert forall|i: int| 0 <= i < members@.len() implies has_member(
            json_of(r@)->0,
            (#[trigger] members@[i]).name@,
            meaning(members@[i].value),
        ) by {
            members_are_found(given, i);
            assert(given[i] == (members@[i].name@, meaning(members@[i].value)));
            find_is_first(
                crate::json::ordered(given),
                members@[i].name@,
                meaning(members@[i].value),
            );
        }
    }
}

/// A notification says that it is one, which method it calls and with which
/// parameters, and nothing else.
pub proof fn notification_says_what_it_is_given(method: &str, params: Document, r: String)
    requires
        call_ensures(rpc, (method, params), r),
        plain(meaning(params)),
    ensures
        json_of(r@) == Some(
            Json::Object(
                seq![
                    ("jsonrpc"@, Json::Text("2.0"@)),
                    ("method"@, Json::Text(method@)),
                    ("params"@, meaning(params)),
                ],
            ),
        ),
{
}

/// The type of a notification is the method that it was made for.
pub proof fn notification_has_its_method(
    method: &str,
    params: Document,
    frame: String,
    text: &str,
    r: Option<String>,
)
    requires
        call_ensures(rpc, (method, params), frame),
        plain(meaning(params)),
        text@ == frame@,
        call_ensures(event_type, (text,), r),
    ensures
        r is Some && r->0@ == method@,
{
}

// ---------------------------------------------------------------------------
// Frames
// ---------------------------------------------------------------------------

/// The text is a JSON-RPC notification of this method with these parameters.
pub open spec fn notifies(
    text: Seq<char>,
    method: Seq<char>,
    params: Seq<(Seq<char>, Json)>,
) -> bool {
    json_of(text) == Some(
        Json::Object(
            seq![
                ("jsonrpc"@, Json::Text("2.0"@)),
                ("method"@, Json::Text(method)),
                ("params"@, Json::Object(params)),
            ],
        ),
    )
}

/// The text opens the terminal with this size.
pub open spec fn opens(text: Seq<char>, id: Seq<char>, cols: int, rows: int) -> bool {
    notifies(
        text,
        "terminal.open"@,
        seq![
            ("cols"@, Json::Number(cols)),
            ("rows"@, Json::Number(rows)),
            ("terminal_id"@, Json::Text(id)),
        ],
    )
}

/// The text gives the terminal this input.
pub open spec fn types(text: Seq<char>, id: Seq<char>, data: Seq<char>) -> bool {
    notifies(
        text,
        "terminal.input"@,
        seq![("data"@, Json::Text(data)), ("terminal_id"@, Json::Text(id))],
    )
}

/// The text gives the terminal this size.
pub open spec fn resizes(text: Seq<char>, id: Seq<char>, cols: int, rows: int) -> bool {
    notifies(
        text,
        "terminal.resize"@,
        seq![
            ("cols"@, Json::Number(cols)),
            ("rows"@, Json::Number(rows)),
            ("terminal_id"@, Json::Text(id)),
        ],
    )
}

/// The text closes the terminal.
pub open spec fn ends(text: Seq<char>, id: Seq<char>) -> bool {
    notifies(text, "terminal.close"@, seq![("terminal_id"@, Json::Text(id))])
}

/// The text says that the terminal failed, and why.
pub open spec fn fails(text: Seq<char>, id: Seq<char>, message: Seq<char>) -> bool {
    notifies(
        text,
        "terminal.error"@,
        seq![("message"@, Json::Text(message)), ("terminal_id"@, Json::Text(id))],
    )
}

/// The text says that something is wrong, and what.
pub open spec fn complains(text: Seq<char>, message: Seq<char>) -> bool {
    json_of(text) == Some(
        Json::Object(seq![("message"@, Json::Text(message)), ("type"@, Json::Text("error"@))]),
    )
}

/// Every frame says what it is made for, of the terminal it is made for.
pub proof fn frames_say_what_they_are_for(
    id: &str,
    cols: u32,
    rows: u32,
    text: &str,
    open: String,
    input: String,
    resize: String,
    close: String,
    error: String,
    notice_: String,
)
    requires
        call_ensures(open_frame, (id, cols, rows), open),
        call_ensures(input_frame, (id, text), input),
        call_ensures(resize_frame, (id, cols, rows), resize),
        call_ensures(close_frame, (id,), close),
        call_ensures(error_frame, (id, text), error),
        call_ensures(notice, (text,), notice_),
    ensures
        opens(open@, id@, cols as int, rows as int),
        types(input@, id@, text@),
        resizes(resize@, id@, cols as int, rows as int),
        ends(close@, id@),
        fails(error@, id@, text@),
        complains(notice_@, text@),
{
}

/// A terminal may be 1 to 500 wide and 1 to 200 high.
pub proof fn sizes_have_bounds(cols: u32, rows: u32, r: bool)
    requires
        call_ensures(valid_size, (cols, rows), r),
    ensures
        r <==> 1 <= cols <= 500 && 1 <= rows <= 200,
{
}

/// A browser that gives no size gets one that is allowed: 120 by 32.
pub proof fn default_size_is_allowed(cols: u32, rows: u32, r: bool)
    requires
        call_ensures(default_cols, (), cols),
        call_ensures(default_rows, (), rows),
        call_ensures(valid_size, (cols, rows), r),
    ensures
        cols == 120,
        rows == 32,
        r,
{
}

/// What is typed goes to the agent as it is, for the terminal of the hub, if it
/// takes at most 8192 bytes; a new size goes to the agent as a new size, if it
/// is allowed; nothing else goes to the agent.
pub proof fn browser_reaches_its_terminal(
    id: &str,
    message: &ClientMessage,
    r: Option<String>,
)
    requires
        call_ensures(to_agent, (id, message), r),
    ensures
        message matches ClientMessage::Input { data } ==> (r is Some <==> encode_utf8(data@).len()
            <= 8192) && (r matches Some(frame) ==> types(frame@, id@, data@)),
        message matches ClientMessage::Resize { cols, rows } ==> (r is Some <==> 1 <= *cols <= 500
            && 1 <= *rows <= 200) && (r matches Some(frame) ==> resizes(
            frame@,
            id@,
            *cols as int,
            *rows as int,
        )),
        message is Connect ==> r is None,
{
}

// ---------------------------------------------------------------------------
// The registry
// ---------------------------------------------------------------------------

/// The terminal is open on this node.
pub open spec fn open_on(routes: Map<Seq<char>, Route>, id: Seq<char>, node_id: i64) -> bool {
    routes.contains_key(id) && routes[id].node_id == node_id
}

/// A new registry holds no terminal and has sent nothing.
pub proof fn new_registry_is_empty(a: Registry, b: Registry)
    requires
        call_ensures(Registry::new, (), a),
        call_ensures(<Registry as Default>::default, (), b),
    ensures
        forall|id: Seq<char>| !#[trigger] a@.routes.contains_key(id),
        a@.sent.len() == 0,
        forall|id: Seq<char>| !#[trigger] b@.routes.contains_key(id),
        b@.sent.len() == 0,
{
}

/// A terminal that is opened is open on the node that is given, with the
/// browser that is given; the others stay, and nothing is sent.
pub proof fn opened_terminal_is_open(
    registry: &mut Registry,
    id: String,
    node_id: i64,
    browser: Sender<String>,
    text: &str,
    node: i64,
    r: bool,
)
    requires
        call_ensures(Registry::insert, (registry, id, node_id, browser), ()),
        call_ensures(Registry::is_open_on, (final(registry), text, node), r),
    ensures
        text@ == id@ ==> (r <==> node == node_id),
        text@ != id@ ==> (r <==> open_on(old(registry)@.routes, text@, node)),
        final(registry)@.routes.contains_key(id@),
        final(registry)@.routes[id@].node_id == node_id,
        final(registry)@.routes[id@].browser == browser,
        text@ != id@ ==> (final(registry)@.routes.contains_key(text@) <==> old(registry)@.routes.contains_key(text@)) && final(registry)@.routes[text@] == old(registry)@.routes[text@],
        final(registry)@.sent == old(registry)@.sent,
{
}

/// A terminal that is removed is not open any more; the others stay, and
/// nothing is sent.
pub proof fn removed_terminal_is_gone(
    registry: &mut Registry,
    id: &str,
    text: &str,
    node: i64,
    r: bool,
)
    requires
        call_ensures(Registry::remove, (registry, id), ()),
        call_ensures(Registry::is_open_on, (final(registry), text, node), r),
    ensures
        text@ == id@ ==> !r && !final(registry)@.routes.contains_key(id@),
        text@ != id@ ==> (r <==> open_on(old(registry)@.routes, text@, node)),
        text@ != id@ ==> (final(registry)@.routes.contains_key(text@) <==> old(registry)@.routes.contains_key(text@)) && final(registry)@.routes[text@] == old(registry)@.routes[text@],
        final(registry)@.sent == old(registry)@.sent,
{
}

/// Only the terminal is gone.
pub open spec fn only_gone(
    before: Map<Seq<char>, Route>,
    after: Map<Seq<char>, Route>,
    id: Seq<char>,
) -> bool {
    &&& !after.contains_key(id)
    &&& forall|other: Seq<char>|
        other != id ==> (#[trigger] after.contains_key(other) <==> before.contains_key(other))
            && after[other] == before[other]
}

/// A terminal is closed if its own node could not deliver, and stays otherwise;
/// nothing is sent.
pub proof fn undelivered_terminal_is_closed(
    registry: &mut Registry,
    id: &str,
    node_id: i64,
    delivered: bool,
    r: bool,
)
    requires
        call_ensures(Registry::settle, (registry, id, node_id, delivered), r),
    ensures
        r <==> open_on(old(registry)@.routes, id@, node_id) && !delivered,
        r ==> only_gone(old(registry)@.routes, final(registry)@.routes, id@),
        !r ==> final(registry)@.routes == old(registry)@.routes,
        final(registry)@.sent == old(registry)@.sent,
{
}

/// One message more was put to this browser, character for character, and what
/// was sent before stays on record.
pub open spec fn one_more(
    before: Seq<Offer>,
    after: Seq<Offer>,
    to: Sender<String>,
    message: Seq<char>,
    taken: bool,
) -> bool {
    &&& after.len() == before.len() + 1
    &&& forall|i: int| 0 <= i < before.len() ==> #[trigger] after[i] == before[i]
    &&& after.last().to == to
    &&& after.last().message == message
    &&& after.last().taken == taken
}

/// A message from the node of a terminal goes to its browser as it is, once
/// and to no other; the terminal stays if the browser took it and is closed if
/// not. From any other node it goes nowhere.
pub proof fn message_goes_to_the_browser(
    registry: &mut Registry,
    id: &str,
    node_id: i64,
    message: &str,
    r: bool,
)
    requires
        call_ensures(Registry::route, (registry, id, node_id, message), r),
    ensures
        !open_on(old(registry)@.routes, id@, node_id) ==> !r && final(registry)@.routes == old(registry)@.routes && final(registry)@.sent == old(registry)@.sent,
        open_on(old(registry)@.routes, id@, node_id) ==> one_more(
            old(registry)@.sent,
            final(registry)@.sent,
            old(registry)@.routes[id@].browser,
            message@,
            !r,
        ),
        open_on(old(registry)@.routes, id@, node_id) && r ==> only_gone(
            old(registry)@.routes,
            final(registry)@.routes,
            id@,
        ),
        open_on(old(registry)@.routes, id@, node_id) && !r ==> final(registry)@.routes == old(registry)@.routes,
{
}

/// The browser of this terminal was told that its node is gone.
pub open spec fn tells_of_the_end(
    routes: Map<Seq<char>, Route>,
    id: Seq<char>,
    offer: Offer,
) -> bool {
    offer.to == routes[id].browser && fails(offer.message, id, "节点连接已断开"@)
}

/// The browser of one of the terminals on this node was told that it is gone.
pub open spec fn tells_of_an_end(
    routes: Map<Seq<char>, Route>,
    node_id: i64,
    offer: Offer,
) -> bool {
    exists|id: Seq<char>| #[trigger]
        open_on(routes, id, node_id) && tells_of_the_end(routes, id, offer)
}

proof fn farewell_tells(
    routes: Map<Seq<char>, Route>,
    ids: Seq<Seq<char>>,
    offers: Seq<Offer>,
    k: int,
)
    requires
        farewells(routes, ids, offers),
        0 <= k < offers.len(),
    ensures
        tells_of_the_end(routes, ids[k], offers[k]),
{
    assert(offers[k].to == routes[ids[k]].browser);
}

proof fn told_of_one_terminal(a: Seq<char>, id: Seq<char>, b: Seq<char>, other: Seq<char>)
    requires
        fails(a, id, "节点连接已断开"@),
        fails(b, other, "节点连接已断开"@),
        json_of(a) == json_of(b),
    ensures
        id == other,
{
    let x = json_of(a)->0->Object_0[2].1->Object_0;
    let y = json_of(b)->0->Object_0[2].1->Object_0;
    assert(x[1].1 == Json::Text(id));
    assert(y[1].1 == Json::Text(other));
}

/// When a node goes away its terminals are closed and no others; what was sent
/// before stays on record; for each of its terminals the browser is sent one
/// frame that says so, and nobody is sent anything else.
pub proof fn gone_node_is_announced(registry: &mut Registry, node_id: i64)
    requires
        call_ensures(Registry::disconnect_node, (registry, node_id), ()),
    ensures
        forall|id: Seq<char>| #[trigger]
            final(registry)@.routes.contains_key(id) <==> old(registry)@.routes.contains_key(id)
                && old(registry)@.routes[id].node_id != node_id,
        forall|id: Seq<char>|
            final(registry)@.routes.contains_key(id) ==> #[trigger] final(registry)@.routes[id]
                == old(registry)@.routes[id],
        announced(old(registry)@.routes, node_id, old(registry)@.sent, final(registry)@.sent),
{
    let routes = old(registry)@.routes;
    let before = old(registry)@.sent;
    let after = final(registry)@.sent;
    let (ids, offers) = choose|ids: Seq<Seq<char>>, offers: Seq<Offer>|
        names_node(routes, node_id, ids) && #[trigger] farewells(routes, ids, offers) && after
            == before + offers;
    farewells_announce(routes, node_id, before, after, ids, offers);
}

/// What was sent before stays on record. The browser of every terminal on the
/// node was told of its end, nobody was told anything else, and of no terminal
/// twice.
pub open spec fn announced(
    routes: Map<Seq<char>, Route>,
    node_id: i64,
    before: Seq<Offer>,
    after: Seq<Offer>,
) -> bool {
    &&& before.len() <= after.len()
    &&& forall|k: int| 0 <= k < before.len() ==> #[trigger] after[k] == before[k]
    &&& forall|id: Seq<char>| #[trigger]
        open_on(routes, id, node_id) ==> exists|k: int|
            before.len() <= k < after.len() && #[trigger] tells_of_the_end(routes, id, after[k])
    &&& forall|k: int|
        before.len() <= k < after.len() ==> tells_of_an_end(routes, node_id, #[trigger] after[k])
    &&& forall|j: int, k: int| #![trigger after[j], after[k]]
        before.len() <= j < k < after.len() ==> json_of(after[j].message) != json_of(
            after[k].message,
        )
}

#[verifier::rlimit(40)]
proof fn farewells_announce(
    routes: Map<Seq<char>, Route>,
    node_id: i64,
    before: Seq<Offer>,
    after: Seq<Offer>,
    ids: Seq<Seq<char>>,
    offers: Seq<Offer>,
)
    requires
        names_node(routes, node_id, ids),
        farewells(routes, ids, offers),
        after == before + offers,
    ensures
        announced(routes, node_id, before, after),
{
    let n = before.len() as int;
    assert forall|id: Seq<char>| #[trigger] open_on(routes, id, node_id) implies exists|k: int|
        before.len() <= k < after.len() && #[trigger] tells_of_the_end(routes, id, after[k]) by {
        assert(ids.contains(id));
        let k = ids.index_of(id);
        farewell_tells(routes, ids, offers, k);
        assert(after[n + k] == offers[k]);
        assert(tells_of_the_end(routes, id, after[n + k]));
    }
    assert forall|k: int| before.len() <= k < after.len() implies tells_of_an_end(
        routes,
        node_id,
        #[trigger] after[k],
    ) by {
        farewell_tells(routes, ids, offers, k - n);
        assert(ids.contains(ids[k - n]));
        assert(open_on(routes, ids[k - n], node_id));
    }
    assert forall|j: int, k: int| #![trigger after[j], after[k]]
        before.len() <= j < k < after.len() implies json_of(after[j].message) != json_of(
        after[k].message,
    ) by {
        farewell_tells(routes, ids, offers, j - n);
        farewell_tells(routes, ids, offers, k - n);
        if json_of(after[j].message) == json_of(after[k].message) {
            told_of_one_terminal(after[j].message, ids[j - n], after[k].message, ids[k - n]);
        }
    }
}

/// A frame from an agent that names a terminal on its node, in at most 128
/// bytes, goes to the browser of that terminal as it is, once and to no other.
/// If the browser took it, the terminal stays and the agent hears nothing. If
/// not, the terminal is closed, and an agent that is connected is asked once to
/// close it. Any other frame does nothing at all.
pub proof fn agent_reaches_the_browser(
    terminals: &mut Registry,
    agent: Option<&mut Line>,
    node_id: i64,
    text: &str,
    r: Forwarded,
    id: Seq<char>,
)
    requires
        call_ensures(from_agent, (terminals, agent, node_id, text), r),
    ensures
        names_terminal(text@, id) && encode_utf8(id).len() <= 128 && open_on(
            old(terminals)@.routes,
            id,
            node_id,
        ) ==> {
            &&& !(r is Ignored)
            &&& one_more(
                old(terminals)@.sent,
                final(terminals)@.sent,
                old(terminals)@.routes[id].browser,
                text@,
                r is Delivered,
            )
            &&& r is Delivered ==> final(terminals)@.routes == old(terminals)@.routes
            &&& r is Dropped ==> only_gone(old(terminals)@.routes, final(terminals)@.routes, id)
            &&& r is Dropped ==> (agent matches Some(line) ==> {
                &&& final(line).to() == line.to()
                &&& final(line).sent().len() == line.sent().len() + 1
                &&& final(line).sent().drop_last() == line.sent()
                &&& ends(final(line).sent().last().0, id)
            })
        },
        r is Ignored <==> !exists|own: Seq<char>| #[trigger]
            names_terminal(text@, own) && encode_utf8(own).len() <= 128 && open_on(
                old(terminals)@.routes,
                own,
                node_id,
            ),
        r is Ignored ==> final(terminals)@.routes == old(terminals)@.routes && final(terminals)@.sent == old(terminals)@.sent,
        !(r is Dropped) ==> (agent matches Some(line) ==> final(line).to() == line.to()
            && final(line).sent() == line.sent()),
{
    terminal_is_named(text@, id);
    let named = json_text_at(text@, seq!["params"@, "terminal_id"@]);
    if let Some(own) = named {
        terminal_is_named(text@, own);
    }
    assert forall|own: Seq<char>| #[trigger] names_terminal(text@, own) implies named == Some(
        own,
    ) by {
        terminal_is_named(text@, own);
    }
    if let Some(line) = agent {
        if r is Dropped {
            let own = named->0;
            let taken = choose|taken: bool| #[trigger]
                line.sent().push((crate::frames::close_text(own), taken)) == final(line).sent();
            assert(final(line).sent().drop_last() =~= line.sent());
        }
    }
}

// ---------------------------------------------------------------------------
// Sessions
// ---------------------------------------------------------------------------

/// Only an operator who is signed in and has a session gets a terminal, and is
/// checked by that session.
pub proof fn only_signed_in_operators_are_admitted(
    authed: bool,
    session: Option<String>,
    r: Option<String>,
)
    requires
        call_ensures(admitted, (authed, session), r),
    ensures
        r is Some <==> authed && session is Some,
        r is Some ==> r->0@ == session->0@,
{
}

/// An operator is signed in as long as the session lasts by the clock, and is
/// checked every five seconds.
pub proof fn operator_is_checked_by_the_clock(db: &Db, session: &str, r: bool)
    requires
        call_ensures(authed_hash, (db, session), r),
    ensures
        IDLE_CHECK_SECONDS == 5,
        exists|now: i64| #[trigger]
            clock_shows(now) && r == signed_in(db@.sessions, session@, now as int),
{
    let now = choose|now: i64|
        #![trigger crate::store::live_session(db@.sessions, session@, now as int)]
        clock_shows(now) && 0 <= now < i64::MAX && r == crate::store::live_session(
            db@.sessions,
            session@,
            now as int,
        ) is Some;
    crate::login_laws::found_if_signed_in(db@.sessions, session@, now as int);
    assert(clock_shows(now));
}

/// A node with an agent gives a terminal a name that is drawn by chance, in
/// sixty-four hexadecimal digits; a node without one gives none.
pub proof fn terminal_gets_a_name_by_chance(online: bool, r: Event)
    requires
        call_ensures(agent_found, (online,), r),
    ensures
        r is Agent,
        r->Agent_0 is Some <==> online,
        r->Agent_0 matches Some(id) ==> id@.len() == 64 && encode_utf8(id@).len() <= 128
            && exists|bytes: Seq<u8>| #[trigger]
            by_chance(bytes) && bytes.len() == 32 && spells(id@, bytes),
{
    if let Event::Agent(Some(id)) = r {
        crate::token::drawn_spells_chance(id@);
    }
}

/// The session is over and the browser is told why, and nothing else.
pub open spec fn turned_away(r: (Stage, Action), why: Seq<char>) -> bool {
    r.0 is Over && (r.1 matches Action::Refuse(text) && complains(text@, why))
}

/// The session is over, the terminal is taken out of the registry, and its
/// agent is asked to close it.
pub open spec fn closed(r: (Stage, Action), id: Seq<char>) -> bool {
    r.0 is Over && (r.1 matches Action::Close { terminal_id, frame } && terminal_id@ == id && ends(
        frame@,
        id,
    ))
}

/// The terminal is open and there is nothing to do.
pub open spec fn at_rest(r: (Stage, Action), id: Seq<char>) -> bool {
    r.1 is Wait && (r.0 matches Stage::Live { terminal_id } && terminal_id@ == id)
}

/// The frame is on its way to the agent.
pub open spec fn sending(r: (Stage, Action), id: Seq<char>, frame: Seq<char>) -> bool {
    &&& r.0 matches Stage::Forwarding { terminal_id }
    &&& terminal_id@ == id
    &&& r.1 matches Action::ToAgent(text)
    &&& text@ == frame
}

/// A session begins with a browser that asks for a node in a text frame, with
/// a size that is allowed; any other beginning ends it. A browser that says
/// something else is told what is wrong.
pub proof fn session_begins_with_a_node(event: Event, r: (Stage, Action))
    requires
        call_ensures(step, (Stage::Greeting, event), r),
    ensures
        event matches Event::Text {
            message: Some(ClientMessage::Connect { node_id, cols, rows }),
            ..
        } ==> if 1 <= cols <= 500 && 1 <= rows <= 200 {
            r.0 == (Stage::Locating { node_id, cols, rows }) && r.1 == Action::FindAgent(node_id)
        } else {
            turned_away(r, "终端窗口大小无效"@)
        },
        event matches Event::Text { message, .. } ==> (message is None || !(message->0 is Connect)
            ==> turned_away(r, "终端必须先选择一个节点"@)),
        event is Binary || event is Ping || event is Pong || event is Gone ==> r.0 is Over
            && r.1 is Stop,
        event is Agent || event is AgentSent || event is BrowserSent || event is Output
            || event is Tick ==> r.0 is Greeting && r.1 is Wait,
{
}

/// Where the node has an agent, the terminal gets the name that is given, on
/// the node and with the size that were asked for; where it has none, the
/// browser is told so.
pub proof fn terminal_is_opened_as_asked(
    node_id: i64,
    cols: u32,
    rows: u32,
    event: Event,
    r: (Stage, Action),
)
    requires
        call_ensures(step, (Stage::Locating { node_id, cols, rows }, event), r),
    ensures
        event matches Event::Agent(Some(id)) ==> {
            &&& r.0 matches Stage::Opening { terminal_id }
            &&& terminal_id@ == id@
            &&& r.1 matches Action::Open { terminal_id: name, node_id: node, frame }
            &&& name@ == id@
            &&& node == node_id
            &&& opens(frame@, id@, cols as int, rows as int)
        },
        event == Event::Agent(None) ==> turned_away(r, "节点当前不在线"@),
        !(event is Agent) ==> r.0 == (Stage::Locating { node_id, cols, rows }) && r.1 is Wait,
{
}

/// Once the agent was asked, the terminal is open; if it could not be asked,
/// the terminal is taken out of the registry again and the browser is told.
pub proof fn terminal_opens_or_is_abandoned(terminal_id: String, event: Event, r: (Stage, Action))
    requires
        call_ensures(step, (Stage::Opening { terminal_id }, event), r),
    ensures
        event == Event::AgentSent(true) ==> at_rest(r, terminal_id@),
        event == Event::AgentSent(false) ==> r.0 is Over && (r.1 matches Action::Abandon {
            terminal_id: id,
            notice,
        } && id@ == terminal_id@ && complains(notice@, "节点连接已断开"@)),
        !(event is AgentSent) ==> r.0 == (Stage::Opening { terminal_id }) && r.1 is Wait,
{
}

/// Input from a browser whose operator is signed in goes to the agent as it
/// is, in a text frame or a binary one, if it takes at most 8192 bytes; a new
/// size that is allowed goes there too. Everything else of that kind is
/// ignored. Without a valid session a text frame closes the terminal.
pub proof fn live_terminal_relays_input(terminal_id: String, event: Event, r: (Stage, Action))
    requires
        call_ensures(step, (Stage::Live { terminal_id }, event), r),
    ensures
        event matches Event::Text { authed: false, .. } ==> closed(r, terminal_id@),
        event matches Event::Text {
            authed: true,
            message: Some(ClientMessage::Input { data }),
        } ==> if encode_utf8(data@).len() <= 8192 {
            r.1 is ToAgent && sending(r, terminal_id@, r.1->ToAgent_0@) && types(
                r.1->ToAgent_0@,
                terminal_id@,
                data@,
            )
        } else {
            at_rest(r, terminal_id@)
        },
        event matches Event::Text {
            authed: true,
            message: Some(ClientMessage::Resize { cols, rows }),
        } ==> if 1 <= cols <= 500 && 1 <= rows <= 200 {
            r.1 is ToAgent && sending(r, terminal_id@, r.1->ToAgent_0@) && resizes(
                r.1->ToAgent_0@,
                terminal_id@,
                cols as int,
                rows as int,
            )
        } else {
            at_rest(r, terminal_id@)
        },
        event matches Event::Text {
            authed: true,
            message: Some(ClientMessage::Connect { .. }),
        } ==> at_rest(r, terminal_id@),
        event matches Event::Text { authed: true, message: None } ==> at_rest(r, terminal_id@),
        event matches Event::Binary(data) ==> if data@.len() <= 8192 {
            r.1 is ToAgent && sending(r, terminal_id@, r.1->ToAgent_0@) && types(
                r.1->ToAgent_0@,
                terminal_id@,
                lossy_text(data@),
            ) && (valid_utf8(data@) ==> lossy_text(data@) == decode_utf8(data@))
        } else {
            at_rest(r, terminal_id@)
        },
{
}

/// The frame says that the terminal ended or failed.
pub open spec fn is_last(text: Seq<char>) -> bool {
    json_of(text) matches Some(value) && (has_member(
        value,
        "method"@,
        Json::Text("terminal.exit"@),
    ) || has_member(value, "method"@, Json::Text("terminal.error"@)))
}

/// Output goes to the browser as it is, and it is known whether it is the last.
/// A ping is answered with what it brought. The terminal is closed when the
/// browser is gone, when there is no more output, and when the operator is
/// found signed out. Everything else is waited out.
pub proof fn live_terminal_shows_output(terminal_id: String, event: Event, r: (Stage, Action))
    requires
        call_ensures(step, (Stage::Live { terminal_id }, event), r),
    ensures
        event matches Event::Output(Some(text)) ==> {
            &&& r.0 matches Stage::Showing { terminal_id: id, last }
            &&& id@ == terminal_id@
            &&& last == is_last(text@)
            &&& r.1 matches Action::ToBrowser(shown)
            &&& shown@ == text@
        },
        event == Event::Output(None) ==> closed(r, terminal_id@),
        event is Gone ==> closed(r, terminal_id@),
        event matches Event::Ping(data) ==> {
            &&& r.0 matches Stage::Showing { terminal_id: id, last }
            &&& id@ == terminal_id@
            &&& !last
            &&& r.1 matches Action::Pong(answer)
            &&& answer@ == data@
        },
        event == (Event::Tick { authed: true }) ==> at_rest(r, terminal_id@),
        event == (Event::Tick { authed: false }) ==> closed(r, terminal_id@),
        event is Pong || event is Agent || event is AgentSent || event is BrowserSent ==> at_rest(
            r,
            terminal_id@,
        ),
{
    if let Event::Output(Some(text)) = event {
        if let Some(value) = json_of(text@) {
            text_one_down(value, "method"@, "terminal.exit"@);
            text_one_down(value, "method"@, "terminal.error"@);
        }
    }
}

/// After a frame was sent the terminal is open again, unless it was the last
/// one or could not be sent: then the terminal is closed.
pub proof fn sent_frame_leaves_the_terminal_open(
    terminal_id: String,
    last: bool,
    event: Event,
    to_agent_: (Stage, Action),
    to_browser: (Stage, Action),
)
    requires
        call_ensures(step, (Stage::Forwarding { terminal_id }, event), to_agent_),
        call_ensures(step, (Stage::Showing { terminal_id, last }, event), to_browser),
    ensures
        event == Event::AgentSent(true) ==> at_rest(to_agent_, terminal_id@),
        event == Event::AgentSent(false) ==> closed(to_agent_, terminal_id@),
        !(event is AgentSent) ==> to_agent_.0 == (Stage::Forwarding { terminal_id })
            && to_agent_.1 is Wait,
        event == Event::BrowserSent(true) && !last ==> at_rest(to_browser, terminal_id@),
        event == Event::BrowserSent(true) && last ==> closed(to_browser, terminal_id@),
        event == Event::BrowserSent(false) ==> closed(to_browser, terminal_id@),
        !(event is BrowserSent) ==> to_browser.0 == (Stage::Showing { terminal_id, last })
            && to_browser.1 is Wait,
{
}

/// Nothing happens any more in a session that is over.
pub proof fn session_stays_over(event: Event, r: (Stage, Action))
    requires
        call_ensures(step, (Stage::Over, event), r),
    ensures
        r.0 is Over,
        r.1 is Wait,
{
}

/// No frame for an agent takes more than 65536 bytes, as long as the terminal
/// has a name of at most 128 characters and an allowed size.
pub proof fn frames_fit_the_agent(stage: Stage, event: Event, r: (Stage, Action))
    requires
        call_ensures(step, (stage, event), r),
        stage matches Stage::Locating { cols, rows, .. } ==> 1 <= cols <= 500 && 1 <= rows <= 200,
        event matches Event::Agent(Some(id)) ==> id@.len() <= 128,
        stage matches Stage::Opening { terminal_id } ==> terminal_id@.len() <= 128,
        stage matches Stage::Live { terminal_id } ==> terminal_id@.len() <= 128,
        stage matches Stage::Forwarding { terminal_id } ==> terminal_id@.len() <= 128,
        stage matches Stage::Showing { terminal_id, .. } ==> terminal_id@.len() <= 128,
    ensures
        r.1 matches Action::Open { frame, .. } ==> encode_utf8(frame@).len() <= 65536,
        r.1 matches Action::ToAgent(frame) ==> encode_utf8(frame@).len() <= 65536,
        r.1 matches Action::Close { frame, .. } ==> encode_utf8(frame@).len() <= 65536,
{
}

} // verus!
