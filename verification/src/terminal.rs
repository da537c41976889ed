//! Browser terminals backed by the shell that runs on a monitor agent.
//!
//! The hub authenticates the operator and relays frames. A terminal session is
//! a machine: `step` takes its stage and an event to the next stage and the
//! action to perform.

use crate::channel::{Line, Offer};
use crate::frames::{
    close_frame, close_json, close_text, event_type, input_frame, input_json, input_text, method_of,
    notice, notice_json, notice_text, open_frame, open_json, open_text, resize_frame, resize_json,
    resize_text, terminal_named, terminal_of, ERROR, EXIT,
};
use crate::json::{json_of, Json};
use crate::limits::{control_frames_fit, input_frame_fits, relayed_frame_fits, token_names_terminal};
use crate::registry::{
    disconnected, farewells, names_node, routed, runs_on, Registry, Route, Terminals, NODE_GONE,
};
use crate::store::{live_session, Db};
use crate::text::{from_utf8_lossy, lossy_text, same_text};
use crate::token::{clock_shows, drawn, is_hex_digit, random_token};
use vstd::prelude::*;
use vstd::utf8::{decode_utf8, encode_utf8, valid_utf8};

verus! {

/// Seconds between two checks that the operator is still signed in.
pub const IDLE_CHECK_SECONDS: u64 = 5;

/// The longest name of a terminal that a frame from an agent may give, in bytes.
pub const MAX_TERMINAL_ID: usize = 128;

/// The longest piece of input, in bytes. Inside JSON one byte can take six, and
/// a frame to an agent holds at most `MAX_AGENT_FRAME` bytes.
pub const MAX_INPUT: usize = 8 * 1024;

/// The longest frame that an agent takes, in bytes.
pub const MAX_AGENT_FRAME: usize = 64 * 1024;

pub const MAX_COLS: u32 = 500;

pub const MAX_ROWS: u32 = 200;

/// What the browser is told that does not begin with a node.
pub const CHOOSE_A_NODE: &'static str = "终端必须先选择一个节点";

/// What the browser is told whose window is too small or too large.
pub const BAD_SIZE: &'static str = "终端窗口大小无效";

/// What the browser is told that asks for a node without an agent.
pub const NODE_OFFLINE: &'static str = "节点当前不在线";

// ---------------------------------------------------------------------------
// What browsers say
// ---------------------------------------------------------------------------

/// A message from a browser.
#[derive(Debug)]
pub enum ClientMessage {
    Connect { node_id: i64, cols: u32, rows: u32 },
    Input { data: String },
    Resize { cols: u32, rows: u32 },
}

/// The width of a terminal whose browser gives none.
pub fn default_cols() -> (r: u32)
    ensures
        r == 120,
{
    120
}

/// The height of a terminal whose browser gives none.
pub fn default_rows() -> (r: u32)
    ensures
        r == 32,
{
    32
}

/// A terminal may have this size.
pub open spec fn size_ok(cols: u32, rows: u32) -> bool {
    1 <= cols <= MAX_COLS && 1 <= rows <= MAX_ROWS
}

/// Whether a terminal may have this size.
pub fn valid_size(cols: u32, rows: u32) -> (r: bool)
    ensures
        r == size_ok(cols, rows),
{
    1 <= cols && cols <= MAX_COLS && 1 <= rows && rows <= MAX_ROWS
}

/// The bytes of a text.
pub open spec fn byte_len(s: Seq<char>) -> nat {
    encode_utf8(s).len()
}

/// The frame for the agent that a message from the browser of an open terminal
/// becomes: input that is not too long, a size that is allowed, nothing else.
pub open spec fn relayed(id: Seq<char>, message: ClientMessage) -> Option<Seq<char>> {
    match message {
        ClientMessage::Input { data } => if byte_len(data@) <= MAX_INPUT {
            Some(input_text(id, data@))
        } else {
            None
        },
        ClientMessage::Resize { cols, rows } => if size_ok(cols, rows) {
            Some(resize_text(id, cols as nat, rows as nat))
        } else {
            None
        },
        ClientMessage::Connect { .. } => None,
    }
}

/// What that frame says.
pub open spec fn relayed_json(id: Seq<char>, message: ClientMessage) -> Option<Json> {
    match message {
        ClientMessage::Input { data } => Some(input_json(id, data@)),
        ClientMessage::Resize { cols, rows } => Some(resize_json(id, cols as int, rows as int)),
        ClientMessage::Connect { .. } => None,
    }
}

/// Turns a message from the browser of the terminal `terminal_id` into the
/// frame for its agent. The name of the terminal is the hub's, never the
/// browser's.
pub fn to_agent(terminal_id: &str, message: &ClientMessage) -> (r: Option<String>)
    ensures
        r is Some <==> relayed(terminal_id@, *message) is Some,
        r matches Some(frame) ==> relayed(terminal_id@, *message) == Some(frame@) && terminal_of(
            frame@,
        ) == Some(terminal_id@) && json_of(frame@) == relayed_json(terminal_id@, *message),
{
    match message {
        ClientMessage::Input { data } => {
            if data.as_str().as_bytes().len() <= MAX_INPUT {
                Some(input_frame(terminal_id, data.as_str()))
            } else {
                None
            }
        },
        ClientMessage::Resize { cols, rows } => {
            if valid_size(*cols, *rows) {
                Some(resize_frame(terminal_id, *cols, *rows))
            } else {
                None
            }
        },
        ClientMessage::Connect { .. } => None,
    }
}

// ---------------------------------------------------------------------------
// What agents say
// ---------------------------------------------------------------------------

/// The terminal that a frame from an agent is for, unless its name is too long.
pub open spec fn addressee(text: Seq<char>) -> Option<Seq<char>> {
    match terminal_of(text) {
        Some(id) => if byte_len(id) <= MAX_TERMINAL_ID {
            Some(id)
        } else {
            None
        },
        None => None,
    }
}

/// The terminal that a frame from an agent is for, unless its name is too long.
pub fn addressed_terminal(text: &str) -> (r: Option<String>)
    ensures
        r is Some <==> addressee(text@) is Some,
        r matches Some(id) ==> addressee(text@) == Some(id@),
{
    match terminal_named(text) {
        Some(id) => {
            if id.as_str().as_bytes().len() > MAX_TERMINAL_ID {
                None
            } else {
                Some(id)
            }
        },
        None => None,
    }
}

/// What became of a frame from an agent.
#[derive(Debug, Clone, Copy, PartialEq, Eq, Structural)]
pub enum Forwarded {
    /// It is for no terminal on the agent's node.
    Ignored,
    /// The browser has it.
    Delivered,
    /// The browser did not take it, and the terminal was closed.
    Dropped,
}

/// The frame is for a terminal on this node.
pub open spec fn concerns(
    routes: Map<Seq<char>, Route>,
    node_id: i64,
    text: Seq<char>,
) -> bool {
    addressee(text) matches Some(id) && runs_on(routes, id, node_id)
}

/// What a frame from the agent of a node does to the terminals: one that is for
/// a terminal on the node is put to its browser as it is, once and to no other,
/// and any other frame does nothing.
pub open spec fn forwarded(
    before: Terminals,
    after: Terminals,
    node_id: i64,
    text: Seq<char>,
    what: Forwarded,
) -> bool {
    if concerns(before.routes, node_id, text) {
        !(what is Ignored) && routed(
            before,
            after,
            addressee(text)->0,
            node_id,
            text,
            what is Dropped,
        )
    } else {
        what is Ignored && after == before
    }
}

/// Hands a frame from the agent of a node to the browser of the terminal it is
/// for. A terminal whose browser does not take it is closed, and the agent, if
/// it is still connected, is asked to close it too; otherwise the agent is told
/// nothing.
pub fn from_agent(
    terminals: &mut Registry,
    agent: Option<&mut Line>,
    node_id: i64,
    text: &str,
) -> (r: Forwarded)
    ensures
        forwarded(old(terminals)@, final(terminals)@, node_id, text@, r),
        agent matches Some(line) ==> final(line).to() == line.to() && (if r is Dropped {
            exists|taken: bool| #[trigger]
                line.sent().push((close_text(addressee(text@)->0), taken)) == final(line).sent()
                    && json_of(close_text(addressee(text@)->0)) == Some(
                    close_json(addressee(text@)->0),
                )
        } else {
            final(line).sent() == line.sent()
        }),
{
    let id = match addressed_terminal(text) {
        Some(id) => id,
        None => {
            return Forwarded::Ignored;
        },
    };
    if !terminals.is_open_on(id.as_str(), node_id) {
        return Forwarded::Ignored;
    }
    if terminals.route(id.as_str(), node_id, text) {
        if let Some(line) = agent {
            let _ = line.hand(close_frame(id.as_str()));
        }
        Forwarded::Dropped
    } else {
        Forwarded::Delivered
    }
}

// ---------------------------------------------------------------------------
// Who gets a terminal
// ---------------------------------------------------------------------------

/// The session of an operator who may open terminals: signed in, and with a
/// session to check again later.
pub fn admitted(authed: bool, session: Option<String>) -> (r: Option<String>)
    ensures
        r == (if authed {
            session
        } else {
            None
        }),
{
    if authed {
        session
    } else {
        None
    }
}

/// Whether the operator is still signed in at the time the clock shows.
pub fn authed_hash(db: &Db, session: &str) -> (r: bool)
    ensures
        exists|now: i64| #![trigger live_session(db@.sessions, session@, now as int)]
            clock_shows(now) && 0 <= now < i64::MAX && r == live_session(
                db@.sessions,
                session@,
                now as int,
            ) is Some,
{
    db.session_valid(session)
}

// ---------------------------------------------------------------------------
// A terminal session
// ---------------------------------------------------------------------------

/// Where a terminal session stands.
#[derive(Debug)]
pub enum Stage {
    /// The browser has not said anything.
    Greeting,
    /// It is not known whether the node has an agent.
    Locating { node_id: i64, cols: u32, rows: u32 },
    /// The agent was asked to open the terminal.
    Opening { terminal_id: String },
    /// The terminal is open.
    Live { terminal_id: String },
    /// The terminal is open and a frame is on its way to the agent.
    Forwarding { terminal_id: String },
    /// The terminal is open and a frame, the last one or not, is on its way to
    /// the browser.
    Showing { terminal_id: String, last: bool },
    /// The session is over.
    Over,
}

/// What happens to a terminal session.
#[derive(Debug)]
pub enum Event {
    /// The browser sent a text frame; what it says, if that can be read, and
    /// whether the operator is still signed in.
    Text { authed: bool, message: Option<ClientMessage> },
    /// The browser sent a binary frame.
    Binary(Vec<u8>),
    /// The browser sent a ping.
    Ping(Vec<u8>),
    /// The browser sent a pong.
    Pong,
    /// The browser closed the connection, or the connection failed.
    Gone,
    /// The node has an agent, and a new terminal may have this name, or the
    /// node has none.
    Agent(Option<String>),
    /// The frame for the agent was sent, or the agent is gone.
    AgentSent(bool),
    /// The frame for the browser was sent, or the browser is gone.
    BrowserSent(bool),
    /// There is a frame for the browser, or there will be none any more.
    Output(Option<String>),
    /// It is time to look whether the operator is still signed in.
    Tick { authed: bool },
}

/// What is to be done for a terminal session.
#[derive(Debug)]
pub enum Action {
    /// Wait for the next event.
    Wait,
    /// Leave without a word.
    Stop,
    /// Send this to the browser and leave.
    Refuse(String),
    /// Look for the agent of this node.
    FindAgent(i64),
    /// Enter the terminal into the registry and send the frame to the agent.
    Open { terminal_id: String, node_id: i64, frame: String },
    /// Take the terminal out of the registry, send the notice to the browser
    /// and leave.
    Abandon { terminal_id: String, notice: String },
    /// Send this to the agent.
    ToAgent(String),
    /// Send this to the browser.
    ToBrowser(String),
    /// Send this pong to the browser.
    Pong(Vec<u8>),
    /// Take the terminal out of the registry, send the frame to the agent and
    /// leave.
    Close { terminal_id: String, frame: String },
}

/// The answer to whether a node has an agent: if it has, a fresh name for the
/// terminal comes with it, short enough for the agent to use.
pub fn agent_found(online: bool) -> (r: Event)
    ensures
        !online ==> r == Event::Agent(None),
        online ==> (r matches Event::Agent(Some(id)) && drawn(id@) && id@.len() == 64 && byte_len(
            id@,
        ) <= MAX_TERMINAL_ID && forall|i: int|
            0 <= i < id@.len() ==> is_hex_digit(#[trigger] id@[i])),
{
    if online {
        let id = random_token();
        proof {
            token_names_terminal(id@);
        }
        Event::Agent(Some(id))
    } else {
        Event::Agent(None)
    }
}

/// Nothing changes.
pub open spec fn waits(stage: Stage, next: Stage, action: Action) -> bool {
    next == stage && action is Wait
}

/// The browser is told why it gets no terminal.
pub open spec fn refuses(next: Stage, action: Action, message: Seq<char>) -> bool {
    next is Over && (action matches Action::Refuse(text) && text@ == notice_text(message)
        && json_of(text@) == Some(notice_json(message)))
}

/// The terminal is closed.
pub open spec fn closes(id: Seq<char>, next: Stage, action: Action) -> bool {
    &&& next is Over
    &&& action matches Action::Close { terminal_id, frame }
    &&& terminal_id@ == id
    &&& frame@ == close_text(id)
    &&& json_of(frame@) == Some(close_json(id))
}

/// A frame goes to the agent of the terminal.
pub open spec fn forwards(
    id: Seq<char>,
    next: Stage,
    action: Action,
    text: Seq<char>,
    says: Option<Json>,
) -> bool {
    &&& next matches Stage::Forwarding { terminal_id }
    &&& terminal_id@ == id
    &&& action matches Action::ToAgent(frame)
    &&& frame@ == text
    &&& terminal_of(text) == Some(id)
    &&& json_of(text) == says
}

/// The terminal is open and nothing is on its way.
pub open spec fn idles(id: Seq<char>, next: Stage, action: Action) -> bool {
    action is Wait && (next matches Stage::Live { terminal_id } && terminal_id@ == id)
}

/// After this frame the browser gets no other.
pub open spec fn is_final(text: Seq<char>) -> bool {
    method_of(text) == Some(EXIT@) || method_of(text) == Some(ERROR@)
}

/// What an event does to an open terminal.
pub open spec fn live_steps(id: Seq<char>, event: Event, next: Stage, action: Action) -> bool {
    match event {
        Event::Text { authed, message } => if !authed {
            closes(id, next, action)
        } else {
            match message {
                Some(message) => match relayed(id, message) {
                    Some(text) => forwards(id, next, action, text, relayed_json(id, message)),
                    None => idles(id, next, action),
                },
                None => idles(id, next, action),
            }
        },
        Event::Binary(data) => if data@.len() <= MAX_INPUT {
            (valid_utf8(data@) ==> lossy_text(data@) == decode_utf8(data@)) && forwards(
                id,
                next,
                action,
                input_text(id, lossy_text(data@)),
                Some(input_json(id, lossy_text(data@))),
            )
        } else {
            idles(id, next, action)
        },
        Event::Ping(data) => {
            &&& next matches Stage::Showing { terminal_id, last }
            &&& terminal_id@ == id
            &&& !last
            &&& action == Action::Pong(data)
        },
        Event::Gone => closes(id, next, action),
        Event::Output(Some(text)) => {
            &&& next matches Stage::Showing { terminal_id, last }
            &&& terminal_id@ == id
            &&& last == is_final(text@)
            &&& action == Action::ToBrowser(text)
        },
        Event::Output(None) => closes(id, next, action),
        Event::Tick { authed } => if authed {
            idles(id, next, action)
        } else {
            closes(id, next, action)
        },
        Event::Pong | Event::Agent(_) | Event::AgentSent(_) | Event::BrowserSent(_) => idles(
            id,
            next,
            action,
        ),
    }
}

/// An event takes a session from one stage to the next and asks for an action.
pub open spec fn steps(stage: Stage, event: Event, next: Stage, action: Action) -> bool {
    match stage {
        Stage::Greeting => match event {
            Event::Text { message: Some(ClientMessage::Connect { node_id, cols, rows }), .. } =>
            if size_ok(cols, rows) {
                next == (Stage::Locating { node_id, cols, rows }) && action == Action::FindAgent(
                    node_id,
                )
            } else {
                refuses(next, action, BAD_SIZE@)
            },
            Event::Text { .. } => refuses(next, action, CHOOSE_A_NODE@),
            Event::Binary(_) | Event::Ping(_) | Event::Pong | Event::Gone => next is Over
                && action is Stop,
            _ => waits(stage, next, action),
        },
        Stage::Locating { node_id, cols, rows } => match event {
            Event::Agent(Some(id)) => {
                &&& next == (Stage::Opening { terminal_id: id })
                &&& action matches Action::Open { terminal_id, node_id: n, frame }
                &&& terminal_id == id
                &&& n == node_id
                &&& frame@ == open_text(id@, cols as nat, rows as nat)
                &&& json_of(frame@) == Some(open_json(id@, cols as int, rows as int))
            },
            Event::Agent(None) => refuses(next, action, NODE_OFFLINE@),
            _ => waits(stage, next, action),
        },
        Stage::Opening { terminal_id } => match event {
            Event::AgentSent(true) => idles(terminal_id@, next, action),
            Event::AgentSent(false) => {
                &&& next is Over
                &&& action matches Action::Abandon { terminal_id: id, notice }
                &&& id == terminal_id
                &&& notice@ == notice_text(NODE_GONE@)
                &&& json_of(notice@) == Some(notice_json(NODE_GONE@))
            },
            _ => waits(stage, next, action),
        },
        Stage::Live { terminal_id } => live_steps(terminal_id@, event, next, action),
        Stage::Forwarding { terminal_id } => match event {
            Event::AgentSent(true) => idles(terminal_id@, next, action),
            Event::AgentSent(false) => closes(terminal_id@, next, action),
            _ => waits(stage, next, action),
        },
        Stage::Showing { terminal_id, last } => match event {
            Event::BrowserSent(sent) => if sent && !last {
                idles(terminal_id@, next, action)
            } else {
                closes(terminal_id@, next, action)
            },
            _ => waits(stage, next, action),
        },
        Stage::Over => waits(stage, next, action),
    }
}

fn close(terminal_id: String) -> (r: (Stage, Action))
    ensures
        closes(terminal_id@, r.0, r.1),
        terminal_id@.len() <= MAX_TERMINAL_ID ==> byte_len(close_text(terminal_id@))
            <= MAX_AGENT_FRAME,
{
    proof {
        if terminal_id@.len() <= MAX_TERMINAL_ID {
            control_frames_fit(terminal_id@, 1, 1);
        }
    }
    let frame = close_frame(terminal_id.as_str());
    (Stage::Over, Action::Close { terminal_id, frame })
}

fn live_step(terminal_id: String, event: Event) -> (r: (Stage, Action))
    ensures
        live_steps(terminal_id@, event, r.0, r.1),
        terminal_id@.len() <= MAX_TERMINAL_ID ==> (agent_frame(r.1) matches Some(frame)
            ==> byte_len(frame) <= MAX_AGENT_FRAME),
{
    match event {
        Event::Text { authed, message } => {
            if !authed {
                return close(terminal_id);
            }
            match message {
                Some(message) => match to_agent(terminal_id.as_str(), &message) {
                    Some(frame) => {
                        proof {
                            if terminal_id@.len() <= MAX_TERMINAL_ID {
                                relayed_frame_fits(terminal_id@, message);
                            }
                        }
                        (Stage::Forwarding { terminal_id }, Action::ToAgent(frame))
                    },
                    None => (Stage::Live { terminal_id }, Action::Wait),
                },
                None => (Stage::Live { terminal_id }, Action::Wait),
            }
        },
        Event::Binary(data) => {
            if data.len() <= MAX_INPUT {
                let text = from_utf8_lossy(data.as_slice());
                let frame = input_frame(terminal_id.as_str(), text.as_str());
                proof {
                    if terminal_id@.len() <= MAX_TERMINAL_ID {
                        input_frame_fits(terminal_id@, text@);
                    }
                }
                (Stage::Forwarding { terminal_id }, Action::ToAgent(frame))
            } else {
                (Stage::Live { terminal_id }, Action::Wait)
            }
        },
        Event::Ping(data) => (Stage::Showing { terminal_id, last: false }, Action::Pong(data)),
        Event::Gone => close(terminal_id),
        Event::Output(Some(text)) => {
            let last: bool = match event_type(text.as_str()) {
                Some(method) => same_text(method.as_str(), EXIT) || same_text(
                    method.as_str(),
                    ERROR,
                ),
                None => false,
            };
            (Stage::Showing { terminal_id, last }, Action::ToBrowser(text))
        },
        Event::Output(None) => close(terminal_id),
        Event::Tick { authed } => {
            if authed {
                (Stage::Live { terminal_id }, Action::Wait)
            } else {
                close(terminal_id)
            }
        },
        Event::Pong | Event::Agent(_) | Event::AgentSent(_) | Event::BrowserSent(_) => (
            Stage::Live { terminal_id },
            Action::Wait,
        ),
    }
}

/// The frame for the agent that an action sends.
pub open spec fn agent_frame(action: Action) -> Option<Seq<char>> {
    match action {
        Action::Open { frame, .. } => Some(frame@),
        Action::ToAgent(frame) => Some(frame@),
        Action::Close { frame, .. } => Some(frame@),
        _ => None,
    }
}

/// The session asks for terminals of an allowed size, and its terminal has a
/// name that a frame may give.
pub open spec fn in_bounds(stage: Stage, event: Event) -> bool {
    match stage {
        Stage::Locating { cols, rows, .. } => size_ok(cols, rows) && (
        event matches Event::Agent(Some(id)) ==> id@.len() <= MAX_TERMINAL_ID),
        _ => open_at(stage) matches Some(id) ==> id.len() <= MAX_TERMINAL_ID,
    }
}

/// Takes a terminal session one step further. A frame for the agent is never
/// longer than the agent takes, as long as the session keeps its bounds.
pub fn step(stage: Stage, event: Event) -> (r: (Stage, Action))
    ensures
        steps(stage, event, r.0, r.1),
        in_bounds(stage, event) ==> (agent_frame(r.1) matches Some(frame) ==> byte_len(frame)
            <= MAX_AGENT_FRAME),
{
    match stage {
        Stage::Greeting => match event {
            Event::Text { message: Some(ClientMessage::Connect { node_id, cols, rows }), .. } => {
                if valid_size(cols, rows) {
                    (Stage::Locating { node_id, cols, rows }, Action::FindAgent(node_id))
                } else {
                    (Stage::Over, Action::Refuse(notice(BAD_SIZE)))
                }
            },
            Event::Text { .. } => (Stage::Over, Action::Refuse(notice(CHOOSE_A_NODE))),
            Event::Binary(_) | Event::Ping(_) | Event::Pong | Event::Gone => (
                Stage::Over,
                Action::Stop,
            ),
            _ => (Stage::Greeting, Action::Wait),
        },
        Stage::Locating { node_id, cols, rows } => match event {
            Event::Agent(Some(id)) => {
                let frame = open_frame(id.as_str(), cols, rows);
                proof {
                    if in_bounds(stage, event) {
                        control_frames_fit(id@, cols, rows);
                    }
                }
                let terminal_id = id.clone();
                (Stage::Opening { terminal_id: id }, Action::Open { terminal_id, node_id, frame })
            },
            Event::Agent(None) => (Stage::Over, Action::Refuse(notice(NODE_OFFLINE))),
            _ => (Stage::Locating { node_id, cols, rows }, Action::Wait),
        },
        Stage::Opening { terminal_id } => match event {
            Event::AgentSent(true) => (Stage::Live { terminal_id }, Action::Wait),
            Event::AgentSent(false) => (
                Stage::Over,
                Action::Abandon { terminal_id, notice: notice(NODE_GONE) },
            ),
            _ => (Stage::Opening { terminal_id }, Action::Wait),
        },
        Stage::Live { terminal_id } => live_step(terminal_id, event),
        Stage::Forwarding { terminal_id } => match event {
            Event::AgentSent(true) => (Stage::Live { terminal_id }, Action::Wait),
            Event::AgentSent(false) => close(terminal_id),
            _ => (Stage::Forwarding { terminal_id }, Action::Wait),
        },
        Stage::Showing { terminal_id, last } => match event {
            Event::BrowserSent(sent) => {
                if sent && !last {
                    (Stage::Live { terminal_id }, Action::Wait)
                } else {
                    close(terminal_id)
                }
            },
            _ => (Stage::Showing { terminal_id, last }, Action::Wait),
        },
        Stage::Over => (Stage::Over, Action::Wait),
    }
}

// ---------------------------------------------------------------------------
// Laws of terminal sessions
// ---------------------------------------------------------------------------

/// A session from its beginning: each event takes a stage to the next and asks
/// for an action.
pub open spec fn is_session(
    stages: Seq<Stage>,
    events: Seq<Event>,
    actions: Seq<Action>,
) -> bool {
    &&& stages.len() == events.len() + 1
    &&& actions.len() == events.len()
    &&& stages[0] is Greeting
    &&& forall|i: int| #![trigger events[i]]
        0 <= i < events.len() ==> steps(stages[i], events[i], stages[i + 1], actions[i])
}

/// The terminal that is open at a stage.
pub open spec fn open_at(stage: Stage) -> Option<Seq<char>> {
    match stage {
        Stage::Opening { terminal_id } => Some(terminal_id@),
        Stage::Live { terminal_id } => Some(terminal_id@),
        Stage::Forwarding { terminal_id } => Some(terminal_id@),
        Stage::Showing { terminal_id, .. } => Some(terminal_id@),
        Stage::Greeting | Stage::Locating { .. } | Stage::Over => None,
    }
}

/// The action takes the terminal out of the registry.
pub open spec fn releases(action: Action, id: Seq<char>) -> bool {
    match action {
        Action::Close { terminal_id, .. } => terminal_id@ == id,
        Action::Abandon { terminal_id, .. } => terminal_id@ == id,
        _ => false,
    }
}

/// A step opens a terminal, keeps the open terminal open, or releases it; it
/// does nothing else to terminals.
pub proof fn step_keeps_track(stage: Stage, event: Event, next: Stage, action: Action)
    requires
        steps(stage, event, next, action),
    ensures
        open_at(stage) is None && open_at(next) is Some ==> (action matches Action::Open {
            terminal_id,
            ..
        } && open_at(next) == Some(terminal_id@)),
        open_at(stage) matches Some(id) ==> open_at(next) == Some(id) || (next is Over && releases(
            action,
            id,
        )),
        action is Open ==> open_at(stage) is None && open_at(next) is Some,
        action is ToAgent ==> open_at(stage) is Some,
        action is ToBrowser ==> open_at(stage) is Some,
{
}

proof fn open_until_released(
    stages: Seq<Stage>,
    events: Seq<Event>,
    actions: Seq<Action>,
    i: int,
    n: int,
    id: Seq<char>,
)
    requires
        is_session(stages, events, actions),
        0 <= i <= n <= events.len(),
        open_at(stages[i]) == Some(id),
    ensures
        open_at(stages[n]) == Some(id) || exists|j: int|
            i <= j < n && releases(#[trigger] actions[j], id),
    decreases n - i,
{
    if i < n {
        assert(steps(stages[i], events[i], stages[i + 1], actions[i]));
        step_keeps_track(stages[i], events[i], stages[i + 1], actions[i]);
        if open_at(stages[i + 1]) == Some(id) {
            open_until_released(stages, events, actions, i + 1, n, id);
        } else {
            assert(releases(actions[i], id));
        }
    }
}

/// A session that is over has released the terminal that it opened: no
/// terminal is left behind in the registry.
pub proof fn opened_terminal_is_released(
    stages: Seq<Stage>,
    events: Seq<Event>,
    actions: Seq<Action>,
    i: int,
)
    requires
        is_session(stages, events, actions),
        0 <= i < events.len(),
        actions[i] is Open,
        stages.last() is Over,
    ensures
        exists|j: int|
            i < j < actions.len() && releases(
                #[trigger] actions[j],
                actions[i]->Open_terminal_id@,
            ),
{
    assert(steps(stages[i], events[i], stages[i + 1], actions[i]));
    step_keeps_track(stages[i], events[i], stages[i + 1], actions[i]);
    let id = actions[i]->Open_terminal_id@;
    let n = events.len() as int;
    open_until_released(stages, events, actions, i + 1, n, id);
}

proof fn locating_size_ok(stages: Seq<Stage>, events: Seq<Event>, actions: Seq<Action>, i: int)
    requires
        is_session(stages, events, actions),
        0 <= i <= events.len(),
    ensures
        stages[i] matches Stage::Locating { cols, rows, .. } ==> size_ok(cols, rows),
    decreases i,
{
    if i > 0 {
        locating_size_ok(stages, events, actions, i - 1);
        assert(steps(stages[i - 1], events[i - 1], stages[i], actions[i - 1]));
    }
}

/// An agent is only ever asked to open a terminal of an allowed size.
pub proof fn opened_size_is_ok(
    stages: Seq<Stage>,
    events: Seq<Event>,
    actions: Seq<Action>,
    i: int,
)
    requires
        is_session(stages, events, actions),
        0 <= i < events.len(),
        actions[i] is Open,
    ensures
        exists|cols: u32, rows: u32| #[trigger]
            size_ok(cols, rows) && actions[i]->Open_frame@ == open_text(
                actions[i]->Open_terminal_id@,
                cols as nat,
                rows as nat,
            ),
{
    locating_size_ok(stages, events, actions, i);
    assert(steps(stages[i], events[i], stages[i + 1], actions[i]));
    let cols = stages[i]->Locating_cols;
    let rows = stages[i]->Locating_rows;
    assert(size_ok(cols, rows));
}

proof fn open_name_is_short(stages: Seq<Stage>, events: Seq<Event>, actions: Seq<Action>, i: int)
    requires
        is_session(stages, events, actions),
        forall|k: int| 0 <= k < events.len() ==> (#[trigger] events[k] matches Event::Agent(Some(id))
            ==> id@.len() <= MAX_TERMINAL_ID),
        0 <= i <= events.len(),
    ensures
        open_at(stages[i]) matches Some(id) ==> id.len() <= MAX_TERMINAL_ID,
    decreases i,
{
    if i > 0 {
        open_name_is_short(stages, events, actions, i - 1);
        assert(steps(stages[i - 1], events[i - 1], stages[i], actions[i - 1]));
        step_keeps_track(stages[i - 1], events[i - 1], stages[i], actions[i - 1]);
    }
}

/// A session whose terminals get names as short as `agent_found` gives them
/// keeps the bounds within which every frame for the agent fits.
pub proof fn session_stays_in_bounds(
    stages: Seq<Stage>,
    events: Seq<Event>,
    actions: Seq<Action>,
    i: int,
)
    requires
        is_session(stages, events, actions),
        forall|k: int| 0 <= k < events.len() ==> (#[trigger] events[k] matches Event::Agent(Some(id))
            ==> id@.len() <= MAX_TERMINAL_ID),
        0 <= i < events.len(),
    ensures
        in_bounds(stages[i], events[i]),
{
    locating_size_ok(stages, events, actions, i);
    open_name_is_short(stages, events, actions, i);
    assert(events[i] matches Event::Agent(Some(id)) ==> id@.len() <= MAX_TERMINAL_ID);
}

/// Nothing that an operator types after being signed out reaches an agent: a
/// text frame then closes the terminal, and so does the regular check.
pub proof fn signed_out_operator_is_cut_off(
    terminal_id: String,
    event: Event,
    next: Stage,
    action: Action,
)
    requires
        steps(Stage::Live { terminal_id }, event, next, action),
        event matches Event::Text { authed: false, .. } || event == (Event::Tick { authed: false }),
    ensures
        closes(terminal_id@, next, action),
{
}

/// Every frame that an open terminal sends to its agent names that terminal.
pub proof fn frames_name_their_terminal(
    terminal_id: String,
    event: Event,
    next: Stage,
    action: Action,
)
    requires
        steps(Stage::Live { terminal_id }, event, next, action),
        action is ToAgent,
    ensures
        terminal_of(action->ToAgent_0@) == Some(terminal_id@),
{
}

/// A frame that says that the terminal ended or failed is shown to the browser
/// and is the last: whether or not it could be sent, the terminal is closed.
pub proof fn final_frame_closes(
    terminal_id: String,
    text: String,
    sent: bool,
    showing: Stage,
    shown: Action,
    next: Stage,
    action: Action,
)
    requires
        is_final(text@),
        steps(Stage::Live { terminal_id }, Event::Output(Some(text)), showing, shown),
        steps(showing, Event::BrowserSent(sent), next, action),
    ensures
        shown == Action::ToBrowser(text),
        closes(terminal_id@, next, action),
{
}

/// What browsers are told when their node goes away is such a frame.
pub proof fn node_gone_is_final(before: Terminals, after: Terminals, node_id: i64, k: int)
    requires
        disconnected(before, after, node_id),
        before.sent.len() <= k < after.sent.len(),
    ensures
        is_final(after.sent[k].message),
{
    let (ids, offers) = choose|ids: Seq<Seq<char>>, offers: Seq<Offer>|
        names_node(before.routes, node_id, ids) && #[trigger] farewells(
            before.routes,
            ids,
            offers,
        ) && after.sent == before.sent + offers;
    assert(after.sent[k] == offers[k - before.sent.len()]);
}

} // verus!
