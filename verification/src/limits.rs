//! How long the frames for an agent can get.

use crate::frames::{close_text, input_text, open_text, resize_text, rpc_text};
use crate::frames::{CLOSE, INPUT, OPEN, RESIZE};
use crate::json::{decimal, escaped, escaped_text, joined, object_text, string_text};
use crate::terminal::{
    byte_len, relayed, size_ok, ClientMessage, MAX_AGENT_FRAME, MAX_INPUT, MAX_TERMINAL_ID,
};
use crate::token::is_hex_digit;
use vstd::prelude::*;
use vstd::utf8::{is_ascii_chars, is_ascii_chars_encode_utf8};

verus! {

proof fn byte_len_add(a: Seq<char>, b: Seq<char>)
    ensures
        byte_len(a + b) == byte_len(a) + byte_len(b),
    decreases a.len(),
{
    if a.len() == 0 {
        assert(a + b =~= b);
    } else {
        byte_len_add(a.drop_first(), b);
        assert((a + b).drop_first() =~= a.drop_first() + b);
        assert((a + b)[0] == a[0]);
    }
}

/// A character takes one to four bytes.
pub proof fn byte_len_bounds(s: Seq<char>)
    ensures
        s.len() <= byte_len(s) <= 4 * s.len(),
    decreases s.len(),
{
    if s.len() > 0 {
        byte_len_bounds(s.drop_first());
    }
}

proof fn byte_len_ascii(s: Seq<char>)
    requires
        is_ascii_chars(s),
    ensures
        byte_len(s) == s.len(),
{
    is_ascii_chars_encode_utf8(s);
}

proof fn escaped_len(c: char)
    ensures
        byte_len(escaped(c)) <= 6,
{
    if escaped(c).len() == 1 {
        byte_len_bounds(escaped(c));
    } else {
        byte_len_ascii(escaped(c));
    }
}

proof fn escaped_text_len(s: Seq<char>)
    ensures
        byte_len(escaped_text(s)) <= 6 * s.len(),
    decreases s.len(),
{
    if s.len() > 0 {
        escaped_len(s[0]);
        escaped_text_len(s.skip(1));
        byte_len_add(escaped(s[0]), escaped_text(s.skip(1)));
    }
}

/// Inside JSON a character takes at most six bytes.
pub proof fn string_text_len(s: Seq<char>)
    ensures
        byte_len(string_text(s)) <= 6 * s.len() + 2,
{
    let q = seq!['"'];
    byte_len_ascii(q);
    escaped_text_len(s);
    byte_len_add(q, escaped_text(s));
    byte_len_add(q + escaped_text(s), q);
}

spec fn total(items: Seq<Seq<char>>) -> nat
    decreases items.len(),
{
    if items.len() == 0 {
        0
    } else {
        byte_len(items[0]) + 1 + total(items.skip(1))
    }
}

proof fn joined_len(items: Seq<Seq<char>>)
    ensures
        byte_len(joined(items)) <= total(items),
    decreases items.len(),
{
    if items.len() == 1 {
    } else if items.len() > 1 {
        let c = seq![','];
        byte_len_ascii(c);
        joined_len(items.skip(1));
        byte_len_add(items[0], c);
        byte_len_add(items[0] + c, joined(items.skip(1)));
    }
}

/// The members with their names, as bytes and punctuation.
spec fn weight(members: Seq<(Seq<char>, Seq<char>)>) -> nat
    decreases members.len(),
{
    if members.len() == 0 {
        0
    } else {
        6 * members[0].0.len() + 4 + byte_len(members[0].1) + weight(members.skip(1))
    }
}

proof fn members_len(members: Seq<(Seq<char>, Seq<char>)>)
    ensures
        total(
            members.map_values(|m: (Seq<char>, Seq<char>)| string_text(m.0) + seq![':'] + m.1),
        ) <= weight(members),
    decreases members.len(),
{
    let f = |m: (Seq<char>, Seq<char>)| string_text(m.0) + seq![':'] + m.1;
    if members.len() > 0 {
        let c = seq![':'];
        let m = members[0];
        byte_len_ascii(c);
        string_text_len(m.0);
        byte_len_add(string_text(m.0), c);
        byte_len_add(string_text(m.0) + c, m.1);
        members_len(members.skip(1));
        assert(members.map_values(f).skip(1) =~= members.skip(1).map_values(f));
    }
}

proof fn object_len(members: Seq<(Seq<char>, Seq<char>)>)
    ensures
        byte_len(object_text(members)) <= weight(members) + 2,
{
    let f = |m: (Seq<char>, Seq<char>)| string_text(m.0) + seq![':'] + m.1;
    let a = seq!['{'];
    let b = seq!['}'];
    let inner = joined(members.map_values(f));
    byte_len_ascii(a);
    byte_len_ascii(b);
    members_len(members);
    joined_len(members.map_values(f));
    byte_len_add(a, inner);
    byte_len_add(a + inner, b);
}

proof fn weight_one(m: (Seq<char>, Seq<char>))
    ensures
        weight(seq![m]) == 6 * m.0.len() + 4 + byte_len(m.1),
{
    reveal_with_fuel(weight, 2);
    assert(seq![m].skip(1) =~= Seq::empty());
}

proof fn weight_two(m: (Seq<char>, Seq<char>), n: (Seq<char>, Seq<char>))
    ensures
        weight(seq![m, n]) == 6 * (m.0.len() + n.0.len()) + 8 + byte_len(m.1) + byte_len(n.1),
{
    weight_one(n);
    assert(seq![m, n].skip(1) =~= seq![n]);
}

proof fn weight_three(
    m: (Seq<char>, Seq<char>),
    n: (Seq<char>, Seq<char>),
    o: (Seq<char>, Seq<char>),
)
    ensures
        weight(seq![m, n, o]) == 6 * (m.0.len() + n.0.len() + o.0.len()) + 12 + byte_len(m.1)
            + byte_len(n.1) + byte_len(o.1),
{
    weight_two(n, o);
    assert(seq![m, n, o].skip(1) =~= seq![n, o]);
}

proof fn rpc_len(method: Seq<char>, params: Seq<(Seq<char>, Seq<char>)>)
    requires
        method.len() <= 16,
    ensures
        byte_len(rpc_text(method, object_text(params))) <= weight(params) + 300,
{
    reveal_strlit("jsonrpc");
    reveal_strlit("2.0");
    reveal_strlit("method");
    reveal_strlit("params");
    let m = ("jsonrpc"@, string_text("2.0"@));
    let n = ("method"@, string_text(method));
    let o = ("params"@, object_text(params));
    string_text_len("2.0"@);
    string_text_len(method);
    object_len(params);
    weight_three(m, n, o);
    object_len(seq![m, n, o]);
}

proof fn decimal_len(n: nat)
    requires
        n < 1000,
    ensures
        byte_len(decimal(n)) <= 12,
{
    reveal_with_fuel(decimal, 3);
    assert(decimal(n).len() <= 3);
    byte_len_bounds(decimal(n));
}

/// An input frame fits into what an agent takes, even where the input is made
/// of control characters alone, of which JSON makes six bytes each.
pub proof fn input_frame_fits(id: Seq<char>, data: Seq<char>)
    requires
        id.len() <= MAX_TERMINAL_ID,
        data.len() <= MAX_INPUT,
    ensures
        byte_len(input_text(id, data)) <= MAX_AGENT_FRAME,
{
    reveal_strlit("terminal.input");
    reveal_strlit("data");
    reveal_strlit("terminal_id");
    string_text_len(id);
    string_text_len(data);
    weight_two(("data"@, string_text(data)), ("terminal_id"@, string_text(id)));
    rpc_len(INPUT@, seq![("data"@, string_text(data)), ("terminal_id"@, string_text(id))]);
}

/// The frames that open, resize and close a terminal fit as well.
pub proof fn control_frames_fit(id: Seq<char>, cols: u32, rows: u32)
    requires
        id.len() <= MAX_TERMINAL_ID,
        size_ok(cols, rows),
    ensures
        byte_len(open_text(id, cols as nat, rows as nat)) <= MAX_AGENT_FRAME,
        byte_len(resize_text(id, cols as nat, rows as nat)) <= MAX_AGENT_FRAME,
        byte_len(close_text(id)) <= MAX_AGENT_FRAME,
{
    reveal_strlit("terminal.open");
    reveal_strlit("terminal.resize");
    reveal_strlit("terminal.close");
    reveal_strlit("cols");
    reveal_strlit("rows");
    reveal_strlit("terminal_id");
    let c = ("cols"@, decimal(cols as nat));
    let r = ("rows"@, decimal(rows as nat));
    let t = ("terminal_id"@, string_text(id));
    decimal_len(cols as nat);
    decimal_len(rows as nat);
    string_text_len(id);
    weight_three(c, r, t);
    weight_one(t);
    rpc_len(OPEN@, seq![c, r, t]);
    rpc_len(RESIZE@, seq![c, r, t]);
    rpc_len(CLOSE@, seq![t]);
}

/// Whatever a browser says, the frame that it becomes fits.
pub proof fn relayed_frame_fits(id: Seq<char>, message: ClientMessage)
    requires
        id.len() <= MAX_TERMINAL_ID,
        relayed(id, message) is Some,
    ensures
        byte_len(relayed(id, message)->0) <= MAX_AGENT_FRAME,
{
    match message {
        ClientMessage::Input { data } => {
            byte_len_bounds(data@);
            input_frame_fits(id, data@);
        },
        ClientMessage::Resize { cols, rows } => {
            control_frames_fit(id, cols, rows);
        },
        ClientMessage::Connect { .. } => {},
    }
}

/// A random token is short enough to name a terminal: what an agent says of a
/// terminal that the hub named so is not dropped for the length of its name.
pub proof fn token_names_terminal(token: Seq<char>)
    requires
        token.len() == 64,
        forall|i: int| 0 <= i < token.len() ==> is_hex_digit(#[trigger] token[i]),
    ensures
        byte_len(token) <= MAX_TERMINAL_ID,
{
    byte_len_ascii(token);
}

} // verus!
