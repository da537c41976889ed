//! The terminals that are open, and the browser behind each.

use crate::channel::{Book, Channel, Offer};
use crate::frames::{error_frame, error_json, error_text, method_of, ERROR};
use crate::json::json_of;
use crate::text::same_text;
use tokio::sync::mpsc::Sender;
use vstd::prelude::*;

verus! {

/// What a browser is told when its node goes away.
pub const NODE_GONE: &'static str = "节点连接已断开";

// ---------------------------------------------------------------------------
// What the registry says
// ---------------------------------------------------------------------------

/// Where a terminal leads: the node it runs on and the browser it shows in.
pub struct Route {
    pub node_id: i64,
    pub browser: Sender<String>,
}

/// The terminal is open and runs on this node.
pub open spec fn runs_on(routes: Map<Seq<char>, Route>, id: Seq<char>, node_id: i64) -> bool {
    routes.contains_key(id) && routes[id].node_id == node_id
}

/// The terminals that do not run on this node.
pub open spec fn without_node(
    routes: Map<Seq<char>, Route>,
    node_id: i64,
) -> Map<Seq<char>, Route> {
    Map::new(
        |id: Seq<char>| routes.contains_key(id) && routes[id].node_id != node_id,
        |id: Seq<char>| routes[id],
    )
}

/// What a registry holds: where each open terminal leads, and all that was put
/// to browsers through it, in order.
#[verifier::ext_equal]
pub struct Terminals {
    pub routes: Map<Seq<char>, Route>,
    pub sent: Seq<Offer>,
}

/// A node says `message` to the browser of a terminal. Where the terminal does
/// not run on the node nothing happens. Where it does, the message is put to
/// its browser, once and to no other, and the terminal is closed if it was not
/// taken.
pub open spec fn routed(
    before: Terminals,
    after: Terminals,
    id: Seq<char>,
    node_id: i64,
    message: Seq<char>,
    closed: bool,
) -> bool {
    if runs_on(before.routes, id, node_id) {
        &&& after.routes == (if closed {
            before.routes.remove(id)
        } else {
            before.routes
        })
        &&& after.sent == before.sent.push(
            Offer { to: before.routes[id].browser, message, taken: !closed },
        )
    } else {
        !closed && after == before
    }
}

/// The names are those of the terminals on a node, each once.
pub open spec fn names_node(
    routes: Map<Seq<char>, Route>,
    node_id: i64,
    ids: Seq<Seq<char>>,
) -> bool {
    &&& ids.no_duplicates()
    &&& forall|id: Seq<char>| #[trigger] ids.contains(id) <==> runs_on(routes, id, node_id)
}

/// Each of the terminals' browsers was put one frame, which ends its terminal
/// because the node is gone.
pub open spec fn farewells(
    routes: Map<Seq<char>, Route>,
    ids: Seq<Seq<char>>,
    offers: Seq<Offer>,
) -> bool {
    &&& offers.len() == ids.len()
    &&& forall|k: int| #![trigger offers[k]]
        0 <= k < offers.len() ==> offers[k].to == routes[ids[k]].browser && offers[k].message
            == error_text(ids[k], NODE_GONE@) && method_of(offers[k].message) == Some(ERROR@)
            && json_of(offers[k].message) == Some(error_json(ids[k], NODE_GONE@))
}

/// A node went away: its terminals are closed, the browser of each was told so
/// once, in whatever order, and no other was told anything.
pub open spec fn disconnected(before: Terminals, after: Terminals, node_id: i64) -> bool {
    &&& after.routes == without_node(before.routes, node_id)
    &&& exists|ids: Seq<Seq<char>>, offers: Seq<Offer>|
        names_node(before.routes, node_id, ids) && #[trigger] farewells(
            before.routes,
            ids,
            offers,
        ) && after.sent == before.sent + offers
}

struct Entry {
    id: String,
    node_id: i64,
    channel: Channel,
}

/// The terminals that are open.
pub struct Registry {
    entries: Vec<Entry>,
    book: Book,
}

spec fn route_of(entry: Entry) -> Route {
    Route { node_id: entry.node_id, browser: entry.channel.to() }
}

spec fn recorded(entries: Seq<Entry>, book: int) -> bool {
    forall|i: int| 0 <= i < entries.len() ==> (#[trigger] entries[i]).channel.book() == book
}

spec fn routes_of(entries: Seq<Entry>) -> Map<Seq<char>, Route>
    decreases entries.len(),
{
    if entries.len() == 0 {
        Map::empty()
    } else {
        routes_of(entries.drop_last()).insert(entries.last().id@, route_of(entries.last()))
    }
}

spec fn distinct(entries: Seq<Entry>) -> bool {
    forall|i: int, j: int| #![trigger entries[i], entries[j]]
        0 <= i < j < entries.len() ==> entries[i].id@ != entries[j].id@
}

proof fn routes_of_entry(entries: Seq<Entry>, i: int)
    requires
        distinct(entries),
        0 <= i < entries.len(),
    ensures
        routes_of(entries).contains_key(entries[i].id@),
        routes_of(entries)[entries[i].id@] == route_of(entries[i]),
    decreases entries.len(),
{
    let before = entries.drop_last();
    if i < entries.len() - 1 {
        assert(before[i] == entries[i]);
        assert(entries[i].id@ != entries[entries.len() - 1].id@);
        assert(distinct(before)) by {
            assert forall|i: int, j: int| #![trigger before[i], before[j]]
                0 <= i < j < before.len() implies before[i].id@ != before[j].id@ by {
                assert(entries[i].id@ != entries[j].id@);
            }
        }
        routes_of_entry(before, i);
    }
}

proof fn routes_of_key(entries: Seq<Entry>, id: Seq<char>)
    requires
        routes_of(entries).contains_key(id),
    ensures
        exists|i: int| 0 <= i < entries.len() && (#[trigger] entries[i]).id@ == id,
    decreases entries.len(),
{
    if entries.last().id@ == id {
        assert(entries[entries.len() - 1].id@ == id);
    } else {
        let before = entries.drop_last();
        routes_of_key(before, id);
        let i = choose|i: int| 0 <= i < before.len() && (#[trigger] before[i]).id@ == id;
        assert(entries[i].id@ == id);
    }
}

impl View for Registry {
    type V = Terminals;

    closed spec fn view(&self) -> Terminals {
        Terminals { routes: routes_of(self.entries@), sent: self.book.sent() }
    }
}

impl Registry {
    #[verifier::type_invariant]
    spec fn one_entry_each(self) -> bool {
        distinct(self.entries@) && recorded(self.entries@, self.book.id())
    }

    /// No terminal is open and nothing was sent.
    pub fn new() -> (r: Self)
        ensures
            r@ == (Terminals { routes: Map::empty(), sent: Seq::empty() }),
    {
        Registry { entries: Vec::new(), book: Book::new() }
    }

    /// The place of a terminal, or the number of terminals.
    fn place(&self, id: &str) -> (r: usize)
        ensures
            r <= self.entries@.len(),
            r < self.entries@.len() ==> self.entries@[r as int].id@ == id@,
            r == self.entries@.len() ==> forall|j: int|
                0 <= j < self.entries@.len() ==> (#[trigger] self.entries@[j]).id@ != id@,
            self@.routes.contains_key(id@) <==> r < self.entries@.len(),
            r < self.entries@.len() ==> self@.routes[id@] == route_of(self.entries@[r as int]),
    {
        proof {
            use_type_invariant(self);
        }
        let mut i: usize = 0;
        while i < self.entries.len()
            invariant
                i <= self.entries@.len(),
                distinct(self.entries@),
                forall|j: int| 0 <= j < i ==> (#[trigger] self.entries@[j]).id@ != id@,
            decreases self.entries@.len() - i,
        {
            if same_text(self.entries[i].id.as_str(), id) {
                proof {
                    routes_of_entry(self.entries@, i as int);
                }
                return i;
            }
            i += 1;
        }
        proof {
            if self@.routes.contains_key(id@) {
                routes_of_key(self.entries@, id@);
            }
        }
        self.entries.len()
    }

    /// Closes a terminal.
    pub fn remove(&mut self, id: &str)
        ensures
            final(self)@ == (Terminals { routes: old(self)@.routes.remove(id@), ..old(self)@ }),
    {
        proof {
            use_type_invariant(&*self);
        }
        let i: usize = self.place(id);
        if i < self.entries.len() {
            let ghost before = self.entries@;
            let mut entries: Vec<Entry> = Vec::new();
            std::mem::swap(&mut entries, &mut self.entries);
            let _ = entries.remove(i);
            proof {
                removed(before, i as int);
            }
            self.entries = entries;
        } else {
            assert(self@.routes.remove(id@) =~= self@.routes);
        }
    }

    /// Opens a terminal on a node for a browser; one that had this name before
    /// is replaced.
    pub fn insert(&mut self, id: String, node_id: i64, browser: Sender<String>)
        ensures
            final(self)@ == (Terminals {
                routes: old(self)@.routes.insert(id@, Route { node_id, browser }),
                ..old(self)@
            }),
    {
        self.remove(id.as_str());
        proof {
            use_type_invariant(&*self);
        }
        let ghost before = self.entries@;
        let ghost routes = old(self)@.routes;
        let mut entries: Vec<Entry> = Vec::new();
        std::mem::swap(&mut entries, &mut self.entries);
        let channel = Channel::new(browser, &self.book);
        entries.push(Entry { id, node_id, channel });
        proof {
            assert(entries@.drop_last() == before);
            assert forall|i: int, j: int| #![trigger entries@[i], entries@[j]]
                0 <= i < j < entries@.len() implies entries@[i].id@ != entries@[j].id@ by {
                if j == before.len() {
                    routes_of_entry(before, i);
                } else {
                    assert(before[i].id@ != before[j].id@);
                }
            }
            assert(routes.remove(id@).insert(id@, Route { node_id, browser }) =~= routes.insert(
                id@,
                Route { node_id, browser },
            ));
        }
        self.entries = entries;
    }
}

proof fn removed(entries: Seq<Entry>, i: int)
    requires
        distinct(entries),
        0 <= i < entries.len(),
    ensures
        distinct(entries.remove(i)),
        routes_of(entries.remove(i)) == routes_of(entries).remove(entries[i].id@),
    decreases entries.len(),
{
    let rest = entries.remove(i);
    assert forall|a: int, b: int| #![trigger rest[a], rest[b]]
        0 <= a < b < rest.len() implies rest[a].id@ != rest[b].id@ by {
        let x = if a < i { a } else { a + 1 };
        let y = if b < i { b } else { b + 1 };
        assert(entries[x].id@ != entries[y].id@);
    }
    let before = entries.drop_last();
    assert forall|a: int, b: int| #![trigger before[a], before[b]]
        0 <= a < b < before.len() implies before[a].id@ != before[b].id@ by {
        assert(entries[a].id@ != entries[b].id@);
    }
    if i == entries.len() - 1 {
        assert(rest == before);
        if routes_of(before).contains_key(entries[i].id@) {
            routes_of_key(before, entries[i].id@);
            let k = choose|k: int|
                0 <= k < before.len() && (#[trigger] before[k]).id@ == entries[i].id@;
            assert(entries[k].id@ != entries[i].id@);
        }
        assert(routes_of(rest) =~= routes_of(entries).remove(entries[i].id@));
    } else {
        removed(before, i);
        assert(rest.drop_last() == before.remove(i));
        assert(rest.last() == entries.last());
        assert(entries[i].id@ != entries[entries.len() - 1].id@);
        assert(routes_of(rest) =~= routes_of(entries).remove(entries[i].id@));
    }
}

impl Registry {
    /// Whether a terminal is open and runs on this node.
    pub fn is_open_on(&self, id: &str, node_id: i64) -> (r: bool)
        ensures
            r == runs_on(self@.routes, id@, node_id),
    {
        let i: usize = self.place(id);
        i < self.entries.len() && self.entries[i].node_id == node_id
    }

    /// Takes note of whether a message from a node reached the browser of a
    /// terminal. One that stops reading is closed, and `true` says so.
    pub fn settle(&mut self, id: &str, node_id: i64, delivered: bool) -> (r: bool)
        ensures
            r == (runs_on(old(self)@.routes, id@, node_id) && !delivered),
            final(self)@ == (Terminals {
                routes: if r {
                    old(self)@.routes.remove(id@)
                } else {
                    old(self)@.routes
                },
                ..old(self)@
            }),
    {
        if !delivered && self.is_open_on(id, node_id) {
            self.remove(id);
            true
        } else {
            false
        }
    }

    /// Hands a message from a node to the browser of a terminal on it. `true`
    /// says that the browser did not take it and that the terminal was closed.
    pub fn route(&mut self, id: &str, node_id: i64, message: &str) -> (r: bool)
        ensures
            routed(old(self)@, final(self)@, id@, node_id, message@, r),
    {
        if !self.is_open_on(id, node_id) {
            return false;
        }
        proof {
            use_type_invariant(&*self);
        }
        let i: usize = self.place(id);
        let mut entries: Vec<Entry> = Vec::new();
        std::mem::swap(&mut entries, &mut self.entries);
        let mut book = Book::new();
        std::mem::swap(&mut book, &mut self.book);
        let delivered: bool = entries[i].channel.hand(&mut book, message.to_owned());
        self.book = book;
        self.entries = entries;
        self.settle(id, node_id, delivered)
    }

    /// Closes the terminals on a node whose connection is gone and tells the
    /// browser of each, as far as it listens, that the terminal ended.
    pub fn disconnect_node(&mut self, node_id: i64)
        ensures
            disconnected(old(self)@, final(self)@, node_id),
    {
        proof {
            use_type_invariant(&*self);
        }
        let ghost start = self@;
        let mut entries: Vec<Entry> = Vec::new();
        std::mem::swap(&mut entries, &mut self.entries);
        let mut book = Book::new();
        std::mem::swap(&mut book, &mut self.book);
        let ghost mut ids: Seq<Seq<char>> = Seq::empty();
        let ghost mut offers: Seq<Offer> = Seq::empty();
        let mut i: usize = 0;
        assert(start.sent + offers =~= start.sent);
        while i < entries.len()
            invariant
                i <= entries@.len(),
                distinct(entries@),
                recorded(entries@, book.id()),
                forall|j: int| 0 <= j < i ==> (#[trigger] entries@[j]).node_id != node_id,
                forall|id: Seq<char>| #[trigger]
                    routes_of(entries@).contains_key(id) <==> start.routes.contains_key(id)
                        && !ids.contains(id),
                forall|id: Seq<char>|
                    routes_of(entries@).contains_key(id) ==> #[trigger] routes_of(entries@)[id]
                        == start.routes[id],
                ids.no_duplicates(),
                forall|id: Seq<char>| #[trigger]
                    ids.contains(id) ==> runs_on(start.routes, id, node_id),
                farewells(start.routes, ids, offers),
                book.sent() == start.sent + offers,
            decreases entries@.len() - i,
        {
            if entries[i].node_id == node_id {
                let ghost before = entries@;
                let ghost told = ids;
                let ghost said = offers;
                proof {
                    removed(before, i as int);
                    routes_of_entry(before, i as int);
                }
                let entry = entries.remove(i);
                let message = error_frame(entry.id.as_str(), NODE_GONE);
                let ghost text = message@;
                let taken: bool = entry.channel.hand(&mut book, message);
                proof {
                    let id = entry.id@;
                    ids = told.push(id);
                    offers = said.push(Offer { to: entry.channel.to(), message: text, taken });
                    assert forall|x: Seq<char>| #[trigger]
                        ids.contains(x) <==> told.contains(x) || x == id by {
                        if told.contains(x) {
                            assert(ids[told.index_of(x)] == x);
                        }
                        assert(ids[told.len() as int] == id);
                    }
                    assert(!told.contains(id));
                    assert forall|k: int| #![trigger offers[k]]
                        0 <= k < offers.len() implies offers[k].to
                        == start.routes[ids[k]].browser && offers[k].message == error_text(
                        ids[k],
                        NODE_GONE@,
                    ) && method_of(offers[k].message) == Some(ERROR@) && json_of(offers[k].message)
                        == Some(error_json(ids[k], NODE_GONE@)) by {
                        if k < said.len() {
                            assert(offers[k] == said[k]);
                        }
                    }
                    assert(start.sent + said.push(offers.last()) =~= (start.sent + said).push(
                        offers.last(),
                    ));
                }
            } else {
                i += 1;
            }
        }
        proof {
            assert forall|id: Seq<char>| #[trigger] routes_of(entries@).contains_key(id) implies
                start.routes[id].node_id != node_id by {
                routes_of_key(entries@, id);
                let k = choose|k: int| 0 <= k < entries@.len() && (#[trigger] entries@[k]).id@ == id;
                routes_of_entry(entries@, k);
            }
            assert forall|id: Seq<char>| #[trigger] ids.contains(id) <==> runs_on(
                start.routes,
                id,
                node_id,
            ) by {
                if runs_on(start.routes, id, node_id) && !ids.contains(id) {
                    assert(routes_of(entries@).contains_key(id));
                }
            }
            assert(routes_of(entries@) =~= without_node(start.routes, node_id));
        }
        self.book = book;
        self.entries = entries;
    }
}

impl Default for Registry {
    fn default() -> (r: Self)
        ensures
            r@ == (Terminals { routes: Map::empty(), sent: Seq::empty() }),
    {
        Registry::new()
    }
}

// ---------------------------------------------------------------------------
// Laws of the registry
// ---------------------------------------------------------------------------

/// A node has no hold on the terminals of another: neither its messages nor
/// the end of its connection closes a terminal that runs elsewhere.
pub proof fn other_nodes_terminals_untouched(
    before: Terminals,
    after: Terminals,
    id: Seq<char>,
    node_id: i64,
    message: Seq<char>,
    closed: bool,
    other: Seq<char>,
)
    requires
        routed(before, after, id, node_id, message, closed) || disconnected(before, after, node_id),
        before.routes.contains_key(other),
        before.routes[other].node_id != node_id,
    ensures
        after.routes.contains_key(other),
        after.routes[other] == before.routes[other],
{
}

/// Nor does another terminal's browser hear of it: whatever a node says, and
/// when it goes away, all that is sent goes to browsers of its own terminals,
/// and what was sent before stays as it is.
pub proof fn only_own_browsers_are_told(
    before: Terminals,
    after: Terminals,
    id: Seq<char>,
    node_id: i64,
    message: Seq<char>,
    closed: bool,
    k: int,
)
    requires
        routed(before, after, id, node_id, message, closed) || disconnected(before, after, node_id),
        0 <= k < after.sent.len(),
    ensures
        before.sent.len() <= after.sent.len(),
        k < before.sent.len() ==> after.sent[k] == before.sent[k],
        k >= before.sent.len() ==> exists|own: Seq<char>| #[trigger]
            runs_on(before.routes, own, node_id) && after.sent[k].to
                == before.routes[own].browser,
{
    if !routed(before, after, id, node_id, message, closed) {
        let (ids, offers) = choose|ids: Seq<Seq<char>>, offers: Seq<Offer>|
            names_node(before.routes, node_id, ids) && #[trigger] farewells(
                before.routes,
                ids,
                offers,
            ) && after.sent == before.sent + offers;
        if k >= before.sent.len() {
            let j = k - before.sent.len();
            assert(after.sent[k] == offers[j]);
            assert(ids.contains(ids[j]));
        }
    } else if k >= before.sent.len() {
        assert(runs_on(before.routes, id, node_id));
    }
}

/// A node that has no terminal is heard by nobody.
pub proof fn stranger_is_not_heard(
    before: Terminals,
    after: Terminals,
    id: Seq<char>,
    node_id: i64,
    message: Seq<char>,
    closed: bool,
)
    requires
        routed(before, after, id, node_id, message, closed) || disconnected(before, after, node_id),
        forall|own: Seq<char>| !#[trigger] runs_on(before.routes, own, node_id),
    ensures
        after == before,
{
    if !routed(before, after, id, node_id, message, closed) {
        let (ids, offers) = choose|ids: Seq<Seq<char>>, offers: Seq<Offer>|
            names_node(before.routes, node_id, ids) && #[trigger] farewells(
                before.routes,
                ids,
                offers,
            ) && after.sent == before.sent + offers;
        if ids.len() > 0 {
            assert(ids.contains(ids[0]));
        }
        assert(after.sent =~= before.sent);
        assert forall|other: Seq<char>| #[trigger] before.routes.contains_key(other) implies
            before.routes[other].node_id != node_id by {
            assert(!runs_on(before.routes, other, node_id));
        }
        assert(after.routes =~= before.routes);
    }
}

/// After a node is disconnected no terminal runs on it.
pub proof fn disconnected_node_has_no_terminals(
    before: Terminals,
    after: Terminals,
    id: Seq<char>,
    node_id: i64,
)
    requires
        disconnected(before, after, node_id),
    ensures
        !runs_on(after.routes, id, node_id),
{
}

} // verus!
