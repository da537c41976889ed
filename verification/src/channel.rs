//! Channels to browsers and agents, with a record of what was put to them.
//!
//! Nothing else in the library can put a message to a channel, so a record
//! that did not grow says that nothing was sent.

use tokio::sync::mpsc::Sender;
use vstd::prelude::*;

verus! {

/// `tokio::sync::mpsc::Sender`, the sending end of a channel.
#[verifier::external_type_specification]
#[verifier::external_body]
#[verifier::reject_recursive_types(T)]
pub struct ExSender<T>(tokio::sync::mpsc::Sender<T>);

/// `Sender::try_send` puts a message into a channel unless it is full or its
/// other end is gone, and says whether it did. Which of these holds depends on
/// who else uses the channel, so nothing is claimed.
#[verifier::external_body]
fn offer(sender: &Sender<String>, message: String) -> (r: bool) {
    sender.try_send(message).is_ok()
}

/// `try_send` was called with this sender and this message, and may answer
/// `taken`. Only such a call shows it.
pub closed spec fn offered(sender: Sender<String>, message: Seq<char>, taken: bool) -> bool {
    exists|m: String| #![trigger call_ensures(offer, (&sender, m), taken)]
        m@ == message && call_ensures(offer, (&sender, m), taken)
}

/// A message that was put to a channel, and whether the channel took it.
pub struct Offer {
    pub to: Sender<String>,
    pub message: Seq<char>,
    pub taken: bool,
}

// ---------------------------------------------------------------------------
// Many channels, one record
// ---------------------------------------------------------------------------

/// What was put to a group of channels, in order.
pub struct Book {
    id: Ghost<int>,
    sent: Ghost<Seq<Offer>>,
}

impl Book {
    /// Tells the books apart.
    pub closed spec fn id(&self) -> int {
        self.id@
    }

    /// What was put to the channels of this book, in order.
    pub closed spec fn sent(&self) -> Seq<Offer> {
        self.sent@
    }

    /// A book in which nothing stands. Nothing is said of which one it is, so
    /// it cannot be taken for the book of a channel that is there already.
    pub fn new() -> (r: Self)
        ensures
            r.sent() == Seq::<Offer>::empty(),
    {
        Book { id: Ghost(arbitrary()), sent: Ghost(Seq::empty()) }
    }
}

/// A channel that keeps its record in a book. Its sender does not come out
/// again.
pub struct Channel {
    sender: Sender<String>,
    book: Ghost<int>,
}

impl Channel {
    /// Where messages go.
    pub closed spec fn to(&self) -> Sender<String> {
        self.sender
    }

    /// The book that records them.
    pub closed spec fn book(&self) -> int {
        self.book@
    }

    /// A channel whose record is kept in this book.
    pub fn new(sender: Sender<String>, book: &Book) -> (r: Self)
        ensures
            r.to() == sender,
            r.book() == book.id(),
    {
        Channel { sender, book: Ghost(book.id()) }
    }

    /// Puts a message to the channel, says whether it was taken, and writes
    /// that into the book.
    pub fn hand(&self, book: &mut Book, message: String) -> (r: bool)
        requires
            self.book() == old(book).id(),
        ensures
            final(book).id() == old(book).id(),
            final(book).sent() == old(book).sent().push(
                (Offer { to: self.to(), message: message@, taken: r }),
            ),
            offered(self.to(), message@, r),
    {
        let ghost text = message@;
        let taken: bool = offer(&self.sender, message);
        assert(call_ensures(offer, (&self.sender, message), taken));
        book.sent = Ghost(
            book.sent@.push(Offer { to: self.sender, message: text, taken }),
        );
        taken
    }
}

// ---------------------------------------------------------------------------
// One channel with a record of its own
// ---------------------------------------------------------------------------

/// A channel that keeps its record itself.
pub struct Line {
    sender: Sender<String>,
    sent: Ghost<Seq<(Seq<char>, bool)>>,
}

impl Line {
    /// Where messages go.
    pub closed spec fn to(&self) -> Sender<String> {
        self.sender
    }

    /// The messages that were put to the channel, in order, and whether each
    /// was taken.
    pub closed spec fn sent(&self) -> Seq<(Seq<char>, bool)> {
        self.sent@
    }

    /// A line to which nothing was put.
    pub fn new(sender: Sender<String>) -> (r: Self)
        ensures
            r.to() == sender,
            r.sent() == Seq::<(Seq<char>, bool)>::empty(),
    {
        Line { sender, sent: Ghost(Seq::empty()) }
    }

    /// Puts a message to the channel and says whether it was taken.
    pub fn hand(&mut self, message: String) -> (r: bool)
        ensures
            final(self).to() == old(self).to(),
            final(self).sent() == old(self).sent().push((message@, r)),
            offered(old(self).to(), message@, r),
    {
        let ghost text = message@;
        let taken: bool = offer(&self.sender, message);
        assert(call_ensures(offer, (&self.sender, message), taken));
        self.sent = Ghost(self.sent@.push((text, taken)));
        taken
    }
}

// ---------------------------------------------------------------------------
// Laws of channels
// ---------------------------------------------------------------------------

/// A message that is handed to a channel is put to it character for character,
/// and goes on record as it is, behind all that stands there, with the answer.
pub proof fn handed_message_is_put_as_it_is(
    channel: &Channel,
    book: &mut Book,
    message: String,
    r: bool,
)
    requires
        call_ensures(Channel::hand, (channel, book, message), r),
    ensures
        offered(channel.to(), message@, r),
        final(book).sent().len() == old(book).sent().len() + 1,
        final(book).sent().drop_last() == old(book).sent(),
        final(book).sent().last().to == channel.to(),
        final(book).sent().last().message == message@,
        final(book).sent().last().taken == r,
{
    assert(final(book).sent().drop_last() =~= old(book).sent());
}

/// So is a message that is handed to a line.
pub proof fn line_puts_messages_as_they_are(line: &mut Line, message: String, r: bool)
    requires
        call_ensures(Line::hand, (line, message), r),
    ensures
        offered(old(line).to(), message@, r),
        final(line).to() == old(line).to(),
        final(line).sent().len() == old(line).sent().len() + 1,
        final(line).sent().drop_last() == old(line).sent(),
        final(line).sent().last() == (message@, r),
{
    assert(final(line).sent().drop_last() =~= old(line).sent());
}

/// Channels and lines lead where their senders do, and nothing is on record
/// when they are new.
pub proof fn channels_lead_where_their_senders_do(
    sender: Sender<String>,
    book: Book,
    channel: Channel,
    line: Line,
)
    requires
        call_ensures(Book::new, (), book),
        call_ensures(Channel::new, (sender, &book), channel),
        call_ensures(Line::new, (sender,), line),
    ensures
        channel.to() == sender,
        channel.book() == book.id(),
        book.sent().len() == 0,
        line.to() == sender,
        line.sent().len() == 0,
{
}

} // verus!
