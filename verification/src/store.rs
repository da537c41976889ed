//! The two tables that the login policy lives in, and the statements that
//! change them.
//!
//! A `Db` holds the rows as plain values. The operations on it hand back the
//! statements they executed, so that a database which mirrors these tables can
//! execute the same ones in one transaction.

use crate::text::same_text;
use crate::token::{clock_shows, read_clock};
use vstd::prelude::*;

verus! {

/// The kind of session that a GitHub login gives.
pub const GITHUB: &'static str = "github";

/// The kind of session that a password login gives.
pub const PASSWORD: &'static str = "password";

/// The kind of session that was made before sessions had a kind.
pub const LEGACY: &'static str = "legacy";

// ---------------------------------------------------------------------------
// Rows and tables
// ---------------------------------------------------------------------------

/// A row of the table `setting`.
#[derive(Debug)]
pub struct Setting {
    pub key: String,
    pub value: String,
}

impl Clone for Setting {
    fn clone(&self) -> (r: Self)
        ensures
            r == *self,
    {
        Setting { key: self.key.clone(), value: self.value.clone() }
    }
}

/// A row of the table `session`.
#[derive(Debug)]
pub struct Session {
    pub token_hash: String,
    pub expires_at: i64,
    pub kind: String,
    pub identity: String,
}

impl Clone for Session {
    fn clone(&self) -> (r: Self)
        ensures
            r == *self,
    {
        Session {
            token_hash: self.token_hash.clone(),
            expires_at: self.expires_at,
            kind: self.kind.clone(),
            identity: self.identity.clone(),
        }
    }
}

/// What a row of the table `session` says.
pub struct SessionRow {
    pub token_hash: Seq<char>,
    pub expires_at: int,
    pub kind: Seq<char>,
    pub identity: Seq<char>,
}

impl View for Session {
    type V = SessionRow;

    open spec fn view(&self) -> SessionRow {
        SessionRow {
            token_hash: self.token_hash@,
            expires_at: self.expires_at as int,
            kind: self.kind@,
            identity: self.identity@,
        }
    }
}

/// What the two tables say: a value for each key, and the sessions in the
/// order in which they were made.
#[verifier::ext_equal]
pub struct Tables {
    pub settings: Map<Seq<char>, Seq<char>>,
    pub sessions: Seq<SessionRow>,
}

/// What the rows of the table `setting` say; the last row of a key counts.
pub open spec fn settings_of(rows: Seq<Setting>) -> Map<Seq<char>, Seq<char>>
    decreases rows.len(),
{
    if rows.len() == 0 {
        Map::empty()
    } else {
        settings_of(rows.drop_last()).insert(rows.last().key@, rows.last().value@)
    }
}

/// What the rows of the table `session` say.
pub open spec fn sessions_of(rows: Seq<Session>) -> Seq<SessionRow> {
    rows.map_values(|s: Session| s@)
}

/// The first session with this token that has not expired at `now`.
pub open spec fn live_session(
    sessions: Seq<SessionRow>,
    token_hash: Seq<char>,
    now: int,
) -> Option<SessionRow>
    decreases sessions.len(),
{
    if sessions.len() == 0 {
        None
    } else if sessions[0].token_hash == token_hash && sessions[0].expires_at > now {
        Some(sessions[0])
    } else {
        live_session(sessions.skip(1), token_hash, now)
    }
}

// ---------------------------------------------------------------------------
// Statements
// ---------------------------------------------------------------------------

/// Which sessions a statement deletes.
#[derive(Debug, Clone, Copy, PartialEq, Eq, Structural)]
pub enum Which {
    All,
    Github,
    NotGithub,
}

/// A statement on the two tables.
#[derive(Debug)]
pub enum Statement {
    /// Gives the key this value, whether or not it had one.
    Put(Setting),
    /// Adds a session.
    Add(Session),
    /// Deletes sessions.
    Delete(Which),
}

/// Whether a session is among those.
pub open spec fn among(which: Which, session: SessionRow) -> bool {
    match which {
        Which::All => true,
        Which::Github => session.kind == GITHUB@,
        Which::NotGithub => session.kind != GITHUB@,
    }
}

/// The sessions that are left when those are deleted.
pub open spec fn without(sessions: Seq<SessionRow>, which: Which) -> Seq<SessionRow> {
    sessions.filter(|s: SessionRow| !among(which, s))
}

/// The tables after a statement.
pub open spec fn executed(tables: Tables, statement: Statement) -> Tables {
    match statement {
        Statement::Put(setting) => Tables {
            settings: tables.settings.insert(setting.key@, setting.value@),
            ..tables
        },
        Statement::Add(session) => Tables { sessions: tables.sessions.push(session@), ..tables },
        Statement::Delete(which) => Tables {
            sessions: without(tables.sessions, which),
            ..tables
        },
    }
}

/// The tables after some statements, one after the other.
pub open spec fn executed_all(tables: Tables, statements: Seq<Statement>) -> Tables
    decreases statements.len(),
{
    if statements.len() == 0 {
        tables
    } else {
        executed(executed_all(tables, statements.drop_last()), statements.last())
    }
}

// ---------------------------------------------------------------------------
// The tables as values
// ---------------------------------------------------------------------------

/// The tables `setting` and `session`.
#[derive(Debug)]
pub struct Db {
    settings: Vec<Setting>,
    sessions: Vec<Session>,
}

impl View for Db {
    type V = Tables;

    closed spec fn view(&self) -> Tables {
        Tables { settings: settings_of(self.settings@), sessions: sessions_of(self.sessions@) }
    }
}

impl Clone for Db {
    fn clone(&self) -> (r: Self)
        ensures
            r@ == self@,
    {
        let r = Db { settings: self.settings.clone(), sessions: self.sessions.clone() };
        assert(r.settings@ == self.settings@);
        assert(r.sessions@ == self.sessions@);
        r
    }
}

proof fn settings_of_last(rows: Seq<Setting>, key: Seq<char>, i: int)
    requires
        0 <= i < rows.len(),
        rows[i].key@ == key,
        forall|j: int| i < j < rows.len() ==> #[trigger] rows[j].key@ != key,
    ensures
        settings_of(rows).contains_key(key),
        settings_of(rows)[key] == rows[i].value@,
    decreases rows.len(),
{
    if i < rows.len() - 1 {
        assert(rows[rows.len() - 1].key@ != key);
        settings_of_last(rows.drop_last(), key, i);
    }
}

proof fn settings_of_none(rows: Seq<Setting>, key: Seq<char>)
    requires
        forall|j: int| 0 <= j < rows.len() ==> #[trigger] rows[j].key@ != key,
    ensures
        !settings_of(rows).contains_key(key),
    decreases rows.len(),
{
    if rows.len() > 0 {
        assert(rows[rows.len() - 1].key@ != key);
        settings_of_none(rows.drop_last(), key);
    }
}

proof fn settings_of_update(rows: Seq<Setting>, i: int, row: Setting)
    requires
        0 <= i < rows.len(),
        rows[i].key@ == row.key@,
        forall|j: int| i < j < rows.len() ==> #[trigger] rows[j].key@ != row.key@,
    ensures
        settings_of(rows.update(i, row)) == settings_of(rows).insert(row.key@, row.value@),
    decreases rows.len(),
{
    let new = rows.update(i, row);
    if i == rows.len() - 1 {
        assert(new.drop_last() == rows.drop_last());
        assert(settings_of(new) =~= settings_of(rows).insert(row.key@, row.value@));
    } else {
        assert(rows[rows.len() - 1].key@ != row.key@);
        settings_of_update(rows.drop_last(), i, row);
        assert(new.drop_last() == rows.drop_last().update(i, row));
        assert(settings_of(new) =~= settings_of(rows).insert(row.key@, row.value@));
    }
}

impl Db {
    /// Two empty tables.
    pub fn new() -> (r: Self)
        ensures
            r@.settings == Map::<Seq<char>, Seq<char>>::empty(),
            r@.sessions == Seq::<SessionRow>::empty(),
    {
        let r = Db { settings: Vec::new(), sessions: Vec::new() };
        assert(r@.sessions == Seq::<SessionRow>::empty());
        r
    }

    /// The tables with these rows.
    pub fn from_rows(settings: Vec<Setting>, sessions: Vec<Session>) -> (r: Self)
        ensures
            r@.settings == settings_of(settings@),
            r@.sessions == sessions_of(sessions@),
    {
        Db { settings, sessions }
    }

    /// The place of the row that counts for `key`, or the number of rows.
    fn place(&self, key: &str) -> (r: usize)
        ensures
            r < self.settings@.len() ==> self.settings@[r as int].key@ == key@ && forall|j: int|
                r < j < self.settings@.len() ==> #[trigger] self.settings@[j].key@ != key@,
            r >= self.settings@.len() ==> r == self.settings@.len() && forall|j: int|
                0 <= j < self.settings@.len() ==> #[trigger] self.settings@[j].key@ != key@,
    {
        let mut i: usize = self.settings.len();
        while i > 0
            invariant
                i <= self.settings@.len(),
                forall|j: int|
                    i <= j < self.settings@.len() ==> #[trigger] self.settings@[j].key@ != key@,
            decreases i,
        {
            i -= 1;
            if same_text(self.settings[i].key.as_str(), key) {
                return i;
            }
        }
        self.settings.len()
    }

    /// The value of a setting, if it has one.
    pub fn get(&self, key: &str) -> (r: Option<String>)
        ensures
            r is Some <==> self@.settings.contains_key(key@),
            r matches Some(value) ==> value@ == self@.settings[key@],
    {
        let i: usize = self.place(key);
        if i < self.settings.len() {
            proof {
                settings_of_last(self.settings@, key@, i as int);
            }
            Some(self.settings[i].value.clone())
        } else {
            proof {
                settings_of_none(self.settings@, key@);
            }
            None
        }
    }

    /// Gives a setting a value.
    pub fn set(&mut self, key: &str, value: &str)
        ensures
            final(self)@.settings == old(self)@.settings.insert(key@, value@),
            final(self)@.sessions == old(self)@.sessions,
    {
        let i: usize = self.place(key);
        let row = Setting { key: key.to_owned(), value: value.to_owned() };
        let ghost before = self.settings@;
        if i < self.settings.len() {
            proof {
                settings_of_update(before, i as int, row);
            }
            self.settings.set(i, row);
        } else {
            self.settings.push(row);
            assert(self.settings@.drop_last() == before);
        }
    }

    /// Adds a session.
    pub fn insert_session(&mut self, session: Session)
        ensures
            final(self)@.sessions == old(self)@.sessions.push(session@),
            final(self)@.settings == old(self)@.settings,
    {
        let ghost before = self.sessions@;
        self.sessions.push(session);
        assert(sessions_of(self.sessions@) == sessions_of(before).push(session@));
    }

    /// Adds a session of the kind that was made before sessions had one.
    pub fn create_session(&mut self, hash: &str, expires: i64)
        ensures
            final(self)@.settings == old(self)@.settings,
            final(self)@.sessions == old(self)@.sessions.push(
                SessionRow {
                    token_hash: hash@,
                    expires_at: expires as int,
                    kind: LEGACY@,
                    identity: Seq::empty(),
                },
            ),
    {
        self.insert_session(
            Session {
                token_hash: hash.to_owned(),
                expires_at: expires,
                kind: LEGACY.to_owned(),
                identity: String::new(),
            },
        );
    }

    /// Deletes sessions.
    pub fn delete_sessions(&mut self, which: Which)
        ensures
            final(self)@.settings == old(self)@.settings,
            final(self)@.sessions == without(old(self)@.sessions, which),
    {
        let mut kept: Vec<Session> = Vec::new();
        let mut i: usize = 0;
        let ghost all = sessions_of(self.sessions@);
        let ghost stays = |s: SessionRow| !among(which, s);
        proof {
            reveal(Seq::filter);
            assert(sessions_of(kept@) == all.take(0).filter(stays));
        }
        while i < self.sessions.len()
            invariant
                i <= self.sessions@.len(),
                all == sessions_of(self.sessions@),
                stays == (|s: SessionRow| !among(which, s)),
                sessions_of(kept@) == all.take(i as int).filter(stays),
                settings_of(self.settings@) == old(self)@.settings,
                all == old(self)@.sessions,
            decreases self.sessions@.len() - i,
        {
            let session = &self.sessions[i];
            let github: bool = same_text(session.kind.as_str(), GITHUB);
            let stay: bool = match which {
                Which::All => false,
                Which::Github => !github,
                Which::NotGithub => github,
            };
            proof {
                reveal(Seq::filter);
                assert(all.take(i + 1).drop_last() == all.take(i as int));
                assert(all.take(i + 1).last() == session@);
                assert(stay == stays(session@));
            }
            if stay {
                let ghost before = sessions_of(kept@);
                kept.push(session.clone());
                assert(sessions_of(kept@) == before.push(session@));
            }
            i += 1;
        }
        assert(all.take(i as int) == all);
        self.sessions = kept;
    }

    /// Executes a statement.
    pub fn execute(&mut self, statement: &Statement)
        ensures
            final(self)@ == executed(old(self)@, *statement),
    {
        match statement {
            Statement::Put(setting) => {
                self.set(setting.key.as_str(), setting.value.as_str());
            },
            Statement::Add(session) => {
                self.insert_session(session.clone());
            },
            Statement::Delete(which) => {
                self.delete_sessions(*which);
            },
        }
    }

    /// The first session with this token that has not expired at `now`.
    pub fn live_session_at(&self, hash: &str, now: i64) -> (r: Option<Session>)
        ensures
            r is Some <==> live_session(self@.sessions, hash@, now as int) is Some,
            r matches Some(session) ==> live_session(self@.sessions, hash@, now as int) == Some(
                session@,
            ),
    {
        let ghost all = self@.sessions;
        let mut i: usize = 0;
        assert(all.skip(0) == all);
        while i < self.sessions.len()
            invariant
                i <= self.sessions@.len(),
                all == self@.sessions,
                all == sessions_of(self.sessions@),
                live_session(all, hash@, now as int) == live_session(
                    all.skip(i as int),
                    hash@,
                    now as int,
                ),
            decreases self.sessions@.len() - i,
        {
            let session = &self.sessions[i];
            assert(all.skip(i as int)[0] == session@);
            if same_text(session.token_hash.as_str(), hash) && session.expires_at > now {
                return Some(session.clone());
            }
            assert(all.skip(i as int).skip(1) == all.skip(i + 1));
            i += 1;
        }
        None
    }

    /// Whether a session with this token is valid at the time the clock shows.
    pub fn session_valid(&self, hash: &str) -> (r: bool)
        ensures
            exists|now: i64| #![trigger live_session(self@.sessions, hash@, now as int)]
                clock_shows(now) && 0 <= now < i64::MAX && r == live_session(
                    self@.sessions,
                    hash@,
                    now as int,
                ) is Some,
    {
        let now: i64 = read_clock();
        let r: bool = self.live_session_at(hash, now).is_some();
        assert(r == live_session(self@.sessions, hash@, now as int) is Some);
        r
    }
}

} // verus!
