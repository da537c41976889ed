//! The login policy. It is read and changed on the tables as a whole, and a
//! change that is refused changes nothing. A GitHub login carries the stamp of
//! the configuration that it started from, and the stamp is checked again
//! before the login counts.

use crate::json::{stamp_text, write_stamp};
use crate::names::{has_name, names_in, read_names, same_names, sorted_names, texts};
use crate::store::{
    executed, executed_all, live_session, without, Db, Session, SessionRow, Setting, Statement,
    Tables, Which, GITHUB, LEGACY, PASSWORD,
};
use crate::text::{lowered, same_text, to_lower, trim, trimmed};
use crate::token::{clock_shows, drawn, random_token, read_clock, sha256, sha256_text};
use vstd::prelude::*;

verus! {

pub const CLIENT_ID: &'static str = "github_client_id";

pub const CLIENT_SECRET: &'static str = "github_client_secret";

pub const ALLOWED_USERS: &'static str = "github_allowed_users";

pub const REVISION: &'static str = "github_revision";

pub const VERIFIED: &'static str = "github_verified";

pub const PASSWORD_LOGIN: &'static str = "password_login";

pub const PASSWORD_HASH: &'static str = "admin_password_hash";

pub const ADMIN_PASSWORD: &'static str = "admin_password";

pub const ON: &'static str = "on";

pub const OFF: &'static str = "off";

// ---------------------------------------------------------------------------
// Refusals
// ---------------------------------------------------------------------------

/// Why a login or a change of the settings is refused.
#[derive(Debug, Clone, Copy, PartialEq, Eq, Structural)]
pub enum AuthError {
    /// The session that asks for the change is not valid any more.
    SessionExpired,
    /// Password login is off, or the password was changed meanwhile.
    PasswordRefused,
    /// The GitHub configuration was changed meanwhile or does not admit the user.
    GithubRefused,
    /// The GitHub configuration may only change while password login is on.
    PasswordOff,
    /// Password login may only be off while a verified GitHub login exists.
    GithubUnverified,
    /// Password login may only be switched on where there is a password.
    PasswordMissing,
}

/// What the operator is told.
pub open spec fn refusal_text(error: AuthError) -> Seq<char> {
    match error {
        AuthError::SessionExpired => "登录已失效，请重新登录"@,
        AuthError::PasswordRefused => "密码登录已关闭或密码已修改，请重新登录"@,
        AuthError::GithubRefused => "GitHub 配置已变更，请重新发起登录"@,
        AuthError::PasswordOff => "请先开启应急密码，再修改 GitHub 登录配置"@,
        AuthError::GithubUnverified => "请先完整配置 GitHub 并成功登录验证，再关闭应急密码"@,
        AuthError::PasswordMissing => "请先设置应急密码"@,
    }
}

impl AuthError {
    /// What the operator is told.
    pub fn message(&self) -> (r: &'static str)
        ensures
            r@ == refusal_text(*self),
    {
        match self {
            AuthError::SessionExpired => "登录已失效，请重新登录",
            AuthError::PasswordRefused => "密码登录已关闭或密码已修改，请重新登录",
            AuthError::GithubRefused => "GitHub 配置已变更，请重新发起登录",
            AuthError::PasswordOff => "请先开启应急密码，再修改 GitHub 登录配置",
            AuthError::GithubUnverified => "请先完整配置 GitHub 并成功登录验证，再关闭应急密码",
            AuthError::PasswordMissing => "请先设置应急密码",
        }
    }
}

// ---------------------------------------------------------------------------
// The configuration
// ---------------------------------------------------------------------------

/// The login configuration.
#[derive(Debug)]
pub struct AuthConfig {
    pub password_enabled: bool,
    pub password_hash: Option<String>,
    pub github_id: String,
    pub github_secret: String,
    pub github_users: Vec<String>,
    pub stamp: String,
    pub verified: bool,
}

/// What a login configuration says.
#[verifier::ext_equal]
pub struct Config {
    pub password_enabled: bool,
    pub password_hash: Option<Seq<char>>,
    pub github_id: Seq<char>,
    pub github_secret: Seq<char>,
    pub github_users: Seq<Seq<char>>,
    pub stamp: Seq<char>,
    pub verified: bool,
}

/// The text behind an optional `String`.
pub open spec fn text_of(s: Option<String>) -> Option<Seq<char>> {
    match s {
        Some(s) => Some(s@),
        None => None,
    }
}

/// The text behind an optional `&str`.
pub open spec fn str_of(s: Option<&str>) -> Option<Seq<char>> {
    match s {
        Some(s) => Some(s@),
        None => None,
    }
}

impl View for AuthConfig {
    type V = Config;

    open spec fn view(&self) -> Config {
        Config {
            password_enabled: self.password_enabled,
            password_hash: text_of(self.password_hash),
            github_id: self.github_id@,
            github_secret: self.github_secret@,
            github_users: texts(self.github_users@),
            stamp: self.stamp@,
            verified: self.verified,
        }
    }
}

impl Config {
    /// GitHub login is fully set up: client, secret and at least one user.
    pub open spec fn ready(self) -> bool {
        self.github_id.len() > 0 && self.github_secret.len() > 0 && self.github_users.len() > 0
    }

    /// The two configurations name different GitHub clients, secrets or users.
    pub open spec fn github_differs(self, other: Config) -> bool {
        self.github_id != other.github_id || self.github_secret != other.github_secret
            || self.github_users != other.github_users
    }

    /// Someone can sign in: with the password, or through a GitHub login that
    /// is set up and has worked.
    pub open spec fn admits_login(self) -> bool {
        self.password_enabled || (self.ready() && self.verified)
    }
}

impl AuthConfig {
    /// Whether GitHub login is fully set up.
    pub fn github_ready(&self) -> (r: bool)
        ensures
            r == self@.ready(),
    {
        !self.github_id.as_str().is_empty() && !self.github_secret.as_str().is_empty()
            && !self.github_users.is_empty()
    }
}

/// The value of a setting; empty where it has none.
pub open spec fn value_of(settings: Map<Seq<char>, Seq<char>>, key: Seq<char>) -> Seq<char> {
    if settings.contains_key(key) {
        settings[key]
    } else {
        Seq::empty()
    }
}

/// The users that the settings admit through GitHub.
pub open spec fn users_of(settings: Map<Seq<char>, Seq<char>>) -> Seq<Seq<char>> {
    sorted_names(names_in(value_of(settings, ALLOWED_USERS@)))
}

/// The text that the stamp of the GitHub configuration is the digest of.
pub open spec fn stamped_text(settings: Map<Seq<char>, Seq<char>>, site: Seq<char>) -> Seq<char> {
    stamp_text(
        trimmed(value_of(settings, CLIENT_ID@)),
        trimmed(value_of(settings, CLIENT_SECRET@)),
        users_of(settings),
        value_of(settings, REVISION@),
        site,
    )
}

/// The stamp of the GitHub configuration in the settings, for a site.
pub open spec fn stamp_of(settings: Map<Seq<char>, Seq<char>>, site: Seq<char>) -> Seq<char> {
    sha256_text(stamped_text(settings, site))
}

/// The login configuration that the settings give, for a site.
pub open spec fn config_of(settings: Map<Seq<char>, Seq<char>>, site: Seq<char>) -> Config {
    Config {
        password_enabled: !(settings.contains_key(PASSWORD_LOGIN@) && settings[PASSWORD_LOGIN@]
            == OFF@),
        password_hash: if settings.contains_key(PASSWORD_HASH@) {
            Some(settings[PASSWORD_HASH@])
        } else {
            None
        },
        github_id: trimmed(value_of(settings, CLIENT_ID@)),
        github_secret: trimmed(value_of(settings, CLIENT_SECRET@)),
        github_users: users_of(settings),
        stamp: stamp_of(settings, site),
        verified: settings.contains_key(VERIFIED@) && settings[VERIFIED@] == stamp_of(
            settings,
            site,
        ),
    }
}

/// Whether an optional text is this text.
fn is_text(s: &Option<String>, t: &str) -> (r: bool)
    ensures
        r == (text_of(*s) == Some(t@)),
{
    match s {
        Some(s) => same_text(s.as_str(), t),
        None => false,
    }
}

impl Db {
    fn value(&self, key: &str) -> (r: String)
        ensures
            r@ == value_of(self@.settings, key@),
    {
        match self.get(key) {
            Some(value) => value,
            None => String::new(),
        }
    }

    /// Reads the login configuration for a site.
    pub fn auth_config(&self, site: &str) -> (r: AuthConfig)
        ensures
            r@ == config_of(self@.settings, site@),
            r@.stamp.len() == 64,
    {
        let github_id = trim(self.value(CLIENT_ID).as_str());
        let github_secret = trim(self.value(CLIENT_SECRET).as_str());
        let github_users = read_names(self.value(ALLOWED_USERS).as_str());
        let revision = self.value(REVISION);
        let stamp = sha256(
            write_stamp(
                github_id.as_str(),
                github_secret.as_str(),
                &github_users,
                revision.as_str(),
                site,
            ).as_str(),
        );
        let verified: bool = is_text(&self.get(VERIFIED), stamp.as_str());
        let password_enabled: bool = !is_text(&self.get(PASSWORD_LOGIN), OFF);
        let password_hash = self.get(PASSWORD_HASH);
        AuthConfig {
            password_enabled,
            password_hash,
            github_id,
            github_secret,
            github_users,
            stamp,
            verified,
        }
    }
}

// ---------------------------------------------------------------------------
// Transactions
// ---------------------------------------------------------------------------

/// Statements executed on a copy of the tables, to be kept or thrown away.
struct Transaction {
    tables: Db,
    log: Vec<Statement>,
}

impl Transaction {
    fn begin(db: &Db) -> (r: Self)
        ensures
            r.tables@ == db@,
            r.log@ == Seq::<Statement>::empty(),
    {
        Transaction { tables: db.clone(), log: Vec::new() }
    }

    /// The copy is what the statements make of `start`.
    spec fn leads_from(self, start: Tables) -> bool {
        self.tables@ == executed_all(start, self.log@)
    }

    fn execute(&mut self, statement: Statement)
        ensures
            final(self).tables@ == executed(old(self).tables@, statement),
            forall|start: Tables|
                old(self).leads_from(start) ==> #[trigger] final(self).leads_from(start),
    {
        let ghost before = self.log@;
        self.tables.execute(&statement);
        self.log.push(statement);
        assert(self.log@.drop_last() == before);
    }

    fn put(&mut self, key: &str, value: &str)
        ensures
            final(self).tables@.settings == old(self).tables@.settings.insert(key@, value@),
            final(self).tables@.sessions == old(self).tables@.sessions,
            forall|start: Tables|
                old(self).leads_from(start) ==> #[trigger] final(self).leads_from(start),
    {
        self.execute(Statement::Put(Setting { key: key.to_owned(), value: value.to_owned() }));
    }

    fn add_session(&mut self, hash: &str, expires: i64, kind: &str, identity: &str)
        ensures
            final(self).tables@.settings == old(self).tables@.settings,
            final(self).tables@.sessions == old(self).tables@.sessions.push(
                session_row(hash@, expires as int, kind@, identity@),
            ),
            forall|start: Tables|
                old(self).leads_from(start) ==> #[trigger] final(self).leads_from(start),
    {
        self.execute(
            Statement::Add(
                Session {
                    token_hash: hash.to_owned(),
                    expires_at: expires,
                    kind: kind.to_owned(),
                    identity: identity.to_owned(),
                },
            ),
        );
    }

    fn delete(&mut self, which: Which)
        ensures
            final(self).tables@.settings == old(self).tables@.settings,
            final(self).tables@.sessions == without(old(self).tables@.sessions, which),
            forall|start: Tables|
                old(self).leads_from(start) ==> #[trigger] final(self).leads_from(start),
    {
        self.execute(Statement::Delete(which));
    }
}

/// A session with these columns.
pub open spec fn session_row(
    hash: Seq<char>,
    expires: int,
    kind: Seq<char>,
    identity: Seq<char>,
) -> SessionRow {
    SessionRow { token_hash: hash, expires_at: expires, kind, identity }
}

// ---------------------------------------------------------------------------
// Logins and recovery
// ---------------------------------------------------------------------------

/// A password login that was checked against `checked` is still good.
pub open spec fn password_admitted(
    settings: Map<Seq<char>, Seq<char>>,
    checked: Seq<char>,
) -> bool {
    let auth = config_of(settings, Seq::empty());
    auth.password_enabled && auth.password_hash == Some(checked)
}

/// The tables after a password login.
pub open spec fn with_password_session(tables: Tables, hash: Seq<char>, expires: int) -> Tables {
    Tables {
        sessions: tables.sessions.push(session_row(hash, expires, PASSWORD@, Seq::empty())),
        ..tables
    }
}

/// A GitHub login of `user` that carries `stamp` is still good.
pub open spec fn github_admitted(
    settings: Map<Seq<char>, Seq<char>>,
    user: Seq<char>,
    stamp: Seq<char>,
    site: Seq<char>,
) -> bool {
    let auth = config_of(settings, site);
    auth.ready() && auth.stamp == stamp && auth.github_users.contains(lowered(user))
}

/// The tables after a GitHub login: the configuration has proved to work.
pub open spec fn with_github_session(
    tables: Tables,
    hash: Seq<char>,
    expires: int,
    user: Seq<char>,
    stamp: Seq<char>,
) -> Tables {
    Tables {
        settings: tables.settings.insert(VERIFIED@, stamp),
        sessions: tables.sessions.push(session_row(hash, expires, GITHUB@, lowered(user))),
    }
}

/// The tables after a recovery: a new password, password login on, nobody
/// signed in.
pub open spec fn recovered(tables: Tables, hash: Seq<char>) -> Tables {
    Tables {
        settings: tables.settings.insert(PASSWORD_HASH@, hash).insert(PASSWORD_LOGIN@, ON@),
        sessions: Seq::empty(),
    }
}

proof fn without_all(sessions: Seq<SessionRow>)
    ensures
        without(sessions, Which::All) == Seq::<SessionRow>::empty(),
    decreases sessions.len(),
{
    reveal(Seq::filter);
    if sessions.len() > 0 {
        without_all(sessions.drop_last());
    }
    assert(without(sessions, Which::All) =~= Seq::<SessionRow>::empty());
}

impl Db {
    /// Signs in with a password that was checked against `checked_password`,
    /// if that is still the password and password login is on.
    pub fn password_session(&mut self, hash: &str, expires: i64, checked_password: &str) -> (r:
        Result<Vec<Statement>, AuthError>)
        ensures
            r is Ok <==> password_admitted(old(self)@.settings, checked_password@),
            r matches Ok(log) ==> {
                &&& final(self)@ == with_password_session(old(self)@, hash@, expires as int)
                &&& executed_all(old(self)@, log@) == final(self)@
            },
            r matches Err(e) ==> e == AuthError::PasswordRefused && final(self)@ == old(self)@,
    {
        proof {
            reveal_strlit("");
            assert(""@ == Seq::<char>::empty());
        }
        let auth = self.auth_config("");
        if !(auth.password_enabled && is_text(&auth.password_hash, checked_password)) {
            return Err(AuthError::PasswordRefused);
        }
        let mut tx = Transaction::begin(self);
        assert(tx.leads_from(old(self)@));
        tx.add_session(hash, expires, PASSWORD, "");
        assert(tx.leads_from(old(self)@));
        *self = tx.tables;
        Ok(tx.log)
    }

    /// Signs in a GitHub user, if the configuration that the login started
    /// from, which `stamp` names, is still the current one and admits the user.
    pub fn github_session(
        &mut self,
        hash: &str,
        expires: i64,
        user: &str,
        stamp: &str,
        site: &str,
    ) -> (r: Result<Vec<Statement>, AuthError>)
        ensures
            r is Ok <==> github_admitted(old(self)@.settings, user@, stamp@, site@),
            r matches Ok(log) ==> {
                &&& final(self)@ == with_github_session(
                    old(self)@,
                    hash@,
                    expires as int,
                    user@,
                    stamp@,
                )
                &&& executed_all(old(self)@, log@) == final(self)@
            },
            r matches Err(e) ==> e == AuthError::GithubRefused && final(self)@ == old(self)@,
    {
        let auth = self.auth_config(site);
        let name = to_lower(user);
        if !(auth.github_ready() && same_text(auth.stamp.as_str(), stamp) && has_name(
            &auth.github_users,
            name.as_str(),
        )) {
            return Err(AuthError::GithubRefused);
        }
        let mut tx = Transaction::begin(self);
        assert(tx.leads_from(old(self)@));
        tx.put(VERIFIED, stamp);
        assert(tx.leads_from(old(self)@));
        tx.add_session(hash, expires, GITHUB, name.as_str());
        assert(tx.leads_from(old(self)@));
        *self = tx.tables;
        Ok(tx.log)
    }

    /// Sets a new password, switches password login on and signs everyone out.
    pub fn recover_password(&mut self, hash: &str) -> (r: Vec<Statement>)
        ensures
            final(self)@ == recovered(old(self)@, hash@),
            executed_all(old(self)@, r@) == final(self)@,
    {
        let mut tx = Transaction::begin(self);
        assert(tx.leads_from(old(self)@));
        tx.put(PASSWORD_HASH, hash);
        assert(tx.leads_from(old(self)@));
        tx.put(PASSWORD_LOGIN, ON);
        assert(tx.leads_from(old(self)@));
        tx.delete(Which::All);
        assert(tx.leads_from(old(self)@));
        proof {
            without_all(self@.sessions);
        }
        *self = tx.tables;
        tx.log
    }
}

// ---------------------------------------------------------------------------
// Changes of the settings
// ---------------------------------------------------------------------------

/// One setting of a patch; the value is missing where it is no string.
#[derive(Debug)]
pub struct Change {
    pub key: String,
    pub value: Option<String>,
}

/// Settings to change.
#[derive(Debug)]
pub struct Patch {
    changes: Vec<Change>,
}

/// What the changes say; the last one of a key counts.
pub open spec fn changes_of(changes: Seq<Change>) -> Map<Seq<char>, Option<Seq<char>>>
    decreases changes.len(),
{
    if changes.len() == 0 {
        Map::empty()
    } else {
        changes_of(changes.drop_last()).insert(changes.last().key@, text_of(changes.last().value))
    }
}

impl View for Patch {
    type V = Map<Seq<char>, Option<Seq<char>>>;

    closed spec fn view(&self) -> Map<Seq<char>, Option<Seq<char>>> {
        changes_of(self.changes@)
    }
}

proof fn changes_of_last(changes: Seq<Change>, key: Seq<char>, i: int)
    requires
        0 <= i < changes.len(),
        changes[i].key@ == key,
        forall|j: int| i < j < changes.len() ==> #[trigger] changes[j].key@ != key,
    ensures
        changes_of(changes).contains_key(key),
        changes_of(changes)[key] == text_of(changes[i].value),
    decreases changes.len(),
{
    if i < changes.len() - 1 {
        assert(changes[changes.len() - 1].key@ != key);
        changes_of_last(changes.drop_last(), key, i);
    }
}

proof fn changes_of_none(changes: Seq<Change>, key: Seq<char>)
    requires
        forall|j: int| 0 <= j < changes.len() ==> #[trigger] changes[j].key@ != key,
    ensures
        !changes_of(changes).contains_key(key),
    decreases changes.len(),
{
    if changes.len() > 0 {
        assert(changes[changes.len() - 1].key@ != key);
        changes_of_none(changes.drop_last(), key);
    }
}

impl Patch {
    /// A patch that changes nothing.
    pub fn new() -> (r: Self)
        ensures
            r@ == Map::<Seq<char>, Option<Seq<char>>>::empty(),
    {
        Patch { changes: Vec::new() }
    }

    /// Adds a setting; `None` stands for a value that is no string.
    pub fn put(&mut self, key: &str, value: Option<&str>)
        ensures
            final(self)@ == old(self)@.insert(key@, str_of(value)),
    {
        let ghost before = self.changes@;
        let value = match value {
            Some(value) => Some(value.to_owned()),
            None => None,
        };
        self.changes.push(Change { key: key.to_owned(), value });
        assert(self.changes@.drop_last() == before);
    }

    /// Whether the patch gives `key` the string `value`.
    fn gives(&self, key: &str, value: &str) -> (r: bool)
        ensures
            r == (self@.contains_key(key@) && self@[key@] == Some(value@)),
    {
        let mut i: usize = self.changes.len();
        while i > 0
            invariant
                i <= self.changes@.len(),
                forall|j: int|
                    i <= j < self.changes@.len() ==> #[trigger] self.changes@[j].key@ != key@,
            decreases i,
        {
            i -= 1;
            if same_text(self.changes[i].key.as_str(), key) {
                proof {
                    changes_of_last(self.changes@, key@, i as int);
                }
                return is_text(&self.changes[i].value, value);
            }
        }
        proof {
            changes_of_none(self.changes@, key@);
        }
        false
    }
}

/// What the patch writes: its settings, but never a password in clear; what is
/// no string is written as the empty string.
pub open spec fn writes(patch: Map<Seq<char>, Option<Seq<char>>>) -> Map<Seq<char>, Seq<char>> {
    Map::new(
        |key: Seq<char>| patch.contains_key(key) && key != ADMIN_PASSWORD@,
        |key: Seq<char>| patch[key].unwrap_or(Seq::empty()),
    )
}

/// The settings after the patch and, where there is one, a new password hash.
pub open spec fn patched(
    settings: Map<Seq<char>, Seq<char>>,
    patch: Map<Seq<char>, Option<Seq<char>>>,
    password_hash: Option<Seq<char>>,
) -> Map<Seq<char>, Seq<char>> {
    let written = settings.union_prefer_right(writes(patch));
    match password_hash {
        Some(hash) => written.insert(PASSWORD_HASH@, hash),
        None => written,
    }
}

/// The kind and the name of who asks for the change.
pub open spec fn asking(
    sessions: Seq<SessionRow>,
    actor: Option<Seq<char>>,
    now: int,
) -> Option<(Seq<char>, Seq<char>)> {
    match actor {
        Some(hash) => match live_session(sessions, hash, now) {
            Some(session) => Some((session.kind, session.identity)),
            None => None,
        },
        None => Some((LEGACY@, Seq::empty())),
    }
}

/// Why the change is refused, if it is: the first of the reasons that applies.
pub open spec fn refusal(
    tables: Tables,
    patch: Map<Seq<char>, Option<Seq<char>>>,
    password_hash: Option<Seq<char>>,
    site: Seq<char>,
    actor: Option<Seq<char>>,
    now: int,
) -> Option<AuthError> {
    let before = config_of(tables.settings, site);
    let after = config_of(patched(tables.settings, patch, password_hash), site);
    let changed = before.github_differs(after);
    if asking(tables.sessions, actor, now) is None {
        Some(AuthError::SessionExpired)
    } else if changed && !before.password_enabled {
        Some(AuthError::PasswordOff)
    } else if !after.password_enabled && !(!changed && after.ready() && after.verified) {
        Some(AuthError::GithubUnverified)
    } else if patch.contains_key(PASSWORD_LOGIN@) && patch[PASSWORD_LOGIN@] == Some(ON@) && !(
    after.password_hash is Some && after.password_hash->0.len() > 0) {
        Some(AuthError::PasswordMissing)
    } else {
        None
    }
}

/// The tables after the change. Where it touches the GitHub configuration, the
/// configuration gets a new revision, counts as not verified, and the GitHub
/// sessions end. A replacement session ends all others; it keeps the kind and
/// the name of who asked, or is a password session where the GitHub
/// configuration changed. While password login is off only GitHub sessions
/// stay.
pub open spec fn saved(
    tables: Tables,
    patch: Map<Seq<char>, Option<Seq<char>>>,
    password_hash: Option<Seq<char>>,
    site: Seq<char>,
    actor: Option<Seq<char>>,
    replacement: Option<(Seq<char>, int)>,
    now: int,
    revision: Seq<char>,
) -> Tables {
    let before = config_of(tables.settings, site);
    let settings = patched(tables.settings, patch, password_hash);
    let after = config_of(settings, site);
    let changed = before.github_differs(after);
    let (kind, identity) = asking(tables.sessions, actor, now).unwrap();
    let untouched = if changed {
        without(tables.sessions, Which::Github)
    } else {
        tables.sessions
    };
    let replaced = match replacement {
        Some((hash, expires)) => if changed {
            seq![session_row(hash, expires, PASSWORD@, Seq::empty())]
        } else {
            seq![session_row(hash, expires, kind, identity)]
        },
        None => untouched,
    };
    Tables {
        settings: if changed {
            settings.insert(REVISION@, revision).insert(VERIFIED@, Seq::empty())
        } else {
            settings
        },
        sessions: if after.password_enabled {
            replaced
        } else {
            without(replaced, Which::NotGithub)
        },
    }
}

/// The hash and the expiry behind a replacement session.
pub open spec fn replacement_of(replacement: Option<(&str, i64)>) -> Option<(Seq<char>, int)> {
    match replacement {
        Some((hash, expires)) => Some((hash@, expires as int)),
        None => None,
    }
}

/// A change took `start` to `end` and was answered with `answer`: it was
/// refused for the reason there is and changed nothing, or there is none, and
/// the statements of the answer lead to the tables as they are to be.
pub open spec fn settled(
    start: Tables,
    end: Tables,
    answer: Result<Vec<Statement>, AuthError>,
    patch: Map<Seq<char>, Option<Seq<char>>>,
    password_hash: Option<Seq<char>>,
    site: Seq<char>,
    actor: Option<Seq<char>>,
    replacement: Option<(Seq<char>, int)>,
    now: int,
    revision: Seq<char>,
) -> bool {
    match refusal(start, patch, password_hash, site, actor, now) {
        Some(error) => answer == Err::<Vec<Statement>, AuthError>(error) && end == start,
        None => {
            &&& answer matches Ok(log)
            &&& executed_all(start, log@) == end
            &&& end == saved(
                start,
                patch,
                password_hash,
                site,
                actor,
                replacement,
                now,
                revision,
            )
        },
    }
}

impl Db {
    /// Changes the settings, with the clock at `now` and `revision` for the
    /// GitHub configuration if it changes. The patch, the login policy, the
    /// end of sessions and the replacement session are one transaction; a
    /// refused change changes nothing.
    pub fn save_settings_at(
        &mut self,
        patch: &Patch,
        password_hash: Option<&str>,
        site: &str,
        actor: Option<&str>,
        replacement: Option<(&str, i64)>,
        now: i64,
        revision: &str,
    ) -> (r: Result<Vec<Statement>, AuthError>)
        ensures
            settled(
                old(self)@,
                final(self)@,
                r,
                patch@,
                str_of(password_hash),
                site@,
                str_of(actor),
                replacement_of(replacement),
                now as int,
                revision@,
            ),
    {
        let ghost start = self@;
        proof {
            reveal_strlit("");
            assert(""@ == Seq::<char>::empty());
        }
        let (kind, identity) = match actor {
            Some(hash) => match self.live_session_at(hash, now) {
                Some(session) => (session.kind, session.identity),
                None => {
                    return Err(AuthError::SessionExpired);
                },
            },
            None => (LEGACY.to_owned(), String::new()),
        };
        let mut tx = Transaction::begin(self);
        assert(tx.leads_from(start));
        let before = tx.tables.auth_config(site);
        let mut i: usize = 0;
        assert(start.settings.union_prefer_right(writes(changes_of(patch.changes@.take(0))))
            == start.settings);
        while i < patch.changes.len()
            invariant
                i <= patch.changes@.len(),
                ""@ == Seq::<char>::empty(),
                tx.leads_from(start),
                tx.tables@.sessions == start.sessions,
                tx.tables@.settings == start.settings.union_prefer_right(
                    writes(changes_of(patch.changes@.take(i as int))),
                ),
            decreases patch.changes@.len() - i,
        {
            let change = &patch.changes[i];
            assert(patch.changes@.take(i + 1).drop_last() == patch.changes@.take(i as int));
            if !same_text(change.key.as_str(), ADMIN_PASSWORD) {
                let value: &str = match &change.value {
                    Some(value) => value.as_str(),
                    None => "",
                };
                tx.put(change.key.as_str(), value);
                assert(tx.leads_from(start));
            }
            i += 1;
            assert(tx.tables@.settings == start.settings.union_prefer_right(
                writes(changes_of(patch.changes@.take(i as int))),
            ));
        }
        assert(patch.changes@.take(i as int) == patch.changes@);
        if let Some(hash) = password_hash {
            tx.put(PASSWORD_HASH, hash);
            assert(tx.leads_from(start));
        }
        let after = tx.tables.auth_config(site);
        let changed: bool = before.github_id != after.github_id || before.github_secret
            != after.github_secret || !same_names(&before.github_users, &after.github_users);
        if changed {
            if !before.password_enabled {
                return Err(AuthError::PasswordOff);
            }
            tx.put(REVISION, revision);
            assert(tx.leads_from(start));
            tx.put(VERIFIED, "");
            assert(tx.leads_from(start));
            tx.delete(Which::Github);
            assert(tx.leads_from(start));
        }
        if !(after.password_enabled || (!changed && after.github_ready() && after.verified)) {
            return Err(AuthError::GithubUnverified);
        }
        if patch.gives(PASSWORD_LOGIN, ON) {
            let set: bool = match &after.password_hash {
                Some(hash) => !hash.as_str().is_empty(),
                None => false,
            };
            if !set {
                return Err(AuthError::PasswordMissing);
            }
        }
        if let Some((hash, expires)) = replacement {
            proof {
                without_all(tx.tables@.sessions);
            }
            tx.delete(Which::All);
            assert(tx.leads_from(start));
            if changed {
                tx.add_session(hash, expires, PASSWORD, "");
            } else {
                tx.add_session(hash, expires, kind.as_str(), identity.as_str());
            }
            assert(tx.leads_from(start));
            assert(tx.tables@.sessions.len() == 1);
        }
        if !after.password_enabled {
            tx.delete(Which::NotGithub);
            assert(tx.leads_from(start));
        }
        *self = tx.tables;
        Ok(tx.log)
    }

    /// Changes the settings now. What comes of it is what `save_settings_at`
    /// says, for the time the clock shows and a fresh random revision.
    pub fn save_settings_atomic(
        &mut self,
        patch: &Patch,
        password_hash: Option<&str>,
        site: &str,
        actor: Option<&str>,
        replacement: Option<(&str, i64)>,
    ) -> (r: Result<Vec<Statement>, AuthError>)
        ensures
            exists|now: i64, revision: Seq<char>| #![trigger clock_shows(now), drawn(revision)]
                clock_shows(now) && drawn(revision) && 0 <= now < i64::MAX && revision.len() == 64
                    && settled(
                    old(self)@,
                    final(self)@,
                    r,
                    patch@,
                    str_of(password_hash),
                    site@,
                    str_of(actor),
                    replacement_of(replacement),
                    now as int,
                    revision,
                ),
    {
        let now: i64 = read_clock();
        let revision = random_token();
        self.save_settings_at(
            patch,
            password_hash,
            site,
            actor,
            replacement,
            now,
            revision.as_str(),
        )
    }
}

} // verus!
