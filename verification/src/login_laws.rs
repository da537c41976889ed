//! What the operations on the tables do, said of keys, rows and times alone.
//!
//! Each law speaks of a call: of what goes in, what comes out, and the tables
//! before and after.

use crate::json::stamp_text;
use crate::names::{
    ascending, ascending_unique, before_in_dictionary, lists, names_in,
    precedes_is_dictionary_order, sorted_names, sorted_names_are_listed, texts,
};
use crate::security::{
    config_of, patched, replacement_of, settled, str_of, users_of, AuthConfig, AuthError, Patch,
};
use crate::store::{
    executed_all, live_session, settings_of, without, Db, Session, SessionRow, Setting, Statement,
    Tables, Which,
};
use crate::text::{lowered, trimmed};
use crate::token::{clock_shows, drawn, sha256_text};
use vstd::prelude::*;

verus! {

// ---------------------------------------------------------------------------
// Rows
// ---------------------------------------------------------------------------

/// The session at place `i` has this token and lasts beyond `now`, and none
/// before it does.
pub open spec fn first_live(
    sessions: Seq<SessionRow>,
    hash: Seq<char>,
    now: int,
    i: int,
) -> bool {
    &&& 0 <= i < sessions.len()
    &&& sessions[i].token_hash == hash
    &&& now < sessions[i].expires_at
    &&& forall|j: int| 0 <= j < i ==> !((#[trigger] sessions[j]).token_hash == hash && now
        < sessions[j].expires_at)
}

/// Someone is signed in with this token.
pub open spec fn signed_in(sessions: Seq<SessionRow>, hash: Seq<char>, now: int) -> bool {
    exists|i: int|
        0 <= i < sessions.len() && (#[trigger] sessions[i]).token_hash == hash && now
            < sessions[i].expires_at
}

proof fn live_session_is_first(sessions: Seq<SessionRow>, hash: Seq<char>, now: int) -> (i: int)
    ensures
        live_session(sessions, hash, now) is Some <==> signed_in(sessions, hash, now),
        live_session(sessions, hash, now) matches Some(s) ==> first_live(sessions, hash, now, i)
            && s == sessions[i],
    decreases sessions.len(),
{
    if sessions.len() == 0 {
        0
    } else if sessions[0].token_hash == hash && sessions[0].expires_at > now {
        0
    } else {
        let rest = sessions.skip(1);
        let i = live_session_is_first(rest, hash, now);
        if signed_in(rest, hash, now) {
            let k = choose|k: int|
                0 <= k < rest.len() && (#[trigger] rest[k]).token_hash == hash && now
                    < rest[k].expires_at;
            assert(sessions[k + 1] == rest[k]);
        }
        if signed_in(sessions, hash, now) {
            let k = choose|k: int|
                0 <= k < sessions.len() && (#[trigger] sessions[k]).token_hash == hash && now
                    < sessions[k].expires_at;
            assert(rest[k - 1] == sessions[k]);
        }
        assert forall|j: int| 0 <= j < i + 1 && live_session(
            sessions,
            hash,
            now,
        ) is Some implies !((#[trigger] sessions[j]).token_hash == hash && now
            < sessions[j].expires_at) by {
            if j > 0 {
                assert(rest[j - 1] == sessions[j]);
            }
        }
        i + 1
    }
}

/// A session is looked up by its token, and found as long as it lasts: the
/// first such session, as it stands in the table.
pub proof fn live_session_lasts_until_it_expires(
    db: &Db,
    hash: &str,
    now: i64,
    r: Option<Session>,
)
    requires
        call_ensures(Db::live_session_at, (db, hash, now), r),
    ensures
        r is None ==> !signed_in(db@.sessions, hash@, now as int),
        r matches Some(session) ==> exists|i: int| #[trigger]
            first_live(db@.sessions, hash@, now as int, i) && db@.sessions[i].token_hash
                == session.token_hash@ && db@.sessions[i].expires_at == session.expires_at
                && db@.sessions[i].kind == session.kind@ && db@.sessions[i].identity
                == session.identity@,
{
    let i = live_session_is_first(db@.sessions, hash@, now as int);
    assert(r is Some ==> first_live(db@.sessions, hash@, now as int, i));
}

/// A session is valid if it lasts beyond the time that the clock shows.
pub proof fn session_is_valid_by_the_clock(db: &Db, hash: &str, r: bool)
    requires
        call_ensures(Db::session_valid, (db, hash), r),
    ensures
        exists|now: i64| #[trigger]
            clock_shows(now) && r == signed_in(db@.sessions, hash@, now as int),
{
    let now = choose|now: i64| #![trigger live_session(db@.sessions, hash@, now as int)]
        clock_shows(now) && 0 <= now < i64::MAX && r == live_session(
            db@.sessions,
            hash@,
            now as int,
        ) is Some;
    let _ = live_session_is_first(db@.sessions, hash@, now as int);
    assert(clock_shows(now));
}

/// What was put under a key is what is found under it, whatever was there, and
/// nothing else changes.
pub proof fn set_is_what_get_finds(
    db: &mut Db,
    key: &str,
    value: &str,
    other: &str,
    before: Option<String>,
    after: Option<String>,
)
    requires
        call_ensures(Db::get, (old(db), other), before),
        call_ensures(Db::set, (db, key, value), ()),
        call_ensures(Db::get, (final(db), other), after),
    ensures
        other@ == key@ ==> after is Some && after->0@ == value@,
        other@ != key@ ==> (after is Some <==> before is Some),
        other@ != key@ && before is Some ==> after->0@ == before->0@,
        final(db)@.sessions == old(db)@.sessions,
{
}

proof fn settings_hold_rows(rows: Seq<Setting>, key: Seq<char>)
    ensures
        settings_of(rows).contains_key(key) <==> exists|i: int|
            0 <= i < rows.len() && (#[trigger] rows[i]).key@ == key,
        settings_of(rows).contains_key(key) ==> exists|i: int|
            0 <= i < rows.len() && (#[trigger] rows[i]).key@ == key && rows[i].value@
                == settings_of(rows)[key] && forall|j: int|
                i < j < rows.len() ==> (#[trigger] rows[j]).key@ != key,
    decreases rows.len(),
{
    if rows.len() > 0 {
        let before = rows.drop_last();
        settings_hold_rows(before, key);
        let last = rows.len() - 1;
        if rows[last].key@ == key {
        } else {
            if settings_of(before).contains_key(key) {
                let i = choose|i: int|
                    0 <= i < before.len() && (#[trigger] before[i]).key@ == key
                        && before[i].value@ == settings_of(before)[key] && forall|j: int|
                        i < j < before.len() ==> (#[trigger] before[j]).key@ != key;
                assert(rows[i] == before[i]);
                assert forall|j: int| i < j < rows.len() implies (#[trigger] rows[j]).key@
                    != key by {
                    if j < last {
                        assert(rows[j] == before[j]);
                    }
                }
            }
            if exists|i: int| 0 <= i < rows.len() && (#[trigger] rows[i]).key@ == key {
                let i = choose|i: int| 0 <= i < rows.len() && (#[trigger] rows[i]).key@ == key;
                assert(before[i] == rows[i]);
            }
        }
    }
}

/// Tables made of rows hold these rows: a key has the value of its last row,
/// and the sessions are the rows as they stand.
pub proof fn tables_hold_their_rows(
    settings: Vec<Setting>,
    sessions: Vec<Session>,
    db: Db,
    key: &str,
    r: Option<String>,
)
    requires
        call_ensures(Db::from_rows, (settings, sessions), db),
        call_ensures(Db::get, (&db, key), r),
    ensures
        r is None ==> forall|i: int|
            0 <= i < settings@.len() ==> (#[trigger] settings@[i]).key@ != key@,
        r matches Some(value) ==> exists|i: int|
            0 <= i < settings@.len() && (#[trigger] settings@[i]).key@ == key@
                && settings@[i].value@ == value@ && forall|j: int|
                i < j < settings@.len() ==> (#[trigger] settings@[j]).key@ != key@,
        db@.sessions.len() == sessions@.len(),
        forall|i: int| #![trigger db@.sessions[i]]
            0 <= i < sessions@.len() ==> db@.sessions[i] == (SessionRow {
                token_hash: sessions@[i].token_hash@,
                expires_at: sessions@[i].expires_at as int,
                kind: sessions@[i].kind@,
                identity: sessions@[i].identity@,
            }),
{
    settings_hold_rows(settings@, key@);
}

/// New tables are empty.
pub proof fn new_tables_are_empty(db: Db, key: &str, r: Option<String>)
    requires
        call_ensures(Db::new, (), db),
        call_ensures(Db::get, (&db, key), r),
    ensures
        r is None,
        db@.sessions.len() == 0,
{
}

/// A session that is added comes last, as it is given, and nothing else
/// changes.
pub proof fn added_session_comes_last(db: &mut Db, session: Session)
    requires
        call_ensures(Db::insert_session, (db, session), ()),
    ensures
        final(db)@.settings == old(db)@.settings,
        final(db)@.sessions.drop_last() == old(db)@.sessions,
        final(db)@.sessions.len() == old(db)@.sessions.len() + 1,
        final(db)@.sessions.last().token_hash == session.token_hash@,
        final(db)@.sessions.last().expires_at == session.expires_at,
        final(db)@.sessions.last().kind == session.kind@,
        final(db)@.sessions.last().identity == session.identity@,
{
    assert(final(db)@.sessions.drop_last() =~= old(db)@.sessions);
}

/// A session that is made without a kind is a legacy session of nobody, and
/// lasts until the time that is given.
pub proof fn created_session_is_legacy(db: &mut Db, hash: &str, expires: i64)
    requires
        call_ensures(Db::create_session, (db, hash, expires), ()),
    ensures
        final(db)@.settings == old(db)@.settings,
        final(db)@.sessions.drop_last() == old(db)@.sessions,
        final(db)@.sessions.len() == old(db)@.sessions.len() + 1,
        final(db)@.sessions.last().token_hash == hash@,
        final(db)@.sessions.last().expires_at == expires,
        final(db)@.sessions.last().kind == "legacy"@,
        final(db)@.sessions.last().identity.len() == 0,
{
    assert(final(db)@.sessions.drop_last() =~= old(db)@.sessions);
}

proof fn filter_none(sessions: Seq<SessionRow>, stays: spec_fn(SessionRow) -> bool)
    requires
        forall|s: SessionRow| !#[trigger] stays(s),
    ensures
        sessions.filter(stays) == Seq::<SessionRow>::empty(),
    decreases sessions.len(),
{
    reveal(Seq::filter);
    if sessions.len() > 0 {
        filter_none(sessions.drop_last(), stays);
    }
}

proof fn filter_all(sessions: Seq<SessionRow>, stays: spec_fn(SessionRow) -> bool)
    requires
        forall|s: SessionRow| #[trigger] stays(s),
    ensures
        sessions.filter(stays) == sessions,
    decreases sessions.len(),
{
    reveal(Seq::filter);
    if sessions.len() > 0 {
        filter_all(sessions.drop_last(), stays);
        assert(sessions.drop_last().push(sessions.last()) =~= sessions);
    } else {
        assert(sessions.filter(stays) =~= sessions);
    }
}

proof fn filter_one(session: SessionRow, stays: spec_fn(SessionRow) -> bool)
    ensures
        seq![session].filter(stays) == (if stays(session) {
            seq![session]
        } else {
            Seq::empty()
        }),
{
    reveal_with_fuel(Seq::filter, 2);
    assert(seq![session].drop_last() =~= Seq::empty());
    assert(Seq::<SessionRow>::empty().push(session) =~= seq![session]);
}

proof fn without_is_filter(sessions: Seq<SessionRow>)
    ensures
        without(sessions, Which::All) == Seq::<SessionRow>::empty(),
        without(sessions, Which::Github) == sessions.filter(
            |s: SessionRow| s.kind != "github"@,
        ),
        without(sessions, Which::NotGithub) == sessions.filter(
            |s: SessionRow| s.kind == "github"@,
        ),
{
    let all = |s: SessionRow| !crate::store::among(Which::All, s);
    filter_none(sessions, all);
    let github = |s: SessionRow| !crate::store::among(Which::Github, s);
    assert(github =~= (|s: SessionRow| s.kind != "github"@));
    let others = |s: SessionRow| !crate::store::among(Which::NotGithub, s);
    assert(others =~= (|s: SessionRow| s.kind == "github"@));
}

/// Deleting sessions takes those of the kind that is meant and leaves the
/// others in their order.
pub proof fn deletion_takes_what_is_meant(db: &mut Db, which: Which)
    requires
        call_ensures(Db::delete_sessions, (db, which), ()),
    ensures
        final(db)@.settings == old(db)@.settings,
        which is All ==> final(db)@.sessions.len() == 0,
        which is Github ==> final(db)@.sessions == old(db)@.sessions.filter(
            |s: SessionRow| s.kind != "github"@,
        ),
        which is NotGithub ==> final(db)@.sessions == old(db)@.sessions.filter(
            |s: SessionRow| s.kind == "github"@,
        ),
{
    without_is_filter(old(db)@.sessions);
}

/// A statement changes a key, adds a session or deletes sessions, and does
/// nothing else.
pub proof fn statement_does_one_thing(db: &mut Db, statement: &Statement)
    requires
        call_ensures(Db::execute, (db, statement), ()),
    ensures
        statement matches Statement::Put(setting) ==> final(db)@.sessions == old(db)@.sessions
            && final(db)@.settings == old(db)@.settings.insert(setting.key@, setting.value@),
        statement matches Statement::Add(session) ==> final(db)@.settings == old(db)@.settings
            && final(db)@.sessions == old(db)@.sessions.push(
            SessionRow {
                token_hash: session.token_hash@,
                expires_at: session.expires_at as int,
                kind: session.kind@,
                identity: session.identity@,
            },
        ),
        statement matches Statement::Delete(which) ==> final(db)@.settings == old(db)@.settings
            && match which {
            Which::All => final(db)@.sessions.len() == 0,
            Which::Github => final(db)@.sessions == old(db)@.sessions.filter(
                |s: SessionRow| s.kind != "github"@,
            ),
            Which::NotGithub => final(db)@.sessions == old(db)@.sessions.filter(
                |s: SessionRow| s.kind == "github"@,
            ),
        },
{
    without_is_filter(old(db)@.sessions);
}

/// Statements are executed one after the other, from the first to the last:
/// the tables after them all are those that the last one makes of the tables
/// after the others.
pub proof fn statements_follow_each_other(
    start: Tables,
    statements: Seq<Statement>,
    last: Statement,
    db: &mut Db,
)
    requires
        old(db)@ == executed_all(start, statements),
        call_ensures(Db::execute, (db, &last), ()),
    ensures
        final(db)@ == executed_all(start, statements.push(last)),
        executed_all(start, Seq::<Statement>::empty()) == start,
{
    assert(statements.push(last).drop_last() =~= statements);
}

// ---------------------------------------------------------------------------
// The configuration
// ---------------------------------------------------------------------------

/// What is stored under a key; nothing is as good as the empty text.
pub open spec fn kept(settings: Map<Seq<char>, Seq<char>>, key: Seq<char>) -> Seq<char> {
    if settings.contains_key(key) {
        settings[key]
    } else {
        Seq::empty()
    }
}

/// Password login is off: that very word is stored.
pub open spec fn password_off(settings: Map<Seq<char>, Seq<char>>) -> bool {
    settings.contains_key("password_login"@) && settings["password_login"@] == "off"@
}

/// The settings admit this GitHub user.
pub open spec fn user_listed(settings: Map<Seq<char>, Seq<char>>, name: Seq<char>) -> bool {
    lists(kept(settings, "github_allowed_users"@), name)
}

/// GitHub login is set up.
pub open spec fn github_set_up(settings: Map<Seq<char>, Seq<char>>) -> bool {
    &&& trimmed(kept(settings, "github_client_id"@)).len() > 0
    &&& trimmed(kept(settings, "github_client_secret"@)).len() > 0
    &&& exists|name: Seq<char>| user_listed(settings, name)
}

/// Both settings name the same GitHub client, secret and users.
pub open spec fn same_github(
    a: Map<Seq<char>, Seq<char>>,
    b: Map<Seq<char>, Seq<char>>,
) -> bool {
    &&& trimmed(kept(a, "github_client_id"@)) == trimmed(kept(b, "github_client_id"@))
    &&& trimmed(kept(a, "github_client_secret"@)) == trimmed(kept(b, "github_client_secret"@))
    &&& forall|name: Seq<char>| user_listed(a, name) <==> user_listed(b, name)
}

/// The stamp that the settings have: the digest of client, secret, users, from
/// first to last, revision and site.
pub open spec fn is_stamp(
    settings: Map<Seq<char>, Seq<char>>,
    site: Seq<char>,
    stamp: Seq<char>,
) -> bool {
    exists|users: Seq<Seq<char>>|
        {
            &&& ascending(users)
            &&& forall|name: Seq<char>| users.contains(name) <==> user_listed(settings, name)
            &&& stamp == sha256_text(
                #[trigger] stamp_text(
                    trimmed(kept(settings, "github_client_id"@)),
                    trimmed(kept(settings, "github_client_secret"@)),
                    users,
                    kept(settings, "github_revision"@),
                    site,
                ),
            )
        }
}

/// The settings have one stamp for a site.
pub proof fn stamp_is_unique(
    settings: Map<Seq<char>, Seq<char>>,
    site: Seq<char>,
    a: Seq<char>,
    b: Seq<char>,
)
    requires
        is_stamp(settings, site, a),
        is_stamp(settings, site, b),
    ensures
        a == b,
{
    let id = trimmed(kept(settings, "github_client_id"@));
    let secret = trimmed(kept(settings, "github_client_secret"@));
    let revision = kept(settings, "github_revision"@);
    let u = choose|users: Seq<Seq<char>>|
        {
            &&& ascending(users)
            &&& forall|name: Seq<char>| users.contains(name) <==> user_listed(settings, name)
            &&& a == sha256_text(#[trigger] stamp_text(id, secret, users, revision, site))
        };
    let v = choose|users: Seq<Seq<char>>|
        {
            &&& ascending(users)
            &&& forall|name: Seq<char>| users.contains(name) <==> user_listed(settings, name)
            &&& b == sha256_text(#[trigger] stamp_text(id, secret, users, revision, site))
        };
    assert forall|name: Seq<char>| u.contains(name) <==> v.contains(name) by {
        assert(u.contains(name) <==> user_listed(settings, name));
        assert(v.contains(name) <==> user_listed(settings, name));
    }
    ascending_unique(u, v);
}

/// This GitHub configuration has worked before.
pub open spec fn github_proved(settings: Map<Seq<char>, Seq<char>>, site: Seq<char>) -> bool {
    settings.contains_key("github_verified"@) && is_stamp(
        settings,
        site,
        settings["github_verified"@],
    )
}

proof fn users_are_listed(settings: Map<Seq<char>, Seq<char>>)
    ensures
        ascending(users_of(settings)),
        forall|name: Seq<char>| #[trigger]
            users_of(settings).contains(name) <==> user_listed(settings, name),
        users_of(settings).len() > 0 <==> exists|name: Seq<char>| user_listed(settings, name),
{
    let list = kept(settings, "github_allowed_users"@);
    sorted_names_are_listed(list, Seq::empty());
    assert(users_of(settings) == sorted_names(names_in(list)));
    assert forall|name: Seq<char>| #[trigger]
        users_of(settings).contains(name) <==> user_listed(settings, name) by {
        sorted_names_are_listed(list, name);
    }
    if users_of(settings).len() > 0 {
        let name = users_of(settings)[0];
        assert(users_of(settings).contains(name));
        assert(user_listed(settings, name));
    }
    if exists|name: Seq<char>| user_listed(settings, name) {
        let name = choose|name: Seq<char>| user_listed(settings, name);
        assert(users_of(settings).contains(name));
    }
}

proof fn config_in_words(settings: Map<Seq<char>, Seq<char>>, site: Seq<char>)
    ensures
        ({
            let auth = config_of(settings, site);
            &&& auth.password_enabled == !password_off(settings)
            &&& auth.password_hash is Some <==> settings.contains_key("admin_password_hash"@)
            &&& auth.password_hash matches Some(hash) ==> hash == settings["admin_password_hash"@]
            &&& auth.ready() == github_set_up(settings)
            &&& auth.verified == github_proved(settings, site)
            &&& is_stamp(settings, site, auth.stamp)
            &&& forall|name: Seq<char>| #[trigger]
                auth.github_users.contains(name) <==> user_listed(settings, name)
        }),
{
    users_are_listed(settings);
    let auth = config_of(settings, site);
    let users = users_of(settings);
    assert(auth.stamp == sha256_text(
        stamp_text(
            trimmed(kept(settings, "github_client_id"@)),
            trimmed(kept(settings, "github_client_secret"@)),
            users,
            kept(settings, "github_revision"@),
            site,
        ),
    ));
    assert(is_stamp(settings, site, auth.stamp));
    if github_proved(settings, site) {
        stamp_is_unique(settings, site, auth.stamp, settings["github_verified"@]);
    }
}

proof fn same_github_in_words(
    a: Map<Seq<char>, Seq<char>>,
    b: Map<Seq<char>, Seq<char>>,
    site: Seq<char>,
)
    ensures
        config_of(a, site).github_differs(config_of(b, site)) == !same_github(a, b),
{
    users_are_listed(a);
    users_are_listed(b);
    let u = users_of(a);
    let v = users_of(b);
    if same_github(a, b) {
        assert forall|name: Seq<char>| u.contains(name) <==> v.contains(name) by {
            assert(user_listed(a, name) <==> user_listed(b, name));
        }
        ascending_unique(u, v);
    }
    if u == v {
        assert forall|name: Seq<char>| user_listed(a, name) <==> user_listed(b, name) by {
            assert(u.contains(name) <==> user_listed(a, name));
            assert(v.contains(name) <==> user_listed(b, name));
        }
    }
}

/// The login configuration is what the settings say: password login is on
/// unless it is stored as off, the password is the one that is stored, client
/// and secret come without blanks around them, the users are those that the
/// list names, and the configuration counts as verified where its stamp is
/// stored.
pub proof fn configuration_is_what_is_stored(db: &Db, site: &str, r: AuthConfig)
    requires
        call_ensures(Db::auth_config, (db, site), r),
    ensures
        r.password_enabled <==> !password_off(db@.settings),
        r.password_hash is Some <==> db@.settings.contains_key("admin_password_hash"@),
        r.password_hash matches Some(hash) ==> hash@ == db@.settings["admin_password_hash"@],
        r.github_id@ == trimmed(kept(db@.settings, "github_client_id"@)),
        r.github_secret@ == trimmed(kept(db@.settings, "github_client_secret"@)),
        forall|name: Seq<char>| #[trigger]
            user_listed(db@.settings, name) <==> exists|k: int|
                0 <= k < r.github_users@.len() && (#[trigger] r.github_users@[k])@ == name,
        forall|j: int, k: int| #![trigger r.github_users@[j], r.github_users@[k]]
            0 <= j < k < r.github_users@.len() ==> before_in_dictionary(
                r.github_users@[j]@,
                r.github_users@[k]@,
            ),
        is_stamp(db@.settings, site@, r.stamp@),
        r.stamp@.len() == 64,
        r.verified <==> db@.settings.contains_key("github_verified"@)
            && db@.settings["github_verified"@] == r.stamp@,
{
    let s = db@.settings;
    config_in_words(s, site@);
    users_are_listed(s);
    let names = texts(r.github_users@);
    assert(r@.github_users == names);
    assert forall|name: Seq<char>| #[trigger] user_listed(s, name) <==> exists|k: int|
        0 <= k < r.github_users@.len() && (#[trigger] r.github_users@[k])@ == name by {
        assert(users_of(s).contains(name) <==> user_listed(s, name));
        if user_listed(s, name) {
            let k = names.index_of(name);
            assert(r.github_users@[k]@ == name);
        }
        if exists|k: int|
            0 <= k < r.github_users@.len() && (#[trigger] r.github_users@[k])@ == name {
            let k = choose|k: int|
                0 <= k < r.github_users@.len() && (#[trigger] r.github_users@[k])@ == name;
            assert(names[k] == name);
        }
    }
    assert forall|j: int, k: int| #![trigger r.github_users@[j], r.github_users@[k]]
        0 <= j < k < r.github_users@.len() implies before_in_dictionary(
        r.github_users@[j]@,
        r.github_users@[k]@,
    ) by {
        assert(crate::names::precedes(names[j], names[k]));
        precedes_is_dictionary_order(names[j], names[k]);
    }
}

/// GitHub login is ready where client, secret and at least one user are there.
pub proof fn github_is_ready_when_nothing_is_missing(auth: &AuthConfig, r: bool)
    requires
        call_ensures(AuthConfig::github_ready, (auth,), r),
    ensures
        r <==> auth.github_id@.len() > 0 && auth.github_secret@.len() > 0
            && auth.github_users@.len() > 0,
{
}

// ---------------------------------------------------------------------------
// Logins and recovery
// ---------------------------------------------------------------------------

/// After a login there is one session more, the last: it has the token, the
/// time of expiry, the kind and the name that are given. All others stay as
/// they are.
pub open spec fn signs_in(
    before: Seq<SessionRow>,
    after: Seq<SessionRow>,
    hash: Seq<char>,
    expires: int,
    kind: Seq<char>,
    identity: Seq<char>,
) -> bool {
    &&& after.len() == before.len() + 1
    &&& forall|i: int| 0 <= i < before.len() ==> #[trigger] after[i] == before[i]
    &&& after.last().token_hash == hash
    &&& after.last().expires_at == expires
    &&& after.last().kind == kind
    &&& after.last().identity == identity
}

/// Who signs in with a token that nobody has is signed in until the time of
/// expiry, and not beyond; everybody else is signed in as before.
pub proof fn sign_in_lasts_until_it_expires(
    before: Seq<SessionRow>,
    after: Seq<SessionRow>,
    hash: Seq<char>,
    expires: int,
    kind: Seq<char>,
    identity: Seq<char>,
    other: Seq<char>,
    now: int,
)
    requires
        signs_in(before, after, hash, expires, kind, identity),
        forall|i: int| 0 <= i < before.len() ==> (#[trigger] before[i]).token_hash != hash,
    ensures
        signed_in(after, hash, now) <==> now < expires,
        now < expires ==> first_live(after, hash, now, before.len() as int),
        other != hash ==> (signed_in(after, other, now) <==> signed_in(before, other, now)),
{
    let last = before.len() as int;
    assert(after[last] == after.last());
    if signed_in(after, hash, now) {
        let i = choose|i: int|
            0 <= i < after.len() && (#[trigger] after[i]).token_hash == hash && now
                < after[i].expires_at;
        if i < last {
            assert(after[i] == before[i]);
        }
    }
    assert forall|j: int| 0 <= j < last implies (#[trigger] after[j]).token_hash != hash by {
        assert(after[j] == before[j]);
    }
    if other != hash {
        if signed_in(after, other, now) {
            let i = choose|i: int|
                0 <= i < after.len() && (#[trigger] after[i]).token_hash == other && now
                    < after[i].expires_at;
            assert(after[i] == before[i]);
        }
        if signed_in(before, other, now) {
            let i = choose|i: int|
                0 <= i < before.len() && (#[trigger] before[i]).token_hash == other && now
                    < before[i].expires_at;
            assert(after[i] == before[i]);
        }
    }
}

/// The right password signs in unless password login is stored as off,
/// whatever else is stored or missing, and no other password does. The session
/// is a password session of nobody, with the token and the time of expiry that
/// are given. Nothing else changes, and nothing at all where it is refused.
pub proof fn right_password_signs_in(
    db: &mut Db,
    hash: &str,
    expires: i64,
    checked: &str,
    r: Result<Vec<Statement>, AuthError>,
)
    requires
        call_ensures(Db::password_session, (db, hash, expires, checked), r),
    ensures
        r is Ok <==> !password_off(old(db)@.settings) && old(db)@.settings.contains_key(
            "admin_password_hash"@,
        ) && old(db)@.settings["admin_password_hash"@] == checked@,
        r is Ok ==> final(db)@.settings == old(db)@.settings && signs_in(
            old(db)@.sessions,
            final(db)@.sessions,
            hash@,
            expires as int,
            "password"@,
            Seq::empty(),
        ),
        r matches Ok(log) ==> final(db)@ == executed_all(old(db)@, log@),
        r is Err ==> r->Err_0 == AuthError::PasswordRefused && final(db)@ == old(db)@,
{
    config_in_words(old(db)@.settings, Seq::empty());
}

/// A GitHub user signs in if GitHub login is set up, the settings admit the
/// user, in whatever letter case, and the login carries their stamp. The
/// session is a GitHub session of that user, in small letters, with the token
/// and the time of expiry that are given. The stamp is stored as verified and
/// nothing else changes; where the login is refused, nothing at all.
pub proof fn admitted_github_user_signs_in(
    db: &mut Db,
    hash: &str,
    expires: i64,
    user: &str,
    stamp: &str,
    site: &str,
    r: Result<Vec<Statement>, AuthError>,
)
    requires
        call_ensures(Db::github_session, (db, hash, expires, user, stamp, site), r),
    ensures
        r is Ok <==> github_set_up(old(db)@.settings) && user_listed(
            old(db)@.settings,
            lowered(user@),
        ) && is_stamp(old(db)@.settings, site@, stamp@),
        r is Ok ==> signs_in(
            old(db)@.sessions,
            final(db)@.sessions,
            hash@,
            expires as int,
            "github"@,
            lowered(user@),
        ),
        r is Ok ==> final(db)@.settings.contains_key("github_verified"@)
            && final(db)@.settings["github_verified"@] == stamp@,
        r is Ok ==> forall|key: Seq<char>|
            key != "github_verified"@ ==> (#[trigger] final(db)@.settings.contains_key(key)
                <==> old(db)@.settings.contains_key(key)) && final(db)@.settings[key]
                == old(db)@.settings[key],
        r matches Ok(log) ==> final(db)@ == executed_all(old(db)@, log@),
        r is Err ==> r->Err_0 == AuthError::GithubRefused && final(db)@ == old(db)@,
{
    let s = old(db)@.settings;
    config_in_words(s, site@);
    let auth = config_of(s, site@);
    if is_stamp(s, site@, stamp@) {
        stamp_is_unique(s, site@, stamp@, auth.stamp);
    }
}

/// A configuration that a login has just worked for counts as verified.
pub proof fn github_login_proves_the_configuration(
    db: &mut Db,
    hash: &str,
    expires: i64,
    user: &str,
    stamp: &str,
    site: &str,
    r: Result<Vec<Statement>, AuthError>,
    auth: AuthConfig,
)
    requires
        call_ensures(Db::github_session, (db, hash, expires, user, stamp, site), r),
        call_ensures(Db::auth_config, (final(db), site), auth),
        r is Ok,
    ensures
        auth.verified,
        auth.stamp@ == stamp@,
{
    crate::policy::github_login_verifies(
        old(db)@,
        hash@,
        expires as int,
        user@,
        stamp@,
        site@,
    );
}

/// A recovery stores the new password, switches password login on, and leaves
/// nobody signed in; every other setting stays.
pub proof fn recovery_leaves_one_way_in(db: &mut Db, hash: &str, r: Vec<Statement>)
    requires
        call_ensures(Db::recover_password, (db, hash), r),
    ensures
        final(db)@.sessions.len() == 0,
        final(db)@.settings.contains_key("admin_password_hash"@),
        final(db)@.settings["admin_password_hash"@] == hash@,
        final(db)@.settings.contains_key("password_login"@),
        final(db)@.settings["password_login"@] == "on"@,
        !password_off(final(db)@.settings),
        forall|key: Seq<char>|
            key != "admin_password_hash"@ && key != "password_login"@ ==> (
            #[trigger] final(db)@.settings.contains_key(key) <==> old(db)@.settings.contains_key(
                key,
            )) && final(db)@.settings[key] == old(db)@.settings[key],
        final(db)@ == executed_all(old(db)@, r@),
{
    reveal_strlit("admin_password_hash");
    reveal_strlit("password_login");
    reveal_strlit("on");
    reveal_strlit("off");
    assert("admin_password_hash"@.len() != "password_login"@.len());
    assert("on"@.len() != "off"@.len());
}

/// After a recovery the new password signs in, and no other.
pub proof fn recovered_password_signs_in(
    db: &mut Db,
    hash: &str,
    statements: Vec<Statement>,
    next: &mut Db,
    token: &str,
    expires: i64,
    checked: &str,
    r: Result<Vec<Statement>, AuthError>,
)
    requires
        call_ensures(Db::recover_password, (db, hash), statements),
        *old(next) == *final(db),
        call_ensures(Db::password_session, (next, token, expires, checked), r),
    ensures
        r is Ok <==> checked@ == hash@,
{
    recovery_leaves_one_way_in(db, hash, statements);
    right_password_signs_in(next, token, expires, checked, r);
}

// ---------------------------------------------------------------------------
// Changes of the settings
// ---------------------------------------------------------------------------

/// A patch starts empty, and what is put into it last counts.
pub proof fn patch_holds_what_is_put(
    new: Patch,
    patch: &mut Patch,
    key: &str,
    value: Option<&str>,
)
    requires
        call_ensures(Patch::new, (), new),
        call_ensures(Patch::put, (patch, key, value), ()),
    ensures
        forall|other: Seq<char>| !#[trigger] new@.contains_key(other),
        final(patch)@.contains_key(key@),
        value is None ==> final(patch)@[key@] is None,
        value matches Some(text) ==> final(patch)@[key@] == Some(text@),
        forall|other: Seq<char>|
            other != key@ ==> (#[trigger] final(patch)@.contains_key(other)
                <==> old(patch)@.contains_key(other)) && final(patch)@[other]
                == old(patch)@[other],
{
}

/// What stands under a key once the patch and the new password are written: a
/// value of the patch that is no text is written as the empty text, and a
/// password in clear is not written.
pub open spec fn written_under(
    settings: Map<Seq<char>, Seq<char>>,
    patch: Map<Seq<char>, Option<Seq<char>>>,
    password: Option<Seq<char>>,
    key: Seq<char>,
) -> Option<Seq<char>> {
    if key == "admin_password_hash"@ && password is Some {
        password
    } else if key != "admin_password"@ && patch.contains_key(key) {
        match patch[key] {
            Some(value) => Some(value),
            None => Some(Seq::empty()),
        }
    } else if settings.contains_key(key) {
        Some(settings[key])
    } else {
        None
    }
}

/// The settings once the patch and the new password are written.
pub open spec fn once_written(
    settings: Map<Seq<char>, Seq<char>>,
    patch: Map<Seq<char>, Option<Seq<char>>>,
    password: Option<Seq<char>>,
) -> Map<Seq<char>, Seq<char>> {
    Map::new(
        |key: Seq<char>| written_under(settings, patch, password, key) is Some,
        |key: Seq<char>| written_under(settings, patch, password, key)->0,
    )
}

/// The session that asks for a change is over.
pub open spec fn asks_too_late(
    sessions: Seq<SessionRow>,
    actor: Option<Seq<char>>,
    now: int,
) -> bool {
    actor matches Some(hash) && !signed_in(sessions, hash, now)
}

/// A change is refused for the first of these reasons that there is, and for
/// no other; a refused change changes nothing.
pub open spec fn refused_for_a_reason(
    before: Tables,
    after: Tables,
    r: Result<Vec<Statement>, AuthError>,
    patch: Map<Seq<char>, Option<Seq<char>>>,
    password: Option<Seq<char>>,
    site: Seq<char>,
    actor: Option<Seq<char>>,
    now: int,
) -> bool {
    let end = once_written(before.settings, patch, password);
    let same = same_github(before.settings, end);
    let late = asks_too_late(before.sessions, actor, now);
    let frozen = !same && password_off(before.settings);
    let locked_out = password_off(end) && !(same && github_set_up(end) && github_proved(end, site));
    let no_password = patch.contains_key("password_login"@) && patch["password_login"@] == Some(
        "on"@,
    ) && kept(end, "admin_password_hash"@).len() == 0;
    &&& r is Ok <==> !late && !frozen && !locked_out && !no_password
    &&& r matches Err(error) ==> {
        &&& after == before
        &&& error == AuthError::SessionExpired <==> late
        &&& error == AuthError::PasswordOff <==> !late && frozen
        &&& error == AuthError::GithubUnverified <==> !late && !frozen && locked_out
        &&& error == AuthError::PasswordMissing <==> !late && !frozen && !locked_out && no_password
    }
}

/// An accepted change writes the patch and the new password. Where the GitHub
/// configuration is another afterwards, it has the new revision and counts as
/// not verified. Nothing else changes.
pub open spec fn settings_follow(
    before: Tables,
    after: Tables,
    patch: Map<Seq<char>, Option<Seq<char>>>,
    password: Option<Seq<char>>,
    revision: Seq<char>,
) -> bool {
    let end = once_written(before.settings, patch, password);
    let same = same_github(before.settings, end);
    &&& !same ==> after.settings.contains_key("github_revision"@)
        && after.settings["github_revision"@] == revision
    &&& !same ==> after.settings.contains_key("github_verified"@)
        && after.settings["github_verified"@].len() == 0
    &&& forall|key: Seq<char>|
        same || (key != "github_revision"@ && key != "github_verified"@) ==> match written_under(
            before.settings,
            patch,
            password,
            key,
        ) {
            Some(value) => #[trigger] after.settings.contains_key(key) && after.settings[key]
                == value,
            None => !after.settings.contains_key(key),
        }
}

/// Without a replacement, GitHub sessions go where the GitHub configuration is
/// another afterwards, the others go where password login is off afterwards,
/// and all that is left keeps its order. A replacement is the only session
/// afterwards, with the token and the time of expiry that are given. It is one
/// of who asks for the change, or a password session where the GitHub
/// configuration is another; where password login is off afterwards it stays
/// only if it is a GitHub session.
pub open spec fn sessions_follow(
    before: Tables,
    after: Tables,
    patch: Map<Seq<char>, Option<Seq<char>>>,
    password: Option<Seq<char>>,
    actor: Option<Seq<char>>,
    replacement: Option<(Seq<char>, int)>,
    now: int,
) -> bool {
    let end = once_written(before.settings, patch, password);
    let same = same_github(before.settings, end);
    match replacement {
        None => after.sessions == before.sessions.filter(
            |s: SessionRow|
                if s.kind == "github"@ {
                    same
                } else {
                    !password_off(end)
                },
        ),
        Some((hash, expires)) => exists|kind: Seq<char>, identity: Seq<char>| #[trigger]
            replaces(before.sessions, actor, now, same, kind, identity) && after.sessions == (
            if password_off(end) && kind != "github"@ {
                Seq::<SessionRow>::empty()
            } else {
                seq![SessionRow { token_hash: hash, expires_at: expires, kind, identity }]
            }),
    }
}

/// The kind and the name of a replacement session.
pub open spec fn replaces(
    sessions: Seq<SessionRow>,
    actor: Option<Seq<char>>,
    now: int,
    same: bool,
    kind: Seq<char>,
    identity: Seq<char>,
) -> bool {
    if !same {
        kind == "password"@ && identity.len() == 0
    } else {
        match actor {
            Some(hash) => exists|i: int| #[trigger]
                first_live(sessions, hash, now, i) && kind == sessions[i].kind && identity
                    == sessions[i].identity,
            None => kind == "legacy"@ && identity.len() == 0,
        }
    }
}

proof fn patched_is_written(
    settings: Map<Seq<char>, Seq<char>>,
    patch: Map<Seq<char>, Option<Seq<char>>>,
    password: Option<Seq<char>>,
)
    ensures
        patched(settings, patch, password) == once_written(settings, patch, password),
{
    assert(patched(settings, patch, password) =~= once_written(settings, patch, password));
}

proof fn literals_differ()
    ensures
        "github_revision"@ != "github_verified"@,
        "password"@ != "github"@,
{
    reveal_strlit("github_revision");
    reveal_strlit("github_verified");
    reveal_strlit("password");
    reveal_strlit("github");
    assert("github_revision"@[7] != "github_verified"@[7]);
    assert("password"@.len() != "github"@.len());
}

proof fn change_in_words(
    before: Tables,
    after: Tables,
    r: Result<Vec<Statement>, AuthError>,
    patch: Map<Seq<char>, Option<Seq<char>>>,
    password: Option<Seq<char>>,
    site: Seq<char>,
    actor: Option<Seq<char>>,
    replacement: Option<(Seq<char>, int)>,
    now: int,
    revision: Seq<char>,
)
    requires
        settled(
            before,
            after,
            r,
            patch,
            password,
            site,
            actor,
            replacement,
            now,
            revision,
        ),
    ensures
        refused_for_a_reason(before, after, r, patch, password, site, actor, now),
        r is Ok ==> settings_follow(before, after, patch, password, revision),
        r is Ok ==> sessions_follow(before, after, patch, password, actor, replacement, now),
        r matches Ok(log) ==> after == executed_all(before, log@),
{
    let end = once_written(before.settings, patch, password);
    let same = same_github(before.settings, end);
    patched_is_written(before.settings, patch, password);
    config_in_words(before.settings, site);
    config_in_words(end, site);
    same_github_in_words(before.settings, end, site);
    literals_differ();
    let at = match actor {
        Some(hash) => live_session_is_first(before.sessions, hash, now),
        None => 0,
    };
    if r is Ok {
        let sessions = before.sessions;
        let stays = |s: SessionRow|
            if s.kind == "github"@ {
                same
            } else {
                !password_off(end)
            };
        without_is_filter(sessions);
        match replacement {
            None => {
                if password_off(end) {
                    assert(stays =~= (|s: SessionRow| s.kind == "github"@));
                } else if !same {
                    assert(stays =~= (|s: SessionRow| s.kind != "github"@));
                } else {
                    filter_all(sessions, stays);
                }
            },
            Some((hash, expires)) => {
                let (kind, identity) = if same {
                    match actor {
                        Some(_) => (sessions[at].kind, sessions[at].identity),
                        None => ("legacy"@, Seq::<char>::empty()),
                    }
                } else {
                    ("password"@, Seq::<char>::empty())
                };
                let alone = seq![
                    SessionRow { token_hash: hash, expires_at: expires, kind, identity },
                ];
                without_is_filter(alone);
                filter_one(alone[0], |s: SessionRow| s.kind == "github"@);
                assert(alone =~= seq![alone[0]]);
                assert(replaces(sessions, actor, now, same, kind, identity));
            },
        }
    }
}

/// A change of the settings is refused for one of four reasons, in this order:
/// who asks is not signed in any more; the GitHub configuration would change
/// while password login is off; password login would be off without a GitHub
/// configuration that stays as it is, is set up and has been verified; password
/// login would be switched on without a password. Otherwise it is accepted.
pub proof fn change_is_refused_for_a_reason(
    db: &mut Db,
    patch: &Patch,
    password: Option<&str>,
    site: &str,
    actor: Option<&str>,
    replacement: Option<(&str, i64)>,
    now: i64,
    revision: &str,
    r: Result<Vec<Statement>, AuthError>,
)
    requires
        call_ensures(
            Db::save_settings_at,
            (db, patch, password, site, actor, replacement, now, revision),
            r,
        ),
    ensures
        refused_for_a_reason(
            old(db)@,
            final(db)@,
            r,
            patch@,
            match password {
                Some(hash) => Some(hash@),
                None => None,
            },
            site@,
            match actor {
                Some(hash) => Some(hash@),
                None => None,
            },
            now as int,
        ),
{
    change_in_words(
        old(db)@,
        final(db)@,
        r,
        patch@,
        str_of(password),
        site@,
        str_of(actor),
        replacement_of(replacement),
        now as int,
        revision@,
    );
}

/// An accepted change writes what it is given and ends the sessions that it
/// has to end, and does nothing else to settings or sessions.
pub proof fn accepted_change_is_carried_out(
    db: &mut Db,
    patch: &Patch,
    password: Option<&str>,
    site: &str,
    actor: Option<&str>,
    replacement: Option<(&str, i64)>,
    now: i64,
    revision: &str,
    r: Result<Vec<Statement>, AuthError>,
)
    requires
        call_ensures(
            Db::save_settings_at,
            (db, patch, password, site, actor, replacement, now, revision),
            r,
        ),
        r is Ok,
    ensures
        ({
            let password = match password {
                Some(hash) => Some(hash@),
                None => None,
            };
            let actor = match actor {
                Some(hash) => Some(hash@),
                None => None,
            };
            let replacement = match replacement {
                Some((hash, expires)) => Some((hash@, expires as int)),
                None => None,
            };
            &&& settings_follow(old(db)@, final(db)@, patch@, password, revision@)
            &&& sessions_follow(
                old(db)@,
                final(db)@,
                patch@,
                password,
                actor,
                replacement,
                now as int,
            )
            &&& final(db)@ == executed_all(old(db)@, r->Ok_0@)
        }),
{
    change_in_words(
        old(db)@,
        final(db)@,
        r,
        patch@,
        str_of(password),
        site@,
        str_of(actor),
        replacement_of(replacement),
        now as int,
        revision@,
    );
}

/// A change without a replacement that leaves the GitHub configuration as it
/// is and password login on signs nobody out.
pub proof fn harmless_change_signs_nobody_out(
    db: &mut Db,
    patch: &Patch,
    password: Option<&str>,
    site: &str,
    actor: Option<&str>,
    now: i64,
    revision: &str,
    r: Result<Vec<Statement>, AuthError>,
)
    requires
        call_ensures(
            Db::save_settings_at,
            (db, patch, password, site, actor, None, now, revision),
            r,
        ),
        same_github(old(db)@.settings, final(db)@.settings),
        !password_off(final(db)@.settings),
    ensures
        final(db)@.sessions == old(db)@.sessions,
{
    change_in_words(
        old(db)@,
        final(db)@,
        r,
        patch@,
        str_of(password),
        site@,
        str_of(actor),
        None,
        now as int,
        revision@,
    );
    if r is Ok {
        let settings = old(db)@.settings;
        let end = once_written(settings, patch@, str_of(password));
        let after = final(db)@.settings;
        keys_are_not_touched();
        assert forall|key: Seq<char>|
            key != "github_revision"@ && key != "github_verified"@ implies kept(after, key) == kept(
            end,
            key,
        ) && (#[trigger] after.contains_key(key) <==> end.contains_key(key)) by {
            let value = written_under(settings, patch@, str_of(password), key);
            assert(end.contains_key(key) <==> value is Some);
            assert(after.contains_key(key) || !after.contains_key(key));
        }
        assert(after.contains_key("github_client_id"@) <==> end.contains_key("github_client_id"@));
        assert(after.contains_key("github_client_secret"@) <==> end.contains_key(
            "github_client_secret"@,
        ));
        assert(after.contains_key("github_allowed_users"@) <==> end.contains_key(
            "github_allowed_users"@,
        ));
        assert(after.contains_key("password_login"@) <==> end.contains_key("password_login"@));
        assert(password_off(after) == password_off(end));
        assert(same_github(settings, end)) by {
            assert forall|name: Seq<char>| user_listed(settings, name) <==> user_listed(
                end,
                name,
            ) by {
                assert(user_listed(settings, name) <==> user_listed(after, name));
            }
        }
        let stays = |s: SessionRow|
            if s.kind == "github"@ {
                same_github(settings, end)
            } else {
                !password_off(end)
            };
        filter_all(old(db)@.sessions, stays);
    }
}

proof fn keys_are_not_touched()
    ensures
        "github_client_id"@ != "github_revision"@,
        "github_client_id"@ != "github_verified"@,
        "github_client_secret"@ != "github_revision"@,
        "github_client_secret"@ != "github_verified"@,
        "github_allowed_users"@ != "github_revision"@,
        "github_allowed_users"@ != "github_verified"@,
        "password_login"@ != "github_revision"@,
        "password_login"@ != "github_verified"@,
{
    reveal_strlit("github_client_id");
    reveal_strlit("github_client_secret");
    reveal_strlit("github_allowed_users");
    reveal_strlit("github_revision");
    reveal_strlit("github_verified");
    reveal_strlit("password_login");
    assert("github_client_id"@[7] == 'c' && "github_client_secret"@[7] == 'c');
    assert("github_allowed_users"@[7] == 'a' && "password_login"@[0] == 'p');
    assert("github_revision"@[7] == 'r' && "github_verified"@[7] == 'v');
    assert("github_revision"@[0] == 'g' && "github_verified"@[0] == 'g');
}

/// A change that is made now is what the time on the clock and a revision that
/// is drawn make of it: it is refused for the same reasons and carried out in
/// the same way.
pub proof fn change_now_is_a_change(
    db: &mut Db,
    patch: &Patch,
    password: Option<&str>,
    site: &str,
    actor: Option<&str>,
    replacement: Option<(&str, i64)>,
    r: Result<Vec<Statement>, AuthError>,
)
    requires
        call_ensures(
            Db::save_settings_atomic,
            (db, patch, password, site, actor, replacement),
            r,
        ),
    ensures
        ({
            let password = match password {
                Some(hash) => Some(hash@),
                None => None,
            };
            let actor = match actor {
                Some(hash) => Some(hash@),
                None => None,
            };
            let replacement = match replacement {
                Some((hash, expires)) => Some((hash@, expires as int)),
                None => None,
            };
            exists|now: i64, revision: Seq<char>| #![trigger clock_shows(now), drawn(revision)]
                {
                    &&& clock_shows(now)
                    &&& drawn(revision)
                    &&& revision.len() == 64
                    &&& refused_for_a_reason(
                        old(db)@,
                        final(db)@,
                        r,
                        patch@,
                        password,
                        site@,
                        actor,
                        now as int,
                    )
                    &&& r is Ok ==> settings_follow(
                        old(db)@,
                        final(db)@,
                        patch@,
                        password,
                        revision,
                    )
                    &&& r is Ok ==> sessions_follow(
                        old(db)@,
                        final(db)@,
                        patch@,
                        password,
                        actor,
                        replacement,
                        now as int,
                    )
                    &&& r matches Ok(log) ==> final(db)@ == executed_all(old(db)@, log@)
                }
        }),
{
    let (now, revision) = choose|now: i64, revision: Seq<char>|
        #![trigger clock_shows(now), drawn(revision)]
        clock_shows(now) && drawn(revision) && 0 <= now < i64::MAX && revision.len() == 64
            && settled(
            old(db)@,
            final(db)@,
            r,
            patch@,
            str_of(password),
            site@,
            str_of(actor),
            replacement_of(replacement),
            now as int,
            revision,
        );
    change_in_words(
        old(db)@,
        final(db)@,
        r,
        patch@,
        str_of(password),
        site@,
        str_of(actor),
        replacement_of(replacement),
        now as int,
        revision,
    );
    assert(clock_shows(now) && drawn(revision));
}

/// Every refusal has its own words.
pub proof fn refusals_have_words(error: &AuthError, r: &'static str)
    requires
        call_ensures(AuthError::message, (error,), r),
    ensures
        error is SessionExpired ==> r@ == "登录已失效，请重新登录"@,
        error is PasswordRefused ==> r@ == "密码登录已关闭或密码已修改，请重新登录"@,
        error is GithubRefused ==> r@ == "GitHub 配置已变更，请重新发起登录"@,
        error is PasswordOff ==> r@ == "请先开启应急密码，再修改 GitHub 登录配置"@,
        error is GithubUnverified ==> r@
            == "请先完整配置 GitHub 并成功登录验证，再关闭应急密码"@,
        error is PasswordMissing ==> r@ == "请先设置应急密码"@,
{
}

/// A GitHub login with a token that nobody has is found until it expires, and
/// not beyond, as a GitHub session of that user.
pub proof fn github_login_is_found(
    db: &mut Db,
    hash: &str,
    expires: i64,
    user: &str,
    stamp: &str,
    site: &str,
    r: Result<Vec<Statement>, AuthError>,
    now: i64,
    found: Option<Session>,
)
    requires
        call_ensures(Db::github_session, (db, hash, expires, user, stamp, site), r),
        r is Ok,
        forall|i: int|
            0 <= i < old(db)@.sessions.len() ==> (#[trigger] old(db)@.sessions[i]).token_hash
                != hash@,
        call_ensures(Db::live_session_at, (final(db), hash, now), found),
    ensures
        found is Some <==> now < expires,
        found matches Some(session) ==> session.kind@ == "github"@ && session.identity@ == lowered(
            user@,
        ) && session.expires_at == expires,
{
    admitted_github_user_signs_in(db, hash, expires, user, stamp, site, r);
    live_session_lasts_until_it_expires(final(db), hash, now, found);
    sign_in_lasts_until_it_expires(
        old(db)@.sessions,
        final(db)@.sessions,
        hash@,
        expires as int,
        "github"@,
        lowered(user@),
        hash@,
        now as int,
    );
    only_one_is_first(final(db)@.sessions, hash@, now as int, old(db)@.sessions.len() as int);
}

/// A password login with a token that nobody has is found until it expires,
/// and not beyond, as a password session.
pub proof fn password_login_is_found(
    db: &mut Db,
    hash: &str,
    expires: i64,
    checked: &str,
    r: Result<Vec<Statement>, AuthError>,
    now: i64,
    found: Option<Session>,
)
    requires
        call_ensures(Db::password_session, (db, hash, expires, checked), r),
        r is Ok,
        forall|i: int|
            0 <= i < old(db)@.sessions.len() ==> (#[trigger] old(db)@.sessions[i]).token_hash
                != hash@,
        call_ensures(Db::live_session_at, (final(db), hash, now), found),
    ensures
        found is Some <==> now < expires,
        found matches Some(session) ==> session.kind@ == "password"@ && session.identity@.len()
            == 0 && session.expires_at == expires,
{
    right_password_signs_in(db, hash, expires, checked, r);
    live_session_lasts_until_it_expires(final(db), hash, now, found);
    sign_in_lasts_until_it_expires(
        old(db)@.sessions,
        final(db)@.sessions,
        hash@,
        expires as int,
        "password"@,
        Seq::empty(),
        hash@,
        now as int,
    );
    only_one_is_first(final(db)@.sessions, hash@, now as int, old(db)@.sessions.len() as int);
}

proof fn only_one_is_first(sessions: Seq<SessionRow>, hash: Seq<char>, now: int, i: int)
    ensures
        first_live(sessions, hash, now, i) ==> forall|j: int| #[trigger]
            first_live(sessions, hash, now, j) ==> j == i,
        signed_in(sessions, hash, now) <==> exists|j: int| first_live(sessions, hash, now, j),
{
    let k = live_session_is_first(sessions, hash, now);
    if signed_in(sessions, hash, now) {
        assert(first_live(sessions, hash, now, k));
    }
    if exists|j: int| first_live(sessions, hash, now, j) {
        let j = choose|j: int| first_live(sessions, hash, now, j);
        assert(sessions[j].token_hash == hash);
    }
    assert forall|j: int|
        first_live(sessions, hash, now, i) && #[trigger] first_live(
            sessions,
            hash,
            now,
            j,
        ) implies j == i by {
        if j < i {
            assert(sessions[j].token_hash == hash);
        }
        if i < j {
            assert(sessions[i].token_hash == hash);
        }
    }
}

/// A session is found exactly where someone is signed in with its token.
pub proof fn found_if_signed_in(sessions: Seq<SessionRow>, hash: Seq<char>, now: int)
    ensures
        live_session(sessions, hash, now) is Some <==> signed_in(sessions, hash, now),
{
    let _ = live_session_is_first(sessions, hash, now);
}

} // verus!
