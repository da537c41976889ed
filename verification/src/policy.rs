//! What the login policy promises as a whole.

use crate::json::stamp_text_decides;
use crate::names::{ascending, comma_pieces, names_in, normalized, sorted_names_sorts};
use crate::security::{
    asking, config_of, github_admitted, password_admitted, patched, recovered, refusal, saved,
    session_row, settled, stamp_of, stamped_text, users_of, value_of, with_github_session,
    with_password_session, writes, AuthError, Config,
};
use crate::security::{
    ADMIN_PASSWORD, ALLOWED_USERS, CLIENT_ID, CLIENT_SECRET, OFF, ON, PASSWORD_HASH,
    PASSWORD_LOGIN, REVISION, VERIFIED,
};
use crate::store::{
    among, executed_all, without, SessionRow, Statement, Tables, Which, GITHUB, LEGACY, PASSWORD,
};
use crate::text::lowered;
use crate::token::sha256_text;
use vstd::prelude::*;

verus! {

proof fn keys_differ()
    ensures
        CLIENT_ID@ != REVISION@,
        CLIENT_ID@ != VERIFIED@,
        CLIENT_SECRET@ != REVISION@,
        CLIENT_SECRET@ != VERIFIED@,
        ALLOWED_USERS@ != REVISION@,
        ALLOWED_USERS@ != VERIFIED@,
        REVISION@ != VERIFIED@,
        PASSWORD_LOGIN@ != REVISION@,
        PASSWORD_LOGIN@ != VERIFIED@,
        PASSWORD_LOGIN@ != PASSWORD_HASH@,
        PASSWORD_LOGIN@ != ADMIN_PASSWORD@,
        PASSWORD_HASH@ != VERIFIED@,
        PASSWORD_HASH@ != REVISION@,
        ADMIN_PASSWORD@ != PASSWORD_HASH@,
        ADMIN_PASSWORD@ != REVISION@,
        ADMIN_PASSWORD@ != VERIFIED@,
        OFF@ != ON@,
        PASSWORD@ != GITHUB@,
        LEGACY@ != GITHUB@,
{
    reveal_strlit("github_client_id");
    reveal_strlit("github_client_secret");
    reveal_strlit("github_allowed_users");
    reveal_strlit("github_revision");
    reveal_strlit("github_verified");
    reveal_strlit("password_login");
    reveal_strlit("admin_password_hash");
    reveal_strlit("admin_password");
    reveal_strlit("on");
    reveal_strlit("off");
    reveal_strlit("github");
    reveal_strlit("password");
    reveal_strlit("legacy");
    assert(CLIENT_ID@[7] == 'c' && CLIENT_SECRET@[7] == 'c' && ALLOWED_USERS@[7] == 'a');
    assert(REVISION@[7] == 'r' && VERIFIED@[7] == 'v');
    assert(PASSWORD_LOGIN@[0] == 'p' && PASSWORD_HASH@[0] == 'a' && VERIFIED@[0] == 'g');
    assert(REVISION@[0] == 'g' && ADMIN_PASSWORD@[0] == 'a');
    assert(ADMIN_PASSWORD@.len() == 14 && PASSWORD_HASH@.len() == 19);
    assert(OFF@.len() == 3 && ON@.len() == 2);
    assert(PASSWORD@[0] == 'p' && LEGACY@[0] == 'l' && GITHUB@[0] == 'g');
}

/// A login with a wrong stamp, or of a user who is not on the list, is refused
/// whatever else holds.
pub proof fn stale_github_login_refused(
    settings: Map<Seq<char>, Seq<char>>,
    user: Seq<char>,
    stamp: Seq<char>,
    site: Seq<char>,
)
    requires
        stamp != config_of(settings, site).stamp || !config_of(
            settings,
            site,
        ).github_users.contains(lowered(user)),
    ensures
        !github_admitted(settings, user, stamp, site),
{
}

/// A GitHub login verifies the configuration: right after it the
/// configuration is the same, with the same stamp, and counts as verified.
pub proof fn github_login_verifies(
    tables: Tables,
    hash: Seq<char>,
    expires: int,
    user: Seq<char>,
    stamp: Seq<char>,
    site: Seq<char>,
)
    requires
        github_admitted(tables.settings, user, stamp, site),
    ensures
        config_of(with_github_session(tables, hash, expires, user, stamp).settings, site) == (
        Config { verified: true, ..config_of(tables.settings, site) }),
{
    keys_differ();
    let after = with_github_session(tables, hash, expires, user, stamp).settings;
    assert(config_of(after, site) =~= (Config {
        verified: true,
        ..config_of(tables.settings, site)
    }));
}

/// A GitHub login that started from a configuration goes through as long as
/// that configuration stands: the stamp that was read is the stamp that is
/// checked.
pub proof fn current_github_login_admitted(
    settings: Map<Seq<char>, Seq<char>>,
    user: Seq<char>,
    site: Seq<char>,
)
    requires
        config_of(settings, site).ready(),
        config_of(settings, site).github_users.contains(lowered(user)),
    ensures
        github_admitted(settings, user, config_of(settings, site).stamp, site),
{
}

/// After a recovery password login is on, the new password admits, and no
/// session is left.
pub proof fn recovery_admits(tables: Tables, hash: Seq<char>, site: Seq<char>)
    ensures
        config_of(recovered(tables, hash).settings, site).password_enabled,
        password_admitted(recovered(tables, hash).settings, hash),
        recovered(tables, hash).sessions.len() == 0,
{
    keys_differ();
}

/// Letter case does not matter in the name that GitHub gives for a user.
pub proof fn user_case_ignored(
    settings: Map<Seq<char>, Seq<char>>,
    user: Seq<char>,
    stamp: Seq<char>,
    site: Seq<char>,
)
    ensures
        github_admitted(settings, user, stamp, site) == github_admitted(
            settings,
            lowered(user),
            stamp,
            site,
        ),
{
    assert(lowered(lowered(user)) =~= lowered(user));
}

/// The users whom the settings admit stand in ascending order, each once, and
/// are the names between the commas, trimmed and in small letters, that are
/// not empty.
pub proof fn users_are_the_names_listed(settings: Map<Seq<char>, Seq<char>>)
    ensures
        ascending(users_of(settings)),
        forall|x: Seq<char>| #[trigger]
            users_of(settings).contains(x) <==> x.len() > 0 && exists|i: int|
                0 <= i < comma_pieces(value_of(settings, ALLOWED_USERS@)).len() && x == normalized(
                    #[trigger] comma_pieces(value_of(settings, ALLOWED_USERS@))[i],
                ),
{
    let list = value_of(settings, ALLOWED_USERS@);
    let pieces = comma_pieces(list);
    let all = pieces.map_values(|piece: Seq<char>| normalized(piece));
    let named = |name: Seq<char>| name.len() > 0;
    sorted_names_sorts(names_in(list));
    assert forall|x: Seq<char>| #[trigger] users_of(settings).contains(x) <==> x.len() > 0
        && exists|i: int| 0 <= i < pieces.len() && x == normalized(#[trigger] pieces[i]) by {
        if names_in(list).contains(x) {
            let k = names_in(list).index_of(x);
            all.lemma_filter_pred(named, k);
            all.lemma_filter_contains_rev(named, x);
            let i = all.index_of(x);
            assert(x == normalized(pieces[i]));
        }
        if x.len() > 0 && exists|i: int| 0 <= i < pieces.len() && x == normalized(
            #[trigger] pieces[i],
        ) {
            let i = choose|i: int| 0 <= i < pieces.len() && x == normalized(#[trigger] pieces[i]);
            assert(all[i] == x);
            all.lemma_filter_contains(named, i);
        }
    }
}

/// Every session is a GitHub session.
pub open spec fn only_github(sessions: Seq<SessionRow>) -> bool {
    forall|i: int| 0 <= i < sessions.len() ==> (#[trigger] sessions[i]).kind == GITHUB@
}

/// What the login policy keeps: someone can sign in, and while password login
/// is off nobody is signed in but through GitHub.
pub open spec fn policy_holds(tables: Tables, site: Seq<char>) -> bool {
    let auth = config_of(tables.settings, site);
    auth.admits_login() && (auth.password_enabled || only_github(tables.sessions))
}

proof fn without_keeps(sessions: Seq<SessionRow>, which: Which)
    ensures
        forall|i: int| #![trigger without(sessions, which)[i]]
            0 <= i < without(sessions, which).len() ==> !among(which, without(sessions, which)[i])
                && sessions.contains(without(sessions, which)[i]),
{
    let stays = |s: SessionRow| !among(which, s);
    assert forall|i: int| #![trigger without(sessions, which)[i]]
        0 <= i < without(sessions, which).len() implies !among(which, without(sessions, which)[i])
        && sessions.contains(without(sessions, which)[i]) by {
        sessions.lemma_filter_pred(stays, i);
        assert(sessions.filter(stays).contains(sessions.filter(stays)[i]));
        sessions.lemma_filter_contains_rev(stays, sessions.filter(stays)[i]);
    }
}

proof fn saved_config(
    tables: Tables,
    patch: Map<Seq<char>, Option<Seq<char>>>,
    password_hash: Option<Seq<char>>,
    site: Seq<char>,
    actor: Option<Seq<char>>,
    replacement: Option<(Seq<char>, int)>,
    now: int,
    revision: Seq<char>,
)
    ensures
        ({
            let after = config_of(patched(tables.settings, patch, password_hash), site);
            let end = config_of(
                saved(
                    tables,
                    patch,
                    password_hash,
                    site,
                    actor,
                    replacement,
                    now,
                    revision,
                ).settings,
                site,
            );
            &&& end.password_enabled == after.password_enabled
            &&& end.password_hash == after.password_hash
            &&& !end.github_differs(after)
            &&& !config_of(tables.settings, site).github_differs(after) ==> end == after
        }),
{
    keys_differ();
}

/// An accepted change leaves the policy in force: someone can still sign in,
/// and while password login is off only GitHub sessions are left.
pub proof fn saving_keeps_the_policy(
    tables: Tables,
    patch: Map<Seq<char>, Option<Seq<char>>>,
    password_hash: Option<Seq<char>>,
    site: Seq<char>,
    actor: Option<Seq<char>>,
    replacement: Option<(Seq<char>, int)>,
    now: int,
    revision: Seq<char>,
)
    requires
        refusal(tables, patch, password_hash, site, actor, now) is None,
    ensures
        policy_holds(
            saved(tables, patch, password_hash, site, actor, replacement, now, revision),
            site,
        ),
{
    saved_config(tables, patch, password_hash, site, actor, replacement, now, revision);
    let end = saved(tables, patch, password_hash, site, actor, replacement, now, revision);
    if !config_of(end.settings, site).password_enabled {
        let before = config_of(tables.settings, site);
        let after = config_of(patched(tables.settings, patch, password_hash), site);
        assert(!before.github_differs(after));
        let replaced = match replacement {
            Some((hash, expires)) => seq![
                session_row(
                    hash,
                    expires,
                    asking(tables.sessions, actor, now).unwrap().0,
                    asking(tables.sessions, actor, now).unwrap().1,
                ),
            ],
            None => tables.sessions,
        };
        assert(end.sessions == without(replaced, Which::NotGithub));
        without_keeps(replaced, Which::NotGithub);
    }
}

/// Password login is only ever switched off, or left off, by a change that
/// keeps a GitHub configuration which is set up and has been verified.
pub proof fn password_off_needs_verified_github(
    tables: Tables,
    patch: Map<Seq<char>, Option<Seq<char>>>,
    password_hash: Option<Seq<char>>,
    site: Seq<char>,
    actor: Option<Seq<char>>,
    replacement: Option<(Seq<char>, int)>,
    now: int,
    revision: Seq<char>,
)
    requires
        refusal(tables, patch, password_hash, site, actor, now) is None,
        !config_of(
            saved(
                tables,
                patch,
                password_hash,
                site,
                actor,
                replacement,
                now,
                revision,
            ).settings,
            site,
        ).password_enabled,
    ensures
        ({
            let before = config_of(tables.settings, site);
            let end = config_of(
                saved(
                    tables,
                    patch,
                    password_hash,
                    site,
                    actor,
                    replacement,
                    now,
                    revision,
                ).settings,
                site,
            );
            end.ready() && end.verified && !before.github_differs(end)
        }),
{
    saved_config(tables, patch, password_hash, site, actor, replacement, now, revision);
}

/// The policy is in force where nothing is set yet and nobody is signed in.
pub proof fn fresh_tables_hold_the_policy(site: Seq<char>)
    ensures
        policy_holds(Tables { settings: Map::empty(), sessions: Seq::empty() }, site),
{
}

/// A password login, a GitHub login and a recovery keep the policy in force.
pub proof fn logins_keep_the_policy(
    tables: Tables,
    hash: Seq<char>,
    expires: int,
    user: Seq<char>,
    stamp: Seq<char>,
    checked: Seq<char>,
    site: Seq<char>,
)
    requires
        policy_holds(tables, site),
    ensures
        password_admitted(tables.settings, checked) ==> policy_holds(
            with_password_session(tables, hash, expires),
            site,
        ),
        github_admitted(tables.settings, user, stamp, site) ==> policy_holds(
            with_github_session(tables, hash, expires, user, stamp),
            site,
        ),
        policy_holds(recovered(tables, hash), site),
{
    keys_differ();
    if github_admitted(tables.settings, user, stamp, site) {
        github_login_verifies(tables, hash, expires, user, stamp, site);
    }
}

/// A change of the GitHub client, secret or users takes back what was proved
/// of the old configuration: no GitHub session is left, and the new
/// configuration is verified only if its stamp is empty, which no stamp is.
pub proof fn github_change_revokes(
    tables: Tables,
    patch: Map<Seq<char>, Option<Seq<char>>>,
    password_hash: Option<Seq<char>>,
    site: Seq<char>,
    actor: Option<Seq<char>>,
    replacement: Option<(Seq<char>, int)>,
    now: int,
    revision: Seq<char>,
    other_site: Seq<char>,
)
    requires
        refusal(tables, patch, password_hash, site, actor, now) is None,
        config_of(tables.settings, site).github_differs(
            config_of(patched(tables.settings, patch, password_hash), site),
        ),
    ensures
        ({
            let end = saved(tables, patch, password_hash, site, actor, replacement, now, revision);
            let auth = config_of(end.settings, other_site);
            &&& forall|i: int| 0 <= i < end.sessions.len() ==> (#[trigger] end.sessions[i]).kind
                != GITHUB@
            &&& auth.verified ==> auth.stamp.len() == 0
            &&& auth.password_enabled
            &&& value_of(end.settings, REVISION@) == revision
        }),
{
    keys_differ();
    saved_config(tables, patch, password_hash, site, actor, replacement, now, revision);
    without_keeps(tables.sessions, Which::Github);
}

/// A GitHub login that started before a change of the GitHub configuration is
/// refused after it: to be admitted, its stamp would have to be the digest of
/// two different texts.
pub proof fn login_does_not_outlive_its_configuration(
    tables: Tables,
    patch: Map<Seq<char>, Option<Seq<char>>>,
    password_hash: Option<Seq<char>>,
    site: Seq<char>,
    actor: Option<Seq<char>>,
    replacement: Option<(Seq<char>, int)>,
    now: int,
    revision: Seq<char>,
    user: Seq<char>,
)
    requires
        config_of(tables.settings, site).github_differs(
            config_of(patched(tables.settings, patch, password_hash), site),
        ),
    ensures
        ({
            let end = saved(tables, patch, password_hash, site, actor, replacement, now, revision);
            let old_text = stamped_text(tables.settings, site);
            let new_text = stamped_text(end.settings, site);
            &&& old_text != new_text
            &&& github_admitted(end.settings, user, stamp_of(tables.settings, site), site)
                ==> sha256_text(old_text) == sha256_text(new_text)
        }),
{
    saved_config(tables, patch, password_hash, site, actor, replacement, now, revision);
    let end = saved(tables, patch, password_hash, site, actor, replacement, now, revision);
    let a = config_of(tables.settings, site);
    let b = config_of(end.settings, site);
    if stamped_text(tables.settings, site) == stamped_text(end.settings, site) {
        stamp_text_decides(
            a.github_id,
            a.github_secret,
            a.github_users,
            value_of(tables.settings, REVISION@),
            site,
            b.github_id,
            b.github_secret,
            b.github_users,
            value_of(end.settings, REVISION@),
            site,
        );
    }
}

/// A patch sets the revision of the GitHub configuration itself, to this one.
pub open spec fn sets_revision(
    patch: Map<Seq<char>, Option<Seq<char>>>,
    revision: Seq<char>,
) -> bool {
    writes(patch).contains_key(REVISION@) && writes(patch)[REVISION@] == revision
}

/// What can happen to the settings, short of a change that brings back the
/// revision `old`: nothing, a GitHub login, a recovery, or a change that draws
/// another revision. A change draws one where the GitHub configuration changes;
/// elsewhere the revision that its patch may set stays.
pub open spec fn leaves_behind(before: Tables, after: Tables, old: Seq<char>) -> bool {
    ||| after.settings == before.settings
    ||| exists|stamp: Seq<char>| after.settings == #[trigger] before.settings.insert(
        VERIFIED@,
        stamp,
    )
    ||| exists|hash: Seq<char>| after.settings == (#[trigger] recovered(before, hash)).settings
    ||| exists|
        patch: Map<Seq<char>, Option<Seq<char>>>,
        password_hash: Option<Seq<char>>,
        site: Seq<char>,
        actor: Option<Seq<char>>,
        replacement: Option<(Seq<char>, int)>,
        now: int,
        revision: Seq<char>,
    |
        (sets_revision(patch, old) ==> config_of(before.settings, site).github_differs(
            config_of(patched(before.settings, patch, password_hash), site),
        )) && revision != old && after == #[trigger] saved(
            before,
            patch,
            password_hash,
            site,
            actor,
            replacement,
            now,
            revision,
        )
}

proof fn revision_left_behind(states: Seq<Tables>, old: Seq<char>, i: int)
    requires
        0 <= i < states.len(),
        value_of(states[0].settings, REVISION@) != old,
        forall|k: int| #![trigger states[k]]
            0 <= k < states.len() - 1 ==> leaves_behind(states[k], states[k + 1], old),
    ensures
        value_of(states[i].settings, REVISION@) != old,
    decreases i,
{
    if i > 0 {
        keys_differ();
        revision_left_behind(states, old, i - 1);
        assert(leaves_behind(states[i - 1], states[i - 1 + 1], old));
    }
}

/// A GitHub login that started before a change of the GitHub configuration
/// stays refused, whatever happens after it, even where the same client, secret
/// and users come back: the revision does not. To be admitted, its stamp would
/// have to be the digest of two different texts. `states` are the tables from
/// that change on.
pub proof fn login_stays_refused(
    tables: Tables,
    patch: Map<Seq<char>, Option<Seq<char>>>,
    password_hash: Option<Seq<char>>,
    site: Seq<char>,
    actor: Option<Seq<char>>,
    replacement: Option<(Seq<char>, int)>,
    now: int,
    revision: Seq<char>,
    states: Seq<Tables>,
    i: int,
    user: Seq<char>,
)
    requires
        config_of(tables.settings, site).github_differs(
            config_of(patched(tables.settings, patch, password_hash), site),
        ),
        revision != value_of(tables.settings, REVISION@),
        0 <= i < states.len(),
        states[0] == saved(
            tables,
            patch,
            password_hash,
            site,
            actor,
            replacement,
            now,
            revision,
        ),
        forall|k: int| #![trigger states[k]]
            0 <= k < states.len() - 1 ==> leaves_behind(
                states[k],
                states[k + 1],
                value_of(tables.settings, REVISION@),
            ),
    ensures
        ({
            let old_text = stamped_text(tables.settings, site);
            let new_text = stamped_text(states[i].settings, site);
            &&& old_text != new_text
            &&& github_admitted(states[i].settings, user, stamp_of(tables.settings, site), site)
                ==> sha256_text(old_text) == sha256_text(new_text)
        }),
{
    keys_differ();
    revision_left_behind(states, value_of(tables.settings, REVISION@), i);
    let a = config_of(tables.settings, site);
    let b = config_of(states[i].settings, site);
    if stamped_text(tables.settings, site) == stamped_text(states[i].settings, site) {
        stamp_text_decides(
            a.github_id,
            a.github_secret,
            a.github_users,
            value_of(tables.settings, REVISION@),
            site,
            b.github_id,
            b.github_secret,
            b.github_users,
            value_of(states[i].settings, REVISION@),
            site,
        );
    }
}

/// A replacement session is the only one that is left: everyone else is
/// signed out.
pub proof fn replacement_ends_other_sessions(
    tables: Tables,
    patch: Map<Seq<char>, Option<Seq<char>>>,
    password_hash: Option<Seq<char>>,
    site: Seq<char>,
    actor: Option<Seq<char>>,
    hash: Seq<char>,
    expires: int,
    now: int,
    revision: Seq<char>,
)
    requires
        refusal(tables, patch, password_hash, site, actor, now) is None,
    ensures
        ({
            let end = saved(
                tables,
                patch,
                password_hash,
                site,
                actor,
                Some((hash, expires)),
                now,
                revision,
            );
            forall|i: int|
                0 <= i < end.sessions.len() ==> (#[trigger] end.sessions[i]).token_hash == hash
                    && end.sessions[i].expires_at == expires
        }),
{
    let before = config_of(tables.settings, site);
    let after = config_of(patched(tables.settings, patch, password_hash), site);
    let (kind, identity) = asking(tables.sessions, actor, now).unwrap();
    let alone = if before.github_differs(after) {
        seq![session_row(hash, expires, PASSWORD@, Seq::empty())]
    } else {
        seq![session_row(hash, expires, kind, identity)]
    };
    without_keeps(alone, Which::NotGithub);
}

/// A change is made as a whole or not at all: a refusal leaves the tables as
/// they were, and an accepted change is what its statements make of them.
pub proof fn change_is_all_or_nothing(
    start: Tables,
    end: Tables,
    answer: Result<Vec<Statement>, AuthError>,
    patch: Map<Seq<char>, Option<Seq<char>>>,
    password_hash: Option<Seq<char>>,
    site: Seq<char>,
    actor: Option<Seq<char>>,
    replacement: Option<(Seq<char>, int)>,
    now: int,
    revision: Seq<char>,
)
    requires
        settled(
            start,
            end,
            answer,
            patch,
            password_hash,
            site,
            actor,
            replacement,
            now,
            revision,
        ),
    ensures
        answer is Err ==> end == start,
        answer matches Ok(log) ==> end == executed_all(start, log@),
{
}

/// No change stores a password in clear.
pub proof fn clear_password_never_stored(
    tables: Tables,
    patch: Map<Seq<char>, Option<Seq<char>>>,
    password_hash: Option<Seq<char>>,
    site: Seq<char>,
    actor: Option<Seq<char>>,
    replacement: Option<(Seq<char>, int)>,
    now: int,
    revision: Seq<char>,
)
    ensures
        ({
            let end = saved(tables, patch, password_hash, site, actor, replacement, now, revision);
            &&& end.settings.contains_key(ADMIN_PASSWORD@) == tables.settings.contains_key(
                ADMIN_PASSWORD@,
            )
            &&& value_of(end.settings, ADMIN_PASSWORD@) == value_of(
                tables.settings,
                ADMIN_PASSWORD@,
            )
        }),
{
    keys_differ();
}

/// A change that switches password login on leaves a password to use.
pub proof fn password_on_needs_a_password(
    tables: Tables,
    patch: Map<Seq<char>, Option<Seq<char>>>,
    password_hash: Option<Seq<char>>,
    site: Seq<char>,
    actor: Option<Seq<char>>,
    replacement: Option<(Seq<char>, int)>,
    now: int,
    revision: Seq<char>,
)
    requires
        refusal(tables, patch, password_hash, site, actor, now) is None,
        patch.contains_key(PASSWORD_LOGIN@),
        patch[PASSWORD_LOGIN@] == Some(ON@),
    ensures
        ({
            let end = config_of(
                saved(
                    tables,
                    patch,
                    password_hash,
                    site,
                    actor,
                    replacement,
                    now,
                    revision,
                ).settings,
                site,
            );
            end.password_enabled && end.password_hash is Some && end.password_hash->0.len() > 0
        }),
{
    keys_differ();
    saved_config(tables, patch, password_hash, site, actor, replacement, now, revision);
}

} // verus!
