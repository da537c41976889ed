use cmonitor::security::{AuthError, Patch};
use cmonitor::store::{Db, Session, Setting, Statement, Which};
use cmonitor::token::{random_token, sha256};

const SITE: &str = "https://hub.test";

fn patch(values: &[(&str, &str)]) -> Patch {
    let mut patch = Patch::new();
    for (key, value) in values {
        patch.put(key, Some(value));
    }
    patch
}

fn save(db: &mut Db, values: &[(&str, &str)]) -> Result<(), AuthError> {
    db.save_settings_atomic(&patch(values), None, SITE, None, None).map(|_| ())
}

/// Password login off, GitHub login of `owner` verified.
fn github_only() -> Db {
    let mut db = Db::new();
    db.set("admin_password_hash", "hash");
    save(
        &mut db,
        &[
            ("github_client_id", "id"),
            ("github_client_secret", "secret"),
            ("github_allowed_users", "Owner"),
        ],
    )
    .unwrap();
    let stamp = db.auth_config(SITE).stamp;
    db.github_session("github", i64::MAX, "owner", &stamp, SITE).unwrap();
    save(&mut db, &[("password_login", "off")]).unwrap();
    db
}

#[test]
fn only_a_verified_current_github_configuration_can_disable_passwords() {
    let mut db = Db::new();
    db.set("admin_password_hash", "hash");
    assert!(save(&mut db, &[("password_login", "off")]).is_err());
    save(
        &mut db,
        &[
            ("github_client_id", "id"),
            ("github_client_secret", "secret"),
            ("github_allowed_users", "Owner"),
        ],
    )
    .unwrap();
    let old = db.auth_config("https://hub.test").stamp;
    assert!(save(&mut db, &[("password_login", "off")]).is_err());
    db.github_session("github", i64::MAX, "owner", &old, "https://hub.test").unwrap();
    db.password_session("password", i64::MAX, "hash").unwrap();
    db.create_session("legacy", i64::MAX);
    save(&mut db, &[("password_login", "off")]).unwrap();
    assert!(!db.session_valid("password"));
    assert!(!db.session_valid("legacy"));
    assert!(db.session_valid("github"));
    assert!(db.password_session("late", i64::MAX, "hash").is_err());
    assert!(save(&mut db, &[("site_name", "must rollback"), ("github_client_secret", "changed")]).is_err());
    assert!(db.get("site_name").is_none());
    assert_eq!(db.get("github_client_secret").as_deref(), Some("secret"));
    save(&mut db, &[("password_login", "on")]).unwrap();
    save(&mut db, &[("github_client_secret", "changed")]).unwrap();
    assert!(!db.session_valid("github"));
    assert!(db.github_session("stale-callback", i64::MAX, "owner", &old, "https://hub.test").is_err());
    assert!(save(&mut db, &[("password_login", "off")]).is_err());
}

#[test]
fn recovery_enables_password_and_revokes_sessions_atomically() {
    let mut db = Db::new();
    db.set("password_login", "off");
    db.create_session("old", i64::MAX);
    db.recover_password("replacement");
    assert!(db.auth_config("").password_enabled);
    assert!(!db.session_valid("old"));
    assert!(db.password_session("new", i64::MAX, "replacement").is_ok());
}

#[test]
fn configuration_is_trimmed_lowered_sorted_and_stamped() {
    let mut db = Db::new();
    db.set("github_client_id", "  id\u{3000}");
    db.set("github_client_secret", "\tse cret\n");
    db.set("github_allowed_users", " Bob ,, alice,BOB, Ünal ,");
    db.set("github_revision", " r1 ");
    let auth = db.auth_config("https://hub.test");
    assert_eq!(auth.github_id, "id");
    assert_eq!(auth.github_secret, "se cret");
    assert_eq!(auth.github_users, vec!["alice", "bob", "Ünal"]);
    assert!(auth.github_ready());
    assert!(auth.password_enabled);
    assert_eq!(auth.password_hash, None);
    assert!(!auth.verified);
    let text = r#"["id","se cret",["alice","bob","Ünal"]," r1 ","https://hub.test"]"#;
    assert_eq!(auth.stamp, sha256(text));
}

#[test]
fn stamp_text_is_what_serde_json_writes() {
    let mut db = Db::new();
    db.set("github_client_id", "a\"b\\c\u{1}\u{8}\u{c}d");
    db.set("github_allowed_users", "x");
    let users = vec!["x".to_owned()];
    let text = serde_json::to_string(&("a\"b\\c\u{1}\u{8}\u{c}d", "", &users, "", "site")).unwrap();
    assert_eq!(text, r#"["a\"b\\c\u0001\b\fd","",["x"],"","site"]"#);
    assert_eq!(db.auth_config("site").stamp, sha256(&text));
}

#[test]
fn stamp_depends_on_every_part() {
    let base = [
        ("github_client_id", "id"),
        ("github_client_secret", "secret"),
        ("github_allowed_users", "a,b"),
        ("github_revision", "1"),
    ];
    let mut db = Db::new();
    for (key, value) in base {
        db.set(key, value);
    }
    let stamp = db.auth_config("site").stamp;
    assert_ne!(db.auth_config("other").stamp, stamp);
    for (key, value) in base {
        db.set(key, "changed");
        assert_ne!(db.auth_config("site").stamp, stamp);
        db.set(key, value);
        assert_eq!(db.auth_config("site").stamp, stamp);
    }
    db.set("github_allowed_users", " B, a,A ");
    assert_eq!(db.auth_config("site").stamp, stamp);
}

#[test]
fn github_ready_needs_client_secret_and_user() {
    let mut db = Db::new();
    assert!(!db.auth_config("").github_ready());
    db.set("github_client_id", "id");
    db.set("github_client_secret", "secret");
    assert!(!db.auth_config("").github_ready());
    db.set("github_allowed_users", " , ");
    assert!(!db.auth_config("").github_ready());
    db.set("github_allowed_users", "me");
    assert!(db.auth_config("").github_ready());
    db.set("github_client_secret", "  ");
    assert!(!db.auth_config("").github_ready());
}

#[test]
fn password_login_is_refused_when_off_or_stale() {
    let mut db = Db::new();
    assert_eq!(db.password_session("t", 1, "hash").err(), Some(AuthError::PasswordRefused));
    db.set("admin_password_hash", "hash");
    assert_eq!(db.password_session("t", 1, "old").err(), Some(AuthError::PasswordRefused));
    db.set("password_login", "off");
    assert_eq!(db.password_session("t", 1, "hash").err(), Some(AuthError::PasswordRefused));
    db.set("password_login", "OFF");
    let log = db.password_session("t", 7, "hash").unwrap();
    assert_eq!(log.len(), 1);
    assert!(matches!(&log[0], Statement::Add(s)
        if s.token_hash == "t" && s.expires_at == 7 && s.kind == "password" && s.identity.is_empty()));
    assert!(db.live_session_at("t", 6).is_some());
    assert!(db.live_session_at("t", 7).is_none());
}

#[test]
fn github_login_is_refused_for_strangers_and_stale_stamps() {
    let mut db = Db::new();
    let empty = db.auth_config(SITE).stamp;
    assert_eq!(db.github_session("t", 1, "me", &empty, SITE).err(), Some(AuthError::GithubRefused));
    db.set("github_client_id", "id");
    db.set("github_client_secret", "secret");
    db.set("github_allowed_users", "me");
    let stamp = db.auth_config(SITE).stamp;
    assert_eq!(db.github_session("t", 1, "you", &stamp, SITE).err(), Some(AuthError::GithubRefused));
    assert_eq!(db.github_session("t", 1, "me", &empty, SITE).err(), Some(AuthError::GithubRefused));
    assert_eq!(db.github_session("t", 1, "me", &stamp, "elsewhere").err(), Some(AuthError::GithubRefused));
    assert!(!db.auth_config(SITE).verified);
    let log = db.github_session("t", 9, "ME", &stamp, SITE).unwrap();
    assert!(db.auth_config(SITE).verified);
    assert_eq!(db.auth_config(SITE).stamp, stamp);
    assert_eq!(log.len(), 2);
    assert!(matches!(&log[0], Statement::Put(s) if s.key == "github_verified" && s.value == stamp));
    assert!(matches!(&log[1], Statement::Add(s) if s.kind == "github" && s.identity == "me"));
}

#[test]
fn recovery_executes_three_statements() {
    let mut db = Db::new();
    let log = db.recover_password("h");
    assert_eq!(log.len(), 3);
    assert!(matches!(&log[0], Statement::Put(s) if s.key == "admin_password_hash" && s.value == "h"));
    assert!(matches!(&log[1], Statement::Put(s) if s.key == "password_login" && s.value == "on"));
    assert!(matches!(&log[2], Statement::Delete(Which::All)));
}

#[test]
fn expired_actor_is_refused_and_nothing_changes() {
    let mut db = Db::new();
    db.create_session("me", 100);
    let p = patch(&[("site_name", "x")]);
    let refused = db.save_settings_at(&p, None, SITE, Some("me"), None, 100, "rev");
    assert_eq!(refused.err(), Some(AuthError::SessionExpired));
    assert!(db.get("site_name").is_none());
    assert!(db.save_settings_at(&p, None, SITE, Some("nobody"), None, 1, "rev").is_err());
    assert!(db.save_settings_at(&p, None, SITE, Some("me"), None, 99, "rev").is_ok());
    assert_eq!(db.get("site_name").as_deref(), Some("x"));
    assert_eq!(db.save_settings_atomic(&p, None, SITE, Some("me"), None).err(), Some(AuthError::SessionExpired));
}

#[test]
fn github_configuration_is_frozen_while_passwords_are_off() {
    let mut db = github_only();
    let p = patch(&[("github_client_id", "other"), ("password_login", "on")]);
    assert_eq!(
        db.save_settings_at(&p, None, SITE, None, None, 0, "rev").err(),
        Some(AuthError::PasswordOff)
    );
    assert_eq!(db.get("github_client_id").as_deref(), Some("id"));
    assert_eq!(db.get("password_login").as_deref(), Some("off"));
    // The same list in another spelling is no change.
    assert!(save(&mut db, &[("github_allowed_users", " OWNER ,owner")]).is_ok());
    assert!(db.session_valid("github"));
}

#[test]
fn unverified_github_cannot_replace_passwords() {
    let mut db = Db::new();
    db.set("github_client_id", "id");
    db.set("github_client_secret", "secret");
    db.set("github_allowed_users", "me");
    assert_eq!(save(&mut db, &[("password_login", "off")]), Err(AuthError::GithubUnverified));
    let stamp = db.auth_config(SITE).stamp;
    db.github_session("t", i64::MAX, "me", &stamp, SITE).unwrap();
    // A change of the list and the switch in one patch are refused.
    assert_eq!(
        save(&mut db, &[("password_login", "off"), ("github_allowed_users", "me,you")]),
        Err(AuthError::GithubUnverified)
    );
    assert!(db.auth_config(SITE).password_enabled);
    assert!(save(&mut db, &[("password_login", "off")]).is_ok());
    assert!(db.auth_config(SITE).verified);
}

#[test]
fn switching_passwords_on_needs_a_password() {
    let mut db = Db::new();
    let on = patch(&[("password_login", "on")]);
    assert_eq!(db.save_settings_at(&on, None, SITE, None, None, 0, "r").err(), Some(AuthError::PasswordMissing));
    assert_eq!(db.save_settings_at(&on, Some(""), SITE, None, None, 0, "r").err(), Some(AuthError::PasswordMissing));
    assert!(db.save_settings_at(&on, Some("h"), SITE, None, None, 0, "r").is_ok());
    assert_eq!(db.get("admin_password_hash").as_deref(), Some("h"));
    assert_eq!(db.get("password_login").as_deref(), Some("on"));
}

#[test]
fn clear_passwords_are_not_stored_and_non_strings_are_empty() {
    let mut db = Db::new();
    let mut p = Patch::new();
    p.put("admin_password", Some("clear"));
    p.put("interval", None);
    p.put("site_name", Some("one"));
    p.put("site_name", Some("two"));
    db.save_settings_at(&p, Some("hashed"), SITE, None, None, 0, "r").unwrap();
    assert!(db.get("admin_password").is_none());
    assert_eq!(db.get("interval").as_deref(), Some(""));
    assert_eq!(db.get("site_name").as_deref(), Some("two"));
    assert_eq!(db.get("admin_password_hash").as_deref(), Some("hashed"));
}

#[test]
fn github_change_gets_a_new_revision_and_ends_github_sessions() {
    let mut db = github_only();
    save(&mut db, &[("password_login", "on")]).unwrap();
    db.password_session("p", i64::MAX, "hash").unwrap();
    let first = db.get("github_revision").unwrap();
    assert_eq!(first.len(), 64);
    let p = patch(&[("github_allowed_users", "someone")]);
    let log = db.save_settings_at(&p, None, SITE, None, None, 0, "second").unwrap();
    assert_eq!(db.get("github_revision").as_deref(), Some("second"));
    assert_eq!(db.get("github_verified").as_deref(), Some(""));
    assert!(!db.auth_config(SITE).verified);
    assert!(!db.session_valid("github"));
    assert!(db.session_valid("p"));
    assert!(matches!(log.last(), Some(Statement::Delete(Which::Github))));
}

#[test]
fn an_old_login_stays_refused_when_the_same_configuration_comes_back() {
    let mut db = Db::new();
    let there = [("github_client_id", "id"), ("github_client_secret", "secret"), ("github_allowed_users", "me")];
    db.save_settings_at(&patch(&there), None, SITE, None, None, 0, "first").unwrap();
    let old = db.auth_config(SITE).stamp;
    let away = patch(&[("github_client_secret", "other")]);
    db.save_settings_at(&away, None, SITE, None, None, 0, "second").unwrap();
    assert_eq!(db.github_session("t", 1, "me", &old, SITE).err(), Some(AuthError::GithubRefused));
    db.save_settings_at(&patch(&there), None, SITE, None, None, 0, "third").unwrap();
    let auth = db.auth_config(SITE);
    assert_eq!((auth.github_id.as_str(), auth.github_secret.as_str()), ("id", "secret"));
    assert_ne!(auth.stamp, old);
    assert_eq!(db.github_session("t", 1, "me", &old, SITE).err(), Some(AuthError::GithubRefused));
    db.recover_password("h");
    assert_eq!(db.github_session("t", 1, "me", &old, SITE).err(), Some(AuthError::GithubRefused));
    let current = db.auth_config(SITE).stamp;
    assert!(db.github_session("t", 1, "me", &current, SITE).is_ok());
}

#[test]
fn replacement_keeps_the_identity_of_the_actor() {
    let mut db = github_only();
    save(&mut db, &[("password_login", "on")]).unwrap();
    let p = patch(&[("site_name", "x")]);
    db.save_settings_at(&p, None, SITE, Some("github"), Some(("fresh", 500)), 1, "r").unwrap();
    let session = db.live_session_at("fresh", 1).unwrap();
    assert_eq!((session.kind.as_str(), session.identity.as_str(), session.expires_at), ("github", "owner", 500));
    assert!(db.live_session_at("github", 1).is_none());
    // After a change of the GitHub configuration it is a password session.
    let p = patch(&[("github_client_id", "next")]);
    db.save_settings_at(&p, None, SITE, Some("fresh"), Some(("again", 600)), 1, "r").unwrap();
    let session = db.live_session_at("again", 1).unwrap();
    assert_eq!((session.kind.as_str(), session.identity.as_str()), ("password", ""));
    assert!(db.live_session_at("fresh", 1).is_none());
    // Without an actor it is of the old kind.
    db.save_settings_at(&patch(&[]), None, SITE, None, Some(("third", 700)), 1, "r").unwrap();
    assert_eq!(db.live_session_at("third", 1).unwrap().kind, "legacy");
}

#[test]
fn replacement_ends_with_the_others_when_only_github_is_left() {
    let mut db = github_only();
    db.create_session("me", 100);
    let p = patch(&[("site_name", "x")]);
    db.save_settings_at(&p, None, SITE, Some("me"), Some(("fresh", 500)), 1, "r").unwrap();
    assert!(db.live_session_at("fresh", 1).is_none());
    assert!(db.live_session_at("github", 1).is_none());
}

#[test]
fn statements_replayed_on_a_mirror_give_the_same_tables() {
    let mut db = github_only();
    let mut mirror = db.clone();
    let p = patch(&[("password_login", "on"), ("site_name", "x"), ("admin_password", "no")]);
    let mut log = db.save_settings_at(&p, Some("h2"), SITE, Some("github"), Some(("n", 9)), 1, "r").unwrap();
    let config = patch(&[("github_client_secret", "s2")]);
    log.extend(db.save_settings_at(&config, None, SITE, None, None, 1, "r2").unwrap());
    log.extend(db.password_session("p", 5, "h2").unwrap());
    for statement in &log {
        mirror.execute(statement);
    }
    for key in ["password_login", "site_name", "admin_password", "admin_password_hash", "github_client_secret",
        "github_revision", "github_verified"] {
        assert_eq!(db.get(key), mirror.get(key));
    }
    for hash in ["github", "n", "p"] {
        assert_eq!(db.live_session_at(hash, 0).is_some(), mirror.live_session_at(hash, 0).is_some());
    }
    assert_eq!(db.auth_config(SITE).stamp, mirror.auth_config(SITE).stamp);
}

#[test]
fn rows_are_loaded_and_the_last_of_a_key_counts() {
    let row = |key: &str, value: &str| Setting { key: key.to_owned(), value: value.to_owned() };
    let session = Session {
        token_hash: "t".to_owned(),
        expires_at: 5,
        kind: "github".to_owned(),
        identity: "me".to_owned(),
    };
    let mut db = Db::from_rows(vec![row("a", "1"), row("b", "2"), row("a", "3")], vec![session]);
    assert_eq!(db.get("a").as_deref(), Some("3"));
    assert_eq!(db.get("b").as_deref(), Some("2"));
    assert_eq!(db.get("c"), None);
    db.set("b", "4");
    assert_eq!(db.get("b").as_deref(), Some("4"));
    assert_eq!(db.live_session_at("t", 4).unwrap().identity, "me");
    db.delete_sessions(Which::NotGithub);
    assert!(db.live_session_at("t", 4).is_some());
    db.delete_sessions(Which::Github);
    assert!(db.live_session_at("t", 4).is_none());
}

#[test]
fn refusals_say_why() {
    assert_eq!(AuthError::SessionExpired.message(), "登录已失效，请重新登录");
    assert_eq!(AuthError::PasswordRefused.message(), "密码登录已关闭或密码已修改，请重新登录");
    assert_eq!(AuthError::GithubRefused.message(), "GitHub 配置已变更，请重新发起登录");
    assert_eq!(AuthError::PasswordOff.message(), "请先开启应急密码，再修改 GitHub 登录配置");
    assert_eq!(AuthError::GithubUnverified.message(), "请先完整配置 GitHub 并成功登录验证，再关闭应急密码");
    assert_eq!(AuthError::PasswordMissing.message(), "请先设置应急密码");
}

#[test]
fn digests_and_tokens() {
    assert_eq!(sha256("abc"), "ba7816bf8f01cfea414140de5dae2223b00361a396177a9cb410ff61f20015ad");
    assert_eq!(sha256(""), "e3b0c44298fc1c149afbf4c8996fb92427ae41e4649b934ca495991b7852b855");
    let token = random_token();
    assert_eq!(token.len(), 64);
    assert!(token.bytes().all(|b| b.is_ascii_digit() || (b'a'..=b'f').contains(&b)));
    assert_ne!(token, random_token());
}

#[test]
fn sessions_expire_by_the_clock() {
    let mut db = Db::new();
    db.create_session("past", 1_600_000_000);
    db.create_session("future", i64::MAX);
    assert!(!db.session_valid("past"));
    assert!(db.session_valid("future"));
    assert!(!db.session_valid("unknown"));
}
