use podkit::models::UserModel;
use podkit::passwords::{argon2, hash_with_salt, verification_result, verify, Argon2Settings, HashAlgorithm, HashVersion, PasswordError, VerifyOutcome};
use podkit::server::{auth_step, revocation_expiry, AuthAction, AuthEvent, select_token, session_cookie, AuthUser, Claims, SameSitePolicy, ServerConfig, ServerError};

fn user(hash: &str) -> UserModel {
    let now = time::OffsetDateTime::now_utc();
    UserModel {
        id: "1".to_string(),
        name: "Ann".to_string(),
        email: "ann@example.com".to_string(),
        password_hash: hash.to_string(),
        created_at: now,
        updated_at: now,
    }
}

#[test]
fn bearer_token_comes_first() {
    assert_eq!(select_token(Some("b".into()), Some("c".into())), Ok("b".to_string()));
    assert_eq!(select_token(None, Some("c".into())), Ok("c".to_string()));
    assert_eq!(select_token(None, None), Err(ServerError::MissingToken));
}

#[test]
fn revoked_tokens_are_refused() {
    let claims = Claims::issued_at("u".into(), "j".into(), 1000);
    assert!(matches!(AuthUser::accept(claims.clone(), true), Err(ServerError::InvalidToken)));
    let AuthUser(c) = AuthUser::accept(claims.clone(), false).ok().unwrap();
    assert_eq!(c, claims);
}

#[test]
fn tokens_expire_a_day_after_issue() {
    let c = Claims::issued_at("user".into(), "jti".into(), 1_700_000_000);
    assert_eq!(c.iat, 1_700_000_000);
    assert_eq!(c.exp, 1_700_000_000 + 86_400);
    assert_eq!(c.sub, "user");
    assert_eq!(c.jti, "jti");
}

#[test]
fn session_cookie_policy() {
    let c = session_cookie("tok".into());
    assert_eq!(c.name, "session");
    assert_eq!(c.value, "tok");
    assert!(c.http_only && c.secure);
    assert_eq!(c.same_site, SameSitePolicy::Strict);
    assert_eq!(c.max_age, 86_400);
    assert_eq!(c.path, "/");
}

#[test]
fn login_outcomes() {
    let u = user("h");
    assert!(matches!(podkit::server::login_user::<()>(Err(())), Err(ServerError::Internal)));
    assert!(matches!(
        podkit::server::login_user::<()>(Ok(None)),
        Err(ServerError::InvalidCredentials)
    ));
    assert_eq!(podkit::server::login_user::<()>(Ok(Some(u))).unwrap().id, "1");
}

#[test]
fn authentication_rules() {
    let dummy = "$dummy";
    let found = Some(user("$real"));
    assert_eq!(UserModel::hash_to_check(&found, dummy), "$real");
    assert_eq!(UserModel::hash_to_check(&None, dummy), "$dummy");
    assert!(UserModel::authentication_outcome(None, Err(PasswordError::VerifyFailed)).unwrap().is_none());
    assert!(UserModel::authentication_outcome::<PasswordError>(Some(user("x")), Ok(false)).unwrap().is_none());
    assert_eq!(UserModel::authentication_outcome::<PasswordError>(Some(user("x")), Ok(true)).unwrap().unwrap().id, "1");
    assert_eq!(
        UserModel::authentication_outcome(Some(user("x")), Err(PasswordError::InvalidHash)).unwrap_err(),
        PasswordError::InvalidHash
    );
}

#[test]
fn argon2_parameters_are_valid() {
    assert!(argon2().is_ok());
    assert_eq!(
        argon2(),
        Ok(Argon2Settings {
            algorithm: HashAlgorithm::Argon2id,
            version: HashVersion::V0x13,
            m_cost: 65536,
            t_cost: 3,
            p_cost: 4,
        })
    );
}

#[test]
fn verification_outcomes() {
    assert_eq!(verification_result(VerifyOutcome::Match), Ok(true));
    assert_eq!(verification_result(VerifyOutcome::Mismatch), Ok(false));
    assert_eq!(verification_result(VerifyOutcome::Failure), Err(PasswordError::VerifyFailed));
    assert_eq!(verify("pw", "not a phc string"), Err(PasswordError::InvalidHash));
}

#[test]
fn config_defaults() {
    let c = ServerConfig::from_values("postgres://x".into(), "s".into(), None, None);
    assert_eq!(c.host, "0.0.0.0");
    assert_eq!(c.port, 8080);
    let c = ServerConfig::from_values("postgres://x".into(), "s".into(), Some("127.0.0.1".into()), Some(9000));
    assert_eq!(c.host, "127.0.0.1");
    assert_eq!(c.port, 9000);
}

#[test]
fn hashed_password_verifies() {
    let phc = podkit::passwords::hash("correct horse").unwrap();
    assert!(phc.starts_with("$argon2id$v=19$m=65536,t=3,p=4$"));
    assert_eq!(verify("correct horse", &phc), Ok(true));
    assert_eq!(verify("wrong horse", &phc), Ok(false));
}

#[test]
fn dummy_hash_is_a_verifiable_phc_string() {
    let phc = podkit::passwords::dummy_hash().unwrap();
    assert!(phc.starts_with("$argon2id$v=19$m=65536,t=3,p=4$"));
    assert_eq!(verify("not the sentinel", &phc), Ok(false));
}

#[test]
fn hash_with_a_given_salt_has_the_full_shape() {
    let salt = "AAAAAAAAAAAAAAAAAAAAAA";
    let phc = hash_with_salt("correct horse", salt).unwrap();
    assert!(phc.starts_with("$argon2id$v=19$m=65536,t=3,p=4$AAAAAAAAAAAAAAAAAAAAAA$"));
    assert_eq!(hash_with_salt("correct horse", salt).unwrap(), phc);
    assert_eq!(verify("correct horse", &phc), Ok(true));
}

#[test]
fn excessive_lane_count_is_a_verification_failure() {
    let phc = format!("$argon2id$v=19$m=65536,t=3,p=536870912${}${}", "A".repeat(22), "A".repeat(43));
    assert_eq!(verify("pw", &phc), Err(PasswordError::VerifyFailed));
}

#[test]
fn revocation_expiry_of_token_claims() {
    assert!(revocation_expiry(0).is_ok());
    assert!(revocation_expiry(253_402_300_799).is_ok());
    assert_eq!(revocation_expiry(i64::MAX).unwrap_err(), ServerError::Internal);
}

#[test]
fn authentication_steps() {
    let started = |b: Option<&str>, c: Option<&str>| AuthEvent::Started {
        bearer: b.map(|s| s.to_string()),
        session_cookie: c.map(|s| s.to_string()),
    };
    assert!(matches!(auth_step(started(Some("b"), Some("c"))), AuthAction::VerifyToken(t) if t == "b"));
    assert!(matches!(auth_step(started(None, Some("c"))), AuthAction::VerifyToken(t) if t == "c"));
    assert!(matches!(auth_step(started(None, None)), AuthAction::Finish(Err(ServerError::MissingToken))));
    assert!(matches!(auth_step(AuthEvent::Verified(None)), AuthAction::Finish(Err(ServerError::InvalidToken))));
    let claims = Claims::issued_at("u".into(), "j".into(), 1000);
    assert!(matches!(auth_step(AuthEvent::Verified(Some(claims.clone()))), AuthAction::LookUpRevocation(c) if c == claims));
    assert!(matches!(auth_step(AuthEvent::LookedUp(claims.clone(), None)), AuthAction::Finish(Err(ServerError::Internal))));
    assert!(matches!(auth_step(AuthEvent::LookedUp(claims.clone(), Some(true))), AuthAction::Finish(Err(ServerError::InvalidToken))));
    assert!(matches!(auth_step(AuthEvent::LookedUp(claims.clone(), Some(false))), AuthAction::Finish(Ok(AuthUser(c))) if c == claims));
}

#[test]
fn revocation_expiry_is_the_expiry_moment() {
    let t = revocation_expiry(86_400).unwrap();
    assert_eq!(t.unix_timestamp(), 86_400);
    assert_eq!(revocation_expiry(-377_705_116_800).unwrap().year(), -9999);
}
