use wetdirt::actor::{
    actor_query, create_user_query, created_id, local_actor_name, local_actor_outcome,
    make_credential, Credential, UserManager,
};
use wetdirt::codec::base64_encode;
use wetdirt::db::Database;
use wetdirt::err::Error;
use wetdirt::finger::webfinger_user;
use wetdirt::json::Json;
use wetdirt::validate::{validate_id, validate_name, validate_str};

fn row(key: &str, value: &str) -> Vec<(String, Json)> {
    vec![(key.to_string(), Json::Str(value.to_string()))]
}

#[test]
fn identifier_gate_refuses_backtick_and_whitespace() {
    assert_eq!(
        validate_name("ali`ce"),
        Err(Error::BadString("ali`ce".to_string()))
    );
    assert_eq!(
        validate_name("ali ce"),
        Err(Error::BadString("ali ce".to_string()))
    );
    assert_eq!(
        validate_name("ali\tce"),
        Err(Error::BadString("ali\tce".to_string()))
    );
    assert_eq!(
        validate_name("ali\u{2028}ce"),
        Err(Error::BadString("ali\u{2028}ce".to_string()))
    );
    assert_eq!(validate_name("alice"), Ok(()));
    assert_eq!(validate_name("ali'ce"), Ok(()));
    assert_eq!(validate_name(""), Ok(()));
}

#[test]
fn id_gate_refuses_backtick_and_whitespace() {
    assert_eq!(validate_id("a`b"), Err(Error::BadString("a`b".to_string())));
    assert_eq!(validate_id("a b"), Err(Error::BadString("a b".to_string())));
    assert_eq!(validate_id("a'c"), Ok(()));
}

#[test]
fn literal_gate_refuses_the_single_quote() {
    assert_eq!(
        validate_str("it's"),
        Err(Error::BadString("it's".to_string()))
    );
    assert_eq!(validate_str("it`s ok"), Ok(()));
    assert_eq!(validate_str(""), Ok(()));
}

#[test]
fn actor_reference_parsing_extracts_the_name() {
    assert_eq!(
        local_actor_name("acct:alice@example.com"),
        Ok("alice".to_string())
    );
    assert_eq!(local_actor_name("acct:@example.com"), Ok("".to_string()));
}

#[test]
fn actor_reference_without_marker_is_no_entity() {
    assert_eq!(local_actor_name("not-an-acct"), Err(Error::NoSuchEntity));
    assert_eq!(local_actor_name(""), Err(Error::NoSuchEntity));
    assert_eq!(local_actor_name("acct"), Err(Error::NoSuchEntity));
    assert_eq!(
        local_actor_name("mailto:alice@example.com"),
        Err(Error::NoSuchEntity)
    );
}

#[test]
fn actor_reference_without_name_segment_is_no_entity() {
    assert_eq!(local_actor_name("acct:alice"), Err(Error::NoSuchEntity));
    assert_eq!(local_actor_name("acct:"), Err(Error::NoSuchEntity));
}

#[test]
fn actor_reference_with_unsafe_name_is_refused() {
    assert_eq!(
        local_actor_name("acct:ali`ce@example.com"),
        Err(Error::BadString("ali`ce".to_string()))
    );
}

#[test]
fn lookup_query_text_is_exact() {
    assert_eq!(actor_query("alice"), "SELECT id FROM user:`alice`");
}

#[test]
fn lookup_outcome_distinguishes_found_empty_and_malformed() {
    // A record named alice exists: the canonical identifier comes back.
    let found = vec![vec![row("id", "user:alice")]];
    assert_eq!(
        local_actor_outcome("alice".to_string(), found),
        Ok("alice".to_string())
    );
    // The store answered, but with no row: the actor does not exist.
    let empty_rows = vec![Vec::<Vec<(String, Json)>>::new()];
    assert_eq!(
        local_actor_outcome("alice".to_string(), empty_rows),
        Err(Error::NoSuchEntity)
    );
    // No statement result at all: a malformed store answer.
    assert_eq!(
        local_actor_outcome("alice".to_string(), vec![]),
        Err(Error::BadQuery(Json::Str("empty response".to_string())))
    );
}

#[test]
fn credentials_have_fixed_lengths_and_fresh_salts() {
    let a = make_credential("bob", "secret").unwrap();
    let b = make_credential("bob", "secret").unwrap();
    assert_eq!(a.name, "bob");
    assert_eq!(a.salt.len(), 256);
    assert_eq!(a.hash.len(), 256);
    // Salts are drawn independently per call, so hashes differ too.
    assert_ne!(a.salt, b.salt);
    assert_ne!(a.hash, b.hash);
}

#[test]
fn credential_hash_is_the_argon2_derivation() {
    let c = make_credential("bob", "secret").unwrap();
    let mut expected = [0u8; 256];
    argon2::Argon2::default()
        .hash_password_into(b"secret", &c.salt, &mut expected)
        .unwrap();
    assert_eq!(c.hash, expected.to_vec());
}

#[test]
fn credential_gates_run_before_any_randomness() {
    assert_eq!(
        make_credential("bo`b", "secret"),
        Err(Error::BadString("bo`b".to_string()))
    );
    assert_eq!(
        make_credential("bob", "se'cret"),
        Err(Error::BadString("se'cret".to_string()))
    );
}

#[test]
fn creation_query_text_is_exact() {
    let c = Credential {
        name: "bob".to_string(),
        salt: vec![1u8; 256],
        hash: vec![2u8; 256],
    };
    let salt_text = base64_encode(&c.salt);
    let hash_text = base64_encode(&c.hash);
    let expected = format!(
        "CREATE user:`bob` SET salt = '{salt_text}', pwd_hash = '{hash_text}' RETURN id"
    );
    assert_eq!(create_user_query(&c), expected);
}

#[test]
fn created_identifier_is_read_from_the_first_row() {
    let resp = vec![
        vec![row("id", "user:bob"), row("id", "user:carol")],
        vec![row("id", "user:dave")],
    ];
    assert_eq!(created_id(resp), Ok("user:bob".to_string()));
    // A healthy creation response: one statement, one row, a generated id.
    let healthy = vec![vec![row("id", "user:bob")]];
    let id = created_id(healthy).unwrap();
    assert!(!id.is_empty());
}

#[test]
fn creation_extraction_failures_are_distinct() {
    assert_eq!(
        created_id(vec![]),
        Err(Error::BadQuery(Json::Str("empty response".to_string())))
    );
    assert_eq!(
        created_id(vec![vec![]]),
        Err(Error::BadQuery(Json::Str(
            "empty statement result".to_string()
        )))
    );
    assert_eq!(
        created_id(vec![vec![row("name", "bob")]]),
        Err(Error::MissingData("id".to_string()))
    );
    assert_eq!(
        created_id(vec![vec![vec![("id".to_string(), Json::Null)]]]),
        Err(Error::MissingData("id".to_string()))
    );
}

#[test]
fn manager_holds_its_session() {
    let db = Database::configure("http://localhost:8000/sql".to_string(), "ns", "db", "root:root");
    let url = db.url.clone();
    let manager = UserManager::new(db);
    assert_eq!(manager.db.url, url);
}

#[test]
fn webfinger_projection_is_exact() {
    let u = webfinger_user("alice", "example.com");
    assert_eq!(u.subject, "acct:alice@example.com");
    assert_eq!(u.links.len(), 1);
    assert_eq!(u.links[0].rel, "self");
    assert_eq!(u.links[0].typ, "application/activity+json");
    assert_eq!(u.links[0].href, "https://example.com/users/alice");
}
