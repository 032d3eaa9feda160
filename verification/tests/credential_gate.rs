use agent_coord::auth::AuthDetails;
use agent_coord::auth::HttpError;
use agent_coord::auth::TokenEntry;
use agent_coord::auth::TokenType;
use agent_coord::auth::Tokens;
use agent_coord::auth::authenticate;

fn gate() -> Tokens {
    let mut tokens = Tokens::new();
    tokens.add(TokenEntry {
        token: "agent-secret".to_string(),
        token_type: TokenType::Agent,
        name: "alpha".to_string(),
    });
    tokens.add(TokenEntry {
        token: "site-secret".to_string(),
        token_type: TokenType::Site,
        name: "operator".to_string(),
    });
    tokens
}

fn try_header(header: Option<&str>) -> Result<AuthDetails, HttpError> {
    let tokens = gate();
    let owned = header.map(|h| h.to_string());
    authenticate(&tokens, owned.as_ref(), TokenType::Agent, None)
}

#[test]
fn valid_agent_credential_resolves_to_its_identity() {
    let details = try_header(Some("Bearer agent-secret")).unwrap();
    assert_eq!(details.name, "alpha");
    assert_eq!(details.git_revision, None);
}

#[test]
fn revision_header_is_carried_through() {
    let tokens = gate();
    let header = "Bearer agent-secret".to_string();
    let details = authenticate(
        &tokens,
        Some(&header),
        TokenType::Agent,
        Some("cafe1234".to_string()),
    )
    .unwrap();
    assert_eq!(details.git_revision, Some("cafe1234".to_string()));
}

#[test]
fn missing_header_is_forbidden() {
    assert_eq!(try_header(None).unwrap_err(), HttpError::Forbidden);
}

#[test]
fn malformed_header_is_forbidden() {
    assert_eq!(try_header(Some("agent-secret")).unwrap_err(), HttpError::Forbidden);
    assert_eq!(try_header(Some("Token agent-secret")).unwrap_err(), HttpError::Forbidden);
    assert_eq!(try_header(Some("Bearer")).unwrap_err(), HttpError::Forbidden);
    assert_eq!(try_header(Some("Bearer ")).unwrap_err(), HttpError::Forbidden);
    assert_eq!(try_header(Some("")).unwrap_err(), HttpError::Forbidden);
}

#[test]
fn unknown_token_is_forbidden() {
    assert_eq!(try_header(Some("Bearer who-is-this")).unwrap_err(), HttpError::Forbidden);
}

#[test]
fn wrong_type_and_malformed_credentials_fail_identically() {
    // A registered token of the wrong type...
    let wrong_type = try_header(Some("Bearer site-secret"));
    // ...and a credential that is not a bearer header at all...
    let malformed = try_header(Some("site-secret"));
    // ...get the one uniform forbidden outcome, not a not-found and not a
    // distinguishable error.
    assert_eq!(wrong_type.unwrap_err(), HttpError::Forbidden);
    assert_eq!(malformed.unwrap_err(), HttpError::Forbidden);
}
