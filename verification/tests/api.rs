use event_api::auth::{authenticate, AuthConfig, AuthError, Claims, KeySet, UnverifiedToken};
use event_api::get_db_info;
use event_api::handlers::handle_request;
use event_api::http::{create_json_response, parse_request, HttpStatus};
use event_api::json::{escape_json, unescape_json};
use event_api::query::{get_param, parse_query};
use event_api::store::Store;
use event_api::text::{parse_u64, u64_to_string};

const NOW: u64 = 1000;

fn claims_for(sub: &str) -> Claims {
    Claims {
        subject: sub.to_string(),
        email: None,
        audience: "proj".to_string(),
        issuer: "https://issuer.example/proj".to_string(),
        expires_at: NOW + 100,
        issued_at: NOW - 1,
    }
}

fn ok_auth(sub: &str) -> Result<Claims, AuthError> {
    Ok(claims_for(sub))
}

fn body_of(resp: &str) -> &str {
    let idx = resp.find("\r\n\r\n").expect("response has a header/body separator");
    &resp[idx + 4..]
}

fn full_response(status_line: &str, body: &str) -> String {
    format!(
        "{}\r\nContent-Type: application/json\r\nContent-Length: {}\r\nAccess-Control-Allow-Origin: *\r\n\r\n{}",
        status_line,
        body.len(),
        body
    )
}

fn register(store: &mut Store, sub: &str, name: &str) -> String {
    // Each user gets their own email: emails are unique across users.
    let path = format!("/api/auth/register?name={}&email={}@mail.it", name, name);
    handle_request(&path, &ok_auth(sub), store, NOW)
}

fn add_event(store: &mut Store, sub: &str, title: &str) -> String {
    let path = format!("/api/add-event?title={}&date=D&location=L", title);
    handle_request(&path, &ok_auth(sub), store, NOW)
}

// ---------- query strings ----------

#[test]
fn parse_query_exact_pairs() {
    let pairs = parse_query("a=1&b=2");
    assert_eq!(pairs.len(), 2);
    assert_eq!(pairs[0].0, "a");
    assert_eq!(pairs[0].1, "1");
    assert_eq!(pairs[1].0, "b");
    assert_eq!(pairs[1].1, "2");
}

#[test]
fn parse_query_last_duplicate_wins() {
    let pairs = parse_query("a=1&b=2&a=3");
    assert_eq!(get_param(&pairs, "a"), Some("3".to_string()));
    assert_eq!(get_param(&pairs, "b"), Some("2".to_string()));
    assert_eq!(get_param(&pairs, "c"), None);
    let reordered = parse_query("b=2&a=3&a=1");
    assert_eq!(get_param(&reordered, "a"), Some("1".to_string()));
    assert_eq!(get_param(&reordered, "b"), Some("2".to_string()));
}

#[test]
fn parse_query_skips_malformed_fragments() {
    let pairs = parse_query("a=1&junk&c=2=3&b=4");
    assert_eq!(pairs.len(), 2);
    assert_eq!(pairs[0].0, "a");
    assert_eq!(pairs[1].0, "b");
    assert_eq!(pairs[1].1, "4");
}

#[test]
fn parse_query_empty_values_kept() {
    let pairs = parse_query("a=&b=c");
    assert_eq!(get_param(&pairs, "a"), Some(String::new()));
    assert_eq!(get_param(&pairs, "b"), Some("c".to_string()));
}

// ---------- JSON escaping ----------

#[test]
fn escape_json_exact() {
    let s = "a\\b\"c\nd\re\tf";
    assert_eq!(escape_json(s), "a\\\\b\\\"c\\nd\\re\\tf");
}

#[test]
fn escape_unescape_round_trip() {
    let s = "a\\b\"c\nd\re\tf";
    let escaped = escape_json(s);
    assert_eq!(unescape_json(&escaped), Some(s.to_string()));
    assert_eq!(unescape_json(&escape_json("")), Some(String::new()));
    assert_eq!(unescape_json(&escape_json("plain")), Some("plain".to_string()));
}

#[test]
fn unescape_rejects_bad_input() {
    assert_eq!(unescape_json("abc\\"), None);
    assert_eq!(unescape_json("a\\xb"), None);
}

// ---------- numbers ----------

#[test]
fn parse_u64_cases() {
    assert_eq!(parse_u64("123"), Some(123));
    assert_eq!(parse_u64("0"), Some(0));
    assert_eq!(parse_u64(""), None);
    assert_eq!(parse_u64("12a"), None);
    assert_eq!(parse_u64("-5"), None);
    assert_eq!(parse_u64("18446744073709551615"), Some(u64::MAX));
    assert_eq!(parse_u64("18446744073709551616"), None);
}

#[test]
fn u64_to_string_cases() {
    assert_eq!(u64_to_string(0), "0");
    assert_eq!(u64_to_string(7), "7");
    assert_eq!(u64_to_string(1234567890), "1234567890");
    assert_eq!(u64_to_string(u64::MAX), "18446744073709551615");
}

// ---------- the response encoder ----------

#[test]
fn response_shape_exact() {
    let r = create_json_response("{}", HttpStatus::Success);
    assert_eq!(
        r,
        "HTTP/1.1 200 OK\r\nContent-Type: application/json\r\nContent-Length: 2\r\nAccess-Control-Allow-Origin: *\r\n\r\n{}"
    );
}

#[test]
fn content_length_counts_bytes_not_chars() {
    // "città" is five characters but six UTF-8 bytes.
    let body = "città";
    assert_eq!(body.chars().count(), 5);
    assert_eq!(body.len(), 6);
    let r = create_json_response(body, HttpStatus::Success);
    assert!(r.contains("Content-Length: 6\r\n"));
}

// ---------- the request reader ----------

#[test]
fn parse_request_extracts_path_and_bearer() {
    let req = "GET /api/my-events HTTP/1.1\r\nHost: x\r\nAuthorization: Bearer tok123\r\n\r\n";
    let info = parse_request(req).expect("non-empty request parses");
    assert_eq!(info.path, "/api/my-events");
    assert_eq!(info.bearer, Some("tok123".to_string()));
}

#[test]
fn parse_request_header_name_case_insensitive() {
    let req = "GET / HTTP/1.1\r\naUtHoRiZaTiOn:   Bearer t1  \r\n\r\n";
    let info = parse_request(req).expect("parses");
    assert_eq!(info.bearer, Some("t1".to_string()));
}

#[test]
fn parse_request_without_header_or_marker() {
    let req = "GET /x HTTP/1.1\r\nHost: y\r\n\r\n";
    let info = parse_request(req).expect("parses");
    assert_eq!(info.path, "/x");
    assert_eq!(info.bearer, None);

    let raw = "GET /x HTTP/1.1\r\nAuthorization: opaque-id\r\n\r\n";
    let info2 = parse_request(raw).expect("parses");
    assert_eq!(info2.bearer, Some("opaque-id".to_string()));
}

#[test]
fn parse_request_empty_is_abandoned() {
    assert!(parse_request("").is_none());
}

#[test]
fn parse_request_missing_path_defaults() {
    let info = parse_request("GARBAGE\r\n\r\n").expect("parses");
    assert_eq!(info.path, "/");
}

// ---------- the event endpoints ----------

#[test]
fn events_listed_newest_first() {
    let mut store = Store::new();
    register(&mut store, "subA", "Ann");
    add_event(&mut store, "subA", "t1");
    add_event(&mut store, "subA", "t2");
    add_event(&mut store, "subA", "t3");
    let any_auth = Err(AuthError::MissingHeader);
    let resp = handle_request("/api/events", &any_auth, &mut store, NOW);
    assert!(resp.starts_with("HTTP/1.1 200 OK\r\n"));
    let body = body_of(&resp);
    let p3 = body.find("\"uid\": 3").expect("event 3 listed");
    let p2 = body.find("\"uid\": 2").expect("event 2 listed");
    let p1 = body.find("\"uid\": 1").expect("event 1 listed");
    assert!(p3 < p2 && p2 < p1, "events must come newest first");
}

#[test]
fn get_event_exact_response() {
    let mut store = Store::new();
    register(&mut store, "subA", "Ann");
    add_event(&mut store, "subA", "T");
    let any_auth = Err(AuthError::MissingHeader);
    let resp = handle_request("/api/event/1", &any_auth, &mut store, NOW);
    let body = "{\"uid\": 1, \"title\": \"T\", \"description\": \"\", \"date\": \"D\", \"location\": \"L\", \"imageUrl\": \"\", \"mapPosition\": \"\", \"userId\": 1}";
    assert_eq!(resp, full_response("HTTP/1.1 200 OK", body));
}

#[test]
fn get_event_bad_or_unknown_id() {
    let mut store = Store::new();
    let any_auth = Err(AuthError::MissingHeader);
    let resp = handle_request("/api/event/abc", &any_auth, &mut store, NOW);
    assert!(resp.starts_with("HTTP/1.1 200 OK\r\n"));
    assert_eq!(
        body_of(&resp),
        "{\"status\": \"error\", \"message\": \"UID invalido\"}"
    );
    let resp2 = handle_request("/api/event/99", &any_auth, &mut store, NOW);
    assert_eq!(
        body_of(&resp2),
        "{\"status\": \"error\", \"message\": \"Evento non trovato\"}"
    );
}

// ---------- authentication ----------

fn test_config() -> AuthConfig {
    AuthConfig {
        project_id: "proj".to_string(),
        issuer_prefix: "https://issuer.example/".to_string(),
    }
}

fn test_keys() -> KeySet {
    KeySet { keys: vec![("k1".to_string(), "PEM-ONE".to_string())] }
}

#[test]
fn unknown_kid_is_unauthorized() {
    let token = UnverifiedToken { kid: "k2".to_string(), claims: claims_for("subA") };
    let out = authenticate(
        &Some("tok".to_string()),
        &Some(test_keys()),
        &Some(token),
        true,
        &test_config(),
        NOW,
    );
    assert_eq!(out.unwrap_err(), AuthError::UnknownKey);

    // ... and the endpoint answers 401, never a success or a partial response.
    let mut store = Store::new();
    let resp = handle_request(
        "/api/my-events",
        &Err(AuthError::UnknownKey),
        &mut store,
        NOW,
    );
    assert!(resp.starts_with("HTTP/1.1 401 Unauthorized\r\n"));
    assert_eq!(
        body_of(&resp),
        "{\"status\": \"error\", \"message\": \"Chiave sconosciuta\"}"
    );
}

#[test]
fn authenticate_failure_ladder() {
    let cfg = test_config();
    let keys = test_keys();
    let good = UnverifiedToken { kid: "k1".to_string(), claims: claims_for("subA") };
    assert_eq!(
        authenticate(&None, &Some(test_keys()), &None, true, &cfg, NOW).unwrap_err(),
        AuthError::MissingHeader
    );
    assert_eq!(
        authenticate(&Some("t".to_string()), &None, &None, true, &cfg, NOW).unwrap_err(),
        AuthError::KeyFetchFailed
    );
    assert_eq!(
        authenticate(&Some("t".to_string()), &Some(test_keys()), &None, true, &cfg, NOW)
            .unwrap_err(),
        AuthError::MalformedToken
    );
    assert_eq!(
        authenticate(&Some("t".to_string()), &Some(test_keys()), &Some(good), false, &cfg, NOW)
            .unwrap_err(),
        AuthError::BadSignature
    );
    let mut wrong_aud = claims_for("subA");
    wrong_aud.audience = "other".to_string();
    let bad = UnverifiedToken { kid: "k1".to_string(), claims: wrong_aud };
    assert_eq!(
        authenticate(&Some("t".to_string()), &Some(test_keys()), &Some(bad), true, &cfg, NOW)
            .unwrap_err(),
        AuthError::InvalidClaims
    );
    let mut expired = claims_for("subA");
    expired.expires_at = NOW;
    let bad2 = UnverifiedToken { kid: "k1".to_string(), claims: expired };
    assert_eq!(
        authenticate(&Some("t".to_string()), &Some(keys), &Some(bad2), true, &cfg, NOW)
            .unwrap_err(),
        AuthError::InvalidClaims
    );
    let ok = UnverifiedToken { kid: "k1".to_string(), claims: claims_for("subA") };
    let got = authenticate(&Some("t".to_string()), &Some(test_keys()), &Some(ok), true, &cfg, NOW)
        .expect("valid token authenticates");
    assert_eq!(got.subject, "subA");
}

#[test]
fn protected_endpoints_refuse_missing_header() {
    let mut store = Store::new();
    for path in [
        "/api/my-events",
        "/api/auth/register?name=X",
        "/api/auth/me",
        "/api/add-event?title=T&date=D&location=L",
        "/api/delete-event?uid=1",
        "/api/nonsense",
    ] {
        let resp = handle_request(path, &Err(AuthError::MissingHeader), &mut store, NOW);
        assert!(
            resp.starts_with("HTTP/1.1 401 Unauthorized\r\n"),
            "path {} must answer 401, got: {}",
            path,
            resp
        );
        assert_eq!(
            body_of(&resp),
            "{\"status\": \"error\", \"message\": \"Token mancante\"}"
        );
    }
    assert_eq!(store.users.len(), 0);
    assert_eq!(store.events.len(), 0);
}

// ---------- authorization and ownership ----------

#[test]
fn delete_by_non_owner_forbidden_and_row_unchanged() {
    let mut store = Store::new();
    register(&mut store, "subA", "Ann");
    register(&mut store, "subB", "Bob");
    add_event(&mut store, "subA", "AnnsEvent");
    let any_auth = Err(AuthError::MissingHeader);
    let before = handle_request("/api/event/1", &any_auth, &mut store, NOW);

    let resp = handle_request("/api/delete-event?uid=1", &ok_auth("subB"), &mut store, NOW);
    assert!(resp.starts_with("HTTP/1.1 403 Forbidden\r\n"));
    assert_eq!(
        body_of(&resp),
        "{\"status\": \"error\", \"message\": \"Non sei il proprietario di questo evento\"}"
    );

    let after = handle_request("/api/event/1", &any_auth, &mut store, NOW);
    assert_eq!(before, after, "the event row must be unchanged after a forbidden delete");
}

#[test]
fn delete_by_owner_removes_event() {
    let mut store = Store::new();
    register(&mut store, "subA", "Ann");
    add_event(&mut store, "subA", "T");
    let resp = handle_request("/api/delete-event?uid=1", &ok_auth("subA"), &mut store, NOW);
    assert!(resp.starts_with("HTTP/1.1 200 OK\r\n"));
    assert_eq!(
        body_of(&resp),
        "{\"status\": \"success\", \"message\": \"Evento eliminato\"}"
    );
    let any_auth = Err(AuthError::MissingHeader);
    let gone = handle_request("/api/event/1", &any_auth, &mut store, NOW);
    assert_eq!(
        body_of(&gone),
        "{\"status\": \"error\", \"message\": \"Evento non trovato\"}"
    );
}

#[test]
fn delete_parameter_errors() {
    let mut store = Store::new();
    register(&mut store, "subA", "Ann");
    let resp = handle_request("/api/delete-event", &ok_auth("subA"), &mut store, NOW);
    assert_eq!(
        body_of(&resp),
        "{\"status\": \"error\", \"message\": \"Query string richiesta\"}"
    );
    let resp2 = handle_request("/api/delete-event?x=1", &ok_auth("subA"), &mut store, NOW);
    assert_eq!(
        body_of(&resp2),
        "{\"status\": \"error\", \"message\": \"UID richiesto\"}"
    );
    let resp3 = handle_request("/api/delete-event?uid=zz", &ok_auth("subA"), &mut store, NOW);
    assert_eq!(
        body_of(&resp3),
        "{\"status\": \"error\", \"message\": \"UID invalido\"}"
    );
}

// ---------- registration ----------

#[test]
fn register_twice_same_subject_is_refused() {
    let mut store = Store::new();
    let first = handle_request("/api/auth/register?name=Ann", &ok_auth("subA"), &mut store, NOW);
    assert_eq!(
        body_of(&first),
        "{\"status\": \"success\", \"message\": \"Utente registrato\"}"
    );
    let second = handle_request(
        "/api/auth/register?name=AnnAgain",
        &ok_auth("subA"),
        &mut store,
        NOW,
    );
    assert!(second.starts_with("HTTP/1.1 200 OK\r\n"));
    assert_eq!(
        body_of(&second),
        "{\"status\": \"error\", \"message\": \"Utente gia registrato\"}"
    );
    assert_eq!(store.users.len(), 1, "a second registration must not create a second user");

    let me = handle_request("/api/auth/me", &ok_auth("subA"), &mut store, NOW);
    let body = "{\"id\": 1, \"name\": \"Ann\", \"email\": \"no-email\", \"age\": 0, \"firebaseUid\": \"subA\"}";
    assert_eq!(me, full_response("HTTP/1.1 200 OK", body));
}

#[test]
fn register_validation_and_fallbacks() {
    let mut store = Store::new();
    let resp = handle_request("/api/auth/register", &ok_auth("s1"), &mut store, NOW);
    assert_eq!(
        body_of(&resp),
        "{\"status\": \"error\", \"message\": \"Query string richiesta\"}"
    );
    let resp2 = handle_request("/api/auth/register?x=1", &ok_auth("s1"), &mut store, NOW);
    assert_eq!(
        body_of(&resp2),
        "{\"status\": \"error\", \"message\": \"Nome richiesto\"}"
    );

    // Unparsable age falls back to zero; the email falls back to the claim's.
    let mut c = claims_for("s1");
    c.email = Some("claim@mail.it".to_string());
    handle_request("/api/auth/register?name=N&age=abc", &Ok(c), &mut store, NOW);
    assert_eq!(store.users.len(), 1);
    assert_eq!(store.users[0].age, 0);
    assert_eq!(store.users[0].email, "claim@mail.it");

    // An explicit age and email are taken as written.
    handle_request(
        "/api/auth/register?name=M&age=33&email=m@mail.it",
        &ok_auth("s2"),
        &mut store,
        NOW,
    );
    assert_eq!(store.users.len(), 2);
    assert_eq!(store.users[1].age, 33);
    assert_eq!(store.users[1].email, "m@mail.it");
}

#[test]
fn register_duplicate_email_refused() {
    let mut store = Store::new();
    handle_request("/api/auth/register?name=A&email=x@y.z", &ok_auth("s1"), &mut store, NOW);
    let resp = handle_request(
        "/api/auth/register?name=B&email=x@y.z",
        &ok_auth("s2"),
        &mut store,
        NOW,
    );
    assert_eq!(
        body_of(&resp),
        "{\"status\": \"error\", \"message\": \"Utente gia registrato\"}"
    );
    assert_eq!(store.users.len(), 1);
}

// ---------- per-caller listings and remaining handlers ----------

#[test]
fn my_events_filters_by_owner() {
    let mut store = Store::new();
    register(&mut store, "subA", "Ann");
    register(&mut store, "subB", "Bob");
    add_event(&mut store, "subA", "a1");
    add_event(&mut store, "subB", "b1");
    add_event(&mut store, "subA", "a2");
    let resp = handle_request("/api/my-events", &ok_auth("subA"), &mut store, NOW);
    let body = body_of(&resp);
    assert!(body.contains("\"title\": \"a1\""));
    assert!(body.contains("\"title\": \"a2\""));
    assert!(!body.contains("\"title\": \"b1\""));
    let p3 = body.find("\"uid\": 3").expect("newest first");
    let p1 = body.find("\"uid\": 1").expect("oldest last");
    assert!(p3 < p1);
}

#[test]
fn unregistered_caller_gets_application_error() {
    let mut store = Store::new();
    for path in ["/api/my-events", "/api/auth/me", "/api/delete-event?uid=1"] {
        let resp = handle_request(path, &ok_auth("ghost"), &mut store, NOW);
        assert!(resp.starts_with("HTTP/1.1 200 OK\r\n"), "not-registered is an application error");
        assert_eq!(
            body_of(&resp),
            "{\"status\": \"error\", \"message\": \"Utente non trovato\"}"
        );
    }
}

#[test]
fn add_event_validation() {
    let mut store = Store::new();
    register(&mut store, "subA", "Ann");
    let resp = handle_request("/api/add-event", &ok_auth("subA"), &mut store, NOW);
    assert_eq!(
        body_of(&resp),
        "{\"status\": \"error\", \"message\": \"Query string richiesta\"}"
    );
    let resp2 = handle_request("/api/add-event?title=T", &ok_auth("subA"), &mut store, NOW);
    assert_eq!(
        body_of(&resp2),
        "{\"status\": \"error\", \"message\": \"Parametri mancanti (title, date, location)\"}"
    );
    assert_eq!(store.events.len(), 0);
}

#[test]
fn unknown_path_after_auth_is_not_found_body() {
    let mut store = Store::new();
    let resp = handle_request("/api/whatever", &ok_auth("subA"), &mut store, NOW);
    assert!(resp.starts_with("HTTP/1.1 200 OK\r\n"));
    assert_eq!(
        body_of(&resp),
        "{\"status\": \"error\", \"message\": \"Endpoint non trovato\"}"
    );
}

#[test]
fn event_strings_are_escaped_in_json() {
    let mut store = Store::new();
    register(&mut store, "subA", "Ann");
    let path = "/api/add-event?title=a\"b\\c&date=D&location=L";
    handle_request(path, &ok_auth("subA"), &mut store, NOW);
    let any_auth = Err(AuthError::MissingHeader);
    let resp = handle_request("/api/event/1", &any_auth, &mut store, NOW);
    assert!(body_of(&resp).contains("\"title\": \"a\\\"b\\\\c\""));
}

#[test]
fn events_on_empty_store_exact() {
    let mut store = Store::new();
    let any_auth = Err(AuthError::MissingHeader);
    let resp = handle_request("/api/events", &any_auth, &mut store, NOW);
    assert_eq!(resp, full_response("HTTP/1.1 200 OK", "{\"events\": []}"));
}

#[test]
fn query_is_text_between_first_and_second_marker() {
    let mut store = Store::new();
    register(&mut store, "subA", "Ann");
    add_event(&mut store, "subA", "T");
    // Only the text between the first and second '?' counts as the query.
    let resp = handle_request("/api/delete-event?uid=1?x=2", &ok_auth("subA"), &mut store, NOW);
    assert_eq!(
        body_of(&resp),
        "{\"status\": \"success\", \"message\": \"Evento eliminato\"}"
    );
    assert_eq!(store.events.len(), 0);
}

// ---------- settings ----------

#[test]
fn db_info_is_fixed() {
    let db = get_db_info().expect("settings are static");
    assert_eq!(db.user, "root");
    assert_eq!(db.password, "password123");
    assert_eq!(db.ip_address, "192.168.64.4");
    assert_eq!(db.port, "3306");
}
