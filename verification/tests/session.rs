use xscp::session::auth::auth;
use xscp::session::storage::{store_session, StringHashSet};
use xscp::{OpCode, XscpRequest};

// Registration by name

#[test]
fn storage_correct_session() {
    let mut sessions = StringHashSet::new();
    assert!(!sessions.contains("Test"));
    store_session("Test".to_string(), &mut sessions).unwrap();
    assert!(sessions.contains("Test"));
    assert_eq!(sessions.len(), 1);
}

#[test]
fn storage_multiple_correct_sessions() {
    let mut sessions = StringHashSet::new();

    store_session("Test 1".to_string(), &mut sessions).unwrap();
    store_session("Test 2".to_string(), &mut sessions).unwrap();

    assert!(sessions.contains("Test 1"));
    assert!(sessions.contains("Test 2"));
    assert_eq!(sessions.len(), 2);
}

#[test]
fn storage_source_taken() {
    let mut sessions = StringHashSet::new();
    store_session("Test".to_string(), &mut sessions).unwrap();
    let err = store_session("Test".to_string(), &mut sessions).unwrap_err();

    assert_eq!("Source name is already in use", err);
    assert_eq!(sessions.len(), 1);
    assert!(sessions.contains("Test"));
}

// Registration by login request

fn login(source: &str) -> XscpRequest<'_> {
    XscpRequest::try_new(OpCode::Login, source, "").unwrap()
}

#[test]
fn request_storage_correct_session() {
    let mut sessions = StringHashSet::new();
    let request = login("TEST");

    xscp::storage::store_session(&request, &mut sessions).unwrap();

    assert!(sessions.contains("TEST"));
    assert_eq!(sessions.len(), 1);
}

#[test]
fn request_storage_multiple_correct_sessions() {
    let mut sessions = StringHashSet::new();

    let request_1 = login("TEST 1");
    xscp::storage::store_session(&request_1, &mut sessions).unwrap();

    let request_2 = login("TEST 2");
    xscp::storage::store_session(&request_2, &mut sessions).unwrap();

    assert!(sessions.contains("TEST 1"));
    assert!(sessions.contains("TEST 2"));
    assert_eq!(sessions.len(), 2);
}

#[test]
fn request_storage_source_taken() {
    let mut sessions = StringHashSet::new();

    let request_1 = login("TEST");
    xscp::storage::store_session(&request_1, &mut sessions).unwrap();

    let request_2 = login("TEST");
    let err = xscp::storage::store_session(&request_2, &mut sessions).unwrap_err();

    assert_eq!("Source name is already in use.", err);
    assert_eq!(sessions.len(), 1);
}

// Login decisions

#[test]
fn correct_auth() {
    let mut sessions = StringHashSet::new();
    let response = auth("Test".to_string(), 0, &mut sessions);
    assert_eq!(response.status_code(), 200);
    assert_eq!(response.reason_phrase(), "Login Successful");
}

#[test]
fn invalid_auth() {
    let mut sessions = StringHashSet::new();
    sessions.insert("Test".to_string());
    let response = auth("Test".to_string(), 0, &mut sessions);
    assert_eq!(response.status_code(), 401);
    assert_eq!(response.reason_phrase(), "Invalid Credentials");
}

#[test]
fn too_many_auth_attempts() {
    let mut sessions = StringHashSet::new();
    let response = auth("Test".to_string(), 3, &mut sessions);
    assert_eq!(response.status_code(), 402);
    assert_eq!(response.reason_phrase(), "Too Many Attempts");
}

#[test]
fn auth_registers_only_on_success() {
    let mut sessions = StringHashSet::new();
    auth("Test".to_string(), 2, &mut sessions);
    assert!(!sessions.contains("Test"));
    auth("Test".to_string(), 1, &mut sessions);
    assert!(sessions.contains("Test"));
    let response = auth("Test".to_string(), 1, &mut sessions);
    assert_eq!(response.status_code(), 401);
    assert_eq!(sessions.len(), 1);
}

#[test]
fn auth_reply_wire_forms() {
    let mut sessions = StringHashSet::new();
    assert_eq!(auth("Alice".to_string(), 0, &mut sessions).to_string(), "200|Login Successful\r\n");
    assert_eq!(auth("Alice".to_string(), 0, &mut sessions).to_string(), "401|Invalid Credentials\r\n");
    assert_eq!(auth("Alice".to_string(), 2, &mut sessions).to_string(), "402|Too Many Attempts\r\n");
}
