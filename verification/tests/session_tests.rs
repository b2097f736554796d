use authproxy::ClientMessage;
use authproxy::CredentialRecord;
use authproxy::Credentials;
use authproxy::DenyReason;
use authproxy::Phase;
use authproxy::ResultEvent;
use authproxy::Security;
use authproxy::Session;
use authproxy::SessionAction;
use authproxy::SessionEvent;
use authproxy::StoreError;
use authproxy::denial_response;
use authproxy::failure_response;
use authproxy::relay_events;
use authproxy::translate_event;

fn alice_record() -> CredentialRecord {
    CredentialRecord {
        username: String::from("alice"),
        password_hash: bcrypt::hash("secret123", 4).unwrap(),
        allowed_ip: String::from("10.0.0.5"),
    }
}

fn alice_credentials(password: &str, ip: &str) -> Credentials {
    Credentials {
        username: String::from("alice"),
        password: String::from(password),
        ip: String::from(ip),
    }
}

/// Run one session up to the lookup request and return it.
fn session_awaiting_lookup(sec: &mut Security, password: &str, ip: &str) -> Session {
    let mut s = Session::new();
    assert!(matches!(
        s.step(sec, SessionEvent::HandshakeComplete, 0),
        SessionAction::Wait
    ));
    let a = s.step(
        sec,
        SessionEvent::CredentialsPresented(alice_credentials(password, ip)),
        1,
    );
    match a {
        SessionAction::LookupCredentials(u) => assert_eq!(u, "alice"),
        other => panic!("expected a lookup request, got {:?}", action_name(&other)),
    }
    s
}

fn action_name(a: &SessionAction) -> &'static str {
    match a {
        SessionAction::Wait => "Wait",
        SessionAction::LookupCredentials(_) => "LookupCredentials",
        SessionAction::SendDenialAndClose(_) => "SendDenialAndClose",
        SessionAction::SendFailureAndClose(_) => "SendFailureAndClose",
        SessionAction::OpenUpstream => "OpenUpstream",
        SessionAction::ForwardQuery(_) => "ForwardQuery",
        SessionAction::SendToClient(_) => "SendToClient",
        SessionAction::ReleaseUpstream => "ReleaseUpstream",
        SessionAction::CloseTransport => "CloseTransport",
    }
}

#[test]
fn happy_path_relays_and_releases() {
    let mut sec = Security::new(5, 60);
    let mut s = session_awaiting_lookup(&mut sec, "secret123", "10.0.0.5");
    let a = s.step(&mut sec, SessionEvent::LookupCompleted(Ok(Some(alice_record()))), 2);
    assert!(matches!(a, SessionAction::OpenUpstream));
    assert_eq!(s.phase, Phase::Authenticated);
    assert!(s.authenticated);
    let a = s.step(&mut sec, SessionEvent::UpstreamOpened, 3);
    assert!(matches!(a, SessionAction::Wait));
    assert_eq!(s.phase, Phase::Relaying);
    assert!(s.upstream_open);
    let a = s.step(&mut sec, SessionEvent::QueryReceived(String::from("SELECT 1")), 4);
    match a {
        SessionAction::ForwardQuery(q) => assert_eq!(q, "SELECT 1"),
        other => panic!("expected a forwarded query, got {}", action_name(&other)),
    }
    let a = s.step(
        &mut sec,
        SessionEvent::UpstreamResult(ResultEvent::Row(vec![1, 2, 3])),
        5,
    );
    match a {
        SessionAction::SendToClient(ClientMessage::DataRow(b)) => assert_eq!(b, vec![1, 2, 3]),
        other => panic!("expected a data row, got {}", action_name(&other)),
    }
    let a = s.step(&mut sec, SessionEvent::ClientClosed, 6);
    assert!(matches!(a, SessionAction::ReleaseUpstream));
    assert_eq!(s.phase, Phase::Closed);
    assert!(!s.upstream_open);
}

#[test]
fn denial_bytes_identical_for_every_cause() {
    let mut sec = Security::new(5, 60);
    let mut messages: Vec<String> = Vec::new();

    // unknown username
    let mut s = session_awaiting_lookup(&mut sec, "secret123", "10.0.0.5");
    match s.step(&mut sec, SessionEvent::LookupCompleted(Ok(None)), 2) {
        SessionAction::SendDenialAndClose(m) => messages.push(m),
        other => panic!("expected a denial, got {}", action_name(&other)),
    }

    // wrong password
    let mut sec2 = Security::new(5, 60);
    let mut s = session_awaiting_lookup(&mut sec2, "wrong", "10.0.0.5");
    match s.step(&mut sec2, SessionEvent::LookupCompleted(Ok(Some(alice_record()))), 2) {
        SessionAction::SendDenialAndClose(m) => messages.push(m),
        other => panic!("expected a denial, got {}", action_name(&other)),
    }

    // wrong source address
    let mut sec3 = Security::new(5, 60);
    let mut s = session_awaiting_lookup(&mut sec3, "secret123", "10.0.0.6");
    match s.step(&mut sec3, SessionEvent::LookupCompleted(Ok(Some(alice_record()))), 2) {
        SessionAction::SendDenialAndClose(m) => messages.push(m),
        other => panic!("expected a denial, got {}", action_name(&other)),
    }

    // locked out
    let mut sec4 = Security::new(2, 60);
    sec4.record_attempt(&String::from("alice"), 0);
    sec4.record_attempt(&String::from("alice"), 1);
    let mut s = Session::new();
    s.step(&mut sec4, SessionEvent::HandshakeComplete, 2);
    match s.step(
        &mut sec4,
        SessionEvent::CredentialsPresented(alice_credentials("secret123", "10.0.0.5")),
        3,
    ) {
        SessionAction::SendDenialAndClose(m) => messages.push(m),
        other => panic!("expected a denial, got {}", action_name(&other)),
    }

    for m in &messages {
        assert_eq!(m.as_bytes(), messages[0].as_bytes());
    }
    assert_eq!(
        denial_response(&DenyReason::RateLimited).as_bytes(),
        denial_response(&DenyReason::InvalidUsername).as_bytes()
    );
    assert_eq!(
        denial_response(&DenyReason::InvalidUsername).as_bytes(),
        denial_response(&DenyReason::InvalidCredentialOrIp).as_bytes()
    );
}

#[test]
fn locked_out_username_costs_no_lookup() {
    let mut sec = Security::new(1, 60);
    sec.record_attempt(&String::from("alice"), 0);
    let mut s = Session::new();
    s.step(&mut sec, SessionEvent::HandshakeComplete, 1);
    let a = s.step(
        &mut sec,
        SessionEvent::CredentialsPresented(alice_credentials("secret123", "10.0.0.5")),
        2,
    );
    // denied straight away: no LookupCredentials action is ever produced
    assert!(matches!(a, SessionAction::SendDenialAndClose(_)));
    assert_eq!(s.phase, Phase::Closed);
}

#[test]
fn store_fault_is_generic_failure_not_denial() {
    let mut sec = Security::new(5, 60);
    let mut s = session_awaiting_lookup(&mut sec, "secret123", "10.0.0.5");
    let a = s.step(
        &mut sec,
        SessionEvent::LookupCompleted(Err(StoreError::StoreUnavailable)),
        2,
    );
    match a {
        SessionAction::SendFailureAndClose(m) => {
            assert_eq!(m, failure_response());
            assert_ne!(m, denial_response(&DenyReason::InvalidUsername));
        },
        other => panic!("expected a generic failure, got {}", action_name(&other)),
    }
    assert_eq!(s.phase, Phase::Closed);
    // a store fault records nothing against the username
    assert!(!sec.is_rate_limited(&String::from("alice"), 3));
}

#[test]
fn upstream_io_error_surfaces_and_closes() {
    let mut sec = Security::new(5, 60);
    let mut s = session_awaiting_lookup(&mut sec, "secret123", "10.0.0.5");
    s.step(&mut sec, SessionEvent::LookupCompleted(Ok(Some(alice_record()))), 2);
    s.step(&mut sec, SessionEvent::UpstreamOpened, 3);
    let a = s.step(&mut sec, SessionEvent::UpstreamIoError, 4);
    assert!(matches!(a, SessionAction::SendFailureAndClose(_)));
    assert_eq!(s.phase, Phase::Closed);
    assert!(!s.upstream_open);
}

#[test]
fn protocol_violation_closes_at_once() {
    let mut sec = Security::new(5, 60);
    let mut s = Session::new();
    let a = s.step(&mut sec, SessionEvent::QueryReceived(String::from("SELECT 1")), 0);
    assert!(matches!(a, SessionAction::CloseTransport));
    assert_eq!(s.phase, Phase::Closed);
    // a closed session stays closed
    let a = s.step(&mut sec, SessionEvent::HandshakeComplete, 1);
    assert!(matches!(a, SessionAction::CloseTransport));
    assert_eq!(s.phase, Phase::Closed);
}

#[test]
fn client_close_before_authentication_holds_no_upstream() {
    let mut sec = Security::new(5, 60);
    let mut s = Session::new();
    s.step(&mut sec, SessionEvent::HandshakeComplete, 0);
    let a = s.step(&mut sec, SessionEvent::ClientClosed, 1);
    assert!(matches!(a, SessionAction::CloseTransport));
    assert_eq!(s.phase, Phase::Closed);
    assert!(!s.upstream_open);
}

#[test]
fn relay_preserves_event_order_across_queries() {
    let q1 = vec![
        ResultEvent::Row(vec![1]),
        ResultEvent::Row(vec![2]),
        ResultEvent::CommandComplete(String::from("SELECT 2")),
    ];
    let q2 = vec![
        ResultEvent::Row(vec![3]),
        ResultEvent::CommandComplete(String::from("SELECT 1")),
    ];
    let mut all = Vec::new();
    all.extend(q1);
    all.extend(q2);
    let out = relay_events(all);
    assert_eq!(out.len(), 5);
    assert!(matches!(&out[0], ClientMessage::DataRow(b) if *b == vec![1]));
    assert!(matches!(&out[1], ClientMessage::DataRow(b) if *b == vec![2]));
    assert!(matches!(&out[2], ClientMessage::CommandComplete(t) if t == "SELECT 2"));
    assert!(matches!(&out[3], ClientMessage::DataRow(b) if *b == vec![3]));
    assert!(matches!(&out[4], ClientMessage::CommandComplete(t) if t == "SELECT 1"));
}

#[test]
fn translate_keeps_contents_unchanged() {
    match translate_event(ResultEvent::Row(vec![9, 8])) {
        ClientMessage::DataRow(b) => assert_eq!(b, vec![9, 8]),
        _ => panic!("expected a data row"),
    }
    match translate_event(ResultEvent::QueryError(String::from("boom"))) {
        ClientMessage::ErrorResponse(t) => assert_eq!(t, "boom"),
        _ => panic!("expected an error response"),
    }
    match translate_event(ResultEvent::CommandComplete(String::from("ok"))) {
        ClientMessage::CommandComplete(t) => assert_eq!(t, "ok"),
        _ => panic!("expected a completion"),
    }
}

#[test]
fn config_values_carry_through() {
    let cfg = authproxy::Config {
        allowed_ips: vec![String::from("10.0.0.5")],
        user_permissions: vec![authproxy::UserPermission {
            username: String::from("alice"),
            schema: String::from("public"),
            is_opt_in: true,
        }],
    };
    assert_eq!(cfg.allowed_ips[0], "10.0.0.5");
    assert!(cfg.user_permissions[0].is_opt_in);
    assert_eq!(cfg.user_permissions[0].schema, "public");
}
