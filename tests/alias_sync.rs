use postfix_forward::alias::AliasTable;
use postfix_forward::backend::{
    all_authenticated, apply_response, authentication_response, fetch_response,
    find_server, login_form_is_valid, no_session_message, push_response, AuthOutcome,
};
use postfix_forward::codec::{dedup_destinations, parse_line, parse_table, serialize_table, split_destinations};
use postfix_forward::configuration::Configuration;
use postfix_forward::messages::{QueryMessage, ResponseMessage};
use postfix_forward::push::{
    same_line_sets, PushAction, PushError, PushEvent, PushSession, PushStage, BACKUP_SETTLE_MS,
    INSTALL_SETTLE_MS,
};
use postfix_forward::registry::SessionRegistry;
use postfix_forward::server::{decimal_string, AuthStatus, Server, UsersStatus};
use postfix_forward::text::{chars_of, is_whitespace, split_lines};

fn strings(v: &[&str]) -> Vec<String> {
    v.iter().map(|s| s.to_string()).collect()
}

fn table(entries: &[(&str, &[&str])]) -> AliasTable {
    let mut t = AliasTable::new();
    for (k, v) in entries {
        t.insert(k.to_string(), strings(v));
    }
    t
}

fn server_with(entries: &[(&str, &[&str])]) -> Server {
    let mut s = Server::new("/etc/postfix/virtual".to_string(), "mail.example.org".to_string(), 2222);
    s.users = table(entries);
    s
}

fn lookup(t: &AliasTable, k: &str) -> Option<Vec<String>> {
    t.get(k).cloned()
}

#[test]
fn scenario_fetch_parses_file() {
    let text = "alice@x.com bob@y.com\n# comment\ncarol@z.com dave@w.com,eve@w.com\n";
    let server = server_with(&[]);
    match fetch_response(server, Ok(text.to_string())) {
        ResponseMessage::GotVirtualUsers { server, users } => {
            assert_eq!(server.addr, "mail.example.org");
            assert_eq!(users.len(), 2);
            assert_eq!(lookup(&users, "alice@x.com"), Some(strings(&["bob@y.com"])));
            assert_eq!(lookup(&users, "carol@z.com"), Some(strings(&["dave@w.com", "eve@w.com"])));
        }
        _ => panic!("expected a table"),
    }
}

#[test]
fn scenario_fetch_malformed_keeps_table() {
    let mut servers = vec![server_with(&[("old@x.com", &["keep@y.com"])])];
    let probe = Server::new("/etc/postfix/virtual".to_string(), "mail.example.org".to_string(), 2222);
    let msg = fetch_response(probe, Ok("malformed_line_no_space\n".to_string()));
    match &msg {
        ResponseMessage::QueryVirtualUsersResult { error, .. } => assert_eq!(error, "Error parsing file"),
        _ => panic!("expected a parse error"),
    }
    servers[0].users_status = UsersStatus::Downloading;
    assert!(apply_response(&mut servers, msg).is_none());
    assert_eq!(servers[0].users.len(), 1);
    assert_eq!(lookup(&servers[0].users, "old@x.com"), Some(strings(&["keep@y.com"])));
    assert_eq!(servers[0].users_status, UsersStatus::Unknown);
}

#[test]
fn scenario_wrong_password_is_not_an_error() {
    match authentication_response(server_with(&[]), AuthOutcome::Rejected) {
        ResponseMessage::AuthenticationResult { success, error, .. } => {
            assert!(!success);
            assert_eq!(error, None);
        }
        _ => panic!("expected an authentication result"),
    }
    match authentication_response(server_with(&[]), AuthOutcome::TransportError("connection refused".to_string())) {
        ResponseMessage::AuthenticationResult { success, error, .. } => {
            assert!(!success);
            assert_eq!(error, Some("connection refused".to_string()));
        }
        _ => panic!("expected an authentication result"),
    }
    match authentication_response(server_with(&[]), AuthOutcome::Authenticated) {
        ResponseMessage::AuthenticationResult { success, error, .. } => {
            assert!(success);
            assert_eq!(error, None);
        }
        _ => panic!("expected an authentication result"),
    }
}

fn drive_to_verification(server: &Server) -> PushSession {
    let (mut session, first) = match PushSession::start(server, "rootpw".to_string()) {
        Ok(v) => v,
        Err(_) => panic!("push refused"),
    };
    assert!(matches!(first, PushAction::Backup { .. }));
    assert!(matches!(session.step(PushEvent::Done), PushAction::Upload { .. }));
    assert!(matches!(session.step(PushEvent::Done), PushAction::Install { .. }));
    assert!(matches!(session.step(PushEvent::Done), PushAction::Download { .. }));
    session
}

#[test]
fn scenario_push_not_applied() {
    let server = server_with(&[("alice@x.com", &["bob@y.com", "new@y.com"])]);
    let mut session = drive_to_verification(&server);
    let before = "alice@x.com bob@y.com\n".to_string();
    let outcome = match session.step(PushEvent::Fetched(before)) {
        PushAction::Finish(r) => r,
        _ => panic!("expected the end of the push"),
    };
    assert!(matches!(outcome, Err(PushError::VerificationFailed)));
    match push_response(server.clone(), outcome) {
        ResponseMessage::ServerUploadResult { error, .. } => {
            assert_eq!(error, Some("Configuration was not updated!".to_string()))
        }
        _ => panic!("expected an upload result"),
    }
}

#[test]
fn push_succeeds_when_lines_match_in_any_order() {
    let server = server_with(&[("a@x", &["b@y"]), ("c@x", &["d@y", "e@y"])]);
    let mut session = drive_to_verification(&server);
    let installed = "c@x d@y e@y\na@x b@y\n".to_string();
    match session.step(PushEvent::Fetched(installed)) {
        PushAction::Finish(Ok(())) => {}
        _ => panic!("expected success"),
    }
    assert_eq!(session.stage, PushStage::Finished);
    match push_response(server, Ok(())) {
        ResponseMessage::ServerUploadResult { error, .. } => assert_eq!(error, None),
        _ => panic!("expected an upload result"),
    }
}

#[test]
fn push_fails_when_one_line_differs() {
    let server = server_with(&[("a@x", &["b@y"]), ("c@x", &["d@y"])]);
    let mut session = drive_to_verification(&server);
    match session.step(PushEvent::Fetched("a@x b@y\nc@x d@z\n".to_string())) {
        PushAction::Finish(Err(PushError::VerificationFailed)) => {}
        _ => panic!("expected a verification failure"),
    }
}

#[test]
fn push_fails_when_a_line_is_repeated() {
    assert!(!same_line_sets("a b\na b\n", "a b\n"));
    assert!(same_line_sets("a b\nc d\n", "c d\na b"));
    assert!(same_line_sets("", ""));
    assert!(!same_line_sets("a b\n", ""));
}

#[test]
fn push_commands_are_exact() {
    let mut server = server_with(&[("a@x", &["b@y", "c@y"])]);
    server.config_path = "/etc/postfix/aliases".to_string();
    let (mut session, first) = match PushSession::start(&server, "s3cret".to_string()) {
        Ok(v) => v,
        Err(_) => panic!("push refused"),
    };
    match first {
        PushAction::Backup { command, settle_ms } => {
            assert_eq!(
                command,
                "cp '/etc/postfix/aliases' ~/aliases_`date \"+%Y-%m-%d_%H-%M-%S\"`.bak\n"
            );
            assert_eq!(settle_ms, BACKUP_SETTLE_MS);
            assert_eq!(settle_ms, 2000);
        }
        _ => panic!("expected the backup"),
    }
    match session.step(PushEvent::Done) {
        PushAction::Upload { contents, remote_path } => {
            assert_eq!(contents, "a@x b@y c@y\n");
            assert_eq!(remote_path, "/tmp/aliases");
        }
        _ => panic!("expected the upload"),
    }
    match session.step(PushEvent::Done) {
        PushAction::Install { command, password_line, settle_ms } => {
            assert_eq!(command, "su root -c 'cp /tmp/aliases /etc/postfix/aliases; /etc/postfix/post_update'\n");
            assert_eq!(password_line, "s3cret\n");
            assert_eq!(settle_ms, INSTALL_SETTLE_MS);
            assert_eq!(settle_ms, 500);
        }
        _ => panic!("expected the installation"),
    }
    match session.step(PushEvent::Done) {
        PushAction::Download { remote_path, local_name } => {
            assert_eq!(remote_path, "/etc/postfix/aliases");
            assert_eq!(local_name, "aliases");
        }
        _ => panic!("expected the download"),
    }
}

#[test]
fn push_file_name_falls_back() {
    let server = server_with(&[("a@x", &["b@y"])]);
    match PushSession::start_with_name(&server, "pw".to_string(), None) {
        Ok((s, _)) => assert_eq!(s.file_name, "virtual"),
        Err(_) => panic!("push refused"),
    }
    match PushSession::start_with_name(&server, "pw".to_string(), Some("other".to_string())) {
        Ok((s, PushAction::Backup { command, .. })) => {
            assert_eq!(s.file_name, "other");
            assert!(command.contains("~/other_"));
        }
        _ => panic!("push refused"),
    }
}

#[test]
fn push_step_failure_ends_push() {
    let server = server_with(&[("a@x", &["b@y"])]);
    let (mut session, _) = match PushSession::start(&server, "pw".to_string()) {
        Ok(v) => v,
        Err(_) => panic!("push refused"),
    };
    match session.step(PushEvent::Failed("upload failed".to_string())) {
        PushAction::Finish(Err(PushError::Transfer(e))) => assert_eq!(e, "upload failed"),
        _ => panic!("expected a transfer failure"),
    }
    assert!(matches!(
        session.step(PushEvent::Done),
        PushAction::Finish(Err(PushError::OutOfOrder))
    ));
    match push_response(server, Err(PushError::Transfer("upload failed".to_string()))) {
        ResponseMessage::ServerUploadResult { error, .. } => assert_eq!(error, Some("upload failed".to_string())),
        _ => panic!("expected an upload result"),
    }
}

#[test]
fn push_out_of_order_event() {
    let server = server_with(&[("a@x", &["b@y"])]);
    let (mut session, _) = match PushSession::start(&server, "pw".to_string()) {
        Ok(v) => v,
        Err(_) => panic!("push refused"),
    };
    assert!(matches!(
        session.step(PushEvent::Fetched("a@x b@y\n".to_string())),
        PushAction::Finish(Err(PushError::OutOfOrder))
    ));
}

#[test]
fn push_refuses_empty_destination_list() {
    let server = server_with(&[("a@x", &["b@y"]), ("empty@x", &[])]);
    assert!(server.users.has_empty_destinations());
    match PushSession::start(&server, "pw".to_string()) {
        Err(PushError::EmptyDestinations) => {}
        _ => panic!("expected a refusal"),
    }
    match push_response(server, Err(PushError::EmptyDestinations)) {
        ResponseMessage::ServerUploadResult { error, .. } => {
            assert_eq!(error, Some("Some mailbox has no destination".to_string()))
        }
        _ => panic!("expected an upload result"),
    }
}

#[test]
fn target_equality_ignores_state() {
    let a = server_with(&[("a@x", &["b@y"])]);
    let mut b = Server::new("/etc/postfix/virtual".to_string(), "mail.example.org".to_string(), 2222);
    b.auth_status = AuthStatus::Authenticated;
    b.users_status = UsersStatus::Uploading;
    assert!(a == b);
    let c = Server::new("/etc/postfix/virtual".to_string(), "mail.example.org".to_string(), 22);
    assert!(a != c);
    let d = Server::new("/etc/postfix/other".to_string(), "mail.example.org".to_string(), 2222);
    assert!(a != d);
}

#[test]
fn round_trip_preserves_table() {
    let t = table(&[
        ("alice@x.com", &["bob@y.com", "carol@y.com"]),
        ("dave@x.com", &["eve@y.com"]),
        ("frank@x.com", &[]),
    ]);
    let text = serialize_table(&t);
    assert_eq!(text, "alice@x.com bob@y.com carol@y.com\ndave@x.com eve@y.com\nfrank@x.com \n");
    let back = match parse_table(&text) {
        Ok(b) => b,
        Err(_) => panic!("round trip failed"),
    };
    assert_eq!(back.len(), 3);
    for (i, e) in back.entries().iter().enumerate() {
        assert_eq!(e.mailbox, t.entries()[i].mailbox);
        assert_eq!(e.destinations, t.entries()[i].destinations);
    }
}

#[test]
fn parse_rejects_line_without_space() {
    assert!(parse_table("a@x b@y\nnospace\nc@x d@y\n").is_err());
    assert!(parse_table("nospace").is_err());
    assert!(parse_line("nospace").is_none());
    let e = match parse_table("x\n") {
        Err(e) => e,
        Ok(_) => panic!("expected an error"),
    };
    assert_eq!(e.message(), "Error parsing file");
}

#[test]
fn parse_collapses_adjacent_duplicates_only() {
    let t = match parse_table("k a b a\nm a a b\nn a,a, a b b\n") {
        Ok(t) => t,
        Err(_) => panic!("parse failed"),
    };
    assert_eq!(lookup(&t, "k"), Some(strings(&["a", "b", "a"])));
    assert_eq!(lookup(&t, "m"), Some(strings(&["a", "b"])));
    assert_eq!(lookup(&t, "n"), Some(strings(&["a", "b"])));
    assert_eq!(dedup_destinations(strings(&["x", "x", "y", "x", "x"])), strings(&["x", "y", "x"]));
}

#[test]
fn parse_edge_cases() {
    let t = match parse_table("") {
        Ok(t) => t,
        Err(_) => panic!("parse failed"),
    };
    assert_eq!(t.len(), 0);
    let t = match parse_table("   # indented comment\r\n\ta b\r\nk  x ,, y\t z\r\nk2 \nk w\n") {
        Ok(t) => t,
        Err(_) => panic!("parse failed"),
    };
    // The mailbox is everything before the first space, a leading tab included.
    assert_eq!(t.len(), 3);
    assert_eq!(lookup(&t, "\ta"), Some(strings(&["b"])));
    assert_eq!(lookup(&t, "k"), Some(strings(&["w"])));
    assert_eq!(lookup(&t, "k2"), Some(Vec::new()));
    assert_eq!(t.entries()[1].mailbox, "k");
    // A tab is no separator between mailbox and destinations.
    assert!(parse_table("\ta\tb\n").is_err());
    assert!(parse_table("\ta b\n").is_ok());
}

#[test]
fn parse_line_splits_on_first_space() {
    match parse_line("k@x  a@y,b@y") {
        Some((k, v)) => {
            assert_eq!(k, "k@x");
            assert_eq!(v, strings(&["a@y", "b@y"]));
        }
        None => panic!("expected an entry"),
    }
    assert_eq!(split_destinations("ab c,,d", 0), strings(&["ab", "c", "d"]));
    assert_eq!(split_destinations("ab c,,d", 3), strings(&["c", "d"]));
}

#[test]
fn lines_follow_str_lines() {
    for text in ["", "a", "a\n", "a\r\nb", "a\n\nb\n", "a\r", "\n", "x\r\r\n"] {
        let expected: Vec<String> = text.lines().map(|l| l.to_string()).collect();
        assert_eq!(split_lines(text), expected, "{text:?}");
    }
    assert_eq!(chars_of("héllo"), vec!['h', 'é', 'l', 'l', 'o']);
}

#[test]
fn whitespace_matches_std() {
    for c in ['\u{0}', ' ', '\t', '\n', '\u{b}', '\u{c}', '\r', '\u{85}', '\u{a0}', '\u{1680}', '\u{2000}', '\u{200a}', '\u{200b}', '\u{2028}', '\u{2029}', '\u{202f}', '\u{205f}', '\u{3000}', 'a', ',', '\u{feff}'] {
        assert_eq!(is_whitespace(c), c.is_whitespace(), "{c:?}");
    }
}

#[test]
fn table_edits() {
    let mut t = AliasTable::new();
    t.insert("a".to_string(), strings(&["x"]));
    t.insert("b".to_string(), strings(&["y"]));
    t.insert("a".to_string(), strings(&["z", "w"]));
    assert_eq!(t.len(), 2);
    assert_eq!(t.entries()[0].mailbox, "a");
    assert_eq!(lookup(&t, "a"), Some(strings(&["z", "w"])));
    assert_eq!(t.remove("a"), Some(strings(&["z", "w"])));
    assert_eq!(t.remove("a"), None);
    assert_eq!(t.len(), 1);
    assert!(!t.has_empty_destinations());
    let copy = t.duplicate();
    assert_eq!(lookup(&copy, "b"), Some(strings(&["y"])));
}

#[test]
fn server_names_and_payload() {
    let s = server_with(&[("a@x", &["b@y", "c@y"])]);
    assert_eq!(s.to_string_extended(), "mail.example.org:2222:/etc/postfix/virtual");
    assert_eq!(s.to_string(), "mail.example.org:2222");
    assert_eq!(s.payload(), "a@x b@y c@y\n");
    assert_eq!(s.fetch_file_name(), "temp_mail.example.org");
    assert_eq!(decimal_string(0), "0");
    assert_eq!(decimal_string(22), "22");
    assert_eq!(decimal_string(65535), "65535");
}

#[test]
fn server_busy_states() {
    let mut s = server_with(&[]);
    assert!(!s.busy());
    s.auth_status = AuthStatus::InProgress;
    assert!(s.busy());
    s.auth_status = AuthStatus::Authenticated;
    s.users_status = UsersStatus::Downloading;
    assert!(s.busy());
    s.users_status = UsersStatus::Uploading;
    assert!(s.busy());
    s.users_status = UsersStatus::Idle;
    assert!(!s.busy());
}

#[test]
fn status_defaults_and_conversion() {
    assert_eq!(AuthStatus::default(), AuthStatus::Unknown);
    assert_eq!(UsersStatus::default(), UsersStatus::Unknown);
    assert_eq!(AuthStatus::from(true), AuthStatus::Authenticated);
    assert_eq!(AuthStatus::from(false), AuthStatus::Failed);
}

#[test]
fn default_configuration() {
    let c = Configuration::default();
    assert_eq!(c.username, "admin");
    assert_eq!(c.servers.len(), 1);
    assert_eq!(c.servers[0].config_path, "/etc/postfix/virtual");
    assert_eq!(c.servers[0].addr, "127.0.0.1");
    assert_eq!(c.servers[0].port, 22);
}

#[test]
fn responses_update_servers() {
    let mut servers = vec![
        Server::new("/p".to_string(), "h1".to_string(), 22),
        Server::new("/p".to_string(), "h2".to_string(), 22),
    ];
    let probe = Server::new("/p".to_string(), "h2".to_string(), 22);
    assert_eq!(find_server(&servers, &probe), Some(1));
    let next = apply_response(
        &mut servers,
        authentication_response(probe.clone(), AuthOutcome::Authenticated),
    );
    match next {
        Some(QueryMessage::QueryVirtualUsers(s)) => assert_eq!(s.addr, "h2"),
        _ => panic!("expected a fetch request"),
    }
    assert_eq!(servers[1].auth_status, AuthStatus::Authenticated);
    assert_eq!(servers[1].users_status, UsersStatus::Downloading);
    assert_eq!(servers[0].auth_status, AuthStatus::Unknown);
    assert!(!all_authenticated(&servers));
    let rejected = authentication_response(servers[0].clone(), AuthOutcome::Rejected);
    let none = apply_response(&mut servers, rejected);
    assert!(none.is_none());
    assert_eq!(servers[0].auth_status, AuthStatus::Failed);
    servers[0].auth_status = AuthStatus::Authenticated;
    assert!(all_authenticated(&servers));
    let fetched = fetch_response(probe.clone(), Ok("a b\n".to_string()));
    assert!(apply_response(&mut servers, fetched).is_none());
    assert_eq!(lookup(&servers[1].users, "a"), Some(strings(&["b"])));
    assert_eq!(servers[1].users_status, UsersStatus::Idle);
    servers[1].users_status = UsersStatus::Uploading;
    assert!(apply_response(&mut servers, push_response(probe, Ok(()))).is_none());
    assert_eq!(servers[1].users_status, UsersStatus::Idle);
    let stranger = Server::new("/p".to_string(), "h3".to_string(), 22);
    assert_eq!(find_server(&servers, &stranger), None);
}

#[test]
fn fetch_without_session() {
    match fetch_response(server_with(&[]), Err(no_session_message())) {
        ResponseMessage::QueryVirtualUsersResult { error, .. } => {
            assert_eq!(error, "There is no SSH session for this server")
        }
        _ => panic!("expected an error"),
    }
}

#[test]
fn registry_keeps_one_session_per_key() {
    let mut r: SessionRegistry<u32> = SessionRegistry::new();
    r.insert("h:22:/p".to_string(), 1);
    r.insert("h:23:/p".to_string(), 2);
    r.insert("h:22:/p".to_string(), 3);
    assert_eq!(r.len(), 2);
    assert!(r.contains(&"h:23:/p".to_string()));
    assert!(!r.contains(&"h:24:/p".to_string()));
    match r.get_mut(&"h:22:/p".to_string()) {
        Some(v) => {
            assert_eq!(*v, 3);
            *v = 7;
        }
        None => panic!("expected a session"),
    }
    assert_eq!(r.get_mut(&"h:22:/p".to_string()).copied(), Some(7));
    assert!(r.get_mut(&"nothing".to_string()).is_none());
}

#[test]
fn login_form_needs_all_fields() {
    assert!(login_form_is_valid("admin", "pw", "rootpw"));
    assert!(!login_form_is_valid("admin", "  ", "rootpw"));
    assert!(!login_form_is_valid("admin", "pw", ""));
    assert!(!login_form_is_valid("\t", "pw", "rootpw"));
}
