use mysql_general_log::parse_connection;
use mysql_general_log::parse_user;
use mysql_general_log::AuthOutcome;
use mysql_general_log::FieldValue;
use mysql_general_log::LogRecord;
use mysql_general_log::LoginIdentity;
use mysql_general_log::RejectKind;

#[test]
fn parse_user_plain_token() {
    let (user, address) = parse_user("root@172.17.0.1").expect("must decompose");
    assert_eq!(user.as_str(), "root");
    assert_eq!(address.as_str(), "172.17.0.1");
}

#[test]
fn parse_user_quoted_round_trip() {
    // The quoted pair decomposes to the unquoted user and address; the
    // address still classifies as remote and still reads as an IPv4 literal.
    let (user, address) = parse_user("'root'@'172.17.0.1'").expect("must decompose");
    assert_eq!(user.as_str(), "root");
    assert_eq!(address.as_str(), "172.17.0.1");
    let payload = "Access denied for user 'root'@'172.17.0.1' (using password: YES)";
    let parsed = parse_connection(LogRecord::new(String::new()), payload).expect("must parse");
    assert_eq!(parsed.field("source.ip"), Some(&FieldValue::Ip(String::from("172.17.0.1"))));
    match parsed.event() {
        Some(ath) => {
            assert_eq!(ath.outcome, AuthOutcome::Fail);
            match &ath.login {
                LoginIdentity::Remote { user_name, domain, source_address } => {
                    assert_eq!(user_name.as_str(), "root");
                    assert_eq!(domain.as_str(), "mysql");
                    assert_eq!(source_address.as_str(), "172.17.0.1");
                }
                _ => panic!("expected a remote login"),
            }
        }
        None => panic!("expected an auth event"),
    }
}

#[test]
fn parse_user_rejects_wrong_separator_count() {
    assert!(parse_user("rootlocalhost").is_err());
    assert!(parse_user("root@local@host").is_err());
}

#[test]
fn connect_malformed_user_address_rejects_unchanged() {
    let original = LogRecord::new(String::new());
    let copy = original.clone();
    match parse_connection(original, "root@local@host on db using TCP/IP") {
        Ok(_) => panic!("must reject"),
        Err(rej) => {
            assert_eq!(rej.kind, RejectKind::UserAddressMalformed);
            assert_eq!(rej.record, copy);
        }
    }
}

#[test]
fn connect_unrecognized_shape_rejects_unchanged() {
    let original = LogRecord::new(String::new());
    let copy = original.clone();
    match parse_connection(original, "three plain words") {
        Ok(_) => panic!("must reject"),
        Err(rej) => {
            assert_eq!(rej.kind, RejectKind::FieldCountMismatch);
            assert_eq!(rej.record, copy);
        }
    }
}

#[test]
fn rejected_sub_parse_is_idempotent() {
    // Re-running the sub-parser on the already-rejected record with the same
    // payload gives the same rejection and the same unmodified record.
    let payload = "no recognizable shape";
    let original = LogRecord::new(String::from("context"));
    let copy = original.clone();
    let first = parse_connection(original, payload).expect_err("must reject");
    assert_eq!(first.record, copy);
    let second = parse_connection(first.record, payload).expect_err("must reject");
    assert_eq!(second.kind, first.kind);
    assert_eq!(second.record, copy);
}

#[test]
fn normal_connect_establishes() {
    let payload = "root@172.17.0.1 on web_test using TCP/IP";
    let parsed = parse_connection(LogRecord::new(String::new()), payload).expect("must parse");
    assert_eq!(parsed.field("database.name"), Some(&FieldValue::Text(String::from("web_test"))));
    assert_eq!(
        parsed.field("network.protocol"),
        Some(&FieldValue::Text(String::from("TCP/IP")))
    );
    assert_eq!(parsed.field("user.name"), Some(&FieldValue::User(String::from("root"))));
    assert_eq!(parsed.field("event.outcome"), Some(&FieldValue::Text(String::from("ESTABLISH"))));
    let event = parsed.event().as_ref().expect("expected an auth event");
    assert_eq!(event.outcome, AuthOutcome::Establish);
    assert_eq!(event.hostname.as_str(), "MySQL");
}

#[test]
fn denied_connect_writes_no_database_or_protocol() {
    let payload = "Access denied for user 'root'@'localhost' (using password: NO)";
    let parsed = parse_connection(LogRecord::new(String::new()), payload).expect("must parse");
    assert_eq!(parsed.field("database.name"), None);
    assert_eq!(parsed.field("network.protocol"), None);
    assert_eq!(parsed.field("source.ip"), None);
    assert_eq!(parsed.field("event.outcome"), Some(&FieldValue::Text(String::from("FAIL"))));
    match parsed.event() {
        Some(ath) => assert!(matches!(ath.login, LoginIdentity::Local { .. })),
        None => panic!("expected an auth event"),
    }
}

#[test]
fn existing_hostname_field_is_reused() {
    let mut record = LogRecord::new(String::new());
    record.add_field("host.hostname", FieldValue::Text(String::from("db-host-7")));
    let parsed =
        parse_connection(record, "root@localhost on  using Socket").expect("must parse");
    let event = parsed.event().as_ref().expect("expected an auth event");
    assert_eq!(event.hostname.as_str(), "db-host-7");
}

#[test]
fn loopback_literal_is_local_but_still_an_ip() {
    let payload = "root@127.0.0.1 on web_test using TCP/IP";
    let parsed = parse_connection(LogRecord::new(String::new()), payload).expect("must parse");
    assert_eq!(parsed.field("source.ip"), Some(&FieldValue::Ip(String::from("127.0.0.1"))));
    match parsed.event() {
        Some(ath) => assert!(matches!(ath.login, LoginIdentity::Local { .. })),
        None => panic!("expected an auth event"),
    }
}

#[test]
fn hostname_address_classifies_remote_without_ip_field() {
    let payload = "alice@db.example.net on shop using TCP/IP";
    let parsed = parse_connection(LogRecord::new(String::new()), payload).expect("must parse");
    assert_eq!(parsed.field("source.ip"), None);
    match parsed.event() {
        Some(ath) => match &ath.login {
            LoginIdentity::Remote { source_address, .. } => {
                assert_eq!(source_address.as_str(), "db.example.net");
            }
            _ => panic!("expected a remote login"),
        },
        None => panic!("expected an auth event"),
    }
}
