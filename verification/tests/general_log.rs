use mysql_general_log::extract_general_fields;
use mysql_general_log::parse_general_log;
use mysql_general_log::valid_general_log;
use mysql_general_log::FieldValue;
use mysql_general_log::LogRecord;
use mysql_general_log::LoginIdentity;
use mysql_general_log::RejectKind;

#[test]
fn test_extract_fields() {
    let log = "2021-04-02T18:39:02.974916Z        22 Query     SELECT `id`, `password` FROM `users` WHERE `email`='webmaster@python.org' OR 1=1 -- '\n AND `password`='0'";
    let map = extract_general_fields(log);
    assert_eq!(map.get(0).map(|s| s.as_str()), Some("2021-04-02T18:39:02.974916Z"));
    assert_eq!(map.get(1).map(|s| s.as_str()), Some("22"));
    assert_eq!(map.get(2).map(|s| s.as_str()), Some("Query"));
    assert_eq!(
        map.get(3).map(|s| s.as_str()),
        Some("SELECT `id`, `password` FROM `users` WHERE `email`='webmaster@python.org' OR 1=1 -- '\n AND `password`='0'")
    );
}

#[test]
fn test_extract_fields_empty() {
    let log = "2021-04-02T18:30:15.862098Z        17 Quit";
    let map = extract_general_fields(log);
    assert_eq!(map.get(0).map(|s| s.as_str()), Some("2021-04-02T18:30:15.862098Z"));
    assert_eq!(map.get(1).map(|s| s.as_str()), Some("17"));
    assert_eq!(map.get(2).map(|s| s.as_str()), Some("Quit"));
    assert_eq!(map.get(3).map(|s| s.as_str()), Some("Quit")); // Special case
}

#[test]
fn test_parse_log() {
    let log = "2021-04-02T18:08:21.261667Z        11 Connect   root@172.17.0.1 on web_test using TCP/IP";
    let log = LogRecord::new(log.to_string());
    let log_parsed = parse_general_log(log);
    match log_parsed {
        Ok(log) => {
            assert_eq!(log.service(), "MySQL");
            assert_eq!(
                log.field("event.dataset"),
                Some(&FieldValue::Text(String::from("Connect")))
            );
            assert_eq!(log.field("session.id"), Some(&FieldValue::U32(11)));
            assert_eq!(log.field("user.name"), Some(&FieldValue::User(String::from("root"))));
            assert_eq!(log.field("source.ip"), Some(&FieldValue::Ip(String::from("172.17.0.1"))));
            assert_eq!(
                log.field("database.name"),
                Some(&FieldValue::Text(String::from("web_test")))
            );
            assert_eq!(
                log.field("network.protocol"),
                Some(&FieldValue::Text(String::from("TCP/IP")))
            );
            assert_eq!(
                log.field("event.outcome"),
                Some(&FieldValue::Text(String::from("ESTABLISH")))
            );
            match log.event() {
                Some(ath) => match &ath.login {
                    LoginIdentity::Remote { .. } => {}
                    _ => panic!("Invalid Log event"),
                },
                _ => panic!("Invalid Log event"),
            }
        }
        Err(_) => panic!("Cannot parse log"),
    }
}

#[test]
fn test_parse_log_query() {
    let log = "2021-04-02T18:39:02.974916Z        22 Query     SELECT `id`, `password` FROM `users` WHERE `email`='webmaster@python.org' OR 1=1 -- '\n AND `password`='0'";
    let log = LogRecord::new(log.to_string());
    let log_parsed = parse_general_log(log);
    match log_parsed {
        Ok(log) => {
            assert_eq!(log.service(), "MySQL");
            assert_eq!(log.field("event.dataset"), Some(&FieldValue::Text(String::from("Query"))));
            assert_eq!(log.field("session.id"), Some(&FieldValue::U32(22)));
            assert_eq!(
                log.field("database.query"),
                Some(&FieldValue::Text(String::from("SELECT `id`, `password` FROM `users` WHERE `email`='webmaster@python.org' OR 1=1 -- '\n AND `password`='0'")))
            );
        }
        Err(_) => panic!("Cannot parse log"),
    }
}

#[test]
fn test_parse_log_quit() {
    let log = "2021-04-02T18:39:02.975700Z        22 Quit";
    let log = LogRecord::new(log.to_string());
    let log_parsed = parse_general_log(log);
    match log_parsed {
        Ok(log) => {
            assert_eq!(log.service(), "MySQL");
            assert_eq!(log.field("event.dataset"), Some(&FieldValue::Text(String::from("Quit"))));
            assert_eq!(log.field("session.id"), Some(&FieldValue::U32(22)));
        }
        Err(_) => panic!("Cannot parse log"),
    }
}

#[test]
fn test_parse_log_empty_db() {
    let log = "2021-04-03T10:55:34.990497Z         9 Connect   root@localhost on  using Socket";
    let log = LogRecord::new(log.to_string());
    let log_parsed = parse_general_log(log);
    match log_parsed {
        Ok(log) => {
            assert_eq!(log.service(), "MySQL");
            assert_eq!(
                log.field("event.dataset"),
                Some(&FieldValue::Text(String::from("Connect")))
            );
            assert_eq!(log.field("session.id"), Some(&FieldValue::U32(9)));
            assert_eq!(log.field("user.name"), Some(&FieldValue::User(String::from("root"))));
            assert_eq!(log.field("database.name"), None);
            assert_eq!(
                log.field("network.protocol"),
                Some(&FieldValue::Text(String::from("Socket")))
            );
            assert_eq!(
                log.field("event.outcome"),
                Some(&FieldValue::Text(String::from("ESTABLISH")))
            );
        }
        Err(_) => panic!("Cannot parse log"),
    }
}

#[test]
fn test_parse_log_access_denied() {
    let log = "2021-04-03T10:55:34.994886Z         9 Connect   Access denied for user 'root'@'localhost' (using password: YES)";
    let log = LogRecord::new(log.to_string());
    let log_parsed = parse_general_log(log);
    match log_parsed {
        Ok(log) => {
            assert_eq!(log.service(), "MySQL");
            assert_eq!(
                log.field("event.dataset"),
                Some(&FieldValue::Text(String::from("Connect")))
            );
            assert_eq!(log.field("session.id"), Some(&FieldValue::U32(9)));
            assert_eq!(log.field("user.name"), Some(&FieldValue::User(String::from("root"))));
            assert_eq!(log.field("event.outcome"), Some(&FieldValue::Text(String::from("FAIL"))));
            match log.event() {
                Some(ath) => match &ath.login {
                    LoginIdentity::Local { .. } => {}
                    _ => panic!("Invalid Log event"),
                },
                _ => panic!("Invalid Log event"),
            }
        }
        Err(_) => panic!("Cannot parse log"),
    }
}

#[test]
fn test_parse_log_remote_access_denied() {
    let log = "2021-04-03T10:56:15.158251Z        10 Connect   Access denied for user 'root'@'172.17.0.1' (using password: YES)";
    let log = LogRecord::new(log.to_string());
    let log_parsed = parse_general_log(log);
    match log_parsed {
        Ok(log) => {
            assert_eq!(log.service(), "MySQL");
            assert_eq!(
                log.field("event.dataset"),
                Some(&FieldValue::Text(String::from("Connect")))
            );
            assert_eq!(log.field("session.id"), Some(&FieldValue::U32(10)));
            assert_eq!(log.field("user.name"), Some(&FieldValue::User(String::from("root"))));
            assert_eq!(log.field("source.ip"), Some(&FieldValue::Ip(String::from("172.17.0.1"))));
            assert_eq!(log.field("event.outcome"), Some(&FieldValue::Text(String::from("FAIL"))));
            match log.event() {
                Some(ath) => match &ath.login {
                    LoginIdentity::Remote { .. } => {}
                    _ => panic!("Invalid Log event"),
                },
                _ => panic!("Invalid Log event"),
            }
        }
        Err(_) => panic!("Cannot parse log"),
    }
}

#[test]
fn non_digit_first_char_rejects_unchanged() {
    let original = LogRecord::new(String::from("ERROR something happened"));
    let copy = original.clone();
    match parse_general_log(original) {
        Ok(_) => panic!("must reject"),
        Err(rej) => {
            assert_eq!(rej.kind, RejectKind::NotApplicable);
            assert_eq!(rej.record, copy);
        }
    }
}

#[test]
fn empty_line_rejects_unchanged() {
    let original = LogRecord::new(String::new());
    let copy = original.clone();
    match parse_general_log(original) {
        Ok(_) => panic!("must reject"),
        Err(rej) => {
            assert_eq!(rej.kind, RejectKind::NotApplicable);
            assert_eq!(rej.record, copy);
        }
    }
}

#[test]
fn too_few_fields_rejects() {
    let original = LogRecord::new(String::from("2021-04-02T18:30:15.862098Z"));
    let copy = original.clone();
    match parse_general_log(original) {
        Ok(_) => panic!("must reject"),
        Err(rej) => {
            assert_eq!(rej.kind, RejectKind::FieldCountMismatch);
            assert_eq!(rej.record, copy);
        }
    }
}

#[test]
fn bad_timestamp_rejects() {
    let original = LogRecord::new(String::from("1234 22 Quit"));
    let copy = original.clone();
    match parse_general_log(original) {
        Ok(_) => panic!("must reject"),
        Err(rej) => {
            assert_eq!(rej.kind, RejectKind::TimestampUnparsable);
            assert_eq!(rej.record, copy);
        }
    }
}

#[test]
fn timestamp_stored_as_epoch_millis() {
    let log = LogRecord::new(String::from("2021-04-02T18:30:15.862098Z        17 Quit"));
    let parsed = parse_general_log(log).expect("must parse");
    assert_eq!(parsed.event_created(), Some(1617388215862));
    assert_eq!(parsed.product(), "MySQL");
    assert_eq!(parsed.category(), "Database");
}

#[test]
fn non_numeric_session_token_falls_back_to_name() {
    let log = LogRecord::new(String::from("2021-04-02T18:30:15.862098Z mysqld Quit"));
    let parsed = parse_general_log(log).expect("must parse");
    assert_eq!(parsed.field("session.id"), None);
    assert_eq!(
        parsed.field("session.name"),
        Some(&FieldValue::Text(String::from("mysqld")))
    );
}

#[test]
fn overflowing_session_token_falls_back_to_name() {
    let log = LogRecord::new(String::from("2021-04-02T18:30:15.862098Z 99999999999 Quit"));
    let parsed = parse_general_log(log).expect("must parse");
    assert_eq!(parsed.field("session.id"), None);
    assert_eq!(
        parsed.field("session.name"),
        Some(&FieldValue::Text(String::from("99999999999")))
    );
}

#[test]
fn local_connect_writes_no_source_ip() {
    let log = "2021-04-03T10:55:34.990497Z         9 Connect   root@localhost on  using Socket";
    let parsed = parse_general_log(LogRecord::new(log.to_string())).expect("must parse");
    assert_eq!(parsed.field("source.ip"), None);
    match parsed.event() {
        Some(ath) => match &ath.login {
            LoginIdentity::Local { user_name, domain } => {
                assert_eq!(user_name.as_str(), "root");
                assert_eq!(domain.as_str(), "mysql");
            }
            _ => panic!("expected a local login"),
        },
        None => panic!("expected an auth event"),
    }
}

#[test]
fn unparsable_connect_payload_keeps_the_rest_of_the_line() {
    // The sub-parser rejects the payload, yet the line itself still parses.
    let log = "2021-04-02T18:30:15.862098Z 17 Connect   something unrecognized";
    let parsed = parse_general_log(LogRecord::new(log.to_string())).expect("must parse");
    assert_eq!(parsed.field("event.dataset"), Some(&FieldValue::Text(String::from("Connect"))));
    assert_eq!(parsed.field("session.id"), Some(&FieldValue::U32(17)));
    assert_eq!(parsed.field("user.name"), None);
    assert_eq!(parsed.field("event.outcome"), None);
    assert!(parsed.event().is_none());
}

#[test]
fn valid_general_log_checks_first_char() {
    assert!(valid_general_log(&LogRecord::new(String::from("2021-04-02 x y"))));
    assert!(!valid_general_log(&LogRecord::new(String::from("x 2021"))));
    assert!(!valid_general_log(&LogRecord::new(String::new())));
}
