use micro_gui::session::{
    hex_decode, hex_encode, has_session_extension, new_session_record, parse_record,
    parse_stat_start_ticks, process_matches, record_file_name, registry_directory, serialize,
    session_id, sort_by_start,
    RegistryError, SessionRecord, SessionRegistration, SessionRegistry, SessionState,
    TransitionError,
};

#[test]
fn accepts_normal_lifecycle() {
    let state = SessionState::Created
        .transition(SessionState::Starting)
        .unwrap()
        .transition(SessionState::Running)
        .unwrap()
        .transition(SessionState::Stopping)
        .unwrap()
        .transition(SessionState::Exited)
        .unwrap();
    assert_eq!(state, SessionState::Exited);
}

#[test]
fn terminal_states_cannot_restart() {
    assert!(SessionState::Exited.transition(SessionState::Starting).is_err());
}

#[test]
fn transition_errors_name_both_states() {
    let error = SessionState::Failed.transition(SessionState::Running).unwrap_err();
    assert_eq!(error, TransitionError { from: SessionState::Failed, to: SessionState::Running });
    assert_eq!(error.message(), "invalid session transition: Failed -> Running");
    assert_eq!(
        SessionState::Running.transition(SessionState::Exited),
        Ok(SessionState::Exited)
    );
}

fn test_registry() -> SessionRegistry {
    let directory = b"/tmp/micro-gui-registry-test-traversal".to_vec();
    SessionRegistry::checked(directory, false, true, 1000, 1000).unwrap()
}

#[test]
fn rejects_path_traversal_ids() {
    let registry = test_registry();
    assert!(matches!(registry.record_path("../other"), Err(RegistryError::InvalidId(_))));
}

#[test]
fn record_paths_join_the_directory_and_the_file_name() {
    let registry = test_registry();
    assert_eq!(registry.directory(), b"/tmp/micro-gui-registry-test-traversal");
    assert_eq!(
        registry.record_path("gui-7").unwrap(),
        b"/tmp/micro-gui-registry-test-traversal/gui-7.session"
    );
    let slashed = SessionRegistry::checked(b"/run/s/".to_vec(), false, true, 1, 1).unwrap();
    assert_eq!(slashed.record_path("a_b-1").unwrap(), b"/run/s/a_b-1.session");
    let raw = SessionRegistry::checked(vec![b'/', 0xff], false, true, 1, 1).unwrap();
    assert_eq!(raw.record_path("x").unwrap(), vec![b'/', 0xff, b'/', b'x', b'.', b's', b'e', b's', b's', b'i', b'o', b'n']);
}

#[test]
fn chooses_the_registry_directory() {
    assert_eq!(
        registry_directory(Some(b"/custom".to_vec()), Some(b"/run/user/1".to_vec()), b"/tmp".to_vec(), 1),
        b"/custom"
    );
    assert_eq!(
        registry_directory(None, Some(b"/run/user/1000".to_vec()), b"/tmp".to_vec(), 1000),
        b"/run/user/1000/micro-gui/sessions"
    );
    assert_eq!(
        registry_directory(None, None, b"/tmp/".to_vec(), 1000),
        b"/tmp/micro-gui-1000/sessions"
    );
}

#[test]
fn record_round_trip_handles_arbitrary_text() {
    let record = SessionRecord {
        id: "gui-1".into(),
        application: "한글\napp\tname".into(),
        runtime: "oci".into(),
        pid: 1,
        process_start_ticks: 2,
        started_unix_seconds: 3,
    };
    assert_eq!(parse_record(&serialize(&record)).unwrap(), record);
}

#[test]
fn serializes_records_as_key_value_lines() {
    let record = SessionRecord {
        id: "gui-9".into(),
        application: "ab".into(),
        runtime: "native".into(),
        pid: 9,
        process_start_ticks: 10,
        started_unix_seconds: 11,
    };
    assert_eq!(
        serialize(&record),
        "version=1\nid=gui-9\npid=9\nprocess_start_ticks=10\nstarted_unix_seconds=11\nruntime=6e6174697665\napplication=6162\n"
    );
}

fn invalid_record(contents: &str) -> String {
    match parse_record(contents) {
        Err(RegistryError::InvalidRecord(message)) => message,
        other => panic!("unexpected result {other:?}"),
    }
}

#[test]
fn reports_the_first_bad_field() {
    assert_eq!(invalid_record("id=x\n"), "missing 'version'");
    assert_eq!(invalid_record("version=2\n"), "unsupported version");
    assert_eq!(invalid_record("version=1\n"), "missing 'pid'");
    assert_eq!(invalid_record("version=1\npid=x\n"), "invalid 'pid'");
    assert_eq!(invalid_record("version=1\npid=4294967296\n"), "pid does not fit u32");
    assert_eq!(invalid_record("version=1\npid=1\n"), "missing 'id'");
    assert_eq!(invalid_record("version=1\npid=1\nid=a\napplication=abc\n"), "odd hex field length");
    assert_eq!(invalid_record("version=1\npid=1\nid=a\napplication=zz\n"), "invalid hex field");
    assert_eq!(invalid_record("version=1\npid=1\nid=a\napplication=ff\n"), "application is not UTF-8");
    assert_eq!(
        invalid_record("version=1\npid=1\nid=a\napplication=61\nruntime=62\n"),
        "missing 'process_start_ticks'"
    );
}

#[test]
fn reads_windows_line_endings_and_uppercase_hex() {
    let record = parse_record(
        "version=1\r\nid=gui-2\r\npid=2\r\nprocess_start_ticks=5\r\nstarted_unix_seconds=6\r\nruntime=4F4349\r\napplication=78\r\n",
    )
    .unwrap();
    assert_eq!(record.id, "gui-2");
    assert_eq!(record.runtime, "OCI");
    assert_eq!(record.application, "x");
}

#[test]
fn hex_round_trips_bytes() {
    assert_eq!(hex_encode(&[0x00, 0xab, 0x7f]), "00ab7f");
    assert_eq!(hex_decode("00AB7f").unwrap(), vec![0x00, 0xab, 0x7f]);
    assert!(matches!(hex_decode("0"), Err(RegistryError::InvalidRecord(_))));
}

#[test]
fn reads_start_time_after_the_command_name() {
    let stat = "42 (my (odd) app) S 1 2 3 4 5 6 7 8 9 10 11 12 13 14 15 16 17 18 777 19 20\n";
    assert_eq!(parse_stat_start_ticks(42, stat).unwrap(), 777);
    match parse_stat_start_ticks(42, "no parenthesis") {
        Err(RegistryError::InvalidRecord(message)) => {
            assert_eq!(message, "invalid /proc/42/stat contents")
        }
        other => panic!("unexpected result {other:?}"),
    }
    match parse_stat_start_ticks(42, "42 (a) S 1 2") {
        Err(RegistryError::InvalidRecord(message)) => {
            assert_eq!(message, "missing start time for pid 42")
        }
        other => panic!("unexpected result {other:?}"),
    }
}

#[test]
fn validates_session_ids() {
    assert_eq!(record_file_name("gui-12_a").unwrap(), "gui-12_a.session");
    assert!(matches!(record_file_name(""), Err(RegistryError::InvalidId(_))));
    assert!(matches!(record_file_name("a/b"), Err(RegistryError::InvalidId(_))));
    assert_eq!(session_id(77), "gui-77");
    assert!(has_session_extension("gui-1.session"));
    assert!(!has_session_extension(".session"));
    assert!(!has_session_extension("gui-1.session.tmp"));
}

fn record(id: &str, started: u64) -> SessionRecord {
    SessionRecord {
        id: id.into(),
        application: "app".into(),
        runtime: "native".into(),
        pid: 1,
        process_start_ticks: 1,
        started_unix_seconds: started,
    }
}

#[test]
fn lists_sessions_by_start_time_keeping_ties_in_order() {
    let sorted = sort_by_start(vec![record("c", 30), record("a", 10), record("b", 30), record("d", 20)]);
    let ids: Vec<&str> = sorted.iter().map(|r| r.id.as_str()).collect();
    assert_eq!(ids, ["a", "d", "c", "b"]);
}

#[test]
fn registers_the_current_process() {
    let made = new_session_record(5, "xeyes".into(), "native".into(), Some(9), Ok(100)).unwrap();
    assert_eq!(made, SessionRecord {
        id: "gui-5".into(),
        application: "xeyes".into(),
        runtime: "native".into(),
        pid: 5,
        process_start_ticks: 9,
        started_unix_seconds: 100,
    });
    assert!(process_matches(&made, Some(9)));
    assert!(!process_matches(&made, Some(10)));
    assert!(!process_matches(&made, None));
    assert!(matches!(
        new_session_record(5, "x".into(), "y".into(), None, Err("clock".into())),
        Err(RegistryError::ProcessGone(5))
    ));
    match new_session_record(5, "x".into(), "y".into(), Some(1), Err("clock".into())) {
        Err(error) => assert_eq!(error.message(), "system clock error: clock"),
        Ok(_) => panic!("clock failure must be reported"),
    }
    let registration = SessionRegistration::new(made.clone(), b"/tmp/gui-5.session".to_vec());
    assert_eq!(registration.record(), &made);
    assert_eq!(registration.path(), b"/tmp/gui-5.session");
}

#[test]
fn registry_errors_have_messages() {
    assert_eq!(RegistryError::InvalidId("../x".into()).message(), "invalid session id '../x'");
    assert_eq!(RegistryError::SessionNotFound("a".into()).message(), "session 'a' was not found");
    assert_eq!(RegistryError::ProcessGone(7).message(), "session process 7 is no longer running");
    assert_eq!(RegistryError::StaleSession("a".into()).message(), "session 'a' is no longer running");
    assert_eq!(
        RegistryError::WrongOwner(b"/tmp".to_vec()).message(),
        "session registry is owned by another user: /tmp"
    );
    assert_eq!(
        RegistryError::UnsafeRecord(b"/tmp/a.session".to_vec()).message(),
        "unsafe session record: /tmp/a.session"
    );
    assert_eq!(
        RegistryError::UnsafeDirectory(vec![b'/', 0xff]).message(),
        "unsafe session registry directory: /\u{FFFD}"
    );
    assert!(matches!(
        SessionRegistry::checked(b"/tmp".to_vec(), true, true, 1, 1),
        Err(RegistryError::UnsafeDirectory(_))
    ));
    assert!(matches!(
        SessionRegistry::checked(b"/tmp".to_vec(), false, true, 1, 2),
        Err(RegistryError::WrongOwner(_))
    ));
}
