use session_sync::AppState;
use session_sync::AppState2;
use session_sync::AppState3;
use session_sync::AppState4;
use session_sync::Eventstruct;
use session_sync::ParticipantInput;
use session_sync::Settings;
use session_sync::handlers::JoinError;
use session_sync::handlers::JoinOutcome;
use session_sync::handlers::SettingsData;
use session_sync::handlers::SyncOutcome;
use session_sync::handlers::check_session_id;
use session_sync::handlers::first_segment;
use session_sync::handlers::join_data;
use session_sync::handlers::register_attendees;
use session_sync::handlers::register_event;
use session_sync::handlers::register_ontheday;
use session_sync::handlers::settings_change;
use session_sync::handlers::sync_all_data;
use session_sync::handlers::update_settings;
use session_sync::log::LogLevel;
use session_sync::log::LogMessage;
use session_sync::log::conn_prefix;
use session_sync::log::create_log_entry;
use session_sync::normalize_participants;
use session_sync::rooms::Rooms;

fn strings(v: &[&str]) -> Vec<String> {
    v.iter().map(|s| s.to_string()).collect()
}

fn algebra() -> Eventstruct {
    Eventstruct {
        eventname: "Algebra".to_string(),
        eventinfo: "first period".to_string(),
        participants: strings(&["s1", "s2", "s3"]),
        todaylist: None,
        arrowtoday: false,
        autotodayregister: true,
        nolist: false,
        soukai: false,
        roomid: None,
        password: None,
    }
}

#[test]
fn register_event_mints_short_id_and_stores_definition() {
    let mut sessions = AppState::new();
    let mut ontheday = AppState3::new();
    let id = register_event(&mut sessions, &mut ontheday, algebra());
    assert!(!id.is_empty());
    assert!(id.len() <= 8);
    let stored = sessions.get(&id).expect("registered session");
    assert_eq!(stored.eventname, "Algebra");
    assert_eq!(stored.participants, strings(&["s1", "s2", "s3"]));
    assert_eq!(stored.roomid, Some(id.clone()));
    assert_eq!(stored.password, Some(String::new()));
    assert!(ontheday.get(&id).is_none());
}

#[test]
fn register_event_seeds_ontheday_list() {
    let mut sessions = AppState::new();
    let mut ontheday = AppState3::new();
    let mut event = algebra();
    event.todaylist = Some(strings(&["guest-a", "guest-b"]));
    let id = register_event(&mut sessions, &mut ontheday, event);
    assert_eq!(ontheday.get(&id).unwrap(), strings(&["guest-a", "guest-b"]));
}

#[test]
fn register_event_ids_differ_between_sessions() {
    let mut sessions = AppState::new();
    let mut ontheday = AppState3::new();
    let a = register_event(&mut sessions, &mut ontheday, algebra());
    let b = register_event(&mut sessions, &mut ontheday, algebra());
    assert_ne!(a, b);
}

#[test]
fn join_with_empty_or_sentinel_id_is_rejected() {
    let sessions = AppState::new();
    let settings = AppState4::new();
    let mut rooms = Rooms::new();
    for bad in ["", "undefined", "null"] {
        let outcome = join_data(&sessions, &settings, &mut rooms, "conn-1", bad);
        match outcome {
            JoinOutcome::Rejected { error } => assert_eq!(error, JoinError::InvalidId),
            JoinOutcome::Joined { .. } => panic!("join must be rejected"),
        }
    }
    assert!(rooms.room_of("conn-1").is_none());
}

#[test]
fn join_with_unknown_id_is_rejected_without_enrollment() {
    let mut sessions = AppState::new();
    sessions.insert("abc12".to_string(), algebra());
    let settings = AppState4::new();
    let mut rooms = Rooms::new();
    let outcome = join_data(&sessions, &settings, &mut rooms, "conn-1", "zzz99");
    match outcome {
        JoinOutcome::Rejected { error } => assert_eq!(error, JoinError::NotFound),
        JoinOutcome::Joined { .. } => panic!("join must be rejected"),
    }
    assert!(rooms.room_of("conn-1").is_none());
}

#[test]
fn join_replies_with_session_and_enrolls_connection() {
    let mut sessions = AppState::new();
    sessions.insert("abc12".to_string(), algebra());
    let settings = AppState4::new();
    let mut rooms = Rooms::new();
    let outcome = join_data(&sessions, &settings, &mut rooms, "conn-12345678-long", "abc12");
    match outcome {
        JoinOutcome::Joined { reply, log } => {
            assert_eq!(reply.eventname, "Algebra");
            assert!(!reply.arrowtoday);
            assert_eq!(log.room, "abc12");
            assert_eq!(log.entry.level, LogLevel::Server);
            match &log.entry.message {
                LogMessage::ClientConnected { conn } => assert_eq!(conn, "conn-123"),
                _ => panic!("join log line must announce the connection"),
            }
            assert_eq!(log.recipients, strings(&["conn-12345678-long"]));
        }
        JoinOutcome::Rejected { .. } => panic!("join must succeed"),
    }
    assert_eq!(rooms.room_of("conn-12345678-long").unwrap().as_str(), "abc12");
}

#[test]
fn settings_override_applies_at_join_but_never_rewrites_the_session() {
    let mut sessions = AppState::new();
    sessions.insert("abc12".to_string(), algebra());
    let mut settings = AppState4::new();
    let mut rooms = Rooms::new();
    let change = SettingsData {
        arrowtoday: true,
        autotodayregister: false,
        soukai: true,
        nolist: false,
        uuid: "abc12".to_string(),
    };
    let broadcast = settings_change(&mut settings, &change);
    assert_eq!(broadcast.room, "abc12");
    assert_eq!(
        broadcast.settings,
        Settings { arrowtoday: true, autotodayregister: false, soukai: true, nolist: false }
    );
    let outcome = join_data(&sessions, &settings, &mut rooms, "conn-2", "abc12");
    match outcome {
        JoinOutcome::Joined { reply, .. } => {
            assert!(reply.arrowtoday);
            assert!(!reply.autotodayregister);
            assert!(reply.soukai);
            assert!(!reply.nolist);
        }
        JoinOutcome::Rejected { .. } => panic!("join must succeed"),
    }
    let stored = sessions.get("abc12").unwrap();
    assert!(!stored.arrowtoday);
    assert!(stored.autotodayregister);
    assert!(!stored.soukai);
}

#[test]
fn update_settings_overwrites_and_broadcasts() {
    let mut settings = AppState4::new();
    let value = Settings { arrowtoday: false, autotodayregister: true, soukai: false, nolist: true };
    let broadcast = update_settings(&mut settings, "abc12", value);
    assert_eq!(broadcast.room, "abc12");
    assert_eq!(broadcast.settings, value);
    assert_eq!(settings.get("abc12").unwrap(), value);
}

#[test]
fn two_attendance_submissions_merge_with_one_log_line_each() {
    let mut sessions = AppState::new();
    sessions.insert("abc12".to_string(), algebra());
    let mut attendance = AppState2::new();

    let first = register_attendees(&mut attendance, &sessions, "abc12", &vec![0]);
    assert_eq!(first.merged, vec![0]);
    assert_eq!(first.room, "abc12");
    assert_eq!(first.logs.len(), 1);
    match &first.logs[0].message {
        LogMessage::AttendanceRegistered { participant } => assert_eq!(participant, "s1"),
        _ => panic!("index 0 resolves to the first roster entry"),
    }
    assert_eq!(first.logs[0].level, LogLevel::Info);

    let second = register_attendees(&mut attendance, &sessions, "abc12", &vec![0, 2]);
    assert_eq!(second.merged, vec![0, 2]);
    assert_eq!(second.logs.len(), 1);
    match &second.logs[0].message {
        LogMessage::AttendanceRegistered { participant } => assert_eq!(participant, "s3"),
        _ => panic!("only index 2 is newly registered"),
    }
    assert_eq!(attendance.get("abc12").unwrap(), vec![0, 2]);
}

#[test]
fn attendance_index_outside_roster_logs_a_warning() {
    let mut sessions = AppState::new();
    sessions.insert("abc12".to_string(), algebra());
    let mut attendance = AppState2::new();
    let outcome = register_attendees(&mut attendance, &sessions, "abc12", &vec![7]);
    assert_eq!(outcome.merged, vec![7]);
    assert_eq!(outcome.logs.len(), 1);
    assert_eq!(outcome.logs[0].level, LogLevel::Warning);
    match &outcome.logs[0].message {
        LogMessage::ParticipantNotFound { index } => assert_eq!(*index, 7),
        _ => panic!("an out-of-roster index yields a not-found line"),
    }
}

#[test]
fn attendance_for_unknown_session_still_merges_but_logs_nothing() {
    let sessions = AppState::new();
    let mut attendance = AppState2::new();
    let outcome = register_attendees(&mut attendance, &sessions, "zzz99", &vec![1, 0]);
    assert_eq!(outcome.merged, vec![0, 1]);
    assert!(outcome.logs.is_empty());
    assert_eq!(attendance.get("zzz99").unwrap(), vec![0, 1]);
}

#[test]
fn empty_submission_changes_nothing_but_still_broadcasts() {
    let sessions = AppState::new();
    let mut attendance = AppState2::new();
    attendance.insert("abc12".to_string(), vec![1, 3]);
    let outcome = register_attendees(&mut attendance, &sessions, "abc12", &Vec::new());
    assert_eq!(outcome.merged, vec![1, 3]);
    assert_eq!(outcome.room, "abc12");
    assert!(outcome.logs.is_empty());
}

#[test]
fn duplicate_indices_within_one_submission_store_once() {
    let sessions = AppState::new();
    let mut attendance = AppState2::new();
    let outcome = register_attendees(&mut attendance, &sessions, "abc12", &vec![5, 5]);
    assert_eq!(outcome.merged, vec![5]);
    assert_eq!(attendance.get("abc12").unwrap(), vec![5]);
}

#[test]
fn ontheday_submissions_merge_in_first_seen_order_with_logs() {
    let mut ontheday = AppState3::new();
    let first = register_ontheday(&mut ontheday, "abc12", &strings(&["guest-a"]));
    assert_eq!(first.merged, strings(&["guest-a"]));
    assert_eq!(first.logs.len(), 1);
    match &first.logs[0].message {
        LogMessage::OnTheDayRegistered { participant } => assert_eq!(participant, "guest-a"),
        _ => panic!("a new on-the-day identifier is logged"),
    }
    assert_eq!(first.logs[0].level, LogLevel::Info);

    let second = register_ontheday(&mut ontheday, "abc12", &strings(&["guest-b", "guest-a"]));
    assert_eq!(second.merged, strings(&["guest-a", "guest-b"]));
    assert_eq!(second.logs.len(), 1);
    match &second.logs[0].message {
        LogMessage::OnTheDayRegistered { participant } => assert_eq!(participant, "guest-b"),
        _ => panic!("only guest-b is newly registered"),
    }
    assert_eq!(ontheday.get("abc12").unwrap(), strings(&["guest-a", "guest-b"]));
}

#[test]
fn sync_all_data_validates_and_reports_both_sets() {
    let mut attendance = AppState2::new();
    let mut ontheday = AppState3::new();
    match sync_all_data(&attendance, &ontheday, "undefined") {
        SyncOutcome::Ignored => {}
        SyncOutcome::Data { .. } => panic!("an invalid id is silently ignored"),
    }
    match sync_all_data(&attendance, &ontheday, "abc12") {
        SyncOutcome::Data { attendees, ontheday: today } => {
            assert!(attendees.is_none());
            assert!(today.is_none());
        }
        SyncOutcome::Ignored => panic!("a valid id is answered"),
    }
    attendance.insert("abc12".to_string(), vec![0, 2]);
    ontheday.insert("abc12".to_string(), strings(&["guest-a"]));
    match sync_all_data(&attendance, &ontheday, "abc12") {
        SyncOutcome::Data { attendees, ontheday: today } => {
            assert_eq!(attendees.unwrap(), vec![0, 2]);
            assert_eq!(today.unwrap(), strings(&["guest-a"]));
        }
        SyncOutcome::Ignored => panic!("a valid id is answered"),
    }
}

#[test]
fn broadcasts_reach_only_the_matching_room() {
    let mut rooms = Rooms::new();
    rooms.join("conn-1".to_string(), "abc12".to_string());
    rooms.join("conn-2".to_string(), "abc12".to_string());
    rooms.join("conn-3".to_string(), "def34".to_string());
    let mut a = rooms.recipients("abc12");
    a.sort();
    assert_eq!(a, strings(&["conn-1", "conn-2"]));
    assert_eq!(rooms.recipients("def34"), strings(&["conn-3"]));
    assert!(rooms.recipients("ghi56").is_empty());
    rooms.join("conn-2".to_string(), "def34".to_string());
    assert_eq!(rooms.recipients("abc12"), strings(&["conn-1"]));
}

#[test]
fn check_session_id_accepts_only_real_ids() {
    assert!(check_session_id("abc12"));
    assert!(!check_session_id(""));
    assert!(!check_session_id("undefined"));
    assert!(!check_session_id("null"));
}

#[test]
fn first_segment_stops_at_the_first_dash() {
    assert_eq!(first_segment("12345678-abcd-efgh"), "12345678");
    assert_eq!(first_segment("nodash"), "nodash");
    assert_eq!(first_segment("-leading"), "");
}

#[test]
fn conn_prefix_truncates_to_eight_characters() {
    assert_eq!(conn_prefix("abcdefghij"), "abcdefgh");
    assert_eq!(conn_prefix("short"), "short");
}

#[test]
fn log_entries_carry_a_clock_timestamp() {
    let entry = create_log_entry(
        LogLevel::Info,
        LogMessage::OnTheDayRegistered { participant: "guest-a".to_string() },
    );
    assert_eq!(entry.timestamp.len(), 8);
    let bytes = entry.timestamp.as_bytes();
    assert_eq!(bytes[2], b':');
    assert_eq!(bytes[5], b':');
    assert_eq!(entry.level, LogLevel::Info);
}

#[test]
fn participant_normalization_keeps_identifiers_only() {
    let inputs = vec![
        ParticipantInput::Name("s1".to_string()),
        ParticipantInput::Object { id: "s2".to_string(), attended: Some(true) },
        ParticipantInput::Unrecognized,
        ParticipantInput::Object { id: "s3".to_string(), attended: None },
    ];
    let roster = normalize_participants(&inputs);
    assert_eq!(roster, strings(&["s1", "s2", "s3"]));
}
