use session_sync::AppState;
use session_sync::AppState2;
use session_sync::AppState3;
use session_sync::AppState4;
use session_sync::Eventstruct;
use session_sync::Settings;
use session_sync::get_app_state;
use session_sync::get_app_state2;
use session_sync::get_app_state3;
use session_sync::get_app_state4;

fn sample_event(name: &str) -> Eventstruct {
    Eventstruct {
        eventname: name.to_string(),
        eventinfo: "weekly meeting".to_string(),
        participants: vec!["s1".to_string(), "s2".to_string(), "s3".to_string()],
        todaylist: None,
        arrowtoday: false,
        autotodayregister: true,
        nolist: false,
        soukai: false,
        roomid: None,
        password: None,
    }
}

#[test]
fn fresh_stores_are_empty() {
    let sessions = get_app_state();
    let attendance = get_app_state2();
    let ontheday = get_app_state3();
    let settings = get_app_state4();
    assert!(sessions.get("abc12").is_none());
    assert!(attendance.get("abc12").is_none());
    assert!(ontheday.get("abc12").is_none());
    assert!(settings.get("abc12").is_none());
}

#[test]
fn session_store_round_trip() {
    let mut sessions = AppState::new();
    sessions.insert("abc12".to_string(), sample_event("Algebra"));
    let got = sessions.get("abc12").expect("stored session");
    assert_eq!(got.eventname, "Algebra");
    assert_eq!(
        got.participants,
        vec!["s1".to_string(), "s2".to_string(), "s3".to_string()]
    );
    assert!(sessions.get("zzzzz").is_none());
}

#[test]
fn session_store_distinguishes_keys() {
    let mut sessions = AppState::new();
    sessions.insert("abc12".to_string(), sample_event("Algebra"));
    sessions.insert("def34".to_string(), sample_event("Geometry"));
    assert_eq!(sessions.get("abc12").unwrap().eventname, "Algebra");
    assert_eq!(sessions.get("def34").unwrap().eventname, "Geometry");
    assert!(sessions.get("abc1").is_none());
    assert!(sessions.get("abc123").is_none());
}

#[test]
fn attendance_store_overwrites() {
    let mut attendance = AppState2::new();
    attendance.insert("abc12".to_string(), vec![2, 0, 2]);
    assert_eq!(attendance.get("abc12").unwrap(), vec![2, 0, 2]);
    attendance.insert("abc12".to_string(), vec![7]);
    assert_eq!(attendance.get("abc12").unwrap(), vec![7]);
}

#[test]
fn ontheday_store_round_trip() {
    let mut ontheday = AppState3::new();
    ontheday.insert(
        "abc12".to_string(),
        vec!["guest-a".to_string(), "guest-b".to_string()],
    );
    assert_eq!(
        ontheday.get("abc12").unwrap(),
        vec!["guest-a".to_string(), "guest-b".to_string()]
    );
}

#[test]
fn settings_store_replaces_all_flags() {
    let mut settings = AppState4::new();
    settings.insert(
        "abc12".to_string(),
        Settings { arrowtoday: true, autotodayregister: true, soukai: false, nolist: false },
    );
    settings.insert(
        "abc12".to_string(),
        Settings { arrowtoday: false, autotodayregister: false, soukai: true, nolist: true },
    );
    let got = settings.get("abc12").unwrap();
    assert_eq!(
        got,
        Settings { arrowtoday: false, autotodayregister: false, soukai: true, nolist: true }
    );
}

#[test]
fn get_all_events_attaches_room_ids() {
    let mut sessions = AppState::new();
    sessions.insert("abc12".to_string(), sample_event("Algebra"));
    sessions.insert("def34".to_string(), sample_event("Geometry"));
    let mut all = sessions.get_all_events();
    all.sort_by(|a, b| a.eventname.cmp(&b.eventname));
    assert_eq!(all.len(), 2);
    assert_eq!(all[0].eventname, "Algebra");
    assert_eq!(all[0].roomid, Some("abc12".to_string()));
    assert_eq!(all[1].eventname, "Geometry");
    assert_eq!(all[1].roomid, Some("def34".to_string()));
}
