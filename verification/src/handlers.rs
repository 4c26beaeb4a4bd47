//! The synchronization handlers: the protocol logic behind the real-time
//! channel events. Each handler is stateless — state lives only in the
//! stores — and computes, besides the store transition, exactly what is to
//! be sent and to whom: a requester-only reply, or a room-scoped broadcast
//! with its activity-log lines.

use vstd::prelude::*;
use vstd::string::StrSliceExecFns;
use crate::Settings;
use crate::log::LogBroadcast;
use crate::log::LogEntry;
use crate::log::LogLevel;
use crate::log::LogMessage;
use crate::log::LogMessageData;
use crate::log::broadcast_log;
use crate::log::conn_prefix;
use crate::log::entry_pairs;
use crate::log::create_log_entry;
use crate::log::truncated_conn;
use crate::merge::merge_attendees;
use crate::merge::merge_ontheday;
use crate::merge::merged_attendance;
use crate::merge::merged_ontheday;
use crate::merge::new_attendees;
use crate::merge::new_entries;
use crate::merge::new_ontheday;
use crate::rooms::Rooms;
use crate::rooms::room_members;
use crate::session::Eventstruct;
use crate::session::clone_string_vec;
use crate::store::AppState;
use crate::store::AppState2;
use crate::store::AppState3;
use crate::store::AppState4;
use crate::store::clone_i32_vec;
use crate::trusted::fresh_token;
use crate::trusted::str_eq;

verus! {

/// Why a join request was refused: the id was empty or a null/undefined
/// sentinel, or no session is stored under it.
#[derive(Clone, Copy, Debug, PartialEq, Eq, Structural)]
pub enum JoinError {
    InvalidId,
    NotFound,
}

/// Valid session ids: non-empty and not a known null/undefined sentinel.
pub open spec fn valid_session_id(s: Seq<char>) -> bool {
    s.len() > 0 && s != "undefined"@ && s != "null"@
}

/// Checks a session id the way every id-validating handler does.
pub fn check_session_id(id: &str) -> (r: bool)
    ensures
        r == valid_session_id(id@),
{
    if id.is_empty() {
        return false;
    }
    if str_eq(id, "undefined") {
        return false;
    }
    if str_eq(id, "null") {
        return false;
    }
    true
}

/// What a join request comes to: an error event for the requester alone, or
/// the resolved session view for the requester plus a log line for the room.
pub enum JoinOutcome {
    /// The requester alone is told; no room was joined, no store touched.
    Rejected { error: JoinError },
    /// The requester receives the session view, with any stored settings
    /// override applied to a copy; the room is told of the new connection.
    Joined { reply: Eventstruct, log: LogBroadcast },
}

/// Handles a join event: validates the session id, looks the session up,
/// enrolls the connection in the session's room, applies any stored settings
/// override to a copy of the session (the stored record itself is never
/// changed by the override), and prepares the reply and the room-wide log
/// line.
///
/// On an invalid or unknown id the outcome is an error for the requester
/// alone: no room membership is created and no store is changed.
pub fn join_data(
    sessions: &AppState,
    settings: &AppState4,
    rooms: &mut Rooms,
    conn: &str,
    session_id: &str,
) -> (r: JoinOutcome)
    requires
        sessions.wf(),
        settings.wf(),
        old(rooms).wf(),
    ensures
        final(rooms).wf(),
        !valid_session_id(session_id@) ==> {
            &&& r matches JoinOutcome::Rejected { error } && error == JoinError::InvalidId
            &&& final(rooms)@ == old(rooms)@
        },
        valid_session_id(session_id@) && !sessions@.contains_key(session_id@) ==> {
            &&& r matches JoinOutcome::Rejected { error } && error == JoinError::NotFound
            &&& final(rooms)@ == old(rooms)@
        },
        valid_session_id(session_id@) && sessions@.contains_key(session_id@) ==> {
            let stored = sessions@[session_id@];
            let flags = if settings@.contains_key(session_id@) {
                settings@[session_id@]
            } else {
                stored.flags()
            };
            &&& final(rooms)@ == old(rooms)@.insert(conn@, session_id@)
            &&& r matches JoinOutcome::Joined { reply, log }
                && reply.deep_view() == stored.with_flags(flags)
                && log.room@ == session_id@
                && log.entry.level == LogLevel::Server
                && (log.entry.message matches LogMessage::ClientConnected { conn: c }
                    && c@ == truncated_conn(conn@))
                && (forall|m: Seq<char>|
                    #[trigger] log.recipients.deep_view().contains(m) <==> room_members(
                        final(rooms)@,
                        session_id@,
                    ).contains(m))
        },
{
    if !check_session_id(session_id) {
        return JoinOutcome::Rejected { error: JoinError::InvalidId };
    }
    let stored = match sessions.get_ref(session_id) {
        Some(ev) => ev,
        None => {
            return JoinOutcome::Rejected { error: JoinError::NotFound };
        }
    };
    rooms.join(conn.to_owned(), session_id.to_owned());
    let mut reply = stored.duplicate();
    match settings.get(session_id) {
        Some(saved) => {
            reply.arrowtoday = saved.arrowtoday;
            reply.autotodayregister = saved.autotodayregister;
            reply.soukai = saved.soukai;
            reply.nolist = saved.nolist;
            proof {
                assert(reply.deep_view() =~~= sessions@[session_id@].with_flags(saved));
            }
        }
        None => {
            proof {
                assert(reply.deep_view() =~~= sessions@[session_id@].with_flags(
                    sessions@[session_id@].flags(),
                ));
            }
        }
    }
    let prefix = conn_prefix(conn);
    let log = broadcast_log(
        rooms,
        session_id,
        LogLevel::Server,
        LogMessage::ClientConnected { conn: prefix },
    );
    JoinOutcome::Joined { reply, log }
}

/// What a full-resync request comes to: silently ignored on an invalid id,
/// otherwise the two stored sets for the requester alone, absence rendered
/// as an explicit "no data" marker.
pub enum SyncOutcome {
    Ignored,
    Data { attendees: Option<Vec<i32>>, ontheday: Option<Vec<String>> },
}

/// Handles a full-resync event: validates the session id as join does, then
/// reads the attendance and on-the-day sets for the requester alone. No
/// store is changed; an unknown id simply yields two "no data" markers.
pub fn sync_all_data(
    attendance: &AppState2,
    ontheday: &AppState3,
    session_id: &str,
) -> (r: SyncOutcome)
    requires
        attendance.wf(),
        ontheday.wf(),
    ensures
        !valid_session_id(session_id@) ==> r is Ignored,
        valid_session_id(session_id@) ==> {
            &&& r matches SyncOutcome::Data { attendees, ontheday: today }
                && (match attendees {
                    Some(v) => attendance@.contains_key(session_id@)
                        && v@ == attendance@[session_id@],
                    None => !attendance@.contains_key(session_id@),
                })
                && (match today {
                    Some(v) => ontheday@.contains_key(session_id@)
                        && v.deep_view() == ontheday@[session_id@],
                    None => !ontheday@.contains_key(session_id@),
                })
        },
{
    if !check_session_id(session_id) {
        return SyncOutcome::Ignored;
    }
    let attendees = attendance.get(session_id);
    let today = ontheday.get(session_id);
    SyncOutcome::Data { attendees, ontheday: today }
}

/// The severity and message of the log line for one newly registered
/// attendance index: the participant resolved through the roster, or a
/// "participant not found" warning for an index outside it.
pub open spec fn attendance_log_line(roster: Seq<Seq<char>>, index: i32) -> (LogLevel,
    LogMessageData) {
    if 0 <= index < roster.len() {
        (LogLevel::Info, LogMessageData::AttendanceRegistered { participant: roster[index as int] })
    } else {
        (LogLevel::Warning, LogMessageData::ParticipantNotFound { index })
    }
}

/// The log lines owed for a sequence of newly registered attendance
/// indices, in order.
pub open spec fn attendance_log(roster: Seq<Seq<char>>, fresh: Seq<i32>) -> Seq<(LogLevel,
    LogMessageData)>
    decreases fresh.len(),
{
    if fresh.len() == 0 {
        Seq::empty()
    } else {
        attendance_log(roster, fresh.drop_last()).push(attendance_log_line(roster, fresh.last()))
    }
}

/// What an attendance submission comes to: the canonical merged set,
/// broadcast to the session's room, and one log line per newly registered
/// index.
pub struct AttendanceOutcome {
    pub merged: Vec<i32>,
    pub room: String,
    pub logs: Vec<LogEntry>,
}

/// Handles an attendance submission: merges the submitted roster indices
/// into the stored set (union, canonicalized by ascending sort), writes the
/// merged set back, and prepares the room-wide broadcast plus one log line
/// for each index not previously present — resolved through the session's
/// roster where the session is known, with an index outside the roster
/// yielding a distinct "participant not found" line instead of a failure.
pub fn register_attendees(
    attendance: &mut AppState2,
    sessions: &AppState,
    uuid: &str,
    indices: &Vec<i32>,
) -> (r: AttendanceOutcome)
    requires
        old(attendance).wf(),
        sessions.wf(),
    ensures
        final(attendance).wf(),
        ({
            let cur = if old(attendance)@.contains_key(uuid@) {
                old(attendance)@[uuid@]
            } else {
                Seq::<i32>::empty()
            };
            let merged = merged_attendance(cur, indices@);
            let fresh = new_entries(cur, indices@);
            &&& final(attendance)@ == old(attendance)@.insert(uuid@, merged)
            &&& r.merged@ == merged
            &&& r.room@ == uuid@
            &&& sessions@.contains_key(uuid@) ==> entry_pairs(r.logs.deep_view())
                == attendance_log(sessions@[uuid@].participants, fresh)
            &&& !sessions@.contains_key(uuid@) ==> r.logs@.len() == 0
            &&& forall|i: int|
                0 <= i < r.logs@.len() ==> (#[trigger] r.logs.deep_view()[i]).timestamp.len() == 8
        }),
{
    let cur: Vec<i32> = match attendance.get(uuid) {
        Some(v) => v,
        None => Vec::new(),
    };
    let fresh = new_attendees(&cur, indices);
    let merged = merge_attendees(&cur, indices);
    attendance.insert(uuid.to_owned(), clone_i32_vec(&merged));
    let mut logs: Vec<LogEntry> = Vec::new();
    match sessions.get_ref(uuid) {
        Some(ev) => {
            let ghost roster = sessions@[uuid@].participants;
            let m = fresh.len();
            for k in 0..m
                invariant
                    m == fresh.len(),
                    sessions.wf(),
                    sessions@.contains_key(uuid@),
                    ev.deep_view() == sessions@[uuid@],
                    roster == sessions@[uuid@].participants,
                    entry_pairs(logs.deep_view()) == attendance_log(roster, fresh@.take(k as int)),
                    forall|i: int|
                        0 <= i < logs@.len() ==> (#[trigger] logs.deep_view()[i]).timestamp.len()
                            == 8,
            {
                let idx = fresh[k];
                let entry = if idx >= 0 && (idx as usize) < ev.participants.len() {
                    create_log_entry(
                        LogLevel::Info,
                        LogMessage::AttendanceRegistered {
                            participant: ev.participants[idx as usize].clone(),
                        },
                    )
                } else {
                    create_log_entry(LogLevel::Warning, LogMessage::ParticipantNotFound {
                        index: idx,
                    })
                };
                let ghost prev = logs.deep_view();
                let ghost entry_data = entry.deep_view();
                logs.push(entry);
                proof {
                    assert(logs.deep_view() =~= prev.push(entry_data));
                    assert(fresh@.take(k + 1).drop_last() =~= fresh@.take(k as int));
                    assert(fresh@.take(k + 1).last() == fresh@[k as int]);
                    assert(entry_pairs(logs.deep_view()) =~= attendance_log(
                        roster,
                        fresh@.take(k + 1),
                    ));
                }
            }
            assert(fresh@.take(m as int) =~= fresh@);
        }
        None => {}
    }
    AttendanceOutcome { merged, room: uuid.to_owned(), logs }
}

/// Law: repeating an identical attendance submission changes nothing. After
/// the store transition of one submission, the transition of a second
/// submission with the same indices leaves the whole Attendance Store as it
/// was — so the set after any number of identical submissions equals the set
/// after the first.
pub proof fn lemma_attendance_submission_idempotent(
    store: Map<Seq<char>, Seq<i32>>,
    uuid: Seq<char>,
    indices: Seq<i32>,
)
    ensures
        ({
            let cur = if store.contains_key(uuid) {
                store[uuid]
            } else {
                Seq::<i32>::empty()
            };
            let after_first = store.insert(uuid, merged_attendance(cur, indices));
            after_first.insert(uuid, merged_attendance(after_first[uuid], indices)) == after_first
        }),
{
    let cur = if store.contains_key(uuid) {
        store[uuid]
    } else {
        Seq::<i32>::empty()
    };
    let after_first = store.insert(uuid, merged_attendance(cur, indices));
    crate::merge::lemma_attendance_idempotent(cur, indices);
    assert(after_first.insert(uuid, merged_attendance(after_first[uuid], indices)) =~= after_first);
}

/// The log lines owed for a sequence of newly registered on-the-day
/// identifiers, in order.
pub open spec fn ontheday_log(fresh: Seq<Seq<char>>) -> Seq<(LogLevel, LogMessageData)> {
    fresh.map_values(
        |p: Seq<char>| (LogLevel::Info, LogMessageData::OnTheDayRegistered { participant: p }),
    )
}

/// What an on-the-day submission comes to: the merged set, broadcast to the
/// session's room, and one log line per newly registered identifier.
pub struct OnTheDayOutcome {
    pub merged: Vec<String>,
    pub room: String,
    pub logs: Vec<LogEntry>,
}

/// Handles an on-the-day submission: appends the identifiers not previously
/// present to the stored set, in first-seen order and without sorting,
/// writes the merged set back, and prepares the room-wide broadcast plus one
/// log line per newly registered identifier.
pub fn register_ontheday(
    ontheday: &mut AppState3,
    uuid: &str,
    identifiers: &Vec<String>,
) -> (r: OnTheDayOutcome)
    requires
        old(ontheday).wf(),
    ensures
        final(ontheday).wf(),
        ({
            let cur = if old(ontheday)@.contains_key(uuid@) {
                old(ontheday)@[uuid@]
            } else {
                Seq::<Seq<char>>::empty()
            };
            let merged = merged_ontheday(cur, identifiers.deep_view());
            let fresh = new_entries(cur, identifiers.deep_view());
            &&& final(ontheday)@ == old(ontheday)@.insert(uuid@, merged)
            &&& r.merged.deep_view() == merged
            &&& r.room@ == uuid@
            &&& entry_pairs(r.logs.deep_view()) == ontheday_log(fresh)
            &&& forall|i: int|
                0 <= i < r.logs@.len() ==> (#[trigger] r.logs.deep_view()[i]).timestamp.len() == 8
        }),
{
    let cur: Vec<String> = match ontheday.get(uuid) {
        Some(v) => v,
        None => Vec::new(),
    };
    proof {
        if !old(ontheday)@.contains_key(uuid@) {
            assert(cur.deep_view() =~= Seq::<Seq<char>>::empty());
        }
    }
    let fresh = new_ontheday(&cur, identifiers);
    let merged = merge_ontheday(&cur, identifiers);
    ontheday.insert(uuid.to_owned(), clone_string_vec(&merged));
    let mut logs: Vec<LogEntry> = Vec::new();
    let m = fresh.len();
    for k in 0..m
        invariant
            m == fresh.len(),
            entry_pairs(logs.deep_view()) == ontheday_log(fresh.deep_view().take(k as int)),
            forall|i: int|
                0 <= i < logs@.len() ==> (#[trigger] logs.deep_view()[i]).timestamp.len() == 8,
    {
        let entry = create_log_entry(
            LogLevel::Info,
            LogMessage::OnTheDayRegistered { participant: fresh[k].clone() },
        );
        let ghost prev = logs.deep_view();
        let ghost entry_data = entry.deep_view();
        logs.push(entry);
        proof {
            assert(logs.deep_view() =~= prev.push(entry_data));
            assert(fresh.deep_view()[k as int] == fresh@[k as int]@);
            let p = fresh.deep_view()[k as int];
            assert(entry_data.level == LogLevel::Info);
            assert(entry_data.message == LogMessageData::OnTheDayRegistered { participant: p });
            assert(entry_pairs(prev.push(entry_data)) =~= entry_pairs(prev).push(
                (entry_data.level, entry_data.message),
            ));
            assert(fresh.deep_view().take(k + 1) =~= fresh.deep_view().take(k as int).push(p));
            assert(ontheday_log(fresh.deep_view().take(k + 1)) =~= ontheday_log(
                fresh.deep_view().take(k as int),
            ).push((LogLevel::Info, LogMessageData::OnTheDayRegistered { participant: p })));
            assert(entry_pairs(logs.deep_view()) =~= ontheday_log(fresh.deep_view().take(k + 1)));
        }
    }
    proof {
        assert(fresh.deep_view().take(m as int) =~= fresh.deep_view());
    }
    OnTheDayOutcome { merged, room: uuid.to_owned(), logs }
}

/// The payload of a settings-change event: the full set of four flags and
/// the session id they belong to.
pub struct SettingsData {
    pub arrowtoday: bool,
    pub autotodayregister: bool,
    pub soukai: bool,
    pub nolist: bool,
    pub uuid: String,
}

/// What a settings change comes to: the stored settings, broadcast to the
/// session's room.
pub struct SettingsBroadcast {
    pub settings: Settings,
    pub room: String,
}

/// Handles a settings-change event: builds the full four-flag settings value
/// from the payload — every flag supplied, no partial update — overwrites
/// the stored override, and prepares the room-wide broadcast.
pub fn settings_change(settings: &mut AppState4, data: &SettingsData) -> (r: SettingsBroadcast)
    requires
        old(settings).wf(),
    ensures
        final(settings).wf(),
        ({
            let s = Settings {
                arrowtoday: data.arrowtoday,
                autotodayregister: data.autotodayregister,
                soukai: data.soukai,
                nolist: data.nolist,
            };
            &&& final(settings)@ == old(settings)@.insert(data.uuid@, s)
            &&& r.settings == s
            &&& r.room@ == data.uuid@
        }),
{
    let s = Settings {
        arrowtoday: data.arrowtoday,
        autotodayregister: data.autotodayregister,
        soukai: data.soukai,
        nolist: data.nolist,
    };
    settings.insert(data.uuid.clone(), s);
    SettingsBroadcast { settings: s, room: data.uuid.clone() }
}

/// Handles a settings update carrying an already-built settings value:
/// overwrites the stored override and prepares the room-wide broadcast.
pub fn update_settings(settings: &mut AppState4, uuid: &str, value: Settings) -> (r:
    SettingsBroadcast)
    requires
        old(settings).wf(),
    ensures
        final(settings).wf(),
        final(settings)@ == old(settings)@.insert(uuid@, value),
        r.settings == value,
        r.room@ == uuid@,
{
    settings.insert(uuid.to_owned(), value);
    SettingsBroadcast { settings: value, room: uuid.to_owned() }
}

/// The prefix of a minted token before its first dash: the short,
/// user-presentable session id.
pub fn first_segment(s: &str) -> (r: String)
    ensures
        r@.len() <= s@.len(),
        r@ == s@.take(r@.len() as int),
        forall|j: int| 0 <= j < r@.len() ==> s@[j] != '-',
        r@.len() < s@.len() ==> s@[r@.len() as int] == '-',
{
    let n = s.unicode_len();
    for i in 0..n
        invariant
            n == s@.len(),
            forall|j: int| 0 <= j < i ==> s@[j] != '-',
    {
        if s.get_char(i) == '-' {
            let seg = s.substring_char(0, i);
            return seg.to_owned();
        }
    }
    assert(s@.take(n as int) =~= s@);
    s.to_owned()
}

/// Registers a session: mints a fresh token, truncates it to its first
/// segment for a short id, attaches the id and a blank password to the
/// definition, writes a non-empty pre-seeded on-the-day list (if any) to the
/// On-The-Day Store, and stores the definition under the id, which is
/// returned.
pub fn register_event(sessions: &mut AppState, ontheday: &mut AppState3, data: Eventstruct) -> (id:
    String)
    requires
        old(sessions).wf(),
        old(ontheday).wf(),
    ensures
        final(sessions).wf(),
        final(ontheday).wf(),
        id@.len() <= 8,
        final(sessions)@ == old(sessions)@.insert(id@, data.deep_view().registered(id@)),
        match data.todaylist {
            Some(t) => if t@.len() > 0 {
                final(ontheday)@ == old(ontheday)@.insert(id@, t.deep_view())
            } else {
                final(ontheday)@ == old(ontheday)@
            },
            None => final(ontheday)@ == old(ontheday)@,
        },
{
    let token = fresh_token();
    let id = first_segment(token.as_str());
    proof {
        if id@.len() > 8 {
            assert(token@[8] != '-');
        }
    }
    let mut record = data;
    record.roomid = Some(id.clone());
    record.password = Some(String::new());
    match &record.todaylist {
        Some(t) => {
            if t.len() > 0 {
                let copy = clone_string_vec(t);
                ontheday.insert(id.clone(), copy);
            }
        }
        None => {}
    }
    proof {
        assert(record.deep_view() =~~= data.deep_view().registered(id@));
    }
    sessions.insert(id.clone(), record);
    id
}

} // verus!
