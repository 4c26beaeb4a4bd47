//! The Activity Log Broadcaster: derives log records from state transitions
//! and addresses them to the room of the session they concern. Delivery is
//! fire-and-forget; failure to deliver is a silent no-op, so nothing here
//! depends on delivery.

use vstd::prelude::*;
use vstd::string::StrSliceExecFns;
use crate::rooms::Rooms;
use crate::rooms::room_members;
use crate::trusted::now_hms;

verus! {

/// The severity of a log record.
#[derive(Clone, Copy, Debug, PartialEq, Eq, Structural)]
pub enum LogLevel {
    Info,
    Warning,
    Server,
}

/// What a log record reports. The human-readable line is rendered outside
/// the core, from these fields.
pub enum LogMessage {
    /// A connection joined a room; carries a truncated connection id.
    ClientConnected { conn: String },
    /// A roster participant was marked present through the attendance path.
    AttendanceRegistered { participant: String },
    /// An attendance index fell outside the roster.
    ParticipantNotFound { index: i32 },
    /// An identifier was registered through the on-the-day path.
    OnTheDayRegistered { participant: String },
}

/// Mathematical abstraction of a log message.
pub enum LogMessageData {
    ClientConnected { conn: Seq<char> },
    AttendanceRegistered { participant: Seq<char> },
    ParticipantNotFound { index: i32 },
    OnTheDayRegistered { participant: Seq<char> },
}

impl DeepView for LogMessage {
    type V = LogMessageData;

    open spec fn deep_view(&self) -> LogMessageData {
        match self {
            LogMessage::ClientConnected { conn } => LogMessageData::ClientConnected {
                conn: conn@,
            },
            LogMessage::AttendanceRegistered { participant } =>
                LogMessageData::AttendanceRegistered { participant: participant@ },
            LogMessage::ParticipantNotFound { index } => LogMessageData::ParticipantNotFound {
                index: *index,
            },
            LogMessage::OnTheDayRegistered { participant } =>
                LogMessageData::OnTheDayRegistered { participant: participant@ },
        }
    }
}

/// One record of the activity log: a wall-clock timestamp at second
/// resolution, a severity, and the message.
pub struct LogEntry {
    pub timestamp: String,
    pub level: LogLevel,
    pub message: LogMessage,
}

/// Mathematical abstraction of a log record.
pub struct LogEntryData {
    pub timestamp: Seq<char>,
    pub level: LogLevel,
    pub message: LogMessageData,
}

impl DeepView for LogEntry {
    type V = LogEntryData;

    open spec fn deep_view(&self) -> LogEntryData {
        LogEntryData { timestamp: self.timestamp@, level: self.level, message: self.message.deep_view() }
    }
}

/// Builds a log record carrying the wall-clock time of the call, in
/// `HH:MM:SS` shape, with the given severity and message.
pub fn create_log_entry(level: LogLevel, message: LogMessage) -> (r: LogEntry)
    ensures
        r.level == level,
        r.message == message,
        r.timestamp@.len() == 8,
        r.timestamp@[2] == ':',
        r.timestamp@[5] == ':',
{
    LogEntry { timestamp: now_hms(), level, message }
}

/// The severity and message of each record of a log sequence, in order:
/// what a handler's contract pins down (the timestamps depend on the clock).
pub open spec fn entry_pairs(s: Seq<LogEntryData>) -> Seq<(LogLevel, LogMessageData)> {
    s.map_values(|e: LogEntryData| (e.level, e.message))
}

/// A log record addressed to one room.
pub struct LogBroadcast {
    pub room: String,
    pub entry: LogEntry,
    pub recipients: Vec<String>,
}

/// Builds the record for one log emission and addresses it to `room`: it is
/// to reach exactly the connections enrolled in `room` — no delivery is
/// owed to anyone else, and none to an empty room.
pub fn broadcast_log(rooms: &Rooms, room: &str, level: LogLevel, message: LogMessage) -> (r:
    LogBroadcast)
    requires
        rooms.wf(),
    ensures
        r.room@ == room@,
        r.entry.level == level,
        r.entry.message == message,
        r.entry.timestamp@.len() == 8,
        r.recipients.deep_view().no_duplicates(),
        forall|c: Seq<char>|
            #[trigger] r.recipients.deep_view().contains(c) <==> room_members(
                rooms@,
                room@,
            ).contains(c),
{
    let entry = create_log_entry(level, message);
    let recipients = rooms.recipients(room);
    LogBroadcast { room: room.to_owned(), entry, recipients }
}

/// The first characters of a connection identifier, at most eight: what the
/// join log line carries.
pub open spec fn truncated_conn(s: Seq<char>) -> Seq<char> {
    if s.len() <= 8 {
        s
    } else {
        s.take(8)
    }
}

/// Truncates a connection identifier for display in the join log line.
pub fn conn_prefix(conn: &str) -> (r: String)
    ensures
        r@ == truncated_conn(conn@),
{
    let n = conn.unicode_len();
    if n <= 8 {
        conn.to_owned()
    } else {
        let s = conn.substring_char(0, 8);
        s.to_owned()
    }
}

} // verus!
