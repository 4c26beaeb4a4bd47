//! The session data model: the static definition of one attendance session,
//! its four display/behavior flags, and the normalization of participant
//! rosters at ingestion time.

use vstd::prelude::*;
use crate::Settings;

verus! {

/// Mathematical abstraction of a session record: every text field reduced to
/// its character sequence, so that contracts are independent of `String`'s
/// representation.
#[verifier::ext_equal]
pub struct SessionData {
    pub eventname: Seq<char>,
    pub eventinfo: Seq<char>,
    pub participants: Seq<Seq<char>>,
    pub todaylist: Option<Seq<Seq<char>>>,
    pub arrowtoday: bool,
    pub autotodayregister: bool,
    pub nolist: bool,
    pub soukai: bool,
    pub roomid: Option<Seq<char>>,
    pub password: Option<Seq<char>>,
}

impl SessionData {
    /// The four flags of this record, as one Settings value.
    pub open spec fn flags(self) -> Settings {
        Settings {
            arrowtoday: self.arrowtoday,
            autotodayregister: self.autotodayregister,
            soukai: self.soukai,
            nolist: self.nolist,
        }
    }

    /// The same record with its four flags replaced by `s`.
    pub open spec fn with_flags(self, s: Settings) -> SessionData {
        SessionData {
            arrowtoday: s.arrowtoday,
            autotodayregister: s.autotodayregister,
            soukai: s.soukai,
            nolist: s.nolist,
            ..self
        }
    }

    /// The same record with its room id replaced.
    pub open spec fn with_roomid(self, roomid: Option<Seq<char>>) -> SessionData {
        SessionData { roomid, ..self }
    }

    /// The record as the Session Store keeps it after registration under
    /// `id`: the minted id attached as the room id, the password blank.
    pub open spec fn registered(self, id: Seq<char>) -> SessionData {
        SessionData { roomid: Some(id), password: Some(Seq::<char>::empty()), ..self }
    }
}

/// The payload of the on-the-day overwrite command: a session id and the
/// full list that replaces the stored on-the-day set.
pub struct JsonToTodayStruct {
    pub uuid: String,
    pub today: Vec<String>,
}

/// One session's static definition: name, free-text description, the ordered
/// participant roster (the canonical index space for attendance), the four
/// display/behavior flags, an optional pre-seeded on-the-day list, and the
/// room id and password attached when the session is registered.
pub struct Eventstruct {
    pub eventname: String,
    pub eventinfo: String,
    pub participants: Vec<String>,
    pub todaylist: Option<Vec<String>>,
    pub arrowtoday: bool,
    pub autotodayregister: bool,
    pub nolist: bool,
    pub soukai: bool,
    pub roomid: Option<String>,
    pub password: Option<String>,
}

impl DeepView for Eventstruct {
    type V = SessionData;

    open spec fn deep_view(&self) -> SessionData {
        SessionData {
            eventname: self.eventname@,
            eventinfo: self.eventinfo@,
            participants: self.participants.deep_view(),
            todaylist: self.todaylist.deep_view(),
            arrowtoday: self.arrowtoday,
            autotodayregister: self.autotodayregister,
            nolist: self.nolist,
            soukai: self.soukai,
            roomid: self.roomid.deep_view(),
            password: self.password.deep_view(),
        }
    }
}

/// Copies a roster, entry by entry.
pub fn clone_string_vec(v: &Vec<String>) -> (r: Vec<String>)
    ensures
        r.deep_view() == v.deep_view(),
{
    let mut r: Vec<String> = Vec::new();
    let n = v.len();
    for i in 0..n
        invariant
            n == v.len(),
            r.deep_view() =~= v.deep_view().take(i as int),
    {
        let s = v[i].clone();
        assert(s@ == v@[i as int]@);
        let ghost prev = r.deep_view();
        r.push(s);
        assert(r.deep_view() =~= prev.push(s@));
        assert(prev.push(s@) =~= v.deep_view().take(i + 1));
    }
    assert(v.deep_view().take(n as int) =~= v.deep_view());
    r
}

/// Copies an optional roster.
pub fn clone_opt_string_vec(v: &Option<Vec<String>>) -> (r: Option<Vec<String>>)
    ensures
        r.deep_view() == v.deep_view(),
{
    match v {
        Some(list) => Some(clone_string_vec(list)),
        None => None,
    }
}

/// Copies an optional text field.
pub fn clone_opt_string(v: &Option<String>) -> (r: Option<String>)
    ensures
        r.deep_view() == v.deep_view(),
{
    match v {
        Some(s) => Some(s.clone()),
        None => None,
    }
}

impl Eventstruct {
    /// A full copy of this session record.
    pub fn duplicate(&self) -> (r: Eventstruct)
        ensures
            r.deep_view() == self.deep_view(),
    {
        let r = Eventstruct {
            eventname: self.eventname.clone(),
            eventinfo: self.eventinfo.clone(),
            participants: clone_string_vec(&self.participants),
            todaylist: clone_opt_string_vec(&self.todaylist),
            arrowtoday: self.arrowtoday,
            autotodayregister: self.autotodayregister,
            nolist: self.nolist,
            soukai: self.soukai,
            roomid: clone_opt_string(&self.roomid),
            password: clone_opt_string(&self.password),
        };
        assert(r.deep_view() =~~= self.deep_view());
        r
    }
}

/// One entry of a raw participant roster as it arrives at registration:
/// either a bare identifier, an object carrying an identifier and possibly an
/// attendance mark, or something of neither shape.
pub enum ParticipantInput {
    /// A bare identifier.
    Name(String),
    /// An object form: the identifier is kept, the attendance mark is
    /// accepted for compatibility but discarded.
    Object { id: String, attended: Option<bool> },
    /// Any other shape; it contributes nothing to the roster.
    Unrecognized,
}

/// The roster that a raw participant list normalizes to: bare identifiers and
/// object identifiers in order, everything else skipped.
pub open spec fn normalized_participants(s: Seq<ParticipantInput>) -> Seq<Seq<char>>
    decreases s.len(),
{
    if s.len() == 0 {
        Seq::empty()
    } else {
        normalized_participants(s.drop_last()) + match s.last() {
            ParticipantInput::Name(name) => seq![name@],
            ParticipantInput::Object { id, .. } => seq![id@],
            ParticipantInput::Unrecognized => Seq::<Seq<char>>::empty(),
        }
    }
}

/// Normalizes a raw participant list to plain identifier strings: a bare
/// identifier is kept as is, an object form contributes its identifier (its
/// attendance mark is discarded), anything else is skipped.
pub fn normalize_participants(inputs: &Vec<ParticipantInput>) -> (r: Vec<String>)
    ensures
        r.deep_view() == normalized_participants(inputs@),
{
    let mut r: Vec<String> = Vec::new();
    let n = inputs.len();
    for i in 0..n
        invariant
            n == inputs.len(),
            r.deep_view() =~= normalized_participants(inputs@.take(i as int)),
    {
        assert(inputs@.take(i + 1).drop_last() =~= inputs@.take(i as int));
        match &inputs[i] {
            ParticipantInput::Name(name) => { r.push(name.clone()); }
            ParticipantInput::Object { id, .. } => { r.push(id.clone()); }
            ParticipantInput::Unrecognized => {}
        }
        assert(r.deep_view() =~= normalized_participants(inputs@.take(i + 1)));
    }
    assert(inputs@.take(n as int) =~= inputs@);
    r
}

} // verus!
