//! Session synchronization core for short-lived, identifier-keyed attendance
//! sessions: the shared session-state stores, the merge semantics applied to
//! concurrently submitted attendance updates, the room-scoped broadcast model,
//! and the settings-override resolution applied at join time.

use vstd::prelude::*;

pub mod handlers;
pub mod log;
pub mod merge;
pub mod rooms;
pub mod session;
pub mod store;
mod trusted;

pub use session::Eventstruct;
pub use session::JsonToTodayStruct;
pub use session::ParticipantInput;
pub use session::SessionData;
pub use session::normalize_participants;
pub use store::AppState;
pub use store::AppState2;
pub use store::AppState3;
pub use store::AppState4;
pub use store::get_app_state;
pub use store::get_app_state2;
pub use store::get_app_state3;
pub use store::get_app_state4;

verus! {

/// The four display/behavior flags of a session. An update through the
/// settings path replaces all four at once, never a partial merge.
#[derive(Clone, Copy, Debug, PartialEq, Eq, Structural)]
pub struct Settings {
    pub arrowtoday: bool,
    pub autotodayregister: bool,
    pub soukai: bool,
    pub nolist: bool,
}

impl DeepView for Settings {
    type V = Settings;

    open spec fn deep_view(&self) -> Settings {
        *self
    }
}

} // verus!
