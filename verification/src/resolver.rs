//! The session resolver: from the kind of an event and the state of its
//! user on its host to what is written first and which session the event
//! joins.
//!
//! | event | state | closed first | session of the event |
//! |---|---|---|---|
//! | login | no open session | nothing | a fresh identifier |
//! | login | open session | that session | a fresh identifier |
//! | logout | open session | nothing | that session |
//! | logout | no open session | nothing | `orphan_` and a fresh identifier |
//! | hardware report | any | nothing | `hardware_` and a fresh identifier |
//!
//! For a login the state is that of the day of the login; for a logout it
//! is that of all days.

use vstd::prelude::*;
use vstd::string::*;
use crate::database::{normalized_host, state_of, Database, SessionState, SessionStateView};
use crate::models::{ClientEvent, ClientEventView, DbEventView};
use crate::session::{is_generated_id, well_formed_id};
use crate::text::{opt_text, text_eq};

verus! {

/// What an event is, as its action code tells.
#[derive(Debug, Clone, Copy, PartialEq, Eq, Structural)]
pub enum EventKind {
    /// A login, code `C`.
    Connect,
    /// A logout, code `D`.
    Disconnect,
    /// A hardware inventory, code `M`.
    HardwareReport,
}

/// What the resolver reads from the table before it decides.
#[derive(Debug, Clone, Copy, PartialEq, Eq, Structural)]
pub enum Lookup {
    /// The open session of the user on the host on the day of the event.
    OpenToday,
    /// The open session of the user on the host, of whatever day.
    LastOpen,
    /// Nothing.
    Nothing,
}

/// Where the identifier of an event's session comes from.
#[derive(Debug)]
pub enum IdSource {
    /// It is generated.
    Fresh,
    /// It is that of the session which the event joins.
    Existing(String),
    /// It is `orphan_` and a generated identifier.
    Orphan,
    /// It is `hardware_` and a generated identifier.
    Hardware,
}

/// The view of an [`IdSource`].
pub enum IdSourceView {
    Fresh,
    Existing(Seq<char>),
    Orphan,
    Hardware,
}

impl View for IdSource {
    type V = IdSourceView;

    open spec fn view(&self) -> IdSourceView {
        match self {
            IdSource::Fresh => IdSourceView::Fresh,
            IdSource::Existing(session) => IdSourceView::Existing(session@),
            IdSource::Orphan => IdSourceView::Orphan,
            IdSource::Hardware => IdSourceView::Hardware,
        }
    }
}

/// What the resolver decides for an event.
#[derive(Debug)]
pub struct Resolution {
    /// The session that a made-up logout closes before the event is
    /// stored, if any.
    pub close_first: Option<String>,
    /// Where the identifier of the event's own session comes from.
    pub id: IdSource,
}

/// The view of a [`Resolution`].
pub struct ResolutionView {
    pub close_first: Option<Seq<char>>,
    pub id: IdSourceView,
}

impl View for Resolution {
    type V = ResolutionView;

    open spec fn view(&self) -> ResolutionView {
        ResolutionView { close_first: opt_text(self.close_first), id: self.id@ }
    }
}

/// The kind of event that the action code `action` stands for.
pub open spec fn kind_of(action: Seq<char>) -> Option<EventKind> {
    if action == "C"@ {
        Some(EventKind::Connect)
    } else if action == "D"@ {
        Some(EventKind::Disconnect)
    } else if action == "M"@ {
        Some(EventKind::HardwareReport)
    } else {
        None
    }
}

/// What the resolver reads for an event of kind `kind`.
pub open spec fn lookup_of(kind: EventKind) -> Lookup {
    match kind {
        EventKind::Connect => Lookup::OpenToday,
        EventKind::Disconnect => Lookup::LastOpen,
        EventKind::HardwareReport => Lookup::Nothing,
    }
}

/// The decision for an event of kind `kind` whose user stands at `state`
/// on its host.
pub open spec fn resolution_of(kind: EventKind, state: SessionStateView) -> ResolutionView {
    match kind {
        EventKind::Connect => match state {
            SessionStateView::NoOpenSession => ResolutionView {
                close_first: None,
                id: IdSourceView::Fresh,
            },
            SessionStateView::OpenSession(old) => ResolutionView {
                close_first: Some(old),
                id: IdSourceView::Fresh,
            },
        },
        EventKind::Disconnect => match state {
            SessionStateView::OpenSession(old) => ResolutionView {
                close_first: None,
                id: IdSourceView::Existing(old),
            },
            SessionStateView::NoOpenSession => ResolutionView {
                close_first: None,
                id: IdSourceView::Orphan,
            },
        },
        EventKind::HardwareReport => ResolutionView {
            close_first: None,
            id: IdSourceView::Hardware,
        },
    }
}

/// The state that the resolver reads for `event` of kind `kind` from the
/// table `rows`: for a login that of the day of the event, for a logout
/// that of all days, for a hardware report none.
pub open spec fn state_read(rows: Seq<DbEventView>, kind: EventKind, event: ClientEventView) -> SessionStateView {
    match lookup_of(kind) {
        Lookup::OpenToday => state_of(rows, event.username, event.host(), Some(event.timestamp)),
        Lookup::LastOpen => state_of(rows, event.username, event.host(), None),
        Lookup::Nothing => SessionStateView::NoOpenSession,
    }
}

/// The decision for `event` of kind `kind` on the table `rows`.
pub open spec fn resolution_on(rows: Seq<DbEventView>, kind: EventKind, event: ClientEventView) -> ResolutionView {
    resolution_of(kind, state_read(rows, kind, event))
}

/// `id` is a fresh identifier for the user and host of `event`.
pub open spec fn fresh_for(id: Seq<char>, event: ClientEventView) -> bool {
    &&& is_generated_id(id, event.username, event.host(), event.timestamp)
    &&& well_formed_id(id, event.username, event.host())
}

/// `id` is an identifier that `source` yields for `event`.
pub open spec fn identifies(source: IdSourceView, event: ClientEventView, id: Seq<char>) -> bool {
    match source {
        IdSourceView::Fresh => fresh_for(id, event),
        IdSourceView::Existing(session) => id == session,
        IdSourceView::Orphan => exists|fresh: Seq<char>| #[trigger]
            fresh_for(fresh, event) && id == "orphan_"@ + fresh,
        IdSourceView::Hardware => exists|fresh: Seq<char>| #[trigger]
            fresh_for(fresh, event) && id == "hardware_"@ + fresh,
    }
}

/// The kind of event that the action code `action` stands for.
pub fn event_kind(action: &str) -> (kind: Option<EventKind>)
    ensures
        kind == kind_of(action@),
{
    if text_eq(action, "C") {
        Some(EventKind::Connect)
    } else if text_eq(action, "D") {
        Some(EventKind::Disconnect)
    } else if text_eq(action, "M") {
        Some(EventKind::HardwareReport)
    } else {
        None
    }
}

/// What the resolver reads for an event of kind `kind`.
pub fn lookup_for(kind: EventKind) -> (lookup: Lookup)
    ensures
        lookup == lookup_of(kind),
{
    match kind {
        EventKind::Connect => Lookup::OpenToday,
        EventKind::Disconnect => Lookup::LastOpen,
        EventKind::HardwareReport => Lookup::Nothing,
    }
}

/// The state that the resolver reads for `event` of kind `kind` from the
/// table `db`.
pub fn read_state(db: &Database, kind: EventKind, event: &ClientEvent) -> (state: SessionState)
    ensures
        state@ == state_read(db@, kind, event@),
{
    let hostname = normalized_host(&event.hostname);
    match lookup_for(kind) {
        Lookup::OpenToday => db.session_state(
            event.username.as_str(),
            hostname,
            Some(event.timestamp.as_str()),
        ),
        Lookup::LastOpen => db.session_state(event.username.as_str(), hostname, None),
        Lookup::Nothing => SessionState::NoOpenSession,
    }
}

/// The decision for an event of kind `kind` whose user stands at `state`
/// on its host.
pub fn resolve(kind: EventKind, state: SessionState) -> (resolution: Resolution)
    ensures
        resolution@ == resolution_of(kind, state@),
{
    match kind {
        EventKind::Connect => match state {
            SessionState::NoOpenSession => Resolution { close_first: None, id: IdSource::Fresh },
            SessionState::OpenSession(old) => Resolution {
                close_first: Some(old),
                id: IdSource::Fresh,
            },
        },
        EventKind::Disconnect => match state {
            SessionState::OpenSession(old) => Resolution {
                close_first: None,
                id: IdSource::Existing(old),
            },
            SessionState::NoOpenSession => Resolution { close_first: None, id: IdSource::Orphan },
        },
        EventKind::HardwareReport => Resolution { close_first: None, id: IdSource::Hardware },
    }
}

/// The identifier that `source` yields for `event`; a generated one is
/// salted with the clock.
pub fn session_id_for(source: IdSource, event: &ClientEvent) -> (id: String)
    ensures
        identifies(source@, event@, id@),
{
    if let IdSource::Existing(session) = source {
        return session;
    }
    let fresh = Database::generate_session_id(
        event.username.as_str(),
        normalized_host(&event.hostname),
        event.timestamp.as_str(),
    );
    assert(fresh_for(fresh@, event@));
    match source {
        IdSource::Orphan => {
            let mut id = String::from_str("orphan_");
            id.append(fresh.as_str());
            id
        },
        IdSource::Hardware => {
            let mut id = String::from_str("hardware_");
            id.append(fresh.as_str());
            id
        },
        _ => fresh,
    }
}

} // verus!
