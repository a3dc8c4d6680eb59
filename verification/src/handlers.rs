//! The ingestion handler.
//!
//! A request is checked, the address it came from is worked out, the event
//! is resolved to a session, and the event is stored. Nothing is written
//! for a request that fails a check.

use vstd::prelude::*;
use vstd::string::*;
use crate::config::{texts, Config, SecurityConfig};
use crate::database::{auto_disconnect, stored_event, Database};
use crate::models::{ClientEvent, ClientEventView, DbEventView, ErrorResponse, SuccessResponse};
use crate::resolver::{
    event_kind,
    identifies,
    kind_of,
    read_state,
    resolution_on,
    resolve,
    session_id_for,
    EventKind,
    IdSource,
    IdSourceView,
};
use crate::text::{
    before_first,
    contains_char,
    first_field,
    opt_text,
    starts_with,
    text_eq,
    trim,
    trimmed,
};

verus! {

/// What the server keeps between requests: its configuration and the event
/// table.
pub struct AppState {
    pub config: Config,
    pub db: Database,
}

/// The headers of a request that the server reads, each absent where the
/// request did not carry it or carried it in a form that is not text.
#[derive(Debug)]
pub struct Headers {
    pub user_agent: Option<String>,
    pub cf_connecting_ip: Option<String>,
    pub x_forwarded_for: Option<String>,
}

/// Why a request was refused.
#[derive(Debug)]
pub enum Rejection {
    /// The signature of the agent does not begin as configured.
    InvalidUserAgent,
    /// User name, action or timestamp is empty.
    MissingFields,
    /// The action is not in the configured list; it is carried along.
    InvalidAction(String),
    /// The timestamp holds no `T`.
    InvalidTimestamp,
    /// The action is in the configured list and still none that the
    /// resolver knows.
    UnknownAction,
    /// The event table did not take a row.
    Storage,
}

/// The view of a [`Rejection`].
pub enum RejectionView {
    InvalidUserAgent,
    MissingFields,
    InvalidAction(Seq<char>),
    InvalidTimestamp,
    UnknownAction,
    Storage,
}

impl View for Rejection {
    type V = RejectionView;

    open spec fn view(&self) -> RejectionView {
        match self {
            Rejection::InvalidUserAgent => RejectionView::InvalidUserAgent,
            Rejection::MissingFields => RejectionView::MissingFields,
            Rejection::InvalidAction(action) => RejectionView::InvalidAction(action@),
            Rejection::InvalidTimestamp => RejectionView::InvalidTimestamp,
            Rejection::UnknownAction => RejectionView::UnknownAction,
            Rejection::Storage => RejectionView::Storage,
        }
    }
}

impl RejectionView {
    /// The fault lies with the request, which is then not to be sent again
    /// as it is; a storage failure is the server's, and worth a retry.
    pub open spec fn is_client_error(self) -> bool {
        !(self is Storage)
    }

    /// The HTTP status that answers the refusal.
    pub open spec fn status(self) -> int {
        match self {
            RejectionView::InvalidUserAgent => 403,
            RejectionView::Storage => 500,
            _ => 400,
        }
    }

    /// The refusal in words.
    pub open spec fn message(self) -> Seq<char> {
        match self {
            RejectionView::InvalidUserAgent => "Invalid User-Agent"@,
            RejectionView::MissingFields => "Invalid JSON structure: missing required fields"@,
            RejectionView::InvalidAction(action) => "Invalid action: "@ + action,
            RejectionView::InvalidTimestamp => "Invalid timestamp format (expected ISO 8601)"@,
            RejectionView::UnknownAction => "Unknown action"@,
            RejectionView::Storage => "Database error"@,
        }
    }
}

impl Rejection {
    /// Whether the fault lies with the request.
    pub fn is_client_error(&self) -> (client: bool)
        ensures
            client == self@.is_client_error(),
    {
        match self {
            Rejection::Storage => false,
            _ => true,
        }
    }

    /// The HTTP status that answers the refusal: 403 for a wrong
    /// signature, 500 for a storage failure, 400 for the rest.
    pub fn status(&self) -> (code: u16)
        ensures
            code == self@.status(),
    {
        match self {
            Rejection::InvalidUserAgent => 403,
            Rejection::Storage => 500,
            _ => 400,
        }
    }

    /// The refusal in words.
    pub fn message(&self) -> (text: String)
        ensures
            text@ == self@.message(),
    {
        match self {
            Rejection::InvalidUserAgent => String::from_str("Invalid User-Agent"),
            Rejection::MissingFields => String::from_str(
                "Invalid JSON structure: missing required fields",
            ),
            Rejection::InvalidAction(action) => {
                let mut text = String::from_str("Invalid action: ");
                text.append(action.as_str());
                text
            },
            Rejection::InvalidTimestamp => String::from_str(
                "Invalid timestamp format (expected ISO 8601)",
            ),
            Rejection::UnknownAction => String::from_str("Unknown action"),
            Rejection::Storage => String::from_str("Database error"),
        }
    }

    /// The body that answers the refusal: its message, without details.
    pub fn response(&self) -> (body: ErrorResponse)
        ensures
            body.error@ == self@.message(),
            body.details is None,
    {
        let text = self.message();
        ErrorResponse::new(text.as_str())
    }
}

/// The first check that a request fails, in the order in which they are
/// made: the agent's signature begins with `expected_user_agent` (an absent
/// signature counts as empty); user name, action and timestamp are not
/// empty; the action is one of `valid_actions`; the timestamp holds a `T`.
pub open spec fn first_failure(
    expected_user_agent: Seq<char>,
    valid_actions: Seq<Seq<char>>,
    user_agent: Option<Seq<char>>,
    event: ClientEventView,
) -> Option<RejectionView> {
    let signature = match user_agent {
        Some(agent) => agent,
        None => Seq::<char>::empty(),
    };
    if !expected_user_agent.is_prefix_of(signature) {
        Some(RejectionView::InvalidUserAgent)
    } else if event.username.len() == 0 || event.action.len() == 0 || event.timestamp.len() == 0 {
        Some(RejectionView::MissingFields)
    } else if !valid_actions.contains(event.action) {
        Some(RejectionView::InvalidAction(event.action))
    } else if !event.timestamp.contains('T') {
        Some(RejectionView::InvalidTimestamp)
    } else {
        None
    }
}

/// The address that a request came from: what the CDN's header says; else
/// the first entry of the forwarding header, up to its first comma and
/// without white space around it; else the address of the peer.
pub open spec fn real_ip(
    cf_connecting_ip: Option<Seq<char>>,
    x_forwarded_for: Option<Seq<char>>,
    peer: Seq<char>,
) -> Seq<char> {
    match cf_connecting_ip {
        Some(address) => address,
        None => match x_forwarded_for {
            Some(chain) => trimmed(first_field(chain, ',')),
            None => peer,
        },
    }
}

/// `after` is `before` and one more row: the logout that the server makes
/// up to close `session` before the login `event`, stamped with whatever
/// the server's clock showed.
pub open spec fn appended_auto_disconnect(
    before: Seq<DbEventView>,
    after: Seq<DbEventView>,
    event: ClientEventView,
    session: Seq<char>,
    source_ip: Seq<char>,
) -> bool {
    &&& after.len() == before.len() + 1
    &&& after == before.push(
        auto_disconnect(
            before.len() as int + 1,
            event,
            session,
            source_ip,
            after.last().server_timestamp,
        ),
    )
}

/// `after` is `before` and one more row: `event` itself in the session
/// `session`, stamped with whatever the server's clock showed.
pub open spec fn appended_event(
    before: Seq<DbEventView>,
    after: Seq<DbEventView>,
    event: ClientEventView,
    session: Seq<char>,
    source_ip: Seq<char>,
) -> bool {
    &&& after.len() == before.len() + 1
    &&& after == before.push(
        stored_event(
            before.len() as int + 1,
            event,
            session,
            source_ip,
            after.last().server_timestamp,
        ),
    )
}

/// What resolving `event` of kind `kind` does to a table of `before` that
/// takes `limit` rows, and what it gives. The resolver decides on the
/// state that it reads from `before`. Where it closes no session, nothing
/// is written and `r` is the identifier of the event's session. Where it
/// closes one, the logout that closes it is written and `r` is the
/// identifier; where the table is full, nothing is written and `r` is the
/// storage failure.
pub open spec fn event_resolved(
    before: Seq<DbEventView>,
    after: Seq<DbEventView>,
    limit: nat,
    kind: EventKind,
    event: ClientEventView,
    source_ip: Seq<char>,
    r: Result<Seq<char>, RejectionView>,
) -> bool {
    let resolution = resolution_on(before, kind, event);
    match resolution.close_first {
        None => {
            &&& after == before
            &&& r matches Ok(id)
            &&& identifies(resolution.id, event, id)
        },
        Some(old) => if before.len() >= limit {
            &&& after == before
            &&& r == Err::<Seq<char>, RejectionView>(RejectionView::Storage)
        } else {
            &&& appended_auto_disconnect(before, after, event, old, source_ip)
            &&& r matches Ok(id)
            &&& identifies(resolution.id, event, id)
        },
    }
}

/// What storing the resolved `event` does to a table of `before` that
/// takes `limit` rows: one row more and its number with the session, or
/// nothing written and the storage failure where the table is full.
pub open spec fn event_stored(
    before: Seq<DbEventView>,
    after: Seq<DbEventView>,
    limit: nat,
    event: ClientEventView,
    source_ip: Seq<char>,
    session: Seq<char>,
    r: Result<(int, Seq<char>), RejectionView>,
) -> bool {
    if before.len() >= limit {
        &&& after == before
        &&& r == Err::<(int, Seq<char>), RejectionView>(RejectionView::Storage)
    } else {
        &&& appended_event(before, after, event, session, source_ip)
        &&& r == Ok::<(int, Seq<char>), RejectionView>((before.len() as int + 1, session))
    }
}

/// What handling an accepted `event` of kind `kind` does to a table of
/// `before` that takes `limit` rows, and what it answers: the event is
/// resolved to a session, which leaves the table at some `middle`, then
/// stored in that session.
pub open spec fn event_processed(
    before: Seq<DbEventView>,
    after: Seq<DbEventView>,
    limit: nat,
    kind: EventKind,
    event: ClientEventView,
    source_ip: Seq<char>,
    r: Result<(int, Seq<char>), RejectionView>,
) -> bool {
    exists|middle: Seq<DbEventView>, resolved: Result<Seq<char>, RejectionView>|
        {
            &&& #[trigger] event_resolved(before, middle, limit, kind, event, source_ip, resolved)
            &&& match resolved {
                Ok(session) => event_stored(middle, after, limit, event, source_ip, session, r),
                Err(refusal) => after == middle && r == Err::<(int, Seq<char>), RejectionView>(
                    refusal,
                ),
            }
        }
}

/// What a request does to a table of `before` that takes `limit` rows, and
/// what it answers. A request that fails a check is refused with that
/// check's refusal and writes nothing; so is one whose action is
/// configured as valid and is none of `C`, `D`, `M`. Any other is
/// processed as its kind asks, with the address worked out from the
/// headers and the peer.
pub open spec fn request_handled(
    before: Seq<DbEventView>,
    after: Seq<DbEventView>,
    limit: nat,
    expected_user_agent: Seq<char>,
    valid_actions: Seq<Seq<char>>,
    user_agent: Option<Seq<char>>,
    cf_connecting_ip: Option<Seq<char>>,
    x_forwarded_for: Option<Seq<char>>,
    peer: Seq<char>,
    event: ClientEventView,
    r: Result<(int, Seq<char>), RejectionView>,
) -> bool {
    match first_failure(expected_user_agent, valid_actions, user_agent, event) {
        Some(refusal) => after == before && r == Err::<(int, Seq<char>), RejectionView>(refusal),
        None => match kind_of(event.action) {
            None => after == before && r == Err::<(int, Seq<char>), RejectionView>(
                RejectionView::UnknownAction,
            ),
            Some(kind) => event_processed(
                before,
                after,
                limit,
                kind,
                event,
                real_ip(cf_connecting_ip, x_forwarded_for, peer),
                r,
            ),
        },
    }
}

/// The refusal or the identifier that a resolution came to.
pub open spec fn resolved_view(r: Result<String, Rejection>) -> Result<Seq<char>, RejectionView> {
    match r {
        Ok(id) => Ok(id@),
        Err(refusal) => Err(refusal@),
    }
}

/// The number and session of the stored row, or the refusal, that an
/// answer carries.
pub open spec fn answer_view(r: Result<SuccessResponse, Rejection>) -> Result<
    (int, Seq<char>),
    RejectionView,
> {
    match r {
        Ok(response) => Ok((response.event_id as int, response.session_uuid@)),
        Err(refusal) => Err(refusal@),
    }
}

/// Whether `action` is one of `valid_actions`.
fn is_valid_action(valid_actions: &Vec<String>, action: &str) -> (valid: bool)
    ensures
        valid == texts(valid_actions@).contains(action@),
{
    let mut i: usize = 0;
    while i < valid_actions.len()
        invariant
            i <= valid_actions@.len(),
            forall|j: int| 0 <= j < i ==> texts(valid_actions@)[j] != action@,
        decreases valid_actions@.len() - i,
    {
        if text_eq(valid_actions[i].as_str(), action) {
            assert(texts(valid_actions@)[i as int] == action@);
            return true;
        }
        i += 1;
    }
    false
}

/// Checks a request before anything is read or written for it: `Ok` where
/// it passes every check, else the refusal of the first check that it
/// fails.
pub fn validate_request(
    security: &SecurityConfig,
    user_agent: &Option<String>,
    event: &ClientEvent,
) -> (r: Result<(), Rejection>)
    ensures
        match r {
            Ok(_) => first_failure(
                security.expected_user_agent@,
                texts(security.valid_actions@),
                opt_text(*user_agent),
                event@,
            ) is None,
            Err(refusal) => first_failure(
                security.expected_user_agent@,
                texts(security.valid_actions@),
                opt_text(*user_agent),
                event@,
            ) == Some(refusal@),
        },
{
    let signature = match user_agent {
        Some(agent) => agent.as_str(),
        None => "",
    };
    proof {
        reveal_strlit("");
        assert(""@ =~= Seq::<char>::empty());
    }
    if !starts_with(signature, security.expected_user_agent.as_str()) {
        return Err(Rejection::InvalidUserAgent);
    }
    if event.username.as_str().is_empty() || event.action.as_str().is_empty()
        || event.timestamp.as_str().is_empty() {
        return Err(Rejection::MissingFields);
    }
    if !is_valid_action(&security.valid_actions, event.action.as_str()) {
        return Err(Rejection::InvalidAction(event.action.clone()));
    }
    if !contains_char(event.timestamp.as_str(), 'T') {
        return Err(Rejection::InvalidTimestamp);
    }
    Ok(())
}

/// The address that a request came from: what the CDN's header says; else
/// the first entry of the forwarding header; else the address of the peer.
pub fn extract_real_ip(headers: &Headers, peer: &str) -> (address: String)
    ensures
        address@ == real_ip(
            opt_text(headers.cf_connecting_ip),
            opt_text(headers.x_forwarded_for),
            peer@,
        ),
{
    match &headers.cf_connecting_ip {
        Some(address) => address.clone(),
        None => match &headers.x_forwarded_for {
            Some(chain) => trim(before_first(chain.as_str(), ',')).to_owned(),
            None => peer.to_owned(),
        },
    }
}

/// Resolves `event` of kind `kind`: reads the state of its user on its
/// host, decides, writes the logout that closes a session where the
/// decision asks for one, and gives the identifier of the event's session.
pub fn resolve_event(state: &mut AppState, kind: EventKind, event: &ClientEvent, source_ip: &str) -> (r:
    Result<String, Rejection>)
    requires
        old(state).db.wf(),
    ensures
        final(state).db.wf(),
        final(state).db.limit() == old(state).db.limit(),
        final(state).config == old(state).config,
        event_resolved(
            old(state).db@,
            final(state).db@,
            old(state).db.limit(),
            kind,
            event@,
            source_ip@,
            resolved_view(r),
        ),
{
    let resolution = resolve(kind, read_state(&state.db, kind, event));
    if let Some(old_session) = &resolution.close_first {
        match state.db.insert_auto_disconnect(event, old_session.as_str(), source_ip) {
            Ok(_) => {},
            Err(_) => {
                return Err(Rejection::Storage);
            },
        }
    }
    Ok(session_id_for(resolution.id, event))
}

/// Resolves a login. Where a session of the user on the host is open on
/// the day of the event, the logout that closes the latest one is written
/// first, dated one second before the login. The session of the login is
/// a fresh identifier.
pub fn handle_connection(state: &mut AppState, event: &ClientEvent, source_ip: &str) -> (r: Result<
    String,
    Rejection,
>)
    requires
        old(state).db.wf(),
    ensures
        final(state).db.wf(),
        final(state).db.limit() == old(state).db.limit(),
        final(state).config == old(state).config,
        event_resolved(
            old(state).db@,
            final(state).db@,
            old(state).db.limit(),
            EventKind::Connect,
            event@,
            source_ip@,
            resolved_view(r),
        ),
{
    resolve_event(state, EventKind::Connect, event, source_ip)
}

/// Resolves a logout: to the latest open session of the user on the host,
/// of whatever day; with none open, to `orphan_` and a fresh identifier.
/// Nothing is written.
pub fn handle_disconnection(state: &AppState, event: &ClientEvent) -> (id: String)
    ensures
        resolution_on(state.db@, EventKind::Disconnect, event@).close_first is None,
        identifies(resolution_on(state.db@, EventKind::Disconnect, event@).id, event@, id@),
{
    let resolution = resolve(
        EventKind::Disconnect,
        read_state(&state.db, EventKind::Disconnect, event),
    );
    session_id_for(resolution.id, event)
}

/// Resolves a hardware report: to `hardware_` and a fresh identifier. It
/// joins no session, and nothing is written.
pub fn handle_hardware(event: &ClientEvent) -> (id: String)
    ensures
        identifies(IdSourceView::Hardware, event@, id@),
{
    session_id_for(IdSource::Hardware, event)
}

/// Handles one request: checks it, works out where it came from, resolves
/// the event to a session and stores it. The answer echoes the number of
/// the stored row, the session, the action and the user.
pub fn collect_event(state: &mut AppState, headers: &Headers, peer: &str, event: &ClientEvent) -> (r:
    Result<SuccessResponse, Rejection>)
    requires
        old(state).db.wf(),
    ensures
        final(state).db.wf(),
        final(state).db.limit() == old(state).db.limit(),
        final(state).config == old(state).config,
        request_handled(
            old(state).db@,
            final(state).db@,
            old(state).db.limit(),
            old(state).config.security.expected_user_agent@,
            texts(old(state).config.security.valid_actions@),
            opt_text(headers.user_agent),
            opt_text(headers.cf_connecting_ip),
            opt_text(headers.x_forwarded_for),
            peer@,
            event@,
            answer_view(r),
        ),
        r matches Ok(response) ==> {
            &&& response.status@ == "success"@
            &&& response.message@ == "Data stored in database"@
            &&& response.action@ == event.action@
            &&& response.username@ == event.username@
        },
{
    match validate_request(&state.config.security, &headers.user_agent, event) {
        Ok(_) => {},
        Err(refusal) => {
            return Err(refusal);
        },
    }
    let source_ip = extract_real_ip(headers, peer);
    let kind = match event_kind(event.action.as_str()) {
        Some(kind) => kind,
        None => {
            return Err(Rejection::UnknownAction);
        },
    };
    let session_uuid = match kind {
        EventKind::Connect => match handle_connection(state, event, source_ip.as_str()) {
            Ok(id) => id,
            Err(refusal) => {
                return Err(refusal);
            },
        },
        EventKind::Disconnect => handle_disconnection(state, event),
        EventKind::HardwareReport => handle_hardware(event),
    };
    assert(event_resolved(
        old(state).db@,
        state.db@,
        state.db.limit(),
        kind,
        event@,
        source_ip@,
        Ok(session_uuid@),
    ));
    let ghost middle = state.db@;
    let event_id = match state.db.insert_event(event, session_uuid.as_str(), source_ip.as_str()) {
        Ok(id) => id,
        Err(_) => {
            assert(event_stored(
                middle,
                state.db@,
                state.db.limit(),
                event@,
                source_ip@,
                session_uuid@,
                Err(RejectionView::Storage),
            ));
            return Err(Rejection::Storage);
        },
    };
    assert(event_stored(
        middle,
        state.db@,
        state.db.limit(),
        event@,
        source_ip@,
        session_uuid@,
        Ok((event_id as int, session_uuid@)),
    ));
    Ok(
        SuccessResponse {
            status: "success".to_owned(),
            message: "Data stored in database".to_owned(),
            event_id,
            session_uuid,
            action: event.action.clone(),
            username: event.username.clone(),
        },
    )
}

} // verus!
