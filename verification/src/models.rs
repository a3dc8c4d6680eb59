//! The records that travel between agent, server and event table, each with
//! its view: the same record with every string as the sequence of its
//! characters.

use vstd::prelude::*;
use crate::text::opt_text;

verus! {

/// What an agent reports of its operating system.
#[derive(Debug)]
pub struct OsInfo {
    pub os_name: Option<String>,
    pub os_version: Option<String>,
    pub kernel_version: Option<String>,
}

/// The view of an [`OsInfo`].
pub struct OsInfoView {
    pub os_name: Option<Seq<char>>,
    pub os_version: Option<Seq<char>>,
    pub kernel_version: Option<Seq<char>>,
}

impl View for OsInfo {
    type V = OsInfoView;

    open spec fn view(&self) -> OsInfoView {
        OsInfoView {
            os_name: opt_text(self.os_name),
            os_version: opt_text(self.os_version),
            kernel_version: opt_text(self.kernel_version),
        }
    }
}

/// An event as an agent reports it.
///
/// `action` is `"C"` for a login, `"D"` for a logout and `"M"` for a
/// hardware report; `hardware_info` is the JSON text of the hardware
/// inventory, carried through as it came.
#[derive(Debug)]
pub struct ClientEvent {
    pub username: String,
    pub action: String,
    pub timestamp: String,
    pub hostname: Option<String>,
    pub os_info: Option<OsInfo>,
    pub hardware_info: Option<String>,
}

/// The view of a [`ClientEvent`].
pub struct ClientEventView {
    pub username: Seq<char>,
    pub action: Seq<char>,
    pub timestamp: Seq<char>,
    pub hostname: Option<Seq<char>>,
    pub os_info: Option<OsInfoView>,
    pub hardware_info: Option<Seq<char>>,
}

impl View for ClientEvent {
    type V = ClientEventView;

    open spec fn view(&self) -> ClientEventView {
        ClientEventView {
            username: self.username@,
            action: self.action@,
            timestamp: self.timestamp@,
            hostname: opt_text(self.hostname),
            os_info: match self.os_info {
                Some(os) => Some(os@),
                None => None,
            },
            hardware_info: opt_text(self.hardware_info),
        }
    }
}

impl ClientEventView {
    /// The host that the event is matched under: the reported one, or
    /// `unknown` where none was reported.
    pub open spec fn host(self) -> Seq<char> {
        host_or_unknown(self.hostname)
    }

    /// The reported name of the operating system, if any.
    pub open spec fn os_name(self) -> Option<Seq<char>> {
        match self.os_info {
            Some(os) => os.os_name,
            None => None,
        }
    }

    /// The reported version of the operating system, if any.
    pub open spec fn os_version(self) -> Option<Seq<char>> {
        match self.os_info {
            Some(os) => os.os_version,
            None => None,
        }
    }

    /// The reported kernel version, if any.
    pub open spec fn kernel_version(self) -> Option<Seq<char>> {
        match self.os_info {
            Some(os) => os.kernel_version,
            None => None,
        }
    }
}

/// The host name that stands for `hostname` in every match: `unknown` where
/// it is absent.
pub open spec fn host_or_unknown(hostname: Option<Seq<char>>) -> Seq<char> {
    match hostname {
        Some(h) => h,
        None => "unknown"@,
    }
}

/// One row of the event table.
#[derive(Debug)]
pub struct DbEvent {
    pub id: i64,
    pub username: String,
    pub action: String,
    pub timestamp: String,
    pub hostname: Option<String>,
    pub source_ip: Option<String>,
    pub server_timestamp: String,
    pub os_name: Option<String>,
    pub os_version: Option<String>,
    pub kernel_version: Option<String>,
    pub hardware_info: Option<String>,
    pub session_uuid: String,
    pub created_at: String,
}

/// The view of a [`DbEvent`].
pub struct DbEventView {
    pub id: int,
    pub username: Seq<char>,
    pub action: Seq<char>,
    pub timestamp: Seq<char>,
    pub hostname: Option<Seq<char>>,
    pub source_ip: Option<Seq<char>>,
    pub server_timestamp: Seq<char>,
    pub os_name: Option<Seq<char>>,
    pub os_version: Option<Seq<char>>,
    pub kernel_version: Option<Seq<char>>,
    pub hardware_info: Option<Seq<char>>,
    pub session_uuid: Seq<char>,
    pub created_at: Seq<char>,
}

impl View for DbEvent {
    type V = DbEventView;

    open spec fn view(&self) -> DbEventView {
        DbEventView {
            id: self.id as int,
            username: self.username@,
            action: self.action@,
            timestamp: self.timestamp@,
            hostname: opt_text(self.hostname),
            source_ip: opt_text(self.source_ip),
            server_timestamp: self.server_timestamp@,
            os_name: opt_text(self.os_name),
            os_version: opt_text(self.os_version),
            kernel_version: opt_text(self.kernel_version),
            hardware_info: opt_text(self.hardware_info),
            session_uuid: self.session_uuid@,
            created_at: self.created_at@,
        }
    }
}

/// An open session as a lookup finds it: its identifier and the timestamp
/// of the login that opened it.
#[derive(Debug)]
pub struct OpenSession {
    pub session_uuid: String,
    pub timestamp: String,
}

/// One line of the list of sessions that are open now.
#[derive(Debug)]
pub struct CurrentSession {
    pub username: String,
    pub hostname: Option<String>,
    pub connected_at: String,
    pub session_uuid: String,
    pub source_ip: Option<String>,
    pub os_name: Option<String>,
    pub os_version: Option<String>,
}

/// What the server answers for an event that it stored.
#[derive(Debug)]
pub struct SuccessResponse {
    pub status: String,
    pub message: String,
    pub event_id: i64,
    pub session_uuid: String,
    pub action: String,
    pub username: String,
}

/// What the server answers for an event that it did not store; `details`
/// is JSON text.
#[derive(Debug)]
pub struct ErrorResponse {
    pub error: String,
    pub details: Option<String>,
}

impl ErrorResponse {
    /// An answer with a message and no details.
    pub fn new(error: &str) -> (response: ErrorResponse)
        ensures
            response.error@ == error@,
            response.details is None,
    {
        ErrorResponse { error: error.to_owned(), details: None }
    }

    /// An answer with a message and details.
    pub fn with_details(error: &str, details: String) -> (response: ErrorResponse)
        ensures
            response.error@ == error@,
            response.details == Some(details),
    {
        ErrorResponse { error: error.to_owned(), details: Some(details) }
    }
}

/// A copy of an optional string.
pub fn copy_opt(s: &Option<String>) -> (copy: Option<String>)
    ensures
        opt_text(copy) == opt_text(*s),
{
    match s {
        Some(t) => Some(t.clone()),
        None => None,
    }
}

} // verus!
