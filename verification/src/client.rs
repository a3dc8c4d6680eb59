//! The agent's side: what it reports, how it decides whether a report is
//! fit to send, and what it does after each attempt to send one.
//!
//! Gathering facts about the machine and talking to the network are left
//! to the caller; this module takes what was gathered and says what to do
//! next.

use vstd::prelude::*;
use vstd::string::*;
use crate::client_config::{default_server_url, DEFAULT_TIMEOUT};
use crate::clock::get_current_timestamp;
use crate::info_map::InfoMap;
use crate::text::text_eq;

verus! {

/// A value of the hardware inventory: a count or a size, or a name.
#[derive(Debug)]
pub enum HardwareValue {
    Number(u64),
    Text(String),
}

/// What an agent sends to the server.
pub struct WinlogData {
    pub username: String,
    pub action: String,
    pub timestamp: String,
    pub hostname: String,
    pub os_info: InfoMap<String>,
    pub hardware_info: Option<InfoMap<HardwareValue>>,
}

/// Where an agent sends its reports, and how long it waits for an answer.
pub struct WinlogClient {
    server_url: String,
    timeout_secs: u64,
}

/// Where an agent sends its reports when it reports to a monitoring
/// server on the local network.
pub struct MonitoringClient {
    server_url: String,
    timeout_secs: u64,
}

/// Why the agent gave up on a report.
#[derive(Debug, Clone, Copy, PartialEq, Eq, Structural)]
pub enum ClientError {
    /// User name or action is empty.
    InvalidData,
    /// Every attempt to send failed.
    SendFailed,
}

/// What one attempt to send a report came to.
#[derive(Debug, Clone, Copy, PartialEq, Eq, Structural)]
pub enum Attempt {
    /// The server answered with this HTTP status.
    Status(i32),
    /// No answer came.
    NoAnswer,
}

/// What the agent does next with a report.
#[derive(Debug, Clone, Copy, PartialEq, Eq, Structural)]
pub enum NextStep {
    /// Send it now.
    Send,
    /// Wait this many milliseconds, then send it again.
    RetryAfter(u64),
    /// Nothing: the report is delivered.
    Done,
    /// Nothing: the report is not delivered, and no attempt is left.
    GiveUp,
}

/// Where a [`MonitoringClient`] reports by default.
pub open spec fn monitoring_server_url() -> Seq<char> {
    "http://192.168.122.1/winlog"@
}

/// The attempt delivered the report: the server answered with a status of
/// 200 to 299.
pub open spec fn delivered(outcome: Attempt) -> bool {
    outcome matches Attempt::Status(code) && 200 <= code < 300
}

/// What comes first: an attempt, where one at least is allowed.
pub open spec fn step_before(max_retries: u32) -> NextStep {
    if max_retries > 0 {
        NextStep::Send
    } else {
        NextStep::GiveUp
    }
}

/// What follows attempt number `attempt`, counted from 1, of at most
/// `max_retries`: done where it delivered the report; else another attempt
/// after `retry_delay_ms` while fewer than `max_retries` were made; else
/// nothing more.
pub open spec fn step_after(attempt: u32, max_retries: u32, retry_delay_ms: u64, outcome: Attempt) -> NextStep {
    if delivered(outcome) {
        NextStep::Done
    } else if attempt < max_retries {
        NextStep::RetryAfter(retry_delay_ms)
    } else {
        NextStep::GiveUp
    }
}

/// Whether one of the first `max_retries` of `outcomes` delivers the
/// report.
pub open spec fn report_delivered(outcomes: Seq<Attempt>, max_retries: u32) -> bool {
    exists|i: int| 0 <= i < outcomes.len() && i < max_retries && delivered(#[trigger] outcomes[i])
}

/// Whether a sender that follows [`step_after`] delivers its report, when
/// its attempts from number `attempt` on come to `outcomes`, one after the
/// other.
pub open spec fn delivers_from(
    outcomes: Seq<Attempt>,
    attempt: u32,
    max_retries: u32,
    retry_delay_ms: u64,
) -> bool
    decreases outcomes.len(),
{
    if outcomes.len() == 0 {
        false
    } else {
        match step_after(attempt, max_retries, retry_delay_ms, outcomes.first()) {
            NextStep::Done => true,
            NextStep::RetryAfter(_) => delivers_from(
                outcomes.drop_first(),
                (attempt + 1) as u32,
                max_retries,
                retry_delay_ms,
            ),
            _ => false,
        }
    }
}

/// Whether a sender that follows [`step_before`] and [`step_after`]
/// delivers its report, when its attempts come to `outcomes`.
pub open spec fn delivers(outcomes: Seq<Attempt>, max_retries: u32, retry_delay_ms: u64) -> bool {
    step_before(max_retries) == NextStep::Send && delivers_from(
        outcomes,
        1,
        max_retries,
        retry_delay_ms,
    )
}

/// From attempt number `attempt` on, a sender that follows [`step_after`]
/// delivers its report exactly where one of the attempts that are left to
/// it does.
pub proof fn lemma_delivers_from(
    outcomes: Seq<Attempt>,
    attempt: u32,
    max_retries: u32,
    retry_delay_ms: u64,
)
    requires
        1 <= attempt <= max_retries,
    ensures
        delivers_from(outcomes, attempt, max_retries, retry_delay_ms) <==> exists|i: int|
            0 <= i < outcomes.len() && attempt + i <= max_retries && delivered(
                #[trigger] outcomes[i],
            ),
    decreases outcomes.len(),
{
    if outcomes.len() > 0 {
        let rest = outcomes.drop_first();
        if delivered(outcomes[0]) {
        } else if attempt < max_retries {
            lemma_delivers_from(rest, (attempt + 1) as u32, max_retries, retry_delay_ms);
            if delivers_from(rest, (attempt + 1) as u32, max_retries, retry_delay_ms) {
                let i = choose|i: int|
                    0 <= i < rest.len() && attempt + 1 + i <= max_retries && delivered(
                        #[trigger] rest[i],
                    );
                assert(outcomes[i + 1] == rest[i]);
            }
            if exists|i: int|
                0 <= i < outcomes.len() && attempt + i <= max_retries && delivered(
                    #[trigger] outcomes[i],
                ) {
                let i = choose|i: int|
                    0 <= i < outcomes.len() && attempt + i <= max_retries && delivered(
                        #[trigger] outcomes[i],
                    );
                assert(rest[i - 1] == outcomes[i]);
            }
        } else {
            assert forall|i: int|
                0 <= i < outcomes.len() && attempt + i <= max_retries implies !delivered(
                #[trigger] outcomes[i],
            ) by {}
        }
    }
}

/// A sender that follows the steps delivers its report exactly where one
/// of its first `max_retries` attempts does: it makes no attempt beyond
/// those, and none after one that delivered.
pub proof fn sender_delivers_within_its_attempts(
    outcomes: Seq<Attempt>,
    max_retries: u32,
    retry_delay_ms: u64,
)
    ensures
        delivers(outcomes, max_retries, retry_delay_ms) <==> report_delivered(
            outcomes,
            max_retries,
        ),
{
    if max_retries > 0 {
        lemma_delivers_from(outcomes, 1, max_retries, retry_delay_ms);
        if report_delivered(outcomes, max_retries) {
            let i = choose|i: int|
                0 <= i < outcomes.len() && i < max_retries && delivered(#[trigger] outcomes[i]);
            assert(1 + i <= max_retries);
        }
    }
}

/// What the agent does first with a report: send it, unless no attempt is
/// allowed.
pub fn before_attempts(max_retries: u32) -> (next: NextStep)
    ensures
        next == step_before(max_retries),
{
    if max_retries > 0 {
        NextStep::Send
    } else {
        NextStep::GiveUp
    }
}

/// What the agent does after attempt number `attempt`, counted from 1, of
/// at most `max_retries`.
pub fn after_attempt(attempt: u32, max_retries: u32, retry_delay_ms: u64, outcome: Attempt) -> (next:
    NextStep)
    ensures
        next == step_after(attempt, max_retries, retry_delay_ms, outcome),
{
    let success = match outcome {
        Attempt::Status(code) => code >= 200 && code < 300,
        Attempt::NoAnswer => false,
    };
    if success {
        NextStep::Done
    } else if attempt < max_retries {
        NextStep::RetryAfter(retry_delay_ms)
    } else {
        NextStep::GiveUp
    }
}

impl ClientError {
    /// The error in words.
    pub fn message(&self) -> (text: &'static str)
        ensures
            text@ == match self {
                ClientError::InvalidData => "Données invalides"@,
                ClientError::SendFailed => "Échec d'envoi après tous les essais"@,
            },
    {
        match self {
            ClientError::InvalidData => "Données invalides",
            ClientError::SendFailed => "Échec d'envoi après tous les essais",
        }
    }
}

impl WinlogClient {
    /// The address that reports are sent to.
    pub closed spec fn url(&self) -> Seq<char> {
        self.server_url@
    }

    /// The seconds that a request may take.
    pub closed spec fn timeout(&self) -> nat {
        self.timeout_secs as nat
    }

    /// A client that reports to `server_url`, or to the default address
    /// where none is given, and waits the default time for an answer.
    pub fn new(server_url: Option<String>) -> (client: WinlogClient)
        ensures
            client.url() == match server_url {
                Some(url) => url@,
                None => default_server_url(),
            },
            client.timeout() == DEFAULT_TIMEOUT,
    {
        let server_url = match server_url {
            Some(url) => url,
            None => String::from_str("http://127.0.0.1:3000/api/v1/events"),
        };
        WinlogClient { server_url, timeout_secs: DEFAULT_TIMEOUT }
    }

    /// The address that reports are sent to.
    pub fn server_url(&self) -> (url: &str)
        ensures
            url@ == self.url(),
    {
        self.server_url.as_str()
    }

    /// The seconds that a request may take.
    pub fn timeout_secs(&self) -> (seconds: u64)
        ensures
            seconds == self.timeout(),
    {
        self.timeout_secs
    }
}

impl MonitoringClient {
    /// The address that reports are sent to.
    pub closed spec fn url(&self) -> Seq<char> {
        self.server_url@
    }

    /// The seconds that a request may take.
    pub closed spec fn timeout(&self) -> nat {
        self.timeout_secs as nat
    }

    /// A client that reports to `server_url`, or to the monitoring server's
    /// usual address where none is given, and waits the default time for
    /// an answer.
    pub fn new(server_url: Option<String>) -> (client: MonitoringClient)
        ensures
            client.url() == match server_url {
                Some(url) => url@,
                None => monitoring_server_url(),
            },
            client.timeout() == DEFAULT_TIMEOUT,
    {
        let server_url = match server_url {
            Some(url) => url,
            None => String::from_str("http://192.168.122.1/winlog"),
        };
        MonitoringClient { server_url, timeout_secs: DEFAULT_TIMEOUT }
    }

    /// The address that reports are sent to.
    pub fn server_url(&self) -> (url: &str)
        ensures
            url@ == self.url(),
    {
        self.server_url.as_str()
    }

    /// The seconds that a request may take.
    pub fn timeout_secs(&self) -> (seconds: u64)
        ensures
            seconds == self.timeout(),
    {
        self.timeout_secs
    }
}

impl WinlogData {
    /// A report of `action_code` by `username` at `timestamp`, with no
    /// host and no facts yet.
    pub fn at(username: String, action_code: String, timestamp: String) -> (data: WinlogData)
        ensures
            data.username == username,
            data.action == action_code,
            data.timestamp == timestamp,
            data.hostname@ == Seq::<char>::empty(),
            data.os_info.wf(),
            data.os_info@ == Map::<Seq<char>, String>::empty(),
            data.hardware_info is None,
    {
        WinlogData {
            username,
            action: action_code,
            timestamp,
            hostname: String::new(),
            os_info: InfoMap::new(),
            hardware_info: None,
        }
    }

    /// A report of `action_code` by `username`, stamped with the clock,
    /// with no host and no facts yet.
    pub fn new(username: String, action_code: String) -> (data: WinlogData)
        ensures
            data.username == username,
            data.action == action_code,
            data.hostname@ == Seq::<char>::empty(),
            data.os_info.wf(),
            data.os_info@ == Map::<Seq<char>, String>::empty(),
            data.hardware_info is None,
    {
        WinlogData::at(username, action_code, get_current_timestamp())
    }
}

/// Whether a report is fit to send: it names a user and an action.
pub fn validate_data(data: &WinlogData) -> (valid: bool)
    ensures
        valid == (data.username@.len() > 0 && data.action@.len() > 0),
{
    !data.username.as_str().is_empty() && !data.action.as_str().is_empty()
}

/// What `facts` holds under `key`, or `fallback` where it holds nothing.
pub open spec fn fact_or(facts: Map<Seq<char>, String>, key: Seq<char>, fallback: Seq<char>) -> Seq<
    char,
> {
    if facts.contains_key(key) {
        facts[key]@
    } else {
        fallback
    }
}

/// What `facts` holds under `key`, or `fallback` where it holds nothing.
fn fact_text(facts: &InfoMap<String>, key: &str, fallback: &str) -> (text: String)
    requires
        facts.wf(),
    ensures
        text@ == fact_or(facts@, key@, fallback@),
{
    match facts.get(key) {
        Some(value) => value.clone(),
        None => fallback.to_owned(),
    }
}

/// The report of a login or logout: user and host as `facts` names them
/// under `username` and `hostname`, each `unknown` where `facts` does not,
/// and `facts` itself as the facts about the operating system. Refused
/// where user or action comes out empty.
pub fn session_report(facts: InfoMap<String>, action_code: &str, timestamp: String) -> (r: Result<
    WinlogData,
    ClientError,
>)
    requires
        facts.wf(),
    ensures
        match r {
            Ok(data) => {
                &&& data.username@ == fact_or(facts@, "username"@, "unknown"@)
                &&& data.username@.len() > 0
                &&& data.action@ == action_code@
                &&& action_code@.len() > 0
                &&& data.timestamp == timestamp
                &&& data.hostname@ == fact_or(facts@, "hostname"@, "unknown"@)
                &&& data.os_info == facts
                &&& data.hardware_info is None
            },
            Err(e) => {
                &&& e == ClientError::InvalidData
                &&& fact_or(facts@, "username"@, "unknown"@).len() == 0 || action_code@.len() == 0
            },
        },
{
    let username = fact_text(&facts, "username", "unknown");
    let hostname = fact_text(&facts, "hostname", "unknown");
    let data = WinlogData {
        username,
        action: action_code.to_owned(),
        timestamp,
        hostname,
        os_info: facts,
        hardware_info: None,
    };
    if !validate_data(&data) {
        return Err(ClientError::InvalidData);
    }
    Ok(data)
}

/// The report of a hardware inventory, action `M`: the user as `facts`
/// names it under `username`, or `system`; the host as under `hostname`,
/// or `unknown`; `facts` as the facts about the operating system and
/// `hardware` as the inventory. Refused where the user comes out empty.
pub fn hardware_report(facts: InfoMap<String>, hardware: InfoMap<HardwareValue>, timestamp: String) -> (r:
    Result<WinlogData, ClientError>)
    requires
        facts.wf(),
    ensures
        match r {
            Ok(data) => {
                &&& data.username@ == fact_or(facts@, "username"@, "system"@)
                &&& data.username@.len() > 0
                &&& data.action@ == "M"@
                &&& data.timestamp == timestamp
                &&& data.hostname@ == fact_or(facts@, "hostname"@, "unknown"@)
                &&& data.os_info == facts
                &&& data.hardware_info == Some(hardware)
            },
            Err(e) => {
                &&& e == ClientError::InvalidData
                &&& fact_or(facts@, "username"@, "system"@).len() == 0
            },
        },
{
    let username = fact_text(&facts, "username", "system");
    let hostname = fact_text(&facts, "hostname", "unknown");
    let data = WinlogData {
        username,
        action: "M".to_owned(),
        timestamp,
        hostname,
        os_info: facts,
        hardware_info: Some(hardware),
    };
    proof {
        reveal_strlit("M");
    }
    if !validate_data(&data) {
        return Err(ClientError::InvalidData);
    }
    Ok(data)
}

/// What the agent says once a login or logout was delivered.
pub fn success_message(action_code: &str) -> (text: &'static str)
    ensures
        text@ == if action_code@ == "C"@ {
            "Session ouverte avec succès"@
        } else if action_code@ == "D"@ {
            "Session fermée avec succès"@
        } else {
            "Opération terminée avec succès"@
        },
{
    if text_eq(action_code, "C") {
        "Session ouverte avec succès"
    } else if text_eq(action_code, "D") {
        "Session fermée avec succès"
    } else {
        "Opération terminée avec succès"
    }
}

} // verus!
