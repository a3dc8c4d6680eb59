//! The event table: an append-only sequence of rows, and the lookups that
//! read sessions out of it.
//!
//! A session is the set of rows that share one `session_uuid`. It is open
//! while the table holds its login row and no logout row with its
//! identifier. Of several open logins of one user on one host the latest
//! counts: the one with the greatest timestamp, and among those with the
//! same timestamp the one that was inserted last.

use vstd::prelude::*;
use vstd::string::*;
use crate::clock::{get_current_timestamp, rfc3339_before, seconds_before};
use crate::models::{copy_opt, host_or_unknown, ClientEvent, ClientEventView, DbEvent, DbEventView, OpenSession};
use crate::session::{fresh_session_id, is_generated_id, well_formed_id};
use crate::text::{
    lemma_lex_lt_total,
    lemma_lex_lt_transitive,
    lex_lt,
    opt_str_text,
    opt_text,
    sorts_before,
    text_eq,
};

verus! {

/// Why the table did not take a row.
#[derive(Debug, PartialEq, Eq, Structural)]
pub enum StorageError {
    /// The table holds as many rows as it may.
    Full,
}

/// The event table.
pub struct Database {
    rows: Vec<DbEvent>,
    limit: usize,
}

impl View for Database {
    type V = Seq<DbEventView>;

    /// The rows, oldest first.
    closed spec fn view(&self) -> Seq<DbEventView> {
        Seq::new(self.rows@.len(), |i: int| self.rows@[i]@)
    }
}

/// `row` is a logout of the session `session`.
pub open spec fn closes(row: DbEventView, session: Seq<char>) -> bool {
    row.action == "D"@ && row.session_uuid == session
}

/// `rows` holds a logout of the session `session`.
pub open spec fn session_closed(rows: Seq<DbEventView>, session: Seq<char>) -> bool {
    exists|j: int| 0 <= j < rows.len() && closes(#[trigger] rows[j], session)
}

/// Two timestamps name the same calendar day: both have ten characters or
/// more, and the same first ten.
pub open spec fn same_day(a: Seq<char>, b: Seq<char>) -> bool {
    a.len() >= 10 && b.len() >= 10 && a.take(10) == b.take(10)
}

/// `timestamp` falls on the day of `day`; with no `day`, any timestamp
/// does.
pub open spec fn in_scope(timestamp: Seq<char>, day: Option<Seq<char>>) -> bool {
    match day {
        Some(reference) => same_day(timestamp, reference),
        None => true,
    }
}

/// Row `i` of `rows` is a login of `username` on `hostname`, within `day`,
/// whose session no row closes.
pub open spec fn opens(
    rows: Seq<DbEventView>,
    i: int,
    username: Seq<char>,
    hostname: Seq<char>,
    day: Option<Seq<char>>,
) -> bool {
    &&& 0 <= i < rows.len()
    &&& rows[i].username == username
    &&& host_or_unknown(rows[i].hostname) == hostname
    &&& rows[i].action == "C"@
    &&& in_scope(rows[i].timestamp, day)
    &&& !session_closed(rows, rows[i].session_uuid)
}

/// Row `i` is not earlier than row `j`: its timestamp sorts after that of
/// `j`, or the two timestamps are the same and `i` was not inserted before
/// `j`.
pub open spec fn not_earlier(rows: Seq<DbEventView>, i: int, j: int) -> bool {
    lex_lt(rows[j].timestamp, rows[i].timestamp) || (rows[j].timestamp == rows[i].timestamp && j
        <= i)
}

/// Row `i` is the latest open login of `username` on `hostname` within
/// `day`.
pub open spec fn latest_open(
    rows: Seq<DbEventView>,
    i: int,
    username: Seq<char>,
    hostname: Seq<char>,
    day: Option<Seq<char>>,
) -> bool {
    &&& opens(rows, i, username, hostname, day)
    &&& forall|j: int| #[trigger]
        opens(rows, j, username, hostname, day) ==> not_earlier(rows, i, j)
}

/// `username` on `hostname` has an open session within `day`.
pub open spec fn has_open(
    rows: Seq<DbEventView>,
    username: Seq<char>,
    hostname: Seq<char>,
    day: Option<Seq<char>>,
) -> bool {
    exists|i: int| #[trigger] opens(rows, i, username, hostname, day)
}

/// The latest open login of `username` on `hostname` within `day`, where
/// there is one.
pub open spec fn latest_index(
    rows: Seq<DbEventView>,
    username: Seq<char>,
    hostname: Seq<char>,
    day: Option<Seq<char>>,
) -> int {
    choose|i: int| latest_open(rows, i, username, hostname, day)
}

/// Where a user stands on a host: with no session open, or with one.
#[derive(Debug)]
pub enum SessionState {
    /// No login of theirs is without a logout.
    NoOpenSession,
    /// The session of their latest login without a logout.
    OpenSession(String),
}

/// The view of a [`SessionState`].
pub enum SessionStateView {
    NoOpenSession,
    OpenSession(Seq<char>),
}

impl View for SessionState {
    type V = SessionStateView;

    open spec fn view(&self) -> SessionStateView {
        match self {
            SessionState::NoOpenSession => SessionStateView::NoOpenSession,
            SessionState::OpenSession(session) => SessionStateView::OpenSession(session@),
        }
    }
}

/// Where `username` stands on `hostname` within `day`, as `rows` tell: in
/// the session of their latest open login, or in none.
pub open spec fn state_of(
    rows: Seq<DbEventView>,
    username: Seq<char>,
    hostname: Seq<char>,
    day: Option<Seq<char>>,
) -> SessionStateView {
    if has_open(rows, username, hostname, day) {
        SessionStateView::OpenSession(
            rows[latest_index(rows, username, hostname, day)].session_uuid,
        )
    } else {
        SessionStateView::NoOpenSession
    }
}

/// The row under which `event` is stored: number `id`, in the session
/// `session`, received from `source_ip` when the server's clock showed
/// `now`.
pub open spec fn stored_event(
    id: int,
    event: ClientEventView,
    session: Seq<char>,
    source_ip: Seq<char>,
    now: Seq<char>,
) -> DbEventView {
    DbEventView {
        id,
        username: event.username,
        action: event.action,
        timestamp: event.timestamp,
        hostname: event.hostname,
        source_ip: Some(source_ip),
        server_timestamp: now,
        os_name: event.os_name(),
        os_version: event.os_version(),
        kernel_version: event.kernel_version(),
        hardware_info: event.hardware_info,
        session_uuid: session,
        created_at: now,
    }
}

/// When the logout that the server makes up before the login `timestamp`
/// took place: one second before `timestamp`, written with `Z` for UTC, or
/// `now` where `timestamp` cannot be read.
pub open spec fn auto_disconnect_time(timestamp: Seq<char>, now: Seq<char>) -> Seq<char> {
    match rfc3339_before(timestamp, 1, true) {
        Some(earlier) => earlier,
        None => now,
    }
}

/// The logout row that the server makes up to close the session `session`
/// before it stores the login `event`: it takes user, host and operating
/// system from `event`, and carries no hardware inventory.
pub open spec fn auto_disconnect(
    id: int,
    event: ClientEventView,
    session: Seq<char>,
    source_ip: Seq<char>,
    now: Seq<char>,
) -> DbEventView {
    DbEventView {
        id,
        username: event.username,
        action: "D"@,
        timestamp: auto_disconnect_time(event.timestamp, now),
        hostname: event.hostname,
        source_ip: Some(source_ip),
        server_timestamp: now,
        os_name: event.os_name(),
        os_version: event.os_version(),
        kernel_version: event.kernel_version(),
        hardware_info: None,
        session_uuid: session,
        created_at: now,
    }
}

/// The latest open login is one row only.
pub proof fn lemma_latest_open_unique(
    rows: Seq<DbEventView>,
    i: int,
    j: int,
    username: Seq<char>,
    hostname: Seq<char>,
    day: Option<Seq<char>>,
)
    requires
        latest_open(rows, i, username, hostname, day),
        latest_open(rows, j, username, hostname, day),
    ensures
        i == j,
{
    assert(not_earlier(rows, i, j));
    assert(not_earlier(rows, j, i));
    lemma_lex_lt_total(rows[i].timestamp, rows[j].timestamp);
}

/// Among the first `n` rows, the latest open login of `username` on
/// `hostname` within `day`, or -1 where none of them is one.
proof fn lemma_latest_among(
    rows: Seq<DbEventView>,
    n: int,
    username: Seq<char>,
    hostname: Seq<char>,
    day: Option<Seq<char>>,
) -> (best: int)
    requires
        0 <= n <= rows.len(),
    ensures
        best == -1 ==> forall|j: int|
            0 <= j < n ==> !#[trigger] opens(rows, j, username, hostname, day),
        best != -1 ==> {
            &&& 0 <= best < n
            &&& opens(rows, best, username, hostname, day)
            &&& forall|j: int|
                0 <= j < n && #[trigger] opens(rows, j, username, hostname, day) ==> not_earlier(
                    rows,
                    best,
                    j,
                )
        },
    decreases n,
{
    if n == 0 {
        -1
    } else {
        let before = lemma_latest_among(rows, n - 1, username, hostname, day);
        let i = n - 1;
        if !opens(rows, i, username, hostname, day) {
            before
        } else if before == -1 {
            i
        } else {
            lemma_lex_lt_total(rows[i].timestamp, rows[before].timestamp);
            if lex_lt(rows[i].timestamp, rows[before].timestamp) {
                before
            } else {
                assert forall|j: int|
                    0 <= j < n && #[trigger] opens(
                        rows,
                        j,
                        username,
                        hostname,
                        day,
                    ) implies not_earlier(rows, i, j) by {
                    if j < i {
                        assert(not_earlier(rows, before, j));
                        if lex_lt(rows[j].timestamp, rows[before].timestamp) && lex_lt(
                            rows[before].timestamp,
                            rows[i].timestamp,
                        ) {
                            lemma_lex_lt_transitive(
                                rows[j].timestamp,
                                rows[before].timestamp,
                                rows[i].timestamp,
                            );
                        }
                    }
                }
                i
            }
        }
    }
}

/// Where a login is open, one of the open logins is the latest.
pub proof fn lemma_latest_open_exists(
    rows: Seq<DbEventView>,
    username: Seq<char>,
    hostname: Seq<char>,
    day: Option<Seq<char>>,
)
    requires
        has_open(rows, username, hostname, day),
    ensures
        latest_open(rows, latest_index(rows, username, hostname, day), username, hostname, day),
{
    let best = lemma_latest_among(rows, rows.len() as int, username, hostname, day);
    let some = choose|i: int| #[trigger] opens(rows, i, username, hostname, day);
    assert(opens(rows, some, username, hostname, day));
    assert(latest_open(rows, best, username, hostname, day));
}

/// The latest open login is the one that the state names.
pub proof fn lemma_latest_open_is_state(
    rows: Seq<DbEventView>,
    i: int,
    username: Seq<char>,
    hostname: Seq<char>,
    day: Option<Seq<char>>,
)
    requires
        latest_open(rows, i, username, hostname, day),
    ensures
        has_open(rows, username, hostname, day),
        latest_index(rows, username, hostname, day) == i,
        state_of(rows, username, hostname, day) == SessionStateView::OpenSession(
            rows[i].session_uuid,
        ),
{
    lemma_latest_open_unique(
        rows,
        i,
        latest_index(rows, username, hostname, day),
        username,
        hostname,
        day,
    );
}

/// Whether two timestamps name the same calendar day.
pub fn on_same_day(a: &str, b: &str) -> (same: bool)
    ensures
        same == same_day(a@, b@),
{
    if a.unicode_len() < 10 || b.unicode_len() < 10 {
        return false;
    }
    text_eq(a.substring_char(0, 10), b.substring_char(0, 10))
}

/// When the logout that the server makes up before a login took place:
/// `earlier`, the instant one second before the login, where that could
/// be worked out, else `now`.
pub fn auto_disconnect_timestamp(earlier: Option<String>, now: String) -> (at: String)
    ensures
        at@ == match earlier {
            Some(instant) => instant@,
            None => now@,
        },
{
    match earlier {
        Some(instant) => instant,
        None => now,
    }
}

/// The row under which `event` is stored in the session `session_uuid`, as
/// received from `source_ip` at the server time `server_timestamp`; its
/// number is 0 until a table gives it one.
pub fn event_row(event: &ClientEvent, session_uuid: &str, source_ip: &str, server_timestamp: String) -> (row:
    DbEvent)
    ensures
        row@ == stored_event(0, event@, session_uuid@, source_ip@, server_timestamp@),
{
    let (os_name, os_version, kernel_version) = match &event.os_info {
        Some(os) => (copy_opt(&os.os_name), copy_opt(&os.os_version), copy_opt(
            &os.kernel_version,
        )),
        None => (None, None, None),
    };
    DbEvent {
        id: 0,
        username: event.username.clone(),
        action: event.action.clone(),
        timestamp: event.timestamp.clone(),
        hostname: copy_opt(&event.hostname),
        source_ip: Some(source_ip.to_owned()),
        server_timestamp: server_timestamp.clone(),
        os_name,
        os_version,
        kernel_version,
        hardware_info: copy_opt(&event.hardware_info),
        session_uuid: session_uuid.to_owned(),
        created_at: server_timestamp,
    }
}

/// The logout row that closes the session `session_uuid` before the login
/// `event` is stored: dated one second before `event`, or at
/// `server_timestamp` where the timestamp of `event` cannot be read; its
/// number is 0 until a table gives it one.
pub fn auto_disconnect_row(
    event: &ClientEvent,
    session_uuid: &str,
    source_ip: &str,
    server_timestamp: String,
) -> (row: DbEvent)
    ensures
        row@ == auto_disconnect(0, event@, session_uuid@, source_ip@, server_timestamp@),
{
    let disconnect_time = auto_disconnect_timestamp(
        seconds_before(event.timestamp.as_str(), 1, true),
        server_timestamp.clone(),
    );
    let (os_name, os_version, kernel_version) = match &event.os_info {
        Some(os) => (copy_opt(&os.os_name), copy_opt(&os.os_version), copy_opt(
            &os.kernel_version,
        )),
        None => (None, None, None),
    };
    DbEvent {
        id: 0,
        username: event.username.clone(),
        action: "D".to_owned(),
        timestamp: disconnect_time,
        hostname: copy_opt(&event.hostname),
        source_ip: Some(source_ip.to_owned()),
        server_timestamp: server_timestamp.clone(),
        os_name,
        os_version,
        kernel_version,
        hardware_info: None,
        session_uuid: session_uuid.to_owned(),
        created_at: server_timestamp,
    }
}

/// The host that `hostname` is matched under.
pub fn normalized_host<'a>(hostname: &'a Option<String>) -> (host: &'a str)
    ensures
        host@ == host_or_unknown(opt_text(*hostname)),
{
    match hostname {
        Some(h) => h.as_str(),
        None => "unknown",
    }
}

impl Database {
    /// The most rows that the table takes.
    pub closed spec fn limit(&self) -> nat {
        self.limit as nat
    }

    /// The table is in order: it holds no more rows than it may, and its
    /// rows are numbered from 1 in the order in which they came.
    pub open spec fn wf(&self) -> bool {
        &&& self@.len() <= self.limit()
        &&& self.limit() <= i64::MAX
        &&& forall|i: int| 0 <= i < self@.len() ==> (#[trigger] self@[i]).id == i + 1
    }

    /// An empty table that takes as many rows as can be numbered.
    pub fn new() -> (db: Database)
        ensures
            db.wf(),
            db@ == Seq::<DbEventView>::empty(),
            db.limit() == if usize::MAX < i64::MAX {
                usize::MAX as nat
            } else {
                i64::MAX as nat
            },
    {
        Database::with_limit(usize::MAX)
    }

    /// An empty table that takes `limit` rows at most, and no more than can
    /// be numbered.
    pub fn with_limit(limit: usize) -> (db: Database)
        ensures
            db.wf(),
            db@ == Seq::<DbEventView>::empty(),
            db.limit() == if limit < i64::MAX {
                limit as nat
            } else {
                i64::MAX as nat
            },
    {
        let capped = if (limit as u64) < (i64::MAX as u64) {
            limit
        } else {
            i64::MAX as usize
        };
        let db = Database { rows: Vec::new(), limit: capped };
        assert(db@ =~= Seq::<DbEventView>::empty());
        db
    }

    /// The table that holds `rows`, which are numbered from 1 in their
    /// order, and takes as many rows as can be numbered; `None` where the
    /// rows are not so numbered or are too many.
    pub fn from_rows(rows: Vec<DbEvent>) -> (table: Option<Database>)
        ensures
            match table {
                Some(db) => {
                    &&& db.wf()
                    &&& db@ == Seq::new(rows@.len(), |i: int| rows@[i]@)
                    &&& db.limit() == if usize::MAX < i64::MAX {
                        usize::MAX as nat
                    } else {
                        i64::MAX as nat
                    }
                },
                None => rows@.len() > i64::MAX || exists|i: int|
                    0 <= i < rows@.len() && (#[trigger] rows@[i]).id != i + 1,
            },
    {
        let limit = Database::with_limit(usize::MAX).limit;
        if rows.len() > limit {
            return None;
        }
        let mut i: usize = 0;
        while i < rows.len()
            invariant
                i <= rows@.len(),
                rows@.len() <= limit <= i64::MAX,
                forall|j: int| 0 <= j < i ==> (#[trigger] rows@[j]).id == j + 1,
            decreases rows@.len() - i,
        {
            if rows[i].id != (i as i64) + 1 {
                return None;
            }
            i += 1;
        }
        let db = Database { rows, limit };
        assert(db@ =~= Seq::new(rows@.len(), |i: int| rows@[i]@));
        Some(db)
    }

    /// How many rows the table holds.
    pub fn len(&self) -> (n: usize)
        ensures
            n == self@.len(),
    {
        self.rows.len()
    }

    /// Row number `index`, counted from 0 in the order of insertion.
    pub fn row(&self, index: usize) -> (row: Option<&DbEvent>)
        ensures
            match row {
                Some(r) => index < self@.len() && r@ == self@[index as int],
                None => index >= self@.len(),
            },
    {
        if index < self.rows.len() {
            Some(&self.rows[index])
        } else {
            None
        }
    }

    /// A fresh identifier for `username` on `hostname` on the day of
    /// `timestamp`: `username@hostname@` and six hexadecimal digits, salted
    /// with the clock.
    pub fn generate_session_id(username: &str, hostname: &str, timestamp: &str) -> (id: String)
        ensures
            is_generated_id(id@, username@, hostname@, timestamp@),
            well_formed_id(id@, username@, hostname@),
    {
        fresh_session_id(username, hostname, timestamp)
    }

    /// Whether the table holds a logout of the session `session`.
    pub fn is_closed(&self, session: &str) -> (closed: bool)
        ensures
            closed == session_closed(self@, session@),
    {
        let mut j: usize = 0;
        while j < self.rows.len()
            invariant
                j <= self.rows@.len(),
                forall|k: int| 0 <= k < j ==> !closes(#[trigger] self@[k], session@),
            decreases self.rows@.len() - j,
        {
            let row = &self.rows[j];
            if text_eq(row.action.as_str(), "D") && text_eq(row.session_uuid.as_str(), session) {
                assert(closes(self@[j as int], session@));
                return true;
            }
            j += 1;
        }
        false
    }

    /// Whether row `i` is an open login of `username` on `hostname` within
    /// `day`.
    fn row_opens(&self, i: usize, username: &str, hostname: &str, day: Option<&str>) -> (open:
        bool)
        requires
            i < self@.len(),
        ensures
            open == opens(self@, i as int, username@, hostname@, opt_str_text(day)),
    {
        let row = &self.rows[i];
        assert(row@ == self@[i as int]);
        if !text_eq(row.username.as_str(), username) {
            return false;
        }
        if !text_eq(normalized_host(&row.hostname), hostname) {
            return false;
        }
        if !text_eq(row.action.as_str(), "C") {
            return false;
        }
        let scoped = match day {
            Some(reference) => on_same_day(row.timestamp.as_str(), reference),
            None => true,
        };
        if !scoped {
            return false;
        }
        !self.is_closed(row.session_uuid.as_str())
    }

    /// The latest open login of `username` on `hostname` within `day`.
    fn find_latest_open(&self, username: &str, hostname: &str, day: Option<&str>) -> (found:
        Option<usize>)
        ensures
            match found {
                Some(i) => latest_open(self@, i as int, username@, hostname@, opt_str_text(day)),
                None => !has_open(self@, username@, hostname@, opt_str_text(day)),
            },
    {
        let ghost rows = self@;
        let ghost scope = opt_str_text(day);
        let mut best: Option<usize> = None;
        let mut i: usize = 0;
        while i < self.rows.len()
            invariant
                i <= self.rows@.len(),
                rows == self@,
                scope == opt_str_text(day),
                match best {
                    Some(b) => {
                        &&& b < i
                        &&& opens(rows, b as int, username@, hostname@, scope)
                        &&& forall|j: int|
                            0 <= j < i && #[trigger] opens(rows, j, username@, hostname@, scope)
                                ==> not_earlier(rows, b as int, j)
                    },
                    None => forall|j: int|
                        0 <= j < i ==> !#[trigger] opens(rows, j, username@, hostname@, scope),
                },
            decreases self.rows@.len() - i,
        {
            if self.row_opens(i, username, hostname, day) {
                match best {
                    None => {
                        best = Some(i);
                    },
                    Some(b) => {
                        let earlier = sorts_before(
                            self.rows[i].timestamp.as_str(),
                            self.rows[b].timestamp.as_str(),
                        );
                        proof {
                            let ti = rows[i as int].timestamp;
                            let tb = rows[b as int].timestamp;
                            lemma_lex_lt_total(ti, tb);
                            if !earlier {
                                assert forall|j: int|
                                    0 <= j < i + 1 && #[trigger] opens(
                                        rows,
                                        j,
                                        username@,
                                        hostname@,
                                        scope,
                                    ) implies not_earlier(rows, i as int, j) by {
                                    if j < i {
                                        assert(not_earlier(rows, b as int, j));
                                        if lex_lt(rows[j].timestamp, tb) && lex_lt(tb, ti) {
                                            lemma_lex_lt_transitive(rows[j].timestamp, tb, ti);
                                        }
                                    }
                                }
                            }
                        }
                        if !earlier {
                            best = Some(i);
                        }
                    },
                }
            }
            i += 1;
        }
        best
    }

    /// Where `username` stands on `hostname`: in the session of their latest
    /// open login within `day`, or in none. With no `day`, logins of every
    /// day count.
    pub fn session_state(&self, username: &str, hostname: &str, day: Option<&str>) -> (state:
        SessionState)
        ensures
            state@ == state_of(self@, username@, hostname@, opt_str_text(day)),
    {
        match self.find_latest_open(username, hostname, day) {
            Some(i) => {
                let row = &self.rows[i];
                assert(row@ == self@[i as int]);
                proof {
                    lemma_latest_open_is_state(
                        self@,
                        i as int,
                        username@,
                        hostname@,
                        opt_str_text(day),
                    );
                }
                SessionState::OpenSession(row.session_uuid.clone())
            },
            None => SessionState::NoOpenSession,
        }
    }

    /// The latest login of `username` on `hostname` on the day of
    /// `timestamp` whose session is still open: its identifier and its own
    /// timestamp.
    pub fn find_open_session_today(&self, username: &str, hostname: &str, timestamp: &str) -> (found:
        Option<OpenSession>)
        ensures
            match found {
                Some(open) => {
                    let i = latest_index(self@, username@, hostname@, Some(timestamp@));
                    &&& latest_open(self@, i, username@, hostname@, Some(timestamp@))
                    &&& open.session_uuid@ == self@[i].session_uuid
                    &&& open.timestamp@ == self@[i].timestamp
                    &&& state_of(self@, username@, hostname@, Some(timestamp@))
                        == SessionStateView::OpenSession(open.session_uuid@)
                },
                None => {
                    &&& !has_open(self@, username@, hostname@, Some(timestamp@))
                    &&& state_of(self@, username@, hostname@, Some(timestamp@))
                        == SessionStateView::NoOpenSession
                },
            },
    {
        match self.find_latest_open(username, hostname, Some(timestamp)) {
            Some(i) => {
                let row = &self.rows[i];
                assert(row@ == self@[i as int]);
                proof {
                    lemma_latest_open_is_state(
                        self@,
                        i as int,
                        username@,
                        hostname@,
                        Some(timestamp@),
                    );
                }
                Some(
                    OpenSession {
                        session_uuid: row.session_uuid.clone(),
                        timestamp: row.timestamp.clone(),
                    },
                )
            },
            None => None,
        }
    }

    /// The identifier of the latest login of `username` on `hostname`, of
    /// any day, whose session is still open.
    pub fn find_last_open_session(&self, username: &str, hostname: &str) -> (found: Option<String>)
        ensures
            match found {
                Some(session) => {
                    let i = latest_index(self@, username@, hostname@, None);
                    &&& latest_open(self@, i, username@, hostname@, None)
                    &&& session@ == self@[i].session_uuid
                    &&& state_of(self@, username@, hostname@, None)
                        == SessionStateView::OpenSession(session@)
                },
                None => {
                    &&& !has_open(self@, username@, hostname@, None)
                    &&& state_of(self@, username@, hostname@, None)
                        == SessionStateView::NoOpenSession
                },
            },
    {
        match self.find_latest_open(username, hostname, None) {
            Some(i) => {
                let row = &self.rows[i];
                assert(row@ == self@[i as int]);
                proof {
                    lemma_latest_open_is_state(self@, i as int, username@, hostname@, None);
                }
                Some(row.session_uuid.clone())
            },
            None => None,
        }
    }

    /// Appends `row` under the next number, if the table takes one more.
    fn append(&mut self, row: DbEvent) -> (r: Result<i64, StorageError>)
        requires
            old(self).wf(),
        ensures
            final(self).wf(),
            final(self).limit() == old(self).limit(),
            match r {
                Ok(id) => {
                    &&& old(self)@.len() < old(self).limit()
                    &&& id == old(self)@.len() + 1
                    &&& final(self)@ == old(self)@.push(DbEventView { id: id as int, ..row@ })
                },
                Err(e) => {
                    &&& e == StorageError::Full
                    &&& old(self)@.len() >= old(self).limit()
                    &&& final(self)@ == old(self)@
                },
            },
    {
        if self.rows.len() >= self.limit {
            return Err(StorageError::Full);
        }
        let id: i64 = (self.rows.len() as i64) + 1;
        let mut numbered = row;
        numbered.id = id;
        self.rows.push(numbered);
        assert(self@ =~= old(self)@.push(DbEventView { id: id as int, ..row@ }));
        Ok(id)
    }

    /// Stores `event` in the session `session_uuid` as received from
    /// `source_ip` at the server time `server_timestamp`, and returns the
    /// row's number. Fails, and leaves the table as it was, where the table
    /// is full.
    pub fn insert_event_at(
        &mut self,
        event: &ClientEvent,
        session_uuid: &str,
        source_ip: &str,
        server_timestamp: String,
    ) -> (r: Result<i64, StorageError>)
        requires
            old(self).wf(),
        ensures
            final(self).wf(),
            final(self).limit() == old(self).limit(),
            match r {
                Ok(id) => {
                    &&& old(self)@.len() < old(self).limit()
                    &&& id == old(self)@.len() + 1
                    &&& final(self)@ == old(self)@.push(
                        stored_event(
                            id as int,
                            event@,
                            session_uuid@,
                            source_ip@,
                            server_timestamp@,
                        ),
                    )
                },
                Err(e) => {
                    &&& e == StorageError::Full
                    &&& old(self)@.len() >= old(self).limit()
                    &&& final(self)@ == old(self)@
                },
            },
    {
        self.append(event_row(event, session_uuid, source_ip, server_timestamp))
    }

    /// Stores `event` in the session `session_uuid` as received from
    /// `source_ip`, stamped with the server's clock, and returns the row's
    /// number. Fails, and leaves the table as it was, where the table is
    /// full.
    pub fn insert_event(&mut self, event: &ClientEvent, session_uuid: &str, source_ip: &str) -> (r:
        Result<i64, StorageError>)
        requires
            old(self).wf(),
        ensures
            final(self).wf(),
            final(self).limit() == old(self).limit(),
            match r {
                Ok(id) => {
                    &&& old(self)@.len() < old(self).limit()
                    &&& id == old(self)@.len() + 1
                    &&& final(self)@.len() == old(self)@.len() + 1
                    &&& final(self)@ == old(self)@.push(
                        stored_event(
                            id as int,
                            event@,
                            session_uuid@,
                            source_ip@,
                            final(self)@.last().server_timestamp,
                        ),
                    )
                },
                Err(e) => {
                    &&& e == StorageError::Full
                    &&& old(self)@.len() >= old(self).limit()
                    &&& final(self)@ == old(self)@
                },
            },
    {
        let now = get_current_timestamp();
        self.insert_event_at(event, session_uuid, source_ip, now)
    }

    /// Stores the logout that closes the session `session_uuid` before the
    /// login `event` is stored: dated one second before `event`, or at
    /// `server_timestamp` where the timestamp of `event` cannot be read.
    /// Fails, and leaves the table as it was, where the table is full.
    pub fn insert_auto_disconnect_at(
        &mut self,
        event: &ClientEvent,
        session_uuid: &str,
        source_ip: &str,
        server_timestamp: String,
    ) -> (r: Result<(), StorageError>)
        requires
            old(self).wf(),
        ensures
            final(self).wf(),
            final(self).limit() == old(self).limit(),
            match r {
                Ok(_) => {
                    &&& old(self)@.len() < old(self).limit()
                    &&& final(self)@ == old(self)@.push(
                        auto_disconnect(
                            old(self)@.len() as int + 1,
                            event@,
                            session_uuid@,
                            source_ip@,
                            server_timestamp@,
                        ),
                    )
                },
                Err(e) => {
                    &&& e == StorageError::Full
                    &&& old(self)@.len() >= old(self).limit()
                    &&& final(self)@ == old(self)@
                },
            },
    {
        let row = auto_disconnect_row(event, session_uuid, source_ip, server_timestamp);
        match self.append(row) {
            Ok(_) => Ok(()),
            Err(e) => Err(e),
        }
    }

    /// Stores the logout that closes the session `session_uuid` before the
    /// login `event` is stored, stamped with the server's clock. Fails, and
    /// leaves the table as it was, where the table is full.
    pub fn insert_auto_disconnect(&mut self, event: &ClientEvent, session_uuid: &str, source_ip: &str) -> (r:
        Result<(), StorageError>)
        requires
            old(self).wf(),
        ensures
            final(self).wf(),
            final(self).limit() == old(self).limit(),
            match r {
                Ok(_) => {
                    &&& old(self)@.len() < old(self).limit()
                    &&& final(self)@.len() == old(self)@.len() + 1
                    &&& final(self)@ == old(self)@.push(
                        auto_disconnect(
                            old(self)@.len() as int + 1,
                            event@,
                            session_uuid@,
                            source_ip@,
                            final(self)@.last().server_timestamp,
                        ),
                    )
                },
                Err(e) => {
                    &&& e == StorageError::Full
                    &&& old(self)@.len() >= old(self).limit()
                    &&& final(self)@ == old(self)@
                },
            },
    {
        let now = get_current_timestamp();
        self.insert_auto_disconnect_at(event, session_uuid, source_ip, now)
    }
}

} // verus!
