//! What handling a request guarantees, proved from the contract of
//! [`collect_event`](crate::handlers::collect_event).
//!
//! Each theorem takes a table before and after one request, and the answer,
//! related by [`request_handled`]; it holds of every run of the handler.

use vstd::prelude::*;
use vstd::string::*;
use crate::clock::rfc3339_before;
use crate::database::{
    auto_disconnect,
    closes,
    has_open,
    latest_index,
    latest_open,
    lemma_latest_open_exists,
    lemma_latest_open_is_state,
    not_earlier,
    opens,
    same_day,
    session_closed,
    state_of,
    stored_event,
    SessionStateView,
};
use crate::handlers::{
    appended_event,
    event_processed,
    event_resolved,
    event_stored,
    first_failure,
    real_ip,
    request_handled,
    RejectionView,
};
use crate::models::{ClientEventView, DbEventView};
use crate::resolver::{fresh_for, kind_of, EventKind};

verus! {

/// The request passes every check and its action is the code of `kind`.
pub open spec fn accepted_as(
    kind: EventKind,
    expected_user_agent: Seq<char>,
    valid_actions: Seq<Seq<char>>,
    user_agent: Option<Seq<char>>,
    event: ClientEventView,
) -> bool {
    &&& first_failure(expected_user_agent, valid_actions, user_agent, event) is None
    &&& kind_of(event.action) == Some(kind)
}

/// What stands between the table before and after an event that was
/// processed: the table as resolving the event left it, and what the
/// resolving gave.
proof fn resolved_step(
    before: Seq<DbEventView>,
    after: Seq<DbEventView>,
    limit: nat,
    kind: EventKind,
    event: ClientEventView,
    source_ip: Seq<char>,
    r: Result<(int, Seq<char>), RejectionView>,
) -> (step: (Seq<DbEventView>, Result<Seq<char>, RejectionView>))
    requires
        event_processed(before, after, limit, kind, event, source_ip, r),
    ensures
        event_resolved(before, step.0, limit, kind, event, source_ip, step.1),
        match step.1 {
            Ok(session) => event_stored(step.0, after, limit, event, source_ip, session, r),
            Err(refusal) => after == step.0 && r == Err::<(int, Seq<char>), RejectionView>(
                refusal,
            ),
        },
{
    choose|middle: Seq<DbEventView>, resolved: Result<Seq<char>, RejectionView>|
        {
            &&& #[trigger] event_resolved(before, middle, limit, kind, event, source_ip, resolved)
            &&& match resolved {
                Ok(session) => event_stored(middle, after, limit, event, source_ip, session, r),
                Err(refusal) => after == middle && r == Err::<(int, Seq<char>), RejectionView>(
                    refusal,
                ),
            }
        }
}

/// A request that fails a check is refused with the refusal of the first
/// check that it fails, which blames the request, and the table stays as
/// it was.
pub proof fn refused_request_writes_nothing(
    before: Seq<DbEventView>,
    after: Seq<DbEventView>,
    limit: nat,
    expected_user_agent: Seq<char>,
    valid_actions: Seq<Seq<char>>,
    user_agent: Option<Seq<char>>,
    cf_connecting_ip: Option<Seq<char>>,
    x_forwarded_for: Option<Seq<char>>,
    peer: Seq<char>,
    event: ClientEventView,
    r: Result<(int, Seq<char>), RejectionView>,
)
    requires
        request_handled(
            before,
            after,
            limit,
            expected_user_agent,
            valid_actions,
            user_agent,
            cf_connecting_ip,
            x_forwarded_for,
            peer,
            event,
            r,
        ),
        first_failure(expected_user_agent, valid_actions, user_agent, event) is Some,
    ensures
        after == before,
        r == Err::<(int, Seq<char>), RejectionView>(
            first_failure(expected_user_agent, valid_actions, user_agent, event).unwrap(),
        ),
        r matches Err(refusal) && refusal.is_client_error(),
{
}

/// The table is append-only: whatever the request, every row that was
/// there stays as it was, and at most two rows are added; an event that is
/// answered as stored added one at least.
pub proof fn table_only_grows(
    before: Seq<DbEventView>,
    after: Seq<DbEventView>,
    limit: nat,
    expected_user_agent: Seq<char>,
    valid_actions: Seq<Seq<char>>,
    user_agent: Option<Seq<char>>,
    cf_connecting_ip: Option<Seq<char>>,
    x_forwarded_for: Option<Seq<char>>,
    peer: Seq<char>,
    event: ClientEventView,
    r: Result<(int, Seq<char>), RejectionView>,
)
    requires
        request_handled(
            before,
            after,
            limit,
            expected_user_agent,
            valid_actions,
            user_agent,
            cf_connecting_ip,
            x_forwarded_for,
            peer,
            event,
            r,
        ),
    ensures
        before.is_prefix_of(after),
        after.len() <= before.len() + 2,
        r is Ok ==> after.len() > before.len(),
{
    let failure = first_failure(expected_user_agent, valid_actions, user_agent, event);
    if failure is None && kind_of(event.action) is Some {
        let kind = kind_of(event.action).unwrap();
        let ip = real_ip(cf_connecting_ip, x_forwarded_for, peer);
        let (middle, resolved) = resolved_step(before, after, limit, kind, event, ip, r);
        assert(before.is_prefix_of(middle)) by {
            assert(middle =~= before || middle.drop_last() =~= before);
        }
        assert(middle.is_prefix_of(after)) by {
            assert(after =~= middle || after.drop_last() =~= middle);
        }
    }
}

/// A login that passes the checks while no session of its user on its host
/// is open on its day gets a fresh identifier, and the only row written is
/// the login's own: no logout is made up.
pub proof fn login_without_open_session(
    before: Seq<DbEventView>,
    after: Seq<DbEventView>,
    limit: nat,
    expected_user_agent: Seq<char>,
    valid_actions: Seq<Seq<char>>,
    user_agent: Option<Seq<char>>,
    cf_connecting_ip: Option<Seq<char>>,
    x_forwarded_for: Option<Seq<char>>,
    peer: Seq<char>,
    event: ClientEventView,
    r: Result<(int, Seq<char>), RejectionView>,
)
    requires
        request_handled(
            before,
            after,
            limit,
            expected_user_agent,
            valid_actions,
            user_agent,
            cf_connecting_ip,
            x_forwarded_for,
            peer,
            event,
            r,
        ),
        accepted_as(EventKind::Connect, expected_user_agent, valid_actions, user_agent, event),
        state_of(before, event.username, event.host(), Some(event.timestamp))
            == SessionStateView::NoOpenSession,
    ensures
        r is Ok <==> before.len() < limit,
        match r {
            Ok((id, session)) => {
                &&& fresh_for(session, event)
                &&& id == before.len() + 1
                &&& appended_event(
                    before,
                    after,
                    event,
                    session,
                    real_ip(cf_connecting_ip, x_forwarded_for, peer),
                )
            },
            Err(refusal) => refusal == RejectionView::Storage && after == before,
        },
{
    let ip = real_ip(cf_connecting_ip, x_forwarded_for, peer);
    let step = resolved_step(before, after, limit, EventKind::Connect, event, ip, r);
}

/// A login that passes the checks while the session `old` of its user on
/// its host is open on its day closes that session first: exactly one
/// logout is made up, in the session `old`, dated one second before the
/// login (or at the server's time where the login's timestamp cannot be
/// read), and it stands in the table before the login's own row, which
/// opens a fresh session. Where the table takes only the logout, the login
/// is refused after it; where it takes nothing, nothing is written.
pub proof fn login_closes_open_session(
    before: Seq<DbEventView>,
    after: Seq<DbEventView>,
    limit: nat,
    expected_user_agent: Seq<char>,
    valid_actions: Seq<Seq<char>>,
    user_agent: Option<Seq<char>>,
    cf_connecting_ip: Option<Seq<char>>,
    x_forwarded_for: Option<Seq<char>>,
    peer: Seq<char>,
    event: ClientEventView,
    old: Seq<char>,
    r: Result<(int, Seq<char>), RejectionView>,
)
    requires
        request_handled(
            before,
            after,
            limit,
            expected_user_agent,
            valid_actions,
            user_agent,
            cf_connecting_ip,
            x_forwarded_for,
            peer,
            event,
            r,
        ),
        accepted_as(EventKind::Connect, expected_user_agent, valid_actions, user_agent, event),
        state_of(before, event.username, event.host(), Some(event.timestamp))
            == SessionStateView::OpenSession(old),
    ensures
        r is Ok <==> before.len() + 2 <= limit,
        r is Err ==> r == Err::<(int, Seq<char>), RejectionView>(RejectionView::Storage),
        before.len() >= limit ==> after == before,
        before.len() < limit ==> {
            let ip = real_ip(cf_connecting_ip, x_forwarded_for, peer);
            let logout = after[before.len() as int];
            &&& after.len() > before.len()
            &&& after.take(before.len() as int) == before
            &&& logout == auto_disconnect(
                before.len() as int + 1,
                event,
                old,
                ip,
                logout.server_timestamp,
            )
            &&& logout.session_uuid == old
            &&& logout.action == "D"@
            &&& (rfc3339_before(event.timestamp, 1, true) matches Some(earlier)
                ==> logout.timestamp == earlier)
            &&& (rfc3339_before(event.timestamp, 1, true) is None ==> logout.timestamp
                == logout.server_timestamp)
            &&& session_closed(after, old)
            &&& match r {
                Ok((id, session)) => {
                    &&& after.len() == before.len() + 2
                    &&& id == before.len() + 2
                    &&& fresh_for(session, event)
                    &&& after[before.len() as int + 1] == stored_event(
                        id,
                        event,
                        session,
                        ip,
                        after[before.len() as int + 1].server_timestamp,
                    )
                },
                Err(_) => after.len() == before.len() + 1,
            }
        },
{
    let ip = real_ip(cf_connecting_ip, x_forwarded_for, peer);
    let (middle, resolved) = resolved_step(before, after, limit, EventKind::Connect, event, ip, r);
    if before.len() < limit {
        let logout = middle.last();
        assert(middle.take(before.len() as int) =~= before);
        assert(after.take(before.len() as int) =~= before);
        assert(after[before.len() as int] == logout);
        assert(closes(after[before.len() as int], old));
    }
}

/// A logout that passes the checks while the session `open` of its user on
/// its host is open, of whatever day, joins that session: the answer and
/// the stored row carry the identifier `open` exactly, and only the
/// logout's own row is written.
pub proof fn logout_joins_open_session(
    before: Seq<DbEventView>,
    after: Seq<DbEventView>,
    limit: nat,
    expected_user_agent: Seq<char>,
    valid_actions: Seq<Seq<char>>,
    user_agent: Option<Seq<char>>,
    cf_connecting_ip: Option<Seq<char>>,
    x_forwarded_for: Option<Seq<char>>,
    peer: Seq<char>,
    event: ClientEventView,
    open: Seq<char>,
    r: Result<(int, Seq<char>), RejectionView>,
)
    requires
        request_handled(
            before,
            after,
            limit,
            expected_user_agent,
            valid_actions,
            user_agent,
            cf_connecting_ip,
            x_forwarded_for,
            peer,
            event,
            r,
        ),
        accepted_as(EventKind::Disconnect, expected_user_agent, valid_actions, user_agent, event),
        state_of(before, event.username, event.host(), None) == SessionStateView::OpenSession(
            open,
        ),
    ensures
        r is Ok <==> before.len() < limit,
        match r {
            Ok((id, session)) => {
                &&& session == open
                &&& id == before.len() + 1
                &&& appended_event(
                    before,
                    after,
                    event,
                    open,
                    real_ip(cf_connecting_ip, x_forwarded_for, peer),
                )
                &&& session_closed(after, open)
            },
            Err(refusal) => refusal == RejectionView::Storage && after == before,
        },
{
    let ip = real_ip(cf_connecting_ip, x_forwarded_for, peer);
    let step = resolved_step(before, after, limit, EventKind::Disconnect, event, ip, r);
    if let Ok((id, session)) = r {
        assert(closes(after[before.len() as int], session));
    }
}

/// A logout that passes the checks while no session of its user on its
/// host is open gets an identifier that begins with `orphan_`, followed by
/// a fresh identifier, and only the logout's own row is written.
pub proof fn logout_without_open_session(
    before: Seq<DbEventView>,
    after: Seq<DbEventView>,
    limit: nat,
    expected_user_agent: Seq<char>,
    valid_actions: Seq<Seq<char>>,
    user_agent: Option<Seq<char>>,
    cf_connecting_ip: Option<Seq<char>>,
    x_forwarded_for: Option<Seq<char>>,
    peer: Seq<char>,
    event: ClientEventView,
    r: Result<(int, Seq<char>), RejectionView>,
)
    requires
        request_handled(
            before,
            after,
            limit,
            expected_user_agent,
            valid_actions,
            user_agent,
            cf_connecting_ip,
            x_forwarded_for,
            peer,
            event,
            r,
        ),
        accepted_as(EventKind::Disconnect, expected_user_agent, valid_actions, user_agent, event),
        state_of(before, event.username, event.host(), None) == SessionStateView::NoOpenSession,
    ensures
        r is Ok <==> before.len() < limit,
        match r {
            Ok((id, session)) => {
                &&& "orphan_"@.is_prefix_of(session)
                &&& fresh_for(session.skip(7), event)
                &&& id == before.len() + 1
                &&& appended_event(
                    before,
                    after,
                    event,
                    session,
                    real_ip(cf_connecting_ip, x_forwarded_for, peer),
                )
            },
            Err(refusal) => refusal == RejectionView::Storage && after == before,
        },
{
    let ip = real_ip(cf_connecting_ip, x_forwarded_for, peer);
    let step = resolved_step(before, after, limit, EventKind::Disconnect, event, ip, r);
    if let Ok((id, session)) = r {
        reveal_strlit("orphan_");
        let fresh = choose|fresh: Seq<char>| #[trigger]
            fresh_for(fresh, event) && session == "orphan_"@ + fresh;
        assert(session.skip(7) =~= fresh);
        assert(session.subrange(0, 7) =~= "orphan_"@);
    }
}

/// A row that is neither a login nor a logout changes no session: which
/// sessions are closed, which logins are open, which of them is the latest
/// and where each user stands on each host stay as they were, for every
/// user, host and day.
pub proof fn other_row_keeps_sessions(
    rows: Seq<DbEventView>,
    row: DbEventView,
    username: Seq<char>,
    hostname: Seq<char>,
    day: Option<Seq<char>>,
)
    requires
        row.action != "C"@,
        row.action != "D"@,
    ensures
        forall|session: Seq<char>|
            session_closed(rows.push(row), session) == session_closed(rows, session),
        forall|i: int|
            opens(rows.push(row), i, username, hostname, day) == opens(
                rows,
                i,
                username,
                hostname,
                day,
            ),
        forall|i: int|
            latest_open(rows.push(row), i, username, hostname, day) == latest_open(
                rows,
                i,
                username,
                hostname,
                day,
            ),
        has_open(rows.push(row), username, hostname, day) == has_open(
            rows,
            username,
            hostname,
            day,
        ),
        state_of(rows.push(row), username, hostname, day) == state_of(
            rows,
            username,
            hostname,
            day,
        ),
{
    let more = rows.push(row);
    assert forall|session: Seq<char>| session_closed(more, session) == session_closed(
        rows,
        session,
    ) by {
        if session_closed(rows, session) {
            let j = choose|j: int| 0 <= j < rows.len() && closes(#[trigger] rows[j], session);
            assert(closes(more[j], session));
        }
        if session_closed(more, session) {
            let j = choose|j: int| 0 <= j < more.len() && closes(#[trigger] more[j], session);
            assert(j < rows.len());
            assert(closes(rows[j], session));
        }
    }
    assert forall|i: int| opens(more, i, username, hostname, day) == opens(
        rows,
        i,
        username,
        hostname,
        day,
    ) by {
        if 0 <= i < rows.len() {
            assert(more[i] == rows[i]);
        }
    }
    assert forall|i: int| latest_open(more, i, username, hostname, day) == latest_open(
        rows,
        i,
        username,
        hostname,
        day,
    ) by {
        if opens(rows, i, username, hostname, day) {
            assert forall|j: int| opens(rows, j, username, hostname, day) implies not_earlier(
                more,
                i,
                j,
            ) == not_earlier(rows, i, j) by {
                assert(more[i] == rows[i]);
                assert(more[j] == rows[j]);
            }
            if latest_open(rows, i, username, hostname, day) {
                assert forall|j: int| #[trigger]
                    opens(more, j, username, hostname, day) implies not_earlier(more, i, j) by {
                    assert(opens(rows, j, username, hostname, day));
                }
            }
            if latest_open(more, i, username, hostname, day) {
                assert forall|j: int| #[trigger]
                    opens(rows, j, username, hostname, day) implies not_earlier(rows, i, j) by {
                    assert(opens(more, j, username, hostname, day));
                }
            }
        }
    }
    if has_open(rows, username, hostname, day) {
        let i = choose|i: int| #[trigger] opens(rows, i, username, hostname, day);
        assert(opens(more, i, username, hostname, day));
        lemma_latest_open_exists(rows, username, hostname, day);
        let latest = latest_index(rows, username, hostname, day);
        assert(latest_open(more, latest, username, hostname, day));
        lemma_latest_open_is_state(more, latest, username, hostname, day);
        assert(more[latest] == rows[latest]);
    }
    if has_open(more, username, hostname, day) {
        let i = choose|i: int| #[trigger] opens(more, i, username, hostname, day);
        assert(opens(rows, i, username, hostname, day));
    }
}

/// A hardware report that passes the checks gets an identifier that
/// begins with `hardware_`, followed by a fresh identifier; only its own
/// row is written, and no session of any user on any host is opened or
/// closed by it.
pub proof fn hardware_report_joins_no_session(
    before: Seq<DbEventView>,
    after: Seq<DbEventView>,
    limit: nat,
    expected_user_agent: Seq<char>,
    valid_actions: Seq<Seq<char>>,
    user_agent: Option<Seq<char>>,
    cf_connecting_ip: Option<Seq<char>>,
    x_forwarded_for: Option<Seq<char>>,
    peer: Seq<char>,
    event: ClientEventView,
    r: Result<(int, Seq<char>), RejectionView>,
)
    requires
        request_handled(
            before,
            after,
            limit,
            expected_user_agent,
            valid_actions,
            user_agent,
            cf_connecting_ip,
            x_forwarded_for,
            peer,
            event,
            r,
        ),
        accepted_as(
            EventKind::HardwareReport,
            expected_user_agent,
            valid_actions,
            user_agent,
            event,
        ),
    ensures
        r is Ok <==> before.len() < limit,
        match r {
            Ok((id, session)) => {
                &&& "hardware_"@.is_prefix_of(session)
                &&& fresh_for(session.skip(9), event)
                &&& id == before.len() + 1
                &&& appended_event(
                    before,
                    after,
                    event,
                    session,
                    real_ip(cf_connecting_ip, x_forwarded_for, peer),
                )
            },
            Err(refusal) => refusal == RejectionView::Storage && after == before,
        },
        forall|session: Seq<char>| session_closed(after, session) == session_closed(before, session),
        forall|username: Seq<char>, hostname: Seq<char>, day: Option<Seq<char>>|
            state_of(after, username, hostname, day) == state_of(before, username, hostname, day),
{
    let ip = real_ip(cf_connecting_ip, x_forwarded_for, peer);
    let step = resolved_step(before, after, limit, EventKind::HardwareReport, event, ip, r);
    if let Ok((id, session)) = r {
        reveal_strlit("hardware_");
        let fresh = choose|fresh: Seq<char>| #[trigger]
            fresh_for(fresh, event) && session == "hardware_"@ + fresh;
        assert(session.skip(9) =~= fresh);
        assert(session.subrange(0, 9) =~= "hardware_"@);
        let row = after.last();
        assert(after =~= before.push(row));
        assert(row.action == event.action);
        assert forall|username: Seq<char>, hostname: Seq<char>, day: Option<Seq<char>>|
            state_of(after, username, hostname, day) == state_of(
                before,
                username,
                hostname,
                day,
            ) by {
            other_row_keeps_sessions(before, row, username, hostname, day);
        }
        other_row_keeps_sessions(before, row, event.username, event.host(), None);
    }
}

/// At most one session of `username` on `hostname` is open on the day of
/// `day`.
pub open spec fn at_most_one_open(
    rows: Seq<DbEventView>,
    username: Seq<char>,
    hostname: Seq<char>,
    day: Seq<char>,
) -> bool {
    forall|i: int, j: int|
        #![trigger opens(rows, i, username, hostname, Some(day)), opens(rows, j, username, hostname, Some(day))]
        opens(rows, i, username, hostname, Some(day)) && opens(
            rows,
            j,
            username,
            hostname,
            Some(day),
        ) ==> i == j
}

/// A row more opens no login that was there before it.
proof fn old_login_was_open(
    rows: Seq<DbEventView>,
    row: DbEventView,
    i: int,
    username: Seq<char>,
    hostname: Seq<char>,
    day: Option<Seq<char>>,
)
    requires
        opens(rows.push(row), i, username, hostname, day),
        i < rows.len(),
    ensures
        opens(rows, i, username, hostname, day),
{
    let more = rows.push(row);
    assert(more[i] == rows[i]);
    if session_closed(rows, rows[i].session_uuid) {
        let j = choose|j: int|
            0 <= j < rows.len() && closes(#[trigger] rows[j], rows[i].session_uuid);
        assert(closes(more[j], rows[i].session_uuid));
    }
}

/// The resolver lets no second session of a user on a host open on one
/// day: where at most one was open on a day before a request, at most one
/// is open on that day after it, whatever the request. A table that only
/// requests have written, from empty, therefore never holds two.
pub proof fn one_open_session_a_day(
    before: Seq<DbEventView>,
    after: Seq<DbEventView>,
    limit: nat,
    expected_user_agent: Seq<char>,
    valid_actions: Seq<Seq<char>>,
    user_agent: Option<Seq<char>>,
    cf_connecting_ip: Option<Seq<char>>,
    x_forwarded_for: Option<Seq<char>>,
    peer: Seq<char>,
    event: ClientEventView,
    r: Result<(int, Seq<char>), RejectionView>,
    username: Seq<char>,
    hostname: Seq<char>,
    day: Seq<char>,
)
    requires
        request_handled(
            before,
            after,
            limit,
            expected_user_agent,
            valid_actions,
            user_agent,
            cf_connecting_ip,
            x_forwarded_for,
            peer,
            event,
            r,
        ),
        at_most_one_open(before, username, hostname, day),
    ensures
        at_most_one_open(after, username, hostname, day),
{
    let failure = first_failure(expected_user_agent, valid_actions, user_agent, event);
    if failure is None && kind_of(event.action) is Some {
        let kind = kind_of(event.action).unwrap();
        let ip = real_ip(cf_connecting_ip, x_forwarded_for, peer);
        let (middle, resolved) = resolved_step(before, after, limit, kind, event, ip, r);
        let scope = Some(day);
        let n = before.len() as int;
        // a login that was open in the end was open all along
        assert forall|i: int|
            0 <= i < n && opens(after, i, username, hostname, scope) implies opens(
            before,
            i,
            username,
            hostname,
            scope,
        ) by {
            if after.len() > middle.len() {
                assert(after =~= middle.push(after.last()));
                old_login_was_open(middle, after.last(), i, username, hostname, scope);
            }
            if middle.len() > n {
                assert(middle =~= before.push(middle.last()));
                old_login_was_open(before, middle.last(), i, username, hostname, scope);
            }
        }
        let counts = kind == EventKind::Connect && event.username == username && event.host()
            == hostname && same_day(event.timestamp, day);
        if !counts {
            // the rows that were added open nothing for this user, host and day
            assert forall|i: int| opens(after, i, username, hostname, scope) implies i < n by {
                if i >= n {
                    if middle.len() > n && i == n {
                        assert(after[i] == middle.last());
                    }
                }
            }
        } else {
            let own = Some(event.timestamp);
            assert forall|i: int| opens(before, i, username, hostname, scope) == opens(
                before,
                i,
                username,
                hostname,
                own,
            ) by {}
            if has_open(before, username, hostname, own) && after.len() > n {
                // the one login that was open is closed by the logout that was made up
                lemma_latest_open_exists(before, username, hostname, own);
                let latest = latest_index(before, username, hostname, own);
                let old = before[latest].session_uuid;
                assert(middle.len() == n + 1);
                assert(closes(middle[n], old));
                assert(after[n] == middle[n]);
                assert(session_closed(after, old));
                assert forall|i: int| opens(after, i, username, hostname, scope) implies i >= n
                    + 1 by {
                    if i < n {
                        assert(opens(before, latest, username, hostname, scope));
                        assert(i == latest);
                        assert(after[i] == before[i]);
                    }
                }
            } else if after.len() > n {
                assert forall|i: int| opens(after, i, username, hostname, scope) implies i
                    >= n by {
                    if i < n {
                        assert(opens(before, i, username, hostname, own));
                    }
                }
                assert(middle == before);
            }
        }
    }
}

} // verus!
