//! The fax sessions of calls.
//!
//! A session belongs to one instance of a call. Work that comes too late for
//! its call neither replaces nor removes the session of a later one.

use crate::call::action;
use crate::call::action::Action;
use crate::call::calls;
use crate::call::calls::{call_is_current, SipCalls};
use crate::ids::CallId;
use crate::table::{table_get, table_insert, table_remove, Copied, Stored};
use dashmap::DashMap;
use vstd::prelude::*;

verus! {

broadcast use action::group_actions;

/// The fax session of one instance of a call.
#[derive(Debug, Clone, Copy, PartialEq, Eq, Structural)]
pub struct FaxSessionEntry {
    /// The key of the session.
    pub session: u64,
    pub instance_id: u64,
}

impl View for FaxSessionEntry {
    type V = FaxSessionEntry;

    open spec fn view(&self) -> FaxSessionEntry {
        *self
    }
}

/// The contents of the table of fax sessions.
pub uninterp spec fn fax_entries(table: DashMap<i32, FaxSessionEntry>) -> Map<i32, FaxSessionEntry>;

impl Stored<i32> for FaxSessionEntry {
    open spec fn entries(table: DashMap<i32, FaxSessionEntry>) -> Map<i32, FaxSessionEntry> {
        fax_entries(table)
    }
}

impl Copied for FaxSessionEntry {
    fn copied(&self) -> (out: FaxSessionEntry) {
        *self
    }
}

/// `DashMap::new`: an empty table.
#[verifier::external_body]
fn new_fax_table() -> (table: DashMap<i32, FaxSessionEntry>)
    ensures
        fax_entries(table) == (Map::<i32, FaxSessionEntry>::empty()),
{
    DashMap::new()
}

/// The fax sessions, by call.
pub struct FaxSessions {
    sessions: DashMap<i32, FaxSessionEntry>,
}

/// The fax sessions in the model.
pub ghost struct FaxView {
    pub sessions: Map<i32, FaxSessionEntry>,
}

impl View for FaxSessions {
    type V = FaxView;

    closed spec fn view(&self) -> FaxView {
        FaxView { sessions: fax_entries(self.sessions) }
    }
}

impl FaxView {
    /// Whether this is the session of the call, in this instance.
    pub open spec fn holds(self, call: CallId, instance: u64, session: u64) -> bool {
        self.sessions.contains_key(call.raw) && self.sessions[call.raw] == (FaxSessionEntry {
            session,
            instance_id: instance,
        })
    }

    /// Whether a session can be registered for the call. There may be one of an
    /// earlier instance; one of this instance stays, so only it may come again.
    pub open spec fn accepts(
        self,
        calls: calls::CallsView,
        call: CallId,
        instance: u64,
        session: u64,
    ) -> bool {
        calls.is_current(call, instance) && (self.sessions.contains_key(call.raw)
            && self.sessions[call.raw].instance_id == instance ==> self.sessions[call.raw].session
            == session)
    }

    /// Whether registering a session replaces one of an earlier instance.
    pub open spec fn replaces(
        self,
        calls: calls::CallsView,
        call: CallId,
        instance: u64,
        session: u64,
    ) -> bool {
        self.accepts(calls, call, instance, session) && self.sessions.contains_key(call.raw)
            && self.sessions[call.raw].instance_id != instance
    }

    /// The sessions with one put in.
    pub open spec fn with(self, call: CallId, instance: u64, session: u64) -> FaxView {
        FaxView {
            sessions: self.sessions.insert(
                call.raw,
                FaxSessionEntry { session, instance_id: instance },
            ),
        }
    }

    /// The sessions without that of a call.
    pub open spec fn without(self, call: CallId) -> FaxView {
        FaxView { sessions: self.sessions.remove(call.raw) }
    }

    /// The sessions after an attempt to register one.
    pub open spec fn registered(
        self,
        calls: calls::CallsView,
        call: CallId,
        instance: u64,
        session: u64,
    ) -> FaxView {
        if self.accepts(calls, call, instance, session) {
            self.with(call, instance, session)
        } else {
            self
        }
    }

    /// What that attempt asks for: the end of the session that is replaced.
    pub open spec fn registering(
        self,
        calls: calls::CallsView,
        call: CallId,
        instance: u64,
        session: u64,
    ) -> Seq<action::ActionView> {
        if self.replaces(calls, call, instance, session) {
            seq![
                action::ActionView::CancelFax { session: self.sessions[call.raw].session },
                action::ActionView::RemoveFaxPort { call_id: call },
            ]
        } else {
            seq![]
        }
    }

    /// The sessions without that of a call, if it is this one.
    pub open spec fn without_current(self, call: CallId, instance: u64, session: u64) -> FaxView {
        if self.holds(call, instance, session) {
            self.without(call)
        } else {
            self
        }
    }

    /// What removing it asks for.
    pub open spec fn removing(self, call: CallId, instance: u64, session: u64) -> Seq<
        action::ActionView,
    > {
        if self.holds(call, instance, session) {
            seq![
                action::ActionView::CancelFax { session },
                action::ActionView::RemoveFaxPort { call_id: call },
            ]
        } else {
            seq![]
        }
    }
}

impl FaxSessions {
    pub fn new() -> (sessions: FaxSessions)
        ensures
            sessions@ == (FaxView { sessions: Map::empty() }),
    {
        FaxSessions { sessions: new_fax_table() }
    }

    /// The session of a call.
    pub fn get(&self, call_id: CallId) -> (found: Option<FaxSessionEntry>)
        ensures
            found == (if self@.sessions.contains_key(call_id.raw) {
                Some(self@.sessions[call_id.raw])
            } else {
                None
            }),
    {
        table_get(&self.sessions, &call_id.raw)
    }

    /// Takes the session of a call out.
    pub fn remove(&mut self, call_id: CallId) -> (taken: Option<FaxSessionEntry>)
        ensures
            final(self)@ == old(self)@.without(call_id),
            taken == (if old(self)@.sessions.contains_key(call_id.raw) {
                Some(old(self)@.sessions[call_id.raw])
            } else {
                None
            }),
    {
        table_remove(&mut self.sessions, &call_id.raw)
    }
}

/// Whether the call is still there in this instance and has this session.
pub fn fax_session_is_current(
    sip_calls: &SipCalls,
    fax_sessions: &FaxSessions,
    call_id: CallId,
    instance_id: u64,
    expected_session: u64,
) -> (r: bool)
    ensures
        r == (sip_calls@.is_current(call_id, instance_id) && fax_sessions@.holds(
            call_id,
            instance_id,
            expected_session,
        )),
{
    if !call_is_current(sip_calls, call_id, instance_id) {
        return false;
    }
    match fax_sessions.get(call_id) {
        Some(entry) => entry.instance_id == instance_id && entry.session == expected_session,
        None => false,
    }
}

/// Registers the session of a call, if the call is still there in this instance
/// and has no other session already. A session that an earlier instance of the
/// call left behind is cancelled.
pub fn register_fax_session_if_current(
    sip_calls: &SipCalls,
    fax_sessions: &mut FaxSessions,
    call_id: CallId,
    instance_id: u64,
    session: u64,
) -> (r: (bool, Vec<Action>))
    ensures
        r.0 == old(fax_sessions)@.accepts(sip_calls@, call_id, instance_id, session),
        final(fax_sessions)@ == old(fax_sessions)@.registered(
            sip_calls@,
            call_id,
            instance_id,
            session,
        ),
        action::action_views(r.1@) == old(fax_sessions)@.registering(
            sip_calls@,
            call_id,
            instance_id,
            session,
        ),
{
    let mut actions: Vec<Action> = Vec::new();
    if !call_is_current(sip_calls, call_id, instance_id) {
        return (false, actions);
    }
    let ghost before = fax_sessions@;
    match fax_sessions.get(call_id) {
        Some(entry) => {
            if entry.instance_id == instance_id {
                if entry.session == session {
                    assert(before.with(call_id, instance_id, session).sessions
                        =~= before.sessions);
                }
                return (entry.session == session, actions);
            }
            actions.push(Action::CancelFax { session: entry.session });
            actions.push(Action::RemoveFaxPort { call_id });
        },
        None => {},
    }
    table_insert(
        &mut fax_sessions.sessions,
        call_id.raw,
        FaxSessionEntry { session, instance_id },
    );
    assert(action::action_views(actions@) =~= before.registering(
        sip_calls@,
        call_id,
        instance_id,
        session,
    ));
    (true, actions)
}

/// Removes the session of a call, if it is this one, and cancels it.
pub fn remove_fax_session_if_current(
    fax_sessions: &mut FaxSessions,
    call_id: CallId,
    instance_id: u64,
    expected_session: u64,
) -> (r: (bool, Vec<Action>))
    ensures
        r.0 == old(fax_sessions)@.holds(call_id, instance_id, expected_session),
        final(fax_sessions)@ == old(fax_sessions)@.without_current(
            call_id,
            instance_id,
            expected_session,
        ),
        action::action_views(r.1@) == old(fax_sessions)@.removing(
            call_id,
            instance_id,
            expected_session,
        ),
{
    let mut actions: Vec<Action> = Vec::new();
    let current = match fax_sessions.get(call_id) {
        Some(entry) => entry.instance_id == instance_id && entry.session == expected_session,
        None => false,
    };
    if current {
        let _ = fax_sessions.remove(call_id);
        actions.push(Action::CancelFax { session: expected_session });
        actions.push(Action::RemoveFaxPort { call_id });
    }
    assert(action::action_views(actions@) =~= old(fax_sessions)@.removing(
        call_id,
        instance_id,
        expected_session,
    ));
    (current, actions)
}

// Laws

/// A session that was registered is the current one of its call, until the call
/// goes.
pub proof fn law_registered_session_is_current(
    fax: FaxView,
    calls: calls::CallsView,
    call: CallId,
    instance: u64,
    session: u64,
)
    requires
        fax.accepts(calls, call, instance, session),
    ensures
        fax.registered(calls, call, instance, session).holds(call, instance, session),
        calls.is_current(call, instance),
{
}

/// Work for an earlier instance of a call neither registers a session nor
/// removes the session that the call now has.
pub proof fn law_stale_fax_work_changes_nothing(
    fax: FaxView,
    calls: calls::CallsView,
    call: CallId,
    stale: u64,
    session: u64,
)
    requires
        fax.sessions.contains_key(call.raw),
        calls.is_current(call, fax.sessions[call.raw].instance_id),
        fax.sessions[call.raw].instance_id != stale,
    ensures
        fax.registered(calls, call, stale, session) == fax,
        fax.without_current(call, stale, session) == fax,
{
}

/// One instance of a call has one session: a second one is turned away.
pub proof fn law_one_fax_session_per_call(
    fax: FaxView,
    calls: calls::CallsView,
    call: CallId,
    instance: u64,
    first: u64,
    second: u64,
)
    requires
        fax.accepts(calls, call, instance, first),
        first != second,
    ensures
        !fax.registered(calls, call, instance, first).accepts(calls, call, instance, second),
        fax.registered(calls, call, instance, first).accepts(calls, call, instance, first),
{
}

} // verus!
