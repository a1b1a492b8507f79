//! What the tray makes of the notification source: consent, the bubbles of
//! allowed notifications, and the signals that answer them.
use vstd::prelude::*;
use crate::clock::Timestamp;
use crate::engine::{ProcessedModel, ProcessedNotification};
use crate::error::Error;
use crate::model::NotificationId;
use crate::number;
use crate::number::decimal;
use crate::platform::access;
use crate::platform::access::AccessState;
use crate::platform::linux;
use crate::platform::linux::{emit_action, emit_closed, ClosedReason, Signal};
use crate::platform::windows;
use crate::platform::windows::ListenerStatus;
use crate::rules::Decision;
use crate::tray::state;
use crate::tray::state::{AppState, Bubble, CommandModel, Page, StateModel, UiCommand};

verus! {

broadcast use vstd::string::group_string_axioms;

/// The access state to start with: consent that was given or refused before, or
/// else what the system says now.
pub open spec fn starting(persisted: AccessState, live: AccessState) -> AccessState {
    if persisted == AccessState::Granted || live == AccessState::Granted {
        AccessState::Granted
    } else if persisted == AccessState::Denied {
        AccessState::Denied
    } else {
        live
    }
}

/// The access state to start with: consent that was given or refused before, or
/// else what the system says now.
pub fn initial_access(persisted: AccessState, live: AccessState) -> (r: AccessState)
    ensures
        r == starting(persisted, live),
{
    if persisted == AccessState::Granted || live == AccessState::Granted {
        AccessState::Granted
    } else if persisted == AccessState::Denied {
        AccessState::Denied
    } else {
        live
    }
}

/// Whether the user is to be asked for consent: only while nobody knows.
pub fn consent_needed(current: AccessState) -> (r: bool)
    ensures
        r == (current == AccessState::Unknown),
{
    current == AccessState::Unknown
}

/// The access state once the user was asked where that was needed.
pub open spec fn effective(current: AccessState, answer: Option<ListenerStatus>) -> AccessState {
    if current == AccessState::Unknown {
        windows::consent_outcome(answer)
    } else {
        current
    }
}

/// The access state once the user was asked where that was needed.
pub fn effective_access(current: AccessState, answer: Option<ListenerStatus>) -> (r: AccessState)
    ensures
        r == effective(current, answer),
{
    if consent_needed(current) {
        windows::WinRtAccess::new(AccessState::Unknown).request(answer)
    } else {
        current
    }
}

/// The access state of the bus daemon: starting it takes no consent.
pub fn daemon_access(started: bool) -> (r: AccessState)
    ensures
        r == (if started {
            AccessState::Granted
        } else {
            AccessState::Unavailable
        }),
{
    if started {
        AccessState::Granted
    } else {
        AccessState::Unavailable
    }
}

/// What an attempt to start the notification source makes of the state.
pub open spec fn settled(state: StateModel, access: AccessState) -> StateModel {
    StateModel {
        access,
        status: if access == AccessState::Granted {
            state.status
        } else if access == AccessState::Denied {
            "notification access denied"@
        } else {
            "live ingestion unavailable"@
        },
        ..state
    }
}

/// What a notification that went through the engine makes of the state: an
/// allowed one gets a bubble for five seconds and brings up the history.
pub open spec fn routed(
    state: StateModel,
    processed: ProcessedModel,
    now: int,
) -> (StateModel, Option<CommandModel>) {
    if processed.evaluation.decision != Decision::Allow {
        (state, None)
    } else {
        (
            StateModel {
                bubbles: state.bubbles.push(state::bubble_at(processed.notification, 5_000, now)),
                history_stale: true,
                ..state
            },
            Some(CommandModel::Show(Page::History)),
        )
    }
}

impl AppState {
    /// Take over how the attempt to start the notification source ended.
    pub fn source_settled(&mut self, access: AccessState)
        ensures
            final(self)@ == settled(old(self)@, access),
    {
        self.access = access;
        if !access.can_listen() {
            self.status = if access == AccessState::Denied {
                "notification access denied".to_string()
            } else {
                "live ingestion unavailable".to_string()
            };
        }
    }

    /// Say that another program is the notification daemon already.
    pub fn daemon_failed(&mut self, error: &str)
        ensures
            final(self)@ == (StateModel {
                status: "could not become the notification daemon: "@ + error@,
                ..old(self)@
            }),
    {
        let mut status = "could not become the notification daemon: ".to_string();
        status.append(error);
        self.status = status;
    }

    /// Say that there is nothing to listen to on this platform.
    pub fn no_source(&mut self)
        ensures
            final(self)@ == (StateModel {
                status: "no notification source for this platform"@,
                ..old(self)@
            }),
    {
        self.status = "no notification source for this platform".to_string();
    }

    /// Take over the answer to another request for consent; where the platform
    /// has no consent prompt, the status says so.
    pub fn access_requested(&mut self, answer: Option<AccessState>)
        ensures
            final(self)@ == (match answer {
                Some(access) => StateModel { access, ..old(self)@ },
                None => StateModel {
                    status: "no consent prompt on this platform"@,
                    ..old(self)@
                },
            }),
    {
        match answer {
            Some(access) => {
                self.access = access;
            },
            None => {
                self.status = "no consent prompt on this platform".to_string();
            },
        }
    }

    /// Show a notification that went through the engine, if it was allowed.
    pub fn route(&mut self, processed: &ProcessedNotification, now: Timestamp) -> (r: Option<
        UiCommand,
    >)
        ensures
            (final(self)@, state::command_if_any(r)) == routed(old(self)@, processed@, now@),
    {
        if processed.suppressed() {
            return None;
        }
        let ghost before = self.bubbles@;
        let bubble = Bubble::appearing(processed.notification.clone(), 5_000, now);
        let ghost last = bubble@;
        self.bubbles.push(bubble);
        assert(state::bubble_models(self.bubbles@) =~= state::bubble_models(before).push(last));
        self.history_stale = true;
        Some(UiCommand::Show(Page::History))
    }

    /// The line that a smoke test prints.
    pub fn smoke_line(&self) -> (r: String)
        ensures
            r@ == "smoke ok: access="@ + access::access_word(self@.access) + ", bubbles="@
                + number::digits(self@.bubbles.len()) + ", rules="@ + number::digits(
                self@.rules.len(),
            ) + ", profiles="@ + number::digits(self@.profiles.len()),
    {
        let mut line = "smoke ok: access=".to_string();
        line.append(self.access.as_str());
        line.append(", bubbles=");
        line.append(decimal(self.bubbles.len() as u64).as_str());
        line.append(", rules=");
        line.append(decimal(self.rules.len() as u64).as_str());
        line.append(", profiles=");
        line.append(decimal(self.profiles.len() as u64).as_str());
        line
    }
}

/// The user activated an action on a bubble: the signals to emit.
pub fn bubble_action(id: &NotificationId, key: &str) -> (r: Result<Vec<Signal>, Error>)
    ensures
        linux::signals_of(r) == linux::action_signals(id@, key@),
{
    emit_action(id, key)
}

/// A bubble disappeared: the signal to emit.
pub fn bubble_closed(id: &NotificationId, by_user: bool) -> (r: Result<Vec<Signal>, Error>)
    ensures
        linux::signals_of(r) == linux::closed_signals(
            id@,
            if by_user {
                ClosedReason::Dismissed
            } else {
                ClosedReason::Expired
            },
        ),
{
    let reason = if by_user {
        ClosedReason::Dismissed
    } else {
        ClosedReason::Expired
    };
    emit_closed(id, reason)
}

/// A suppressed notification never comes up: no bubble, no popup, and nothing
/// else of the state changes. An allowed one comes up last.
pub proof fn only_allowed_notifications_come_up(
    state: StateModel,
    processed: ProcessedModel,
    now: int,
)
    ensures
        processed.evaluation.decision != Decision::Allow ==> routed(state, processed, now) == (
            state,
            None::<CommandModel>,
        ),
        processed.evaluation.decision == Decision::Allow ==> {
            let after = routed(state, processed, now).0;
            &&& after.bubbles.last().notification == processed.notification
            &&& after.bubbles.drop_last() == state.bubbles
        },
{
    if processed.evaluation.decision == Decision::Allow {
        assert(routed(state, processed, now).0.bubbles.drop_last() =~= state.bubbles);
    }
}

/// Consent that was given before is never asked for again, and a refusal stays
/// one until the system says otherwise.
pub proof fn consent_is_remembered(live: AccessState, answer: Option<ListenerStatus>)
    ensures
        starting(AccessState::Granted, live) == AccessState::Granted,
        live != AccessState::Granted ==> starting(AccessState::Denied, live)
            == AccessState::Denied,
        effective(AccessState::Granted, answer) == AccessState::Granted,
        effective(AccessState::Denied, answer) == AccessState::Denied,
{
}

/// An allowed notification gets a bubble, for five seconds or until it is
/// dismissed where it is critical, marks the history as new and brings it up.
pub proof fn allowed_notifications_bring_up_the_history(
    state: StateModel,
    processed: ProcessedModel,
    now: int,
)
    requires
        processed.evaluation.decision == Decision::Allow,
        crate::clock::reachable(now + 5_000_000_000),
    ensures
        ({
            let (after, command) = routed(state, processed, now);
            &&& after.history_stale
            &&& command == Some(CommandModel::Show(Page::History))
            &&& after.bubbles.len() == state.bubbles.len() + 1
            &&& processed.notification.urgency == crate::model::Urgency::Critical
                ==> after.bubbles.last().expires is None
            &&& processed.notification.urgency != crate::model::Urgency::Critical
                ==> after.bubbles.last().expires == Some(now + 5_000_000_000)
        }),
{
}

/// The access to start with is what the system grants now or granted before,
/// else a refusal that is remembered, else what the system says now.
pub proof fn access_starts_from_what_is_known(persisted: AccessState, live: AccessState)
    ensures
        starting(persisted, live) == AccessState::Granted <==> persisted == AccessState::Granted
            || live == AccessState::Granted,
        persisted != AccessState::Granted && persisted != AccessState::Denied ==> starting(
            persisted,
            live,
        ) == live,
{
}

/// The user is asked only while nobody knows, and then the answer counts; any
/// other state stays, whatever the answer would have been.
pub proof fn the_user_is_asked_only_where_nobody_knows(
    current: AccessState,
    a: Option<ListenerStatus>,
    b: Option<ListenerStatus>,
)
    ensures
        current != AccessState::Unknown ==> effective(current, a) == current && effective(
            current,
            a,
        ) == effective(current, b),
        effective(AccessState::Unknown, Some(ListenerStatus::Allowed)) == AccessState::Granted,
        effective(AccessState::Unknown, Some(ListenerStatus::Denied)) == AccessState::Denied,
        effective(AccessState::Unknown, None) == AccessState::Unavailable,
{
}

/// The status line tells of missing access and stays as it was where there is
/// none missing; nothing else of the popup changes.
pub proof fn the_status_tells_of_missing_access(state: StateModel, access: AccessState)
    ensures
        settled(state, access).access == access,
        access == AccessState::Granted ==> settled(state, access).status == state.status,
        access == AccessState::Denied ==> settled(state, access).status
            == "notification access denied"@,
        access != AccessState::Granted && access != AccessState::Denied ==> settled(
            state,
            access,
        ).status == "live ingestion unavailable"@,
        settled(state, access).bubbles == state.bubbles && settled(state, access).visible
            == state.visible && settled(state, access).history_stale == state.history_stale,
{
}

} // verus!
