//! Environment/context signals that rules evaluate against.
use vstd::prelude::*;
use crate::clock;
use crate::clock::{now_with_local, LocalTime, Timestamp};
use crate::model;
use crate::model::{copy_text_if_any, AppIdentity, AppModel};

verus! {

broadcast use vstd::string::group_string_axioms;

/// A point-in-time view of the user's environment.
///
/// Captured by a [`ContextProvider`] for every notification so rule
/// evaluation is deterministic and replayable from history.
#[derive(Debug, PartialEq)]
pub struct ContextSnapshot {
    /// Currently focused application, when the platform can observe it.
    pub foreground_app: Option<AppIdentity>,
    /// Whether the foreground window covers an entire monitor.
    pub fullscreen: bool,
    /// Name of the manually activated focus profile, if any.
    pub active_profile: Option<String>,
    /// Instant the snapshot was captured (UTC).
    pub captured_at: Timestamp,
    /// Wall-clock local time used for schedule rules. Kept explicit so
    /// evaluation does not depend on the host timezone.
    pub local_time: LocalTime,
}

/// What an app identity that may be absent says.
pub open spec fn app_if_any(app: Option<AppIdentity>) -> Option<AppModel> {
    match app {
        Some(a) => Some(a@),
        None => None,
    }
}

/// What a [`ContextSnapshot`] says.
pub struct ContextModel {
    pub foreground_app: Option<AppModel>,
    pub fullscreen: bool,
    pub active_profile: Option<Seq<char>>,
    pub captured_at: int,
    pub local_time: LocalTime,
}

impl View for ContextSnapshot {
    type V = ContextModel;

    open spec fn view(&self) -> ContextModel {
        ContextModel {
            foreground_app: app_if_any(self.foreground_app),
            fullscreen: self.fullscreen,
            active_profile: model::text_if_any(self.active_profile),
            captured_at: self.captured_at@,
            local_time: self.local_time,
        }
    }
}

impl ContextSnapshot {
    /// Snapshot "now" on this machine.
    pub fn now() -> (r: ContextSnapshot)
        ensures
            r.foreground_app is None,
            !r.fullscreen,
            r.active_profile is None,
            r.captured_at@ >= 0,
            clock::shown_somewhere(r.local_time, r.captured_at@),
    {
        let (captured_at, local_time) = now_with_local();
        ContextSnapshot {
            foreground_app: None,
            fullscreen: false,
            active_profile: None,
            captured_at,
            local_time,
        }
    }
}

impl Default for ContextSnapshot {
    fn default() -> (r: ContextSnapshot)
        ensures
            r.foreground_app is None,
            !r.fullscreen,
            r.active_profile is None,
            r.captured_at@ >= 0,
            clock::shown_somewhere(r.local_time, r.captured_at@),
    {
        ContextSnapshot::now()
    }
}

impl Clone for ContextSnapshot {
    fn clone(&self) -> (r: ContextSnapshot)
        ensures
            r == *self,
    {
        ContextSnapshot {
            foreground_app: match &self.foreground_app {
                Some(app) => Some(app.clone()),
                None => None,
            },
            fullscreen: self.fullscreen,
            active_profile: copy_text_if_any(&self.active_profile),
            captured_at: self.captured_at,
            local_time: self.local_time,
        }
    }
}

/// Supplies [`ContextSnapshot`]s to the rule engine.
///
/// Tests use [`MockContextProvider`].
pub trait ContextProvider {
    /// Whether the provider may capture this environment now. A provider that
    /// does not say may capture any.
    open spec fn may_capture(&self, snapshot: ContextSnapshot) -> bool {
        true
    }

    /// Capture the current environment.
    fn snapshot(&self) -> (r: ContextSnapshot)
        ensures
            self.may_capture(r),
    ;

    /// Human-readable provider name for diagnostics.
    fn name(&self) -> (r: &str)
        default_ensures
            r@ == "unnamed"@,
    {
        "unnamed"
    }
}

/// Manually driven context provider for tests.
#[derive(Debug)]
pub struct MockContextProvider {
    pub current: ContextSnapshot,
}

impl MockContextProvider {
    /// A provider that starts from the present moment.
    pub fn new() -> (r: MockContextProvider)
        ensures
            r.current.foreground_app is None,
            !r.current.fullscreen,
            r.current.active_profile is None,
            r.current.captured_at@ >= 0,
            clock::shown_somewhere(r.current.local_time, r.current.captured_at@),
    {
        MockContextProvider { current: ContextSnapshot::now() }
    }

    /// A provider that starts from a given snapshot.
    pub fn with_snapshot(snapshot: ContextSnapshot) -> (r: MockContextProvider)
        ensures
            r.current == snapshot,
    {
        MockContextProvider { current: snapshot }
    }

    /// Replace the snapshot returned by [`ContextProvider::snapshot`].
    pub fn set_snapshot(&mut self, snapshot: ContextSnapshot)
        ensures
            final(self).current == snapshot,
    {
        self.current = snapshot;
    }

    /// Set the focused application.
    pub fn set_foreground_app(&mut self, app: Option<AppIdentity>)
        ensures
            final(self).current == (ContextSnapshot { foreground_app: app, ..old(self).current }),
    {
        self.current.foreground_app = app;
    }

    /// Set whether a window fills a monitor.
    pub fn set_fullscreen(&mut self, fullscreen: bool)
        ensures
            final(self).current == (ContextSnapshot { fullscreen, ..old(self).current }),
    {
        self.current.fullscreen = fullscreen;
    }

    /// Set the active profile by name, or none.
    pub fn set_active_profile(&mut self, profile: Option<&str>)
        ensures
            model::text_if_any(final(self).current.active_profile) == (match profile {
                Some(p) => Some(p@),
                None => None,
            }),
            final(self).current == (ContextSnapshot {
                active_profile: final(self).current.active_profile,
                ..old(self).current
            }),
    {
        self.current.active_profile = match profile {
            Some(p) => Some(p.to_string()),
            None => None,
        };
    }
}

impl Default for MockContextProvider {
    fn default() -> (r: MockContextProvider)
        ensures
            r.current.foreground_app is None,
            !r.current.fullscreen,
            r.current.active_profile is None,
            r.current.captured_at@ >= 0,
            clock::shown_somewhere(r.current.local_time, r.current.captured_at@),
    {
        MockContextProvider::new()
    }
}

impl ContextProvider for MockContextProvider {
    open spec fn may_capture(&self, snapshot: ContextSnapshot) -> bool {
        snapshot == self.current
    }

    fn snapshot(&self) -> (r: ContextSnapshot) {
        self.current.clone()
    }

    fn name(&self) -> (r: &str)
        ensures
            r@ == "mock"@,
    {
        "mock"
    }
}

} // verus!
