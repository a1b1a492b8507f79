//! What a feed of notifications can do, and a mock feed for tests.
use vstd::prelude::*;
use crate::error::{Error, ErrorModel};
use crate::model::{Notification, NotificationId, NotificationModel};

verus! {

broadcast use vstd::string::group_string_axioms;

/// Feature flags reported by a notification source.
#[derive(Clone, Copy, Debug, PartialEq, Eq, Structural)]
pub struct SourceCapabilities {
    /// The source can remove a notification from the OS surface on request.
    pub can_dismiss: bool,
    /// The source can report that the user dismissed a notification natively.
    pub observes_user_dismiss: bool,
    /// Actions (buttons) are forwarded with the notification.
    pub supports_actions: bool,
    /// The source supports idempotent updates of an existing notification.
    pub supports_replace: bool,
}

impl Default for SourceCapabilities {
    fn default() -> (r: SourceCapabilities)
        ensures
            !r.can_dismiss && !r.observes_user_dismiss && !r.supports_actions
                && !r.supports_replace,
    {
        SourceCapabilities {
            can_dismiss: false,
            observes_user_dismiss: false,
            supports_actions: false,
            supports_replace: false,
        }
    }
}

/// The error of a source that is started twice.
pub open spec fn already_running(id: Seq<char>) -> ErrorModel {
    ErrorModel::Source("notification source `"@ + id + "` is already running"@)
}

/// The error of a source that is started twice.
pub fn already_running_error(id: &str) -> (r: Error)
    ensures
        r@ == already_running(id@),
{
    let mut message = "notification source `".to_string();
    message.append(id);
    message.append("` is already running");
    Error::Source(message)
}

/// Mock source used by unit tests and CI (no package identity, no D-Bus).
pub struct MockNotificationSource {
    id: String,
    capabilities: SourceCapabilities,
    running: bool,
    dismissed: Vec<NotificationId>,
    delivered: Vec<Notification>,
}

/// What a [`MockNotificationSource`] holds.
#[verifier::ext_equal]
pub struct MockSourceModel {
    pub id: Seq<char>,
    pub capabilities: SourceCapabilities,
    pub running: bool,
    pub dismissed: Seq<Seq<char>>,
    pub delivered: Seq<NotificationModel>,
}

impl View for MockNotificationSource {
    type V = MockSourceModel;

    closed spec fn view(&self) -> MockSourceModel {
        MockSourceModel {
            id: self.id@,
            capabilities: self.capabilities,
            running: self.running,
            dismissed: id_texts(self.dismissed@),
            delivered: notification_models(self.delivered@),
        }
    }
}

/// The texts of a list of ids.
pub open spec fn id_texts(ids: Seq<NotificationId>) -> Seq<Seq<char>> {
    ids.map_values(|i: NotificationId| i@)
}

/// What each notification in a list says.
pub open spec fn notification_models(list: Seq<Notification>) -> Seq<NotificationModel> {
    list.map_values(|n: Notification| n@)
}

impl MockNotificationSource {
    /// A stopped source that can do everything.
    pub fn new(id: &str) -> (r: MockNotificationSource)
        ensures
            r@ == (MockSourceModel {
                id: id@,
                capabilities: SourceCapabilities {
                    can_dismiss: true,
                    observes_user_dismiss: true,
                    supports_actions: true,
                    supports_replace: true,
                },
                running: false,
                dismissed: Seq::empty(),
                delivered: Seq::empty(),
            }),
    {
        MockNotificationSource {
            id: id.to_string(),
            capabilities: SourceCapabilities {
                can_dismiss: true,
                observes_user_dismiss: true,
                supports_actions: true,
                supports_replace: true,
            },
            running: false,
            dismissed: Vec::new(),
            delivered: Vec::new(),
        }
    }

    /// The source with other capabilities.
    pub fn with_capabilities(self, capabilities: SourceCapabilities) -> (r: MockNotificationSource)
        ensures
            r@ == (MockSourceModel { capabilities, ..self@ }),
    {
        MockNotificationSource { capabilities, ..self }
    }

    /// Stable identifier.
    pub fn id(&self) -> (r: &str)
        ensures
            r@ == self@.id,
    {
        self.id.as_str()
    }

    /// What this source is able to do.
    pub fn capabilities(&self) -> (r: SourceCapabilities)
        ensures
            r == self@.capabilities,
    {
        self.capabilities
    }

    /// Whether the source delivers.
    pub fn is_running(&self) -> (r: bool)
        ensures
            r == self@.running,
    {
        self.running
    }

    /// Record a notification as delivered and, while the source runs, hand it
    /// on to its sink.
    pub fn push(&mut self, notification: Notification) -> (r: Option<Notification>)
        ensures
            final(self)@ == (MockSourceModel {
                delivered: old(self)@.delivered.push(notification@),
                ..old(self)@
            }),
            r is Some <==> old(self)@.running,
            r matches Some(n) ==> n == notification,
    {
        let ghost before = self.delivered@;
        self.delivered.push(notification.clone());
        assert(notification_models(self.delivered@) =~= notification_models(before).push(
            notification@,
        ));
        if self.running {
            Some(notification)
        } else {
            None
        }
    }

    /// Begin delivering notifications. Starting twice without a stop is an
    /// error.
    pub fn start(&mut self) -> (r: Result<(), Error>)
        ensures
            r is Ok <==> !old(self)@.running,
            r matches Err(e) ==> e@ == already_running(old(self)@.id),
            r is Ok ==> final(self)@ == (MockSourceModel { running: true, ..old(self)@ }),
            r is Err ==> final(self)@ == old(self)@,
    {
        if self.running {
            return Err(already_running_error(self.id.as_str()));
        }
        self.running = true;
        Ok(())
    }

    /// Stop delivering notifications.
    pub fn stop(&mut self) -> (r: Result<(), Error>)
        ensures
            r is Ok <==> old(self)@.running,
            r matches Err(e) ==> e@ == ErrorModel::SourceNotRunning(old(self)@.id),
            final(self)@ == (MockSourceModel { running: false, ..old(self)@ }),
    {
        if !self.running {
            return Err(Error::SourceNotRunning(self.id.clone()));
        }
        self.running = false;
        Ok(())
    }

    /// Ask the platform to remove `id` from the notification surface.
    pub fn dismiss(&mut self, id: &NotificationId) -> (r: Result<(), Error>)
        ensures
            r is Ok <==> old(self)@.running,
            r matches Err(e) ==> e@ == ErrorModel::SourceNotRunning(old(self)@.id),
            final(self)@ == (if old(self)@.running {
                MockSourceModel { dismissed: old(self)@.dismissed.push(id@), ..old(self)@ }
            } else {
                old(self)@
            }),
    {
        if !self.running {
            return Err(Error::SourceNotRunning(self.id.clone()));
        }
        let ghost before = self.dismissed@;
        self.dismissed.push(id.clone());
        assert(id_texts(self.dismissed@) =~= id_texts(before).push(id@));
        Ok(())
    }

    /// Ids that were dismissed.
    pub fn dismissed(&self) -> (r: &Vec<NotificationId>)
        ensures
            id_texts(r@) == self@.dismissed,
    {
        &self.dismissed
    }

    /// Notifications handed to `push`.
    pub fn delivered(&self) -> (r: &Vec<Notification>)
        ensures
            notification_models(r@) == self@.delivered,
    {
        &self.delivered
    }
}

} // verus!
