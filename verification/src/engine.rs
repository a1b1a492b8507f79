//! The notification pipeline: source, context, rules, decision.
use vstd::prelude::*;
use crate::config::Config;
use crate::context::{ContextProvider, ContextSnapshot};
use crate::model::{Notification, NotificationModel};
use crate::rules;
use crate::rules::{Decision, EvaluationModel, RuleEngine, RuleEvaluation};

verus! {

/// A notification together with the decision the engine reached.
#[derive(Debug, PartialEq)]
pub struct ProcessedNotification {
    pub notification: Notification,
    pub evaluation: RuleEvaluation,
}

/// What a [`ProcessedNotification`] says.
pub struct ProcessedModel {
    pub notification: NotificationModel,
    pub evaluation: EvaluationModel,
}

impl View for ProcessedNotification {
    type V = ProcessedModel;

    open spec fn view(&self) -> ProcessedModel {
        ProcessedModel { notification: self.notification@, evaluation: self.evaluation@ }
    }
}

impl ProcessedNotification {
    /// True when the notification should not be shown immediately.
    pub fn suppressed(&self) -> (r: bool)
        ensures
            r == (self@.evaluation.decision != Decision::Allow),
    {
        self.evaluation.suppressed()
    }
}

impl Clone for ProcessedNotification {
    fn clone(&self) -> (r: ProcessedNotification)
        ensures
            r@ == self@,
    {
        ProcessedNotification {
            notification: self.notification.clone(),
            evaluation: self.evaluation.clone(),
        }
    }
}

/// Decides about a notification in a context that was captured for it.
pub fn decide(config: &Config, notification: Notification, context: &ContextSnapshot) -> (r:
    ProcessedNotification)
    ensures
        r.notification == notification,
        r.evaluation@ == rules::verdict(config@, notification@, context@),
{
    let evaluation = RuleEngine::new(config).evaluate(&notification, context);
    ProcessedNotification { notification, evaluation }
}

/// Wires a source of notifications to the rule engine.
///
/// The pipeline owns its configuration so rules can be reloaded at runtime
/// without tearing down the source.
pub struct Pipeline<C: ContextProvider> {
    config: Config,
    context: C,
}

impl<C: ContextProvider> Pipeline<C> {
    /// The configuration in force.
    pub closed spec fn rules_in_force(self) -> Config {
        self.config
    }

    /// The provider that captures the environment.
    pub closed spec fn provider(self) -> C {
        self.context
    }

    /// A pipeline with a configuration and a context provider.
    pub fn new(config: Config, context: C) -> (r: Pipeline<C>)
        ensures
            r.rules_in_force() == config,
            r.provider() == context,
    {
        Pipeline { config, context }
    }

    /// Convenience constructor for borrowing a config.
    pub fn from_refs(config: &Config, context: C) -> (r: Pipeline<C>)
        ensures
            r.rules_in_force()@ == config@,
            r.provider() == context,
    {
        Pipeline { config: config.clone(), context }
    }

    /// Hot-reload rules and profiles.
    pub fn replace_config(&mut self, config: Config)
        ensures
            final(self).rules_in_force() == config,
            final(self).provider() == old(self).provider(),
    {
        self.config = config;
    }

    /// Current configuration.
    pub fn config(&self) -> (r: &Config)
        ensures
            *r == self.rules_in_force(),
    {
        &self.config
    }

    /// The context provider backing this pipeline.
    pub fn context_provider(&self) -> (r: &C)
        ensures
            *r == self.provider(),
    {
        &self.context
    }

    /// The context provider backing this pipeline, to be changed in place.
    pub fn context_provider_mut(&mut self) -> (r: &mut C)
        ensures
            *r == old(self).provider(),
            final(self).provider() == *final(r),
            final(self).rules_in_force() == old(self).rules_in_force(),
    {
        &mut self.context
    }

    /// Run one notification through context capture and rule evaluation. The
    /// verdict is the one that the configuration gives in the context that the
    /// provider captured.
    pub fn process(&self, notification: Notification) -> (r: ProcessedNotification)
        ensures
            r.notification == notification,
            exists|context: ContextSnapshot|
                #[trigger] self.provider().may_capture(context)
                    && r.evaluation@ == rules::verdict(
                    self.rules_in_force()@,
                    notification@,
                    context@,
                ),
    {
        let context = self.context.snapshot();
        let processed = decide(&self.config, notification, &context);
        assert(self.provider().may_capture(context));
        processed
    }
}

} // verus!
