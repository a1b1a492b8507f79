//! Rule model and evaluation engine.
use vstd::prelude::*;
use crate::clock::{WallTime, Weekday};
use crate::config::{Config, ConfigModel};
use crate::context::{ContextModel, ContextSnapshot};
use crate::glob;
use crate::glob::pattern_matches;
use crate::model;
use crate::model::{Notification, NotificationModel, Urgency};
use crate::profile;
use crate::profile::find_profile;
use crate::schedule;
use crate::schedule::{time_in_range, weekday_selected};
use crate::sorting;
use crate::sorting::rank_by;

verus! {

broadcast use vstd::string::group_string_axioms;

/// What the engine does with a notification once a rule matches.
#[derive(Clone, Copy, Debug, PartialEq, Eq, Structural)]
pub enum Decision {
    /// Show it to the user immediately.
    Allow,
    /// Drop it before it reaches the screen; it is still recorded in history.
    Mute,
    /// Hold it and fold it into a per-app digest instead of a popup.
    Batch,
}

impl Default for Decision {
    fn default() -> (r: Decision)
        ensures
            r == Decision::Allow,
    {
        Decision::Allow
    }
}

/// The word for a decision.
pub open spec fn decision_word(decision: Decision) -> Seq<char> {
    match decision {
        Decision::Allow => "allow"@,
        Decision::Mute => "mute"@,
        Decision::Batch => "batch"@,
    }
}

impl Decision {
    /// The word for a decision.
    pub fn as_str(&self) -> (r: &'static str)
        ensures
            r@ == decision_word(*self),
    {
        match self {
            Decision::Allow => "allow",
            Decision::Mute => "mute",
            Decision::Batch => "batch",
        }
    }
}

/// How the conditions of a rule combine.
#[derive(Clone, Copy, Debug, PartialEq, Eq, Structural)]
pub enum MatchMode {
    /// Every condition must hold (logical AND).
    All,
    /// At least one condition must hold (logical OR).
    Any,
}

impl Default for MatchMode {
    fn default() -> (r: MatchMode)
        ensures
            r == MatchMode::All,
    {
        MatchMode::All
    }
}

/// A single condition evaluated against a notification and its context.
#[derive(Debug, PartialEq)]
pub enum Condition {
    /// Source application identity. Patterns support `*` and `?` and are
    /// matched case-insensitively against `app_id` and `display_name`.
    App { apps: Vec<String> },
    /// Whether the foreground window is fullscreen.
    Fullscreen { equals: bool },
    /// Active focus profile by name.
    Profile { profiles: Vec<String> },
    /// Wall-clock time window. An empty `weekdays` list means every day and a
    /// range that wraps (start > end) crosses midnight.
    TimeOfDay { start: WallTime, end: WallTime, weekdays: Vec<Weekday> },
    /// Notification urgency level(s).
    Urgency { urgencies: Vec<Urgency> },
}

/// What a [`Condition`] says.
#[verifier::ext_equal]
pub enum ConditionModel {
    App { apps: Seq<Seq<char>> },
    Fullscreen { equals: bool },
    Profile { profiles: Seq<Seq<char>> },
    TimeOfDay { start: int, end: int, weekdays: Seq<Weekday> },
    Urgency { urgencies: Seq<Urgency> },
}

impl View for Condition {
    type V = ConditionModel;

    open spec fn view(&self) -> ConditionModel {
        match self {
            Condition::App { apps } => ConditionModel::App { apps: model::texts(apps@) },
            Condition::Fullscreen { equals } => ConditionModel::Fullscreen { equals: *equals },
            Condition::Profile { profiles } => ConditionModel::Profile {
                profiles: model::texts(profiles@),
            },
            Condition::TimeOfDay { start, end, weekdays } => ConditionModel::TimeOfDay {
                start: start@,
                end: end@,
                weekdays: weekdays@,
            },
            Condition::Urgency { urgencies } => ConditionModel::Urgency { urgencies: urgencies@ },
        }
    }
}

/// One of the patterns matches the value.
pub open spec fn some_pattern(patterns: Seq<Seq<char>>, value: Seq<char>) -> bool {
    exists|i: int| 0 <= i < patterns.len() && glob::pattern_relation(#[trigger] patterns[i], value)
}

impl ConditionModel {
    /// Whether the condition holds of a notification in its context.
    pub open spec fn holds(self, n: NotificationModel, c: ContextModel) -> bool {
        match self {
            ConditionModel::App { apps } => some_pattern(apps, n.source.app_id) || (
            n.source.display_name is Some && some_pattern(apps, n.source.display_name->0)),
            ConditionModel::Fullscreen { equals } => c.fullscreen == equals,
            ConditionModel::Profile { profiles } => c.active_profile is Some && some_pattern(
                profiles,
                c.active_profile->0,
            ),
            ConditionModel::TimeOfDay { start, end, weekdays } => schedule::day_selected(
                weekdays,
                c.local_time.weekday,
            ) && schedule::in_window(start, end, c.local_time.time@),
            ConditionModel::Urgency { urgencies } => urgencies.contains(n.urgency),
        }
    }
}

fn any_pattern(patterns: &Vec<String>, value: &str) -> (r: bool)
    ensures
        r == some_pattern(model::texts(patterns@), value@),
{
    let ghost all = model::texts(patterns@);
    let mut i: usize = 0;
    while i < patterns.len()
        invariant
            i <= patterns@.len(),
            all == model::texts(patterns@),
            forall|k: int| 0 <= k < i ==> !glob::pattern_relation(#[trigger] all[k], value@),
        decreases patterns@.len() - i,
    {
        assert(all[i as int] == patterns@[i as int]@);
        if pattern_matches(patterns[i].as_str(), value) {
            return true;
        }
        i += 1;
    }
    false
}

fn holds_urgency(urgencies: &Vec<Urgency>, urgency: Urgency) -> (r: bool)
    ensures
        r == urgencies@.contains(urgency),
{
    let mut i: usize = 0;
    while i < urgencies.len()
        invariant
            i <= urgencies@.len(),
            forall|k: int| 0 <= k < i ==> #[trigger] urgencies@[k] != urgency,
        decreases urgencies@.len() - i,
    {
        if urgencies[i] == urgency {
            return true;
        }
        i += 1;
    }
    false
}

impl Condition {
    /// Evaluate this condition against a notification and its context.
    pub fn matches(&self, notification: &Notification, context: &ContextSnapshot) -> (r: bool)
        ensures
            r == self@.holds(notification@, context@),
    {
        match self {
            Condition::App { apps } => {
                if any_pattern(apps, notification.source.app_id.as_str()) {
                    return true;
                }
                match &notification.source.display_name {
                    Some(name) => any_pattern(apps, name.as_str()),
                    None => false,
                }
            },
            Condition::Fullscreen { equals } => context.fullscreen == *equals,
            Condition::Profile { profiles } => match &context.active_profile {
                Some(active) => any_pattern(profiles, active.as_str()),
                None => false,
            },
            Condition::TimeOfDay { start, end, weekdays } => weekday_selected(
                weekdays.as_slice(),
                context.local_time.weekday,
            ) && time_in_range(*start, *end, context.local_time.time),
            Condition::Urgency { urgencies } => holds_urgency(urgencies, notification.urgency),
        }
    }
}

/// A user-defined rule: conditions under which `action` is applied.
#[derive(Debug, PartialEq)]
pub struct Rule {
    /// Unique machine-readable id.
    pub id: String,
    /// Human-readable label shown in the UI/CLI.
    pub name: String,
    /// Disabled rules are skipped entirely.
    pub enabled: bool,
    /// Higher priority rules are evaluated first. Ties fall back to file
    /// order, so the first listed rule wins.
    pub priority: i32,
    /// How `conditions` combine.
    pub match_mode: MatchMode,
    /// Conditions to evaluate. An empty list matches every notification
    /// (a catch-all rule).
    pub conditions: Vec<Condition>,
    /// What happens on a match.
    pub action: Decision,
}

/// What a [`Rule`] says.
#[verifier::ext_equal]
pub struct RuleModel {
    pub id: Seq<char>,
    pub name: Seq<char>,
    pub enabled: bool,
    pub priority: int,
    pub match_mode: MatchMode,
    pub conditions: Seq<ConditionModel>,
    pub action: Decision,
}

/// What each condition in a list says.
pub open spec fn condition_models(conditions: Seq<Condition>) -> Seq<ConditionModel> {
    conditions.map_values(|c: Condition| c@)
}

/// What each rule in a list says.
pub open spec fn rule_models(rules: Seq<Rule>) -> Seq<RuleModel> {
    rules.map_values(|r: Rule| r@)
}

impl View for Rule {
    type V = RuleModel;

    open spec fn view(&self) -> RuleModel {
        RuleModel {
            id: self.id@,
            name: self.name@,
            enabled: self.enabled,
            priority: self.priority as int,
            match_mode: self.match_mode,
            conditions: condition_models(self.conditions@),
            action: self.action,
        }
    }
}

impl RuleModel {
    /// Whether the rule's conditions hold of a notification in its context. A
    /// rule without conditions holds of every notification.
    pub open spec fn holds(self, n: NotificationModel, c: ContextModel) -> bool {
        if self.conditions.len() == 0 {
            true
        } else {
            match self.match_mode {
                MatchMode::All => forall|i: int|
                    0 <= i < self.conditions.len() ==> (#[trigger] self.conditions[i]).holds(n, c),
                MatchMode::Any => exists|i: int|
                    0 <= i < self.conditions.len() && (#[trigger] self.conditions[i]).holds(n, c),
            }
        }
    }

    /// Whether the rule is switched on and its conditions hold.
    pub open spec fn applies(self, n: NotificationModel, c: ContextModel) -> bool {
        self.enabled && self.holds(n, c)
    }
}

/// Rules are switched on unless they say otherwise.
pub fn default_enabled() -> (r: bool)
    ensures
        r,
{
    true
}

impl Rule {
    /// An enabled catch-all rule of priority zero, named by its id.
    pub fn new(id: &str, action: Decision) -> (r: Rule)
        ensures
            r@ == (RuleModel {
                id: id@,
                name: id@,
                enabled: true,
                priority: 0,
                match_mode: MatchMode::All,
                conditions: Seq::empty(),
                action,
            }),
    {
        Rule {
            id: id.to_string(),
            name: id.to_string(),
            enabled: true,
            priority: 0,
            match_mode: MatchMode::All,
            conditions: Vec::new(),
            action,
        }
    }

    /// The rule under another label.
    pub fn named(self, name: &str) -> (r: Rule)
        ensures
            r@ == (RuleModel { name: name@, ..self@ }),
    {
        Rule { name: name.to_string(), ..self }
    }

    /// The rule with another priority.
    pub fn with_priority(self, priority: i32) -> (r: Rule)
        ensures
            r == (Rule { priority, ..self }),
    {
        Rule { priority, ..self }
    }

    /// The rule with its conditions combined another way.
    pub fn with_match_mode(self, mode: MatchMode) -> (r: Rule)
        ensures
            r == (Rule { match_mode: mode, ..self }),
    {
        Rule { match_mode: mode, ..self }
    }

    /// The rule with other conditions.
    pub fn with_conditions(self, conditions: Vec<Condition>) -> (r: Rule)
        ensures
            r == (Rule { conditions, ..self }),
    {
        Rule { conditions, ..self }
    }

    /// The rule with one more condition.
    pub fn with_condition(self, condition: Condition) -> (r: Rule)
        ensures
            r@ == (RuleModel { conditions: self@.conditions.push(condition@), ..self@ }),
    {
        let mut conditions = self.conditions;
        let ghost before = conditions@;
        conditions.push(condition);
        assert(condition_models(conditions@) =~= condition_models(before).push(condition@));
        Rule { conditions, ..self }
    }

    /// The rule switched off.
    pub fn disabled(self) -> (r: Rule)
        ensures
            r == (Rule { enabled: false, ..self }),
    {
        Rule { enabled: false, ..self }
    }

    /// Evaluate this rule. An empty condition list always matches.
    pub fn matches(&self, notification: &Notification, context: &ContextSnapshot) -> (r: bool)
        ensures
            r == self@.holds(notification@, context@),
    {
        if self.conditions.len() == 0 {
            return true;
        }
        let ghost all = condition_models(self.conditions@);
        let mut i: usize = 0;
        while i < self.conditions.len()
            invariant
                i <= self.conditions@.len(),
                all == self@.conditions,
                all == condition_models(self.conditions@),
                self.conditions@.len() > 0,
                forall|k: int|
                    0 <= k < i ==> (#[trigger] all[k]).holds(notification@, context@) == (
                    self.match_mode == MatchMode::All),
            decreases self.conditions@.len() - i,
        {
            assert(all[i as int] == self.conditions@[i as int]@);
            let holds = self.conditions[i].matches(notification, context);
            match self.match_mode {
                MatchMode::All => {
                    if !holds {
                        return false;
                    }
                },
                MatchMode::Any => {
                    if holds {
                        return true;
                    }
                },
            }
            i += 1;
        }
        match self.match_mode {
            MatchMode::All => true,
            MatchMode::Any => false,
        }
    }
}

fn copy_texts(list: &Vec<String>) -> (r: Vec<String>)
    ensures
        r@ == list@,
{
    let mut out: Vec<String> = Vec::new();
    let mut i: usize = 0;
    while i < list.len()
        invariant
            i <= list@.len(),
            out@ == list@.take(i as int),
        decreases list@.len() - i,
    {
        out.push(list[i].clone());
        assert(list@.take(i as int).push(list@[i as int]) =~= list@.take(i + 1));
        i += 1;
    }
    assert(list@.take(list@.len() as int) =~= list@);
    out
}

impl Clone for Condition {
    fn clone(&self) -> (r: Condition)
        ensures
            r@ == self@,
    {
        match self {
            Condition::App { apps } => Condition::App { apps: copy_texts(apps) },
            Condition::Fullscreen { equals } => Condition::Fullscreen { equals: *equals },
            Condition::Profile { profiles } => Condition::Profile {
                profiles: copy_texts(profiles),
            },
            Condition::TimeOfDay { start, end, weekdays } => {
                let days = weekdays.clone();
                assert(days@ =~= weekdays@);
                Condition::TimeOfDay { start: *start, end: *end, weekdays: days }
            },
            Condition::Urgency { urgencies } => {
                let levels = urgencies.clone();
                assert(levels@ =~= urgencies@);
                Condition::Urgency { urgencies: levels }
            },
        }
    }
}

impl Clone for Rule {
    fn clone(&self) -> (r: Rule)
        ensures
            r@ == self@,
    {
        let mut conditions: Vec<Condition> = Vec::new();
        let mut i: usize = 0;
        while i < self.conditions.len()
            invariant
                i <= self.conditions@.len(),
                conditions@.len() == i,
                forall|k: int| 0 <= k < i ==> (#[trigger] conditions@[k])@ == self.conditions@[k]@,
            decreases self.conditions@.len() - i,
        {
            conditions.push(self.conditions[i].clone());
            i += 1;
        }
        assert(condition_models(conditions@) =~= condition_models(self.conditions@));
        Rule {
            id: self.id.clone(),
            name: self.name.clone(),
            enabled: self.enabled,
            priority: self.priority,
            match_mode: self.match_mode,
            conditions,
            action: self.action,
        }
    }
}

/// Result of running the rule pipeline over one notification.
#[derive(Debug, PartialEq)]
pub struct RuleEvaluation {
    /// The decision to apply.
    pub decision: Decision,
    /// Id of the winning rule, `None` when the fallback was used.
    pub matched_rule: Option<String>,
    /// Human-readable explanation, surfaced in logs and the history UI.
    pub reason: String,
}

/// What a [`RuleEvaluation`] says.
pub struct EvaluationModel {
    pub decision: Decision,
    pub matched_rule: Option<Seq<char>>,
    pub reason: Seq<char>,
}

impl View for RuleEvaluation {
    type V = EvaluationModel;

    open spec fn view(&self) -> EvaluationModel {
        EvaluationModel {
            decision: self.decision,
            matched_rule: model::text_if_any(self.matched_rule),
            reason: self.reason@,
        }
    }
}

impl RuleEvaluation {
    /// True when the notification should not reach the screen immediately.
    pub fn suppressed(&self) -> (r: bool)
        ensures
            r == (self.decision != Decision::Allow),
    {
        self.decision != Decision::Allow
    }
}

impl Clone for RuleEvaluation {
    fn clone(&self) -> (r: RuleEvaluation)
        ensures
            r == *self,
    {
        RuleEvaluation {
            decision: self.decision,
            matched_rule: model::copy_text_if_any(&self.matched_rule),
            reason: self.reason.clone(),
        }
    }
}

/// Rule `i` comes before rule `j` in evaluation order: by descending priority,
/// and in file order among equals.
pub open spec fn ahead(rules: Seq<RuleModel>, i: int, j: int) -> bool {
    rules[i].priority > rules[j].priority || (rules[i].priority == rules[j].priority && i < j)
}

/// `order` lists the positions of the rules in evaluation order, each once:
/// those that are enabled, or with `all` every one.
pub open spec fn evaluation_order(rules: Seq<RuleModel>, order: Seq<int>, all: bool) -> bool {
    &&& forall|k: int|
        0 <= k < order.len() ==> 0 <= #[trigger] order[k] < rules.len() && (all
            || rules[order[k]].enabled)
    &&& forall|i: int|
        0 <= i < rules.len() && (all || (#[trigger] rules[i]).enabled) ==> order.contains(i)
    &&& forall|a: int, b: int|
        0 <= a < b < order.len() ==> ahead(rules, #[trigger] order[a], #[trigger] order[b])
}

/// The rule at position `i` applies, and every other one that does comes
/// behind it.
pub open spec fn leads(
    rules: Seq<RuleModel>,
    n: NotificationModel,
    c: ContextModel,
    i: int,
) -> bool {
    &&& 0 <= i < rules.len()
    &&& rules[i].applies(n, c)
    &&& forall|j: int|
        0 <= j < rules.len() && j != i && (#[trigger] rules[j]).applies(n, c) ==> ahead(rules, i, j)
}

/// The verdict of a rule.
pub open spec fn rule_verdict(rule: RuleModel) -> EvaluationModel {
    EvaluationModel {
        decision: rule.action,
        matched_rule: Some(rule.id),
        reason: "matched rule `"@ + rule.name + "`"@,
    }
}

/// The verdict where no rule applies: the active profile's default where it
/// has one, else the global default.
pub open spec fn fallback_verdict(config: ConfigModel, active: Option<Seq<char>>) -> EvaluationModel {
    let own = match active {
        Some(name) => profile::profile_named(config.profiles, name),
        None => None,
    };
    match own {
        Some(p) if p.default_decision is Some => EvaluationModel {
            decision: p.default_decision->0,
            matched_rule: None,
            reason: "no rule matched; profile `"@ + p.name + "` default applied"@,
        },
        _ => EvaluationModel {
            decision: config.default_decision,
            matched_rule: None,
            reason: "no rule matched; global default applied"@,
        },
    }
}

/// What a configuration decides about a notification in its context.
pub open spec fn verdict(
    config: ConfigModel,
    n: NotificationModel,
    c: ContextModel,
) -> EvaluationModel {
    if exists|i: int| leads(config.rules, n, c, i) {
        rule_verdict(config.rules[choose|i: int| leads(config.rules, n, c, i)])
    } else {
        fallback_verdict(config, c.active_profile)
    }
}

/// The keys by which rules are ranked: the highest priority has the lowest key,
/// and a rule that is left out has none.
spec fn rule_keys(rules: Seq<RuleModel>, all: bool) -> Seq<Option<i128>> {
    rules.map_values(
        |r: RuleModel|
            if all || r.enabled {
                Some((-r.priority) as i128)
            } else {
                None
            },
    )
}

proof fn lemma_ranked(rules: Seq<Rule>, order: Seq<int>, all: bool)
    requires
        sorting::ranking(rule_keys(rule_models(rules), all), order),
    ensures
        evaluation_order(rule_models(rules), order, all),
{
    let models = rule_models(rules);
    let keys = rule_keys(models, all);
    assert forall|i: int| 0 <= i < models.len() && (all || (
    #[trigger] models[i]).enabled) implies order.contains(i) by {
        assert(keys[i] is Some);
    }
    assert forall|k: int| 0 <= k < order.len() implies 0 <= #[trigger] order[k] < models.len() && (
    all || models[order[k]].enabled) by {
        assert(keys[order[k]] is Some);
    }
    assert forall|a: int, b: int| 0 <= a < b < order.len() implies ahead(
        models,
        #[trigger] order[a],
        #[trigger] order[b],
    ) by {
        assert(sorting::before(keys, order[a], order[b]));
        assert(keys[order[a]] is Some && keys[order[b]] is Some);
        assert(models[order[a]].priority == rules[order[a]].priority);
        assert(models[order[b]].priority == rules[order[b]].priority);
    }
}

/// The positions of the rules in evaluation order: of those that are enabled,
/// or with `all` of every one.
pub fn rank(rules: &Vec<Rule>, all: bool) -> (r: Vec<usize>)
    ensures
        evaluation_order(rule_models(rules@), sorting::positions(r@), all),
{
    let mut keys: Vec<Option<i128>> = Vec::new();
    let ghost wanted = rule_keys(rule_models(rules@), all);
    let mut i: usize = 0;
    while i < rules.len()
        invariant
            i <= rules@.len(),
            wanted == rule_keys(rule_models(rules@), all),
            keys@ == wanted.take(i as int),
        decreases rules@.len() - i,
    {
        if all || rules[i].enabled {
            keys.push(Some(-(rules[i].priority as i128)));
        } else {
            keys.push(None);
        }
        assert(keys@ =~= wanted.take(i + 1));
        i += 1;
    }
    assert(keys@ =~= wanted);
    let order = rank_by(&keys);
    proof {
        lemma_ranked(rules@, sorting::positions(order@), all);
    }
    order
}

/// Evaluates notifications against a configuration.
///
/// Precedence: enabled rules by descending `priority` (file order breaks
/// ties), then the active profile's default, then the global default.
pub struct RuleEngine<'a> {
    pub config: &'a Config,
}

impl<'a> RuleEngine<'a> {
    /// An engine for a configuration.
    pub fn new(config: &'a Config) -> (r: RuleEngine<'a>)
        ensures
            r.config == config,
    {
        RuleEngine { config }
    }

    /// Enabled rules in evaluation order.
    pub fn ordered_rules(&self) -> (r: Vec<&'a Rule>)
        ensures
            exists|order: Seq<int>|
                {
                    &&& #[trigger] evaluation_order(self.config@.rules, order, false)
                    &&& r@.len() == order.len()
                    &&& forall|k: int|
                        0 <= k < r@.len() ==> *#[trigger] r@[k] == self.config.rules@[order[k]]
                },
    {
        let order = rank(&self.config.rules, false);
        let ghost order_int = sorting::positions(order@);
        let mut out: Vec<&'a Rule> = Vec::new();
        let mut k: usize = 0;
        while k < order.len()
            invariant
                k <= order@.len(),
                out@.len() == k,
                order_int == sorting::positions(order@),
                evaluation_order(self.config@.rules, order_int, false),
                forall|m: int| 0 <= m < k ==> *#[trigger] out@[m] == self.config.rules@[order_int[m]],
            decreases order@.len() - k,
        {
            assert(0 <= order_int[k as int] < self.config@.rules.len());
            out.push(&self.config.rules[order[k]]);
            k += 1;
        }
        out
    }

    /// Decide what to do with `notification`.
    pub fn evaluate(&self, notification: &Notification, context: &ContextSnapshot) -> (r:
        RuleEvaluation)
        ensures
            r@ == verdict(self.config@, notification@, context@),
    {
        let ghost n = notification@;
        let ghost c = context@;
        let ghost rules = self.config@.rules;
        let ordered = self.ordered_rules();
        let ghost order = choose|order: Seq<int>|
            {
                &&& #[trigger] evaluation_order(rules, order, false)
                &&& ordered@.len() == order.len()
                &&& forall|k: int|
                    0 <= k < ordered@.len() ==> *#[trigger] ordered@[k] == self.config.rules@[order[k]]
            };
        let mut k: usize = 0;
        while k < ordered.len()
            invariant
                k <= ordered@.len(),
                n == notification@,
                c == context@,
                rules == self.config@.rules,
                rules == rule_models(self.config.rules@),
                evaluation_order(rules, order, false),
                ordered@.len() == order.len(),
                forall|m: int|
                    0 <= m < ordered@.len() ==> *#[trigger] ordered@[m] == self.config.rules@[order[m]],
                forall|m: int| 0 <= m < k ==> !rules[#[trigger] order[m]].holds(n, c),
            decreases ordered@.len() - k,
        {
            let rule = ordered[k];
            assert(0 <= order[k as int] < rules.len());
            assert(rule@ == rules[order[k as int]]);
            if rule.matches(notification, context) {
                proof {
                    let i = order[k as int];
                    assert(leads(rules, n, c, i)) by {
                        assert forall|j: int|
                            0 <= j < rules.len() && j != i && (#[trigger] rules[j]).applies(
                                n,
                                c,
                            ) implies ahead(rules, i, j) by {
                            assert(order.contains(j));
                            let m = choose|m: int| 0 <= m < order.len() && order[m] == j;
                            if m < k {
                                assert(!rules[order[m]].holds(n, c));
                            }
                            assert(ahead(rules, order[k as int], order[m]));
                        }
                    }
                    let w = choose|i: int| leads(rules, n, c, i);
                    assert(w == i) by {
                        assert(leads(rules, n, c, w));
                        if w != i {
                            assert(ahead(rules, i, w) && ahead(rules, w, i));
                        }
                    }
                }
                let mut reason = "matched rule `".to_string();
                reason.append(rule.name.as_str());
                reason.append("`");
                return RuleEvaluation {
                    decision: rule.action,
                    matched_rule: Some(rule.id.clone()),
                    reason,
                };
            }
            k += 1;
        }
        assert(!exists|i: int| leads(rules, n, c, i)) by {
            if exists|i: int| leads(rules, n, c, i) {
                let i = choose|i: int| leads(rules, n, c, i);
                assert(order.contains(i));
                let m = choose|m: int| 0 <= m < order.len() && order[m] == i;
                assert(!rules[order[m]].holds(n, c));
            }
        }

        if let Some(profile_name) = &context.active_profile {
            if let Some(profile) = find_profile(
                self.config.profiles.as_slice(),
                profile_name.as_str(),
            ) {
                if let Some(decision) = profile.default_decision {
                    let mut reason = "no rule matched; profile `".to_string();
                    reason.append(profile.name.as_str());
                    reason.append("` default applied");
                    return RuleEvaluation { decision, matched_rule: None, reason };
                }
            }
        }
        RuleEvaluation {
            decision: self.config.defaults.decision,
            matched_rule: None,
            reason: "no rule matched; global default applied".to_string(),
        }
    }
}

/// At most one rule leads.
pub proof fn one_rule_leads(
    rules: Seq<RuleModel>,
    n: NotificationModel,
    c: ContextModel,
    i: int,
    j: int,
)
    requires
        leads(rules, n, c, i),
        leads(rules, n, c, j),
    ensures
        i == j,
{
    if i != j {
        assert(ahead(rules, i, j) && ahead(rules, j, i));
    }
}

/// Where any rule applies, one leads: the verdict is then always a rule's.
pub proof fn some_rule_leads(
    rules: Seq<RuleModel>,
    n: NotificationModel,
    c: ContextModel,
    i: int,
)
    requires
        0 <= i < rules.len(),
        rules[i].applies(n, c),
    ensures
        exists|w: int| leads(rules, n, c, w),
{
    let w = lemma_best(rules, n, c, rules.len() as int, i);
    assert(leads(rules, n, c, w));
}

proof fn lemma_best(
    rules: Seq<RuleModel>,
    n: NotificationModel,
    c: ContextModel,
    k: int,
    i: int,
) -> (w: int)
    requires
        0 <= i < k <= rules.len(),
        rules[i].applies(n, c),
    ensures
        0 <= w < k,
        rules[w].applies(n, c),
        forall|j: int|
            0 <= j < k && j != w && (#[trigger] rules[j]).applies(n, c) ==> ahead(rules, w, j),
    decreases k,
{
    if i < k - 1 {
        let w = lemma_best(rules, n, c, k - 1, i);
        if rules[k - 1].applies(n, c) && rules[k - 1].priority > rules[w].priority {
            k - 1
        } else {
            w
        }
    } else if exists|m: int| 0 <= m < k - 1 && (#[trigger] rules[m]).applies(n, c) {
        let m = choose|m: int| 0 <= m < k - 1 && (#[trigger] rules[m]).applies(n, c);
        let w = lemma_best(rules, n, c, k - 1, m);
        if rules[k - 1].priority > rules[w].priority {
            k - 1
        } else {
            w
        }
    } else {
        i
    }
}

/// The rule that leads decides.
pub proof fn leading_rule_decides(
    config: ConfigModel,
    n: NotificationModel,
    c: ContextModel,
    i: int,
)
    requires
        leads(config.rules, n, c, i),
    ensures
        verdict(config, n, c) == rule_verdict(config.rules[i]),
{
    one_rule_leads(config.rules, n, c, i, choose|w: int| leads(config.rules, n, c, w));
}

/// Of two rules that apply, the one of higher priority is not passed over for
/// the other, and among equals the one listed first is not.
pub proof fn later_rule_never_decides(
    rules: Seq<RuleModel>,
    n: NotificationModel,
    c: ContextModel,
    i: int,
    j: int,
)
    requires
        0 <= i < rules.len(),
        0 <= j < rules.len(),
        rules[i].applies(n, c),
        rules[j].applies(n, c),
        rules[i].priority > rules[j].priority || (rules[i].priority == rules[j].priority && i < j),
    ensures
        !leads(rules, n, c, j),
{
}

/// Where no rule applies, the active profile's default decides, and where it
/// has none the global one.
pub proof fn fallback_decides(config: ConfigModel, n: NotificationModel, c: ContextModel)
    requires
        forall|i: int|
            0 <= i < config.rules.len() ==> !(#[trigger] config.rules[i]).applies(n, c),
    ensures
        verdict(config, n, c) == fallback_verdict(config, c.active_profile),
        verdict(config, n, c).matched_rule is None,
{
}

/// A rule without conditions matches every notification.
pub proof fn catch_all_always_matches(rule: RuleModel, n: NotificationModel, c: ContextModel)
    requires
        rule.conditions.len() == 0,
    ensures
        rule.holds(n, c),
{
}

/// A disabled rule never matters: without it every verdict stays the same.
pub proof fn disabled_rule_never_matters(
    config: ConfigModel,
    n: NotificationModel,
    c: ContextModel,
    k: int,
)
    requires
        0 <= k < config.rules.len(),
        !config.rules[k].enabled,
    ensures
        verdict(ConfigModel { rules: config.rules.remove(k), ..config }, n, c) == verdict(
            config,
            n,
            c,
        ),
{
    let rules = config.rules;
    let rest = rules.remove(k);
    let less = ConfigModel { rules: rest, ..config };
    if exists|i: int| leads(rules, n, c, i) {
        let i = choose|i: int| leads(rules, n, c, i);
        let at = if i < k {
            i
        } else {
            i - 1
        };
        assert(rest[at] == rules[i]);
        assert(leads(rest, n, c, at)) by {
            assert forall|j: int|
                0 <= j < rest.len() && j != at && (#[trigger] rest[j]).applies(n, c) implies ahead(
                rest,
                at,
                j,
            ) by {
                let from = if j < k {
                    j
                } else {
                    j + 1
                };
                assert(rules[from] == rest[j]);
                assert(ahead(rules, i, from));
            }
        }
        leading_rule_decides(config, n, c, i);
        leading_rule_decides(less, n, c, at);
    } else if exists|i: int| leads(rest, n, c, i) {
        let i = choose|i: int| leads(rest, n, c, i);
        let from = if i < k {
            i
        } else {
            i + 1
        };
        assert(rules[from] == rest[i]);
        some_rule_leads(rules, n, c, from);
    }
}

/// A condition on fullscreen and its opposite split every situation: exactly one
/// of them holds, and without a fullscreen window it is the one that asks for
/// none.
pub proof fn fullscreen_is_on_or_off(n: NotificationModel, c: ContextModel)
    ensures
        (ConditionModel::Fullscreen { equals: true }).holds(n, c) != (ConditionModel::Fullscreen {
            equals: false,
        }).holds(n, c),
        c.fullscreen ==> (ConditionModel::Fullscreen { equals: true }).holds(n, c),
        !c.fullscreen ==> (ConditionModel::Fullscreen { equals: false }).holds(n, c),
{
}

/// A condition on apps holds where one of its patterns fits the id or the display
/// name of the source; without patterns it never holds.
pub proof fn apps_go_by_id_or_name(
    apps: Seq<Seq<char>>,
    n: NotificationModel,
    c: ContextModel,
)
    ensures
        (ConditionModel::App { apps }).holds(n, c) <==> exists|i: int|
            0 <= i < apps.len() && (glob::pattern_relation(#[trigger] apps[i], n.source.app_id)
                || (n.source.display_name is Some && glob::pattern_relation(
                apps[i],
                n.source.display_name->0,
            ))),
        apps.len() == 0 ==> !(ConditionModel::App { apps }).holds(n, c),
{
}

/// A condition on profiles holds where one of its patterns fits the profile that
/// is active, and never without one.
pub proof fn profiles_go_by_the_active_one(
    profiles: Seq<Seq<char>>,
    n: NotificationModel,
    c: ContextModel,
)
    ensures
        c.active_profile is None ==> !(ConditionModel::Profile { profiles }).holds(n, c),
        c.active_profile is Some ==> ((ConditionModel::Profile { profiles }).holds(n, c)
            <==> exists|i: int|
            0 <= i < profiles.len() && glob::pattern_relation(
                #[trigger] profiles[i],
                c.active_profile->0,
            )),
{
}

/// A condition on the time of day holds on the days it names, or on every day
/// where it names none, from its start until its end, which may lie on the
/// other side of midnight.
pub proof fn times_go_by_day_and_clock(
    start: int,
    end: int,
    weekdays: Seq<Weekday>,
    n: NotificationModel,
    c: ContextModel,
)
    requires
        start != end,
    ensures
        ({
            let at = c.local_time.time@;
            let holds = (ConditionModel::TimeOfDay { start, end, weekdays }).holds(n, c);
            &&& weekdays.len() > 0 && !weekdays.contains(c.local_time.weekday) ==> !holds
            &&& weekdays.len() == 0 || weekdays.contains(c.local_time.weekday) ==> {
                &&& start < end ==> (holds <==> start <= at && at < end)
                &&& end < start ==> (holds <==> !(end <= at && at < start))
            }
        }),
{
}

/// A condition on urgencies holds of each urgency that it names and of no other.
pub proof fn urgencies_go_by_the_list(
    urgencies: Seq<Urgency>,
    n: NotificationModel,
    c: ContextModel,
)
    ensures
        (ConditionModel::Urgency { urgencies }).holds(n, c) <==> exists|i: int|
            0 <= i < urgencies.len() && #[trigger] urgencies[i] == n.urgency,
{
}

/// One more condition makes a rule that asks for all of them hold where it held
/// and the condition holds, and one that asks for any of them where it held or
/// the condition holds. A single condition decides alone.
pub proof fn one_more_condition(
    rule: RuleModel,
    extra: ConditionModel,
    n: NotificationModel,
    c: ContextModel,
)
    ensures
        ({
            let more = RuleModel { conditions: rule.conditions.push(extra), ..rule };
            &&& rule.conditions.len() == 0 ==> (more.holds(n, c) <==> extra.holds(n, c))
            &&& rule.conditions.len() > 0 && rule.match_mode == MatchMode::All ==> (more.holds(n, c)
                <==> rule.holds(n, c) && extra.holds(n, c))
            &&& rule.conditions.len() > 0 && rule.match_mode == MatchMode::Any ==> (more.holds(n, c)
                <==> rule.holds(n, c) || extra.holds(n, c))
            &&& rule.applies(n, c) ==> rule.enabled && rule.holds(n, c)
            &&& rule.enabled && rule.holds(n, c) ==> rule.applies(n, c)
        }),
{
    let less = rule.conditions;
    let all = less.push(extra);
    let more = RuleModel { conditions: all, ..rule };
    assert(all[less.len() as int] == extra);
    assert(forall|i: int| 0 <= i < less.len() ==> all[i] == #[trigger] less[i]);
    if more.holds(n, c) {
        if rule.match_mode == MatchMode::All {
            assert(more.conditions[less.len() as int].holds(n, c));
            assert forall|i: int| 0 <= i < less.len() implies (#[trigger] rule.conditions[i]).holds(
                n,
                c,
            ) by {
                assert(more.conditions[i].holds(n, c));
            }
        } else {
            let i = choose|i: int|
                0 <= i < more.conditions.len() && (#[trigger] more.conditions[i]).holds(n, c);
            if i < less.len() {
                assert(rule.conditions[i].holds(n, c));
            }
        }
    }
    if less.len() > 0 && rule.holds(n, c) && rule.match_mode == MatchMode::Any {
        let i = choose|i: int|
            0 <= i < rule.conditions.len() && (#[trigger] rule.conditions[i]).holds(n, c);
        assert(more.conditions[i].holds(n, c));
    }
    if extra.holds(n, c) && rule.match_mode == MatchMode::Any {
        assert(more.conditions[less.len() as int].holds(n, c));
    }
    if rule.match_mode == MatchMode::All && extra.holds(n, c) && (less.len() == 0 || rule.holds(
        n,
        c,
    )) {
        assert forall|i: int| 0 <= i < more.conditions.len() implies (
        #[trigger] more.conditions[i]).holds(n, c) by {
            if i < less.len() {
                assert(rule.conditions[i].holds(n, c));
            }
        }
    }
}

/// Where a rule that is switched on holds, the verdict is that of such a rule: no
/// other one has a higher priority, and none of the same priority is listed
/// before it. It gives the rule's action, its id and its name.
pub proof fn the_highest_rule_decides(
    config: ConfigModel,
    n: NotificationModel,
    c: ContextModel,
    some: int,
)
    requires
        0 <= some < config.rules.len(),
        config.rules[some].enabled,
        config.rules[some].holds(n, c),
    ensures
        exists|i: int|
            {
                &&& 0 <= i < config.rules.len()
                &&& (#[trigger] config.rules[i]).enabled && config.rules[i].holds(n, c)
                &&& forall|j: int|
                    0 <= j < config.rules.len() && (#[trigger] config.rules[j]).enabled
                        && config.rules[j].holds(n, c) ==> config.rules[j].priority
                        < config.rules[i].priority || (config.rules[j].priority
                        == config.rules[i].priority && i <= j)
                &&& verdict(config, n, c).decision == config.rules[i].action
                &&& verdict(config, n, c).matched_rule == Some(config.rules[i].id)
                &&& verdict(config, n, c).reason == "matched rule `"@ + config.rules[i].name + "`"@
            },
{
    let rules = config.rules;
    some_rule_leads(rules, n, c, some);
    let w = choose|w: int| leads(rules, n, c, w);
    leading_rule_decides(config, n, c, w);
    assert forall|j: int|
        0 <= j < rules.len() && (#[trigger] rules[j]).enabled && rules[j].holds(
            n,
            c,
        ) implies rules[j].priority < rules[w].priority || (rules[j].priority == rules[w].priority
        && w <= j) by {
        if j != w {
            assert(rules[j].applies(n, c));
            assert(ahead(rules, w, j));
        }
    }
    assert(rules[w].enabled && rules[w].holds(n, c));
}

/// Where no rule that is switched on holds, the first profile of the active name
/// decides by its default, and where there is none, or it has none, the global
/// default does.
pub proof fn without_a_rule_the_defaults_decide(
    config: ConfigModel,
    n: NotificationModel,
    c: ContextModel,
    at: int,
)
    requires
        forall|i: int|
            0 <= i < config.rules.len() ==> !((#[trigger] config.rules[i]).enabled
                && config.rules[i].holds(n, c)),
    ensures
        verdict(config, n, c).matched_rule is None,
        c.active_profile is None ==> verdict(config, n, c).decision == config.default_decision,
        c.active_profile is Some && (forall|i: int|
            0 <= i < config.profiles.len() ==> !profile::same_name(
                (#[trigger] config.profiles[i]).name,
                c.active_profile->0,
            )) ==> verdict(config, n, c).decision == config.default_decision,
        c.active_profile is Some && 0 <= at < config.profiles.len() && profile::same_name(
            config.profiles[at].name,
            c.active_profile->0,
        ) && (forall|i: int|
            0 <= i < at ==> !profile::same_name(
                (#[trigger] config.profiles[i]).name,
                c.active_profile->0,
            )) ==> verdict(config, n, c).decision == match config.profiles[at].default_decision {
            Some(d) => d,
            None => config.default_decision,
        },
{
    fallback_decides(config, n, c);
    if let Some(name) = c.active_profile {
        profile::the_first_of_a_name_is_found(config.profiles, name);
        if 0 <= at < config.profiles.len() && profile::same_name(config.profiles[at].name, name) && (
        forall|i: int|
            0 <= i < at ==> !profile::same_name((#[trigger] config.profiles[i]).name, name)) {
            let k = choose|k: int|
                {
                    &&& 0 <= k < config.profiles.len()
                    &&& profile::profile_named(config.profiles, name) == Some(
                        #[trigger] config.profiles[k],
                    )
                    &&& profile::same_name(config.profiles[k].name, name)
                    &&& forall|i: int|
                        0 <= i < k ==> !profile::same_name(
                            (#[trigger] config.profiles[i]).name,
                            name,
                        )
                };
            assert(k == at);
        }
    }
}

/// In evaluation order no rule stands behind one of lower priority, nor behind
/// one of the same priority that is listed later, and none stands twice.
pub proof fn rules_are_ordered_by_priority(
    rules: Seq<RuleModel>,
    order: Seq<int>,
    all: bool,
    a: int,
    b: int,
)
    requires
        evaluation_order(rules, order, all),
        0 <= a < b < order.len(),
    ensures
        rules[order[a]].priority >= rules[order[b]].priority,
        rules[order[a]].priority == rules[order[b]].priority ==> order[a] < order[b],
        order[a] != order[b],
        !all ==> rules[order[a]].enabled && rules[order[b]].enabled,
        forall|i: int| 0 <= i < rules.len() && (all || rules[i].enabled) ==> order.contains(i),
{
    assert(ahead(rules, order[a], order[b]));
    assert(0 <= order[a] < rules.len() && 0 <= order[b] < rules.len());
}

/// Each decision has its own word: the one it is stored and typed under.
pub proof fn decisions_have_their_words(d: Decision)
    ensures
        d == Decision::Allow <==> decision_word(d) == "allow"@,
        d == Decision::Mute <==> decision_word(d) == "mute"@,
        d == Decision::Batch <==> decision_word(d) == "batch"@,
{
    reveal_strlit("allow");
    reveal_strlit("mute");
    reveal_strlit("batch");
    assert("allow"@.len() == 5 && "mute"@.len() == 4 && "batch"@.len() == 5);
    assert("allow"@[0] == 'a' && "batch"@[0] == 'b');
}

} // verus!
