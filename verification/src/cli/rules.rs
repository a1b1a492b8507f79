//! `tpt-focus rules`: manage notification rules in the configuration.
use vstd::prelude::*;
use crate::cli::effect;
use crate::cli::effect::{
    around,
    one_line,
    plain_failure,
    save,
    Effect,
    EffectModel,
    Failure,
    FailureModel,
};
use crate::cli::print;
use crate::cli::print::{rule_header, rule_line};
use crate::cli::times;
use crate::cli::times::parse_time_window;
use crate::config::{Config, ConfigModel};
use crate::model;
use crate::model::Urgency;
use crate::profile;
use crate::rules;
use crate::rules::{rank, Condition, ConditionModel, Decision, MatchMode, Rule, RuleModel};
use crate::sorting;
use crate::text::same_ignoring_ascii_case;

verus! {

broadcast use vstd::string::group_string_axioms;

/// A decision as typed.
#[derive(Clone, Copy, Debug, PartialEq, Eq, Structural)]
pub enum ActionArg {
    Allow,
    Mute,
    Batch,
}

/// The decision that was typed.
pub open spec fn decision_typed(arg: ActionArg) -> Decision {
    match arg {
        ActionArg::Allow => Decision::Allow,
        ActionArg::Mute => Decision::Mute,
        ActionArg::Batch => Decision::Batch,
    }
}

impl ActionArg {
    /// The decision that was typed.
    pub fn decision(self) -> (r: Decision)
        ensures
            r == decision_typed(self),
    {
        match self {
            ActionArg::Allow => Decision::Allow,
            ActionArg::Mute => Decision::Mute,
            ActionArg::Batch => Decision::Batch,
        }
    }
}

/// A way to combine conditions as typed.
#[derive(Clone, Copy, Debug, PartialEq, Eq, Structural)]
pub enum ModeArg {
    All,
    Any,
}

/// The way to combine conditions that was typed.
pub open spec fn mode_typed(arg: ModeArg) -> MatchMode {
    match arg {
        ModeArg::All => MatchMode::All,
        ModeArg::Any => MatchMode::Any,
    }
}

impl ModeArg {
    /// The way to combine conditions that was typed.
    pub fn mode(self) -> (r: MatchMode)
        ensures
            r == mode_typed(self),
    {
        match self {
            ModeArg::All => MatchMode::All,
            ModeArg::Any => MatchMode::Any,
        }
    }
}

/// An urgency as typed.
#[derive(Clone, Copy, Debug, PartialEq, Eq, Structural)]
pub enum UrgencyArg {
    Low,
    Normal,
    Critical,
}

/// The urgency that was typed.
pub open spec fn urgency_typed(arg: UrgencyArg) -> Urgency {
    match arg {
        UrgencyArg::Low => Urgency::Low,
        UrgencyArg::Normal => Urgency::Normal,
        UrgencyArg::Critical => Urgency::Critical,
    }
}

impl UrgencyArg {
    /// The urgency that was typed.
    pub fn urgency(self) -> (r: Urgency)
        ensures
            r == urgency_typed(self),
    {
        match self {
            UrgencyArg::Low => Urgency::Low,
            UrgencyArg::Normal => Urgency::Normal,
            UrgencyArg::Critical => Urgency::Critical,
        }
    }
}

/// What is asked of the rules.
#[derive(Debug)]
pub enum RulesArgs {
    /// List rules in evaluation order.
    List {
        /// Machine-readable output.
        json: bool,
    },
    /// Add a new rule.
    Add(NewRule),
    /// Remove a rule by id.
    Remove { id: String },
    /// Re-enable a rule.
    Enable { id: String },
    /// Disable a rule without deleting it.
    Disable { id: String },
}

/// A rule as typed.
#[derive(Debug)]
pub struct NewRule {
    /// Unique rule id.
    pub id: String,
    /// Human-readable name (defaults to the id).
    pub name: Option<String>,
    /// Decision applied on match.
    pub action: ActionArg,
    /// Rule priority (higher wins).
    pub priority: i32,
    /// How the conditions combine.
    pub mode: ModeArg,
    /// Source app patterns.
    pub apps: Vec<String>,
    /// Match only while one of these focus profiles is active.
    pub profiles: Vec<String>,
    /// Match only these urgency levels.
    pub urgencies: Vec<UrgencyArg>,
    /// Require the desktop to be fullscreen.
    pub fullscreen: bool,
    /// Require the desktop not to be fullscreen.
    pub no_fullscreen: bool,
    /// Wall-clock window, `HH:MM-HH:MM` (may cross midnight).
    pub time: Option<String>,
    /// Weekdays for the window.
    pub weekdays: Vec<String>,
}

/// The conditions that were typed, those of the time left out.
pub open spec fn plain_conditions(new: NewRule) -> Seq<ConditionModel> {
    (if new.apps@.len() > 0 {
        seq![ConditionModel::App { apps: model::texts(new.apps@) }]
    } else {
        Seq::empty()
    }) + (if new.profiles@.len() > 0 {
        seq![ConditionModel::Profile { profiles: model::texts(new.profiles@) }]
    } else {
        Seq::empty()
    }) + (if new.urgencies@.len() > 0 {
        seq![
            ConditionModel::Urgency {
                urgencies: new.urgencies@.map_values(|u: UrgencyArg| urgency_typed(u)),
            },
        ]
    } else {
        Seq::empty()
    }) + (if new.fullscreen {
        seq![ConditionModel::Fullscreen { equals: true }]
    } else if new.no_fullscreen {
        seq![ConditionModel::Fullscreen { equals: false }]
    } else {
        Seq::empty()
    })
}

/// The conditions that were typed, or what is wrong with the time.
pub open spec fn typed_conditions(new: NewRule) -> Result<Seq<ConditionModel>, Seq<char>> {
    match new.time {
        Some(window) => match times::window_typed(window@, model::texts(new.weekdays@)) {
            Ok(condition) => Ok(plain_conditions(new).push(condition)),
            Err(message) => Err(message),
        },
        None => Ok(plain_conditions(new)),
    }
}

/// The rule that was typed, with its conditions.
pub open spec fn typed_rule(new: NewRule, conditions: Seq<ConditionModel>) -> RuleModel {
    RuleModel {
        id: new.id@,
        name: match new.name {
            Some(name) => name@,
            None => new.id@,
        },
        enabled: true,
        priority: new.priority as int,
        match_mode: mode_typed(new.mode),
        conditions,
        action: decision_typed(new.action),
    }
}

/// Whether a rule goes by an id; the case of ASCII letters does not matter.
pub open spec fn goes_by(rule: RuleModel, id: Seq<char>) -> bool {
    profile::same_name(rule.id, id)
}

/// Some rule goes by an id.
pub open spec fn id_taken(rules: Seq<RuleModel>, id: Seq<char>) -> bool {
    exists|i: int| 0 <= i < rules.len() && goes_by(#[trigger] rules[i], id)
}

/// The position of the first rule that goes by an id, or the number of rules.
pub open spec fn rule_position(rules: Seq<RuleModel>, id: Seq<char>) -> int
    decreases rules.len(),
{
    if rules.len() == 0 || goes_by(rules.first(), id) {
        0
    } else {
        1 + rule_position(rules.drop_first(), id)
    }
}

/// The rules that do not go by an id.
pub open spec fn others(rules: Seq<RuleModel>, id: Seq<char>) -> Seq<RuleModel> {
    rules.filter(|r: RuleModel| !goes_by(r, id))
}

/// The lines of a list of rules: a header, and the rules in evaluation order.
pub open spec fn list_lines(rules: Seq<RuleModel>, order: Seq<int>) -> Seq<Seq<char>> {
    seq![
        crate::text::padded_right("ID"@, 28) + " "@ + crate::text::padded_right("ACTION"@, 6)
            + " "@ + crate::text::padded_left("PRI"@, 3) + "  "@ + crate::text::padded_right(
            "CONDITIONS"@,
            45,
        ) + "  NAME"@,
    ] + order.map_values(|i: int| print::rule_text(rules[i]))
}

/// The word for being switched on or off.
pub open spec fn switch_word(on: bool) -> Seq<char> {
    if on {
        "enabled"@
    } else {
        "disabled"@
    }
}

/// The word for being switched on or off.
pub fn enabled_word(on: bool) -> (r: &'static str)
    ensures
        r@ == switch_word(on),
{
    if on {
        "enabled"
    } else {
        "disabled"
    }
}

/// The message that no rule goes by an id.
pub open spec fn no_rule(id: Seq<char>) -> Seq<char> {
    "no rule with id `"@ + id + "`"@
}

/// Switching a rule on or off.
pub open spec fn switched(config: ConfigModel, id: Seq<char>, on: bool) -> Result<
    (ConfigModel, EffectModel),
    FailureModel,
> {
    let at = rule_position(config.rules, id);
    if at >= config.rules.len() {
        Err(effect::plain(no_rule(id)))
    } else if config.rules[at].enabled == on {
        Ok(
            (
                config,
                EffectModel::Print(seq!["rule `"@ + id + "` is already "@ + switch_word(on)]),
            ),
        )
    } else {
        effect::saved(
            ConfigModel {
                rules: config.rules.update(at, RuleModel { enabled: on, ..config.rules[at] }),
                ..config
            },
            seq!["rule `"@ + id + "` "@ + switch_word(on)],
        )
    }
}

/// Adding a rule.
pub open spec fn added(config: ConfigModel, new: NewRule) -> Result<
    (ConfigModel, EffectModel),
    FailureModel,
> {
    if id_taken(config.rules, new.id@) {
        Err(effect::plain("rule `"@ + new.id@ + "` already exists"@))
    } else {
        match typed_conditions(new) {
            Err(message) => Err(effect::plain(message)),
            Ok(conditions) => effect::saved(
                ConfigModel { rules: config.rules.push(typed_rule(new, conditions)), ..config },
                seq!["rule `"@ + new.id@ + "` added"@],
            ),
        }
    }
}

/// Removing the rules that go by an id.
pub open spec fn removed(config: ConfigModel, id: Seq<char>) -> Result<
    (ConfigModel, EffectModel),
    FailureModel,
> {
    if !id_taken(config.rules, id) {
        Err(effect::plain(no_rule(id)))
    } else {
        effect::saved(
            ConfigModel { rules: others(config.rules, id), ..config },
            seq!["rule `"@ + id + "` removed"@],
        )
    }
}

fn position_of_rule(rules: &Vec<Rule>, id: &str) -> (r: usize)
    ensures
        r == rule_position(rules::rule_models(rules@), id@),
        r <= rules@.len(),
        (r < rules@.len()) == id_taken(rules::rule_models(rules@), id@),
{
    let ghost models = rules::rule_models(rules@);
    let mut i: usize = 0;
    assert(models.skip(0) =~= models);
    while i < rules.len()
        invariant
            i <= rules@.len(),
            models == rules::rule_models(rules@),
            rule_position(models, id@) == i + rule_position(models.skip(i as int), id@),
            forall|k: int| 0 <= k < i ==> !goes_by(#[trigger] models[k], id@),
        decreases rules@.len() - i,
    {
        assert(models.skip(i as int).first() == rules@[i as int]@);
        assert(models.skip(i as int).drop_first() =~= models.skip(i + 1));
        if same_ignoring_ascii_case(rules[i].id.as_str(), id) {
            assert(goes_by(models[i as int], id@));
            return i;
        }
        assert(models[i as int] == rules@[i as int]@);
        i += 1;
    }
    i
}

/// The conditions that were typed.
fn build_conditions(new: NewRule) -> (r: Result<Vec<Condition>, String>)
    ensures
        match typed_conditions(new) {
            Ok(conditions) => r is Ok && rules::condition_models(r->Ok_0@) == conditions,
            Err(message) => r is Err && r->Err_0@ == message,
        },
{
    let ghost typed = plain_conditions(new);
    let mut conditions: Vec<Condition> = Vec::new();
    if new.apps.len() > 0 {
        conditions.push(Condition::App { apps: new.apps });
    }
    if new.profiles.len() > 0 {
        conditions.push(Condition::Profile { profiles: new.profiles });
    }
    if new.urgencies.len() > 0 {
        let mut urgencies: Vec<Urgency> = Vec::new();
        let mut i: usize = 0;
        while i < new.urgencies.len()
            invariant
                i <= new.urgencies@.len(),
                urgencies@.len() == i,
                forall|k: int|
                    0 <= k < i ==> #[trigger] urgencies@[k] == urgency_typed(new.urgencies@[k]),
            decreases new.urgencies@.len() - i,
        {
            urgencies.push(new.urgencies[i].urgency());
            i += 1;
        }
        assert(urgencies@ =~= new.urgencies@.map_values(|u: UrgencyArg| urgency_typed(u)));
        conditions.push(Condition::Urgency { urgencies });
    }
    if new.fullscreen {
        conditions.push(Condition::Fullscreen { equals: true });
    } else if new.no_fullscreen {
        conditions.push(Condition::Fullscreen { equals: false });
    }
    assert(rules::condition_models(conditions@) =~= typed);
    if let Some(window) = &new.time {
        match parse_time_window(window.as_str(), &new.weekdays) {
            Ok(condition) => {
                let ghost before = conditions@;
                let ghost last = condition@;
                conditions.push(condition);
                assert(rules::condition_models(conditions@) =~= rules::condition_models(
                    before,
                ).push(last));
            },
            Err(message) => {
                return Err(message);
            },
        }
    }
    Ok(conditions)
}

fn add_rule(config: Config, new: NewRule) -> (r: Result<(Config, Effect), Failure>)
    ensures
        effect::outcome(r) == added(config@, new),
{
    if position_of_rule(&config.rules, new.id.as_str()) < config.rules.len() {
        return Err(plain_failure(around("rule `", new.id.as_str(), "` already exists")));
    }
    let id = new.id.clone();
    let name = match &new.name {
        Some(name) => name.clone(),
        None => new.id.clone(),
    };
    let action = new.action.decision();
    let priority: i32 = new.priority;
    let mode = new.mode.mode();
    let conditions = match build_conditions(new) {
        Ok(conditions) => conditions,
        Err(message) => {
            return Err(plain_failure(message));
        },
    };
    let rule = Rule::new(id.as_str(), action).named(name.as_str()).with_priority(
        priority,
    ).with_match_mode(mode).with_conditions(conditions);
    let ghost typed = typed_rule(new, typed_conditions(new)->Ok_0);
    assert(rule@ =~= typed);
    let mut config = config;
    let ghost before = config.rules@;
    config.rules.push(rule);
    assert(rules::rule_models(config.rules@) =~= rules::rule_models(before).push(typed));
    save(config, one_line(around("rule `", id.as_str(), "` added")))
}

fn remove_rule(config: Config, id: &str) -> (r: Result<(Config, Effect), Failure>)
    ensures
        effect::outcome(r) == removed(config@, id@),
{
    if position_of_rule(&config.rules, id) >= config.rules.len() {
        return Err(plain_failure(around("no rule with id `", id, "`")));
    }
    let ghost models = config@.rules;
    let ghost keep = |r: RuleModel| !goes_by(r, id@);
    let mut kept: Vec<Rule> = Vec::new();
    let mut i: usize = 0;
    proof {
        reveal(Seq::filter);
        assert(rules::rule_models(kept@) =~= models.take(0).filter(keep));
    }
    while i < config.rules.len()
        invariant
            i <= config.rules@.len(),
            models == rules::rule_models(config.rules@),
            keep == (|r: RuleModel| !goes_by(r, id@)),
            rules::rule_models(kept@) == models.take(i as int).filter(keep),
        decreases config.rules@.len() - i,
    {
        proof {
            reveal(Seq::filter);
            assert(models.take(i + 1).drop_last() =~= models.take(i as int));
            assert(models.take(i + 1).last() == config.rules@[i as int]@);
        }
        if !same_ignoring_ascii_case(config.rules[i].id.as_str(), id) {
            let ghost before = kept@;
            kept.push(config.rules[i].clone());
            assert(rules::rule_models(kept@) =~= rules::rule_models(before).push(
                config.rules@[i as int]@,
            ));
        }
        i += 1;
    }
    assert(models.take(models.len() as int) =~= models);
    let config = Config {
        version: config.version,
        defaults: config.defaults,
        profiles: config.profiles,
        rules: kept,
    };
    save(config, one_line(around("rule `", id, "` removed")))
}

fn toggle(config: Config, id: &str, on: bool) -> (r: Result<(Config, Effect), Failure>)
    ensures
        effect::outcome(r) == switched(config@, id@, on),
{
    let at: usize = position_of_rule(&config.rules, id);
    if at >= config.rules.len() {
        return Err(plain_failure(around("no rule with id `", id, "`")));
    }
    assert(config@.rules[at as int] == config.rules@[at as int]@);
    if config.rules[at].enabled == on {
        let mut line = around("rule `", id, "` is already ");
        line.append(enabled_word(on));
        return Ok((config, Effect::Print(one_line(line))));
    }
    let mut config = config;
    let ghost before = config.rules@;
    let mut rule = config.rules.remove(at);
    let ghost old_rule = rule@;
    rule.enabled = on;
    assert(rule@ =~= (RuleModel { enabled: on, ..old_rule }));
    config.rules.insert(at, rule);
    assert(rules::rule_models(config.rules@) =~= rules::rule_models(before).update(
        at as int,
        RuleModel { enabled: on, ..old_rule },
    ));
    let mut line = around("rule `", id, "` ");
    line.append(enabled_word(on));
    save(config, one_line(line))
}

fn list_rules(config: &Config) -> (r: Vec<String>)
    ensures
        exists|order: Seq<int>|
            #[trigger] rules::evaluation_order(config@.rules, order, true) && model::texts(r@)
                == list_lines(config@.rules, order),
{
    let order = rank(&config.rules, true);
    let ghost places = sorting::positions(order@);
    let ghost models = config@.rules;
    let mut lines: Vec<String> = Vec::new();
    lines.push(rule_header());
    let ghost head = lines@[0]@;
    let mut k: usize = 0;
    while k < order.len()
        invariant
            k <= order@.len(),
            models == rules::rule_models(config.rules@),
            places == sorting::positions(order@),
            rules::evaluation_order(models, places, true),
            lines@.len() == k + 1,
            lines@[0]@ == head,
            forall|m: int|
                0 <= m < k ==> (#[trigger] lines@[m + 1])@ == print::rule_text(models[places[m]]),
        decreases order@.len() - k,
    {
        assert(0 <= places[k as int] < models.len());
        lines.push(rule_line(&config.rules[order[k]]));
        k += 1;
    }
    proof {
        let want = list_lines(models, places);
        assert forall|i: int| 0 <= i < want.len() implies model::texts(lines@)[i] == want[i] by {
            if i > 0 {
                assert(lines@[(i - 1) + 1]@ == print::rule_text(models[places[i - 1]]));
            }
        }
        assert(model::texts(lines@) =~= want);
    }
    lines
}

/// What a command about rules leads to, other than listing them.
pub open spec fn changed(config: ConfigModel, args: RulesArgs) -> Result<
    (ConfigModel, EffectModel),
    FailureModel,
> {
    match args {
        RulesArgs::Add(new) => added(config, new),
        RulesArgs::Remove { id } => removed(config, id@),
        RulesArgs::Enable { id } => switched(config, id@, true),
        RulesArgs::Disable { id } => switched(config, id@, false),
        RulesArgs::List { json } => Err(effect::plain(Seq::empty())),
    }
}

/// Carries out a command about rules on the configuration that was read from
/// `path`. A list shows the rules in evaluation order, those that are switched
/// off among them.
pub fn run(config: Config, args: RulesArgs, path: &str) -> (r: Result<(Config, Effect), Failure>)
    ensures
        match args {
            RulesArgs::List { json } => match config@.fault() {
                Some(message) => r is Err && r->Err_0@ == effect::plain(
                    "invalid configuration: "@ + message,
                ),
                None => {
                    &&& r is Ok
                    &&& r->Ok_0.0 == config
                    &&& if json {
                        r->Ok_0.1@ == EffectModel::PrintJson
                    } else if config@.rules.len() == 0 {
                        r->Ok_0.1@ == EffectModel::Print(
                            seq!["no rules configured ("@ + path@ + ")"@],
                        )
                    } else {
                        exists|order: Seq<int>|
                            #[trigger] rules::evaluation_order(config@.rules, order, true)
                                && r->Ok_0.1@ == EffectModel::Print(
                                list_lines(config@.rules, order),
                            )
                    }
                },
            },
            _ => effect::outcome(r) == changed(config@, args),
        },
{
    match args {
        RulesArgs::List { json } => {
            match config.validate() {
                Ok(()) => {},
                Err(error) => {
                    return Err(plain_failure(error.to_text()));
                },
            }
            if json {
                return Ok((config, Effect::PrintJson));
            }
            if config.rules.len() == 0 {
                let line = around("no rules configured (", path, ")");
                return Ok((config, Effect::Print(one_line(line))));
            }
            let lines = list_rules(&config);
            Ok((config, Effect::Print(lines)))
        },
        RulesArgs::Add(new) => add_rule(config, new),
        RulesArgs::Remove { id } => remove_rule(config, id.as_str()),
        RulesArgs::Enable { id } => toggle(config, id.as_str(), true),
        RulesArgs::Disable { id } => toggle(config, id.as_str(), false),
    }
}

/// Removing a rule undoes adding it.
pub proof fn removing_undoes_adding(rules: Seq<RuleModel>, rule: RuleModel)
    requires
        !id_taken(rules, rule.id),
    ensures
        others(rules.push(rule), rule.id) == rules,
{
    reveal(Seq::filter);
    assert(rules.push(rule).drop_last() =~= rules);
    assert(others(rules.push(rule), rule.id) == others(rules, rule.id));
    lemma_others_all(rules, rule.id);
}

proof fn lemma_others_all(rules: Seq<RuleModel>, id: Seq<char>)
    requires
        !id_taken(rules, id),
    ensures
        others(rules, id) == rules,
    decreases rules.len(),
{
    reveal(Seq::filter);
    if rules.len() > 0 {
        let rest = rules.drop_last();
        assert(!id_taken(rest, id)) by {
            if id_taken(rest, id) {
                let i = choose|i: int| 0 <= i < rest.len() && goes_by(#[trigger] rest[i], id);
                assert(goes_by(rules[i], id));
            }
        }
        lemma_others_all(rest, id);
        assert(!goes_by(rules[rules.len() - 1], id));
        assert(rest.push(rules.last()) =~= rules);
    } else {
        assert(others(rules, id) =~= rules);
    }
}

/// Switching a rule off and on again, or on and off, leaves it as it was.
pub proof fn switching_back_restores(rules: Seq<RuleModel>, at: int)
    requires
        0 <= at < rules.len(),
    ensures
        ({
            let there = rules.update(at, RuleModel { enabled: !rules[at].enabled, ..rules[at] });
            there.update(at, RuleModel { enabled: rules[at].enabled, ..there[at] }) == rules
        }),
{
    let there = rules.update(at, RuleModel { enabled: !rules[at].enabled, ..rules[at] });
    assert(there.update(at, RuleModel { enabled: rules[at].enabled, ..there[at] }) =~= rules);
}

/// What was typed for a decision, a mode or an urgency means just that.
pub proof fn arguments_mean_what_they_say(action: ActionArg, mode: ModeArg, urgency: UrgencyArg)
    ensures
        decision_typed(action) == Decision::Allow <==> action == ActionArg::Allow,
        decision_typed(action) == Decision::Mute <==> action == ActionArg::Mute,
        decision_typed(action) == Decision::Batch <==> action == ActionArg::Batch,
        mode_typed(mode) == MatchMode::All <==> mode == ModeArg::All,
        mode_typed(mode) == MatchMode::Any <==> mode == ModeArg::Any,
        urgency_typed(urgency) == Urgency::Low <==> urgency == UrgencyArg::Low,
        urgency_typed(urgency) == Urgency::Normal <==> urgency == UrgencyArg::Normal,
        urgency_typed(urgency) == Urgency::Critical <==> urgency == UrgencyArg::Critical,
{
}

/// Each flag that was given makes one condition: apps, profiles, urgencies and
/// the fullscreen window, in this order.
pub proof fn every_flag_makes_one_condition(new: NewRule, k: int)
    ensures
        ({
            let a = if new.apps@.len() > 0 {
                1int
            } else {
                0
            };
            let p = if new.profiles@.len() > 0 {
                1int
            } else {
                0
            };
            let u = if new.urgencies@.len() > 0 {
                1int
            } else {
                0
            };
            let f = if new.fullscreen || new.no_fullscreen {
                1int
            } else {
                0
            };
            let made = plain_conditions(new);
            &&& made.len() == a + p + u + f
            &&& new.apps@.len() > 0 ==> made[0] == (ConditionModel::App {
                apps: model::texts(new.apps@),
            })
            &&& new.profiles@.len() > 0 ==> made[a] == (ConditionModel::Profile {
                profiles: model::texts(new.profiles@),
            })
            &&& new.urgencies@.len() > 0 ==> made[a + p] is Urgency
                && made[a + p]->urgencies.len() == new.urgencies@.len()
            &&& 0 <= k < new.urgencies@.len() ==> made[a + p]->urgencies[k] == urgency_typed(
                new.urgencies@[k],
            )
            &&& f == 1 ==> made[a + p + u] == (ConditionModel::Fullscreen {
                equals: new.fullscreen,
            })
        }),
{
}

/// A typed rule is switched on, goes by its id where no name was typed, and asks
/// for the typed time last.
pub proof fn typed_rules_hold_what_was_typed(new: NewRule, conditions: Seq<ConditionModel>)
    ensures
        ({
            let rule = typed_rule(new, conditions);
            &&& rule.id == new.id@ && rule.enabled && rule.priority == new.priority
            &&& new.name is None ==> rule.name == new.id@
            &&& new.name matches Some(name) ==> rule.name == name@
            &&& rule.conditions == conditions
            &&& rule.action == decision_typed(new.action)
            &&& rule.match_mode == mode_typed(new.mode)
        }),
        new.time is None ==> typed_conditions(new) == Ok::<Seq<ConditionModel>, Seq<char>>(
            plain_conditions(new),
        ),
        new.time matches Some(window) ==> ({
            let condition = times::window_typed(window@, model::texts(new.weekdays@));
            &&& typed_conditions(new) is Ok <==> condition is Ok
            &&& typed_conditions(new) matches Ok(all) ==> all.len() == plain_conditions(new).len()
                + 1 && all.last() == condition->Ok_0 && all.drop_last() == plain_conditions(new)
            &&& typed_conditions(new) matches Err(message) ==> condition == Err::<
                ConditionModel,
                Seq<char>,
            >(message)
        }),
{
    if let Some(window) = new.time {
        if let Ok(all) = typed_conditions(new) {
            assert(all.drop_last() =~= plain_conditions(new));
        }
    }
}

proof fn lemma_rule_position(rules: Seq<RuleModel>, id: Seq<char>, at: int)
    requires
        0 <= at <= rules.len(),
        at < rules.len() ==> goes_by(rules[at], id),
        forall|k: int| 0 <= k < at ==> !goes_by(#[trigger] rules[k], id),
    ensures
        rule_position(rules, id) == at,
    decreases rules.len(),
{
    if at > 0 {
        assert(!goes_by(rules[0], id));
        let rest = rules.drop_first();
        assert forall|k: int| 0 <= k < at - 1 implies !goes_by(#[trigger] rest[k], id) by {
            assert(rest[k] == rules[k + 1]);
        }
        lemma_rule_position(rest, id, at - 1);
    }
}

/// Switching finds the first rule that goes by the id, in any case of its ASCII
/// letters, and changes whether that one is on, and nothing else. Where no rule
/// goes by the id, or the rule would make the configuration invalid, nothing
/// changes.
pub proof fn switching_changes_one_rule(config: ConfigModel, id: Seq<char>, on: bool, at: int)
    requires
        0 <= at <= config.rules.len(),
        at < config.rules.len() ==> crate::text::ascii_lower(config.rules[at].id)
            == crate::text::ascii_lower(id),
        forall|k: int|
            0 <= k < at ==> crate::text::ascii_lower((#[trigger] config.rules[k]).id)
                != crate::text::ascii_lower(id),
    ensures
        at == config.rules.len() ==> switched(config, id, on) == Err::<
            (ConfigModel, EffectModel),
            FailureModel,
        >(effect::plain("no rule with id `"@ + id + "`"@)),
        at < config.rules.len() && config.rules[at].enabled == on ==> (switched(
            config,
            id,
            on,
        ) matches Ok((after, said)) && after == config && said is Print),
        at < config.rules.len() && config.rules[at].enabled != on ==> {
            let after = ConfigModel {
                rules: config.rules.update(at, RuleModel { enabled: on, ..config.rules[at] }),
                ..config
            };
            &&& switched(config, id, on) is Ok <==> after.fault() is None
            &&& switched(config, id, on) matches Ok((now, said)) ==> now == after && said is Save
        },
{
    assert forall|k: int| 0 <= k < at implies !goes_by(#[trigger] config.rules[k], id) by {}
    lemma_rule_position(config.rules, id, at);
}

/// A new rule comes last and leaves the others as they are; its id must not be
/// taken, in whatever case.
pub proof fn new_rules_come_last(config: ConfigModel, new: NewRule, i: int)
    ensures
        0 <= i < config.rules.len() && crate::text::ascii_lower(config.rules[i].id)
            == crate::text::ascii_lower(new.id@) ==> added(config, new) is Err,
        added(config, new) matches Ok((after, said)) ==> {
            &&& after.rules.len() == config.rules.len() + 1
            &&& after.rules.drop_last() == config.rules
            &&& after.rules.last().id == new.id@
            &&& after.rules.last().conditions == typed_conditions(new)->Ok_0
            &&& after.profiles == config.profiles && after.default_decision
                == config.default_decision
            &&& after.fault() is None
            &&& said == EffectModel::Save(seq!["rule `"@ + new.id@ + "` added"@])
        },
{
    if 0 <= i < config.rules.len() && crate::text::ascii_lower(config.rules[i].id)
        == crate::text::ascii_lower(new.id@) {
        assert(goes_by(config.rules[i], new.id@));
    }
    if let Ok((after, said)) = added(config, new) {
        assert(after.rules.drop_last() =~= config.rules);
    }
}

/// Removing takes every rule that goes by the id and keeps all others in order.
pub proof fn removing_takes_the_id_alone(rules: Seq<RuleModel>, rule: RuleModel, id: Seq<char>)
    ensures
        others(Seq::empty(), id).len() == 0,
        crate::text::ascii_lower(rule.id) == crate::text::ascii_lower(id) ==> others(
            rules.push(rule),
            id,
        ) == others(rules, id),
        crate::text::ascii_lower(rule.id) != crate::text::ascii_lower(id) ==> others(
            rules.push(rule),
            id,
        ) == others(rules, id).push(rule),
{
    reveal(Seq::filter);
    assert(rules.push(rule).drop_last() =~= rules);
}

/// A rule can be removed exactly where one goes by the id and the rest is valid.
pub proof fn removing_needs_a_rule(config: ConfigModel, id: Seq<char>)
    ensures
        (forall|i: int|
            0 <= i < config.rules.len() ==> crate::text::ascii_lower(
                (#[trigger] config.rules[i]).id,
            ) != crate::text::ascii_lower(id)) ==> removed(config, id) is Err,
        removed(config, id) matches Ok((after, said)) ==> after.rules == others(config.rules, id)
            && after.profiles == config.profiles && after.fault() is None && said is Save,
        (exists|i: int| 0 <= i < config.rules.len() && goes_by(#[trigger] config.rules[i], id))
            && (ConfigModel { rules: others(config.rules, id), ..config }).fault() is None
            ==> removed(config, id) is Ok,
{
    if id_taken(config.rules, id) {
        let i = choose|i: int|
            0 <= i < config.rules.len() && goes_by(#[trigger] config.rules[i], id);
        assert(crate::text::ascii_lower(config.rules[i].id) == crate::text::ascii_lower(id));
    }
}

/// Each command does what it says to the first rule that goes by the id: enabling
/// leaves it on, disabling leaves it off, removing leaves the others, and adding
/// leaves the new one last.
pub proof fn rule_commands_do_what_they_say(
    config: ConfigModel,
    id: String,
    new: NewRule,
    at: int,
)
    requires
        0 <= at < config.rules.len(),
        goes_by(config.rules[at], id@),
        forall|k: int| 0 <= k < at ==> !goes_by(#[trigger] config.rules[k], id@),
    ensures
        changed(config, RulesArgs::Enable { id }) matches Ok((after, said)) ==> after.rules.len()
            == config.rules.len() && after.rules[at].enabled,
        changed(config, RulesArgs::Disable { id }) matches Ok((after, said)) ==> after.rules.len()
            == config.rules.len() && !after.rules[at].enabled,
        changed(config, RulesArgs::Remove { id }) matches Ok((after, said)) ==> after.rules
            == others(config.rules, id@),
        changed(config, RulesArgs::Add(new)) matches Ok((after, said)) ==> after.rules.len()
            == config.rules.len() + 1 && after.rules.last().id == new.id@,
        changed(config, RulesArgs::Enable { id }) is Err ==> !config.rules[at].enabled,
        changed(config, RulesArgs::Disable { id }) is Err ==> config.rules[at].enabled,
{
    lemma_rule_position(config.rules, id@, at);
}

/// Switching says which way it went.
pub proof fn switching_says_which_way(config: ConfigModel, id: Seq<char>, at: int)
    requires
        0 <= at < config.rules.len(),
        goes_by(config.rules[at], id),
        forall|k: int| 0 <= k < at ==> !goes_by(#[trigger] config.rules[k], id),
    ensures
        switch_word(true) == "enabled"@,
        switch_word(false) == "disabled"@,
        config.rules[at].enabled ==> switched(config, id, true)->Ok_0.1 == EffectModel::Print(
            seq!["rule `"@ + id + "` is already "@ + "enabled"@],
        ),
        !config.rules[at].enabled ==> switched(config, id, false)->Ok_0.1 == EffectModel::Print(
            seq!["rule `"@ + id + "` is already "@ + "disabled"@],
        ),
        switched(config, id, true) is Ok && !config.rules[at].enabled ==> switched(
            config,
            id,
            true,
        )->Ok_0.1 == EffectModel::Save(seq!["rule `"@ + id + "` "@ + "enabled"@]),
        switched(config, id, false) is Ok && config.rules[at].enabled ==> switched(
            config,
            id,
            false,
        )->Ok_0.1 == EffectModel::Save(seq!["rule `"@ + id + "` "@ + "disabled"@]),
{
    lemma_rule_position(config.rules, id, at);
}

/// A list has a line for each rule, in the given order, below a header whose words
/// stand over the columns.
pub proof fn lists_show_every_rule(rules: Seq<RuleModel>, order: Seq<int>, k: int)
    ensures
        list_lines(rules, order).len() == order.len() + 1,
        0 <= k < order.len() ==> list_lines(rules, order)[k + 1] == print::rule_text(
            rules[order[k]],
        ),
        ({
            let head = list_lines(rules, order)[0];
            &&& head.subrange(0, 2) == "ID"@
            &&& head.subrange(29, 35) == "ACTION"@
            &&& head.subrange(36, 39) == "PRI"@
            &&& head.subrange(41, 51) == "CONDITIONS"@
            &&& head.skip(88) == "NAME"@
        }),
{
    reveal_strlit("ID");
    reveal_strlit("ACTION");
    reveal_strlit("PRI");
    reveal_strlit("CONDITIONS");
    reveal_strlit("  NAME");
    reveal_strlit("NAME");
    reveal_strlit(" ");
    reveal_strlit("  ");
    crate::text::padding_fills_to_the_width("ID"@, 28, 0);
    crate::text::padding_fills_to_the_width("ACTION"@, 6, 0);
    crate::text::padding_fills_to_the_width("PRI"@, 3, 0);
    crate::text::padding_fills_to_the_width("CONDITIONS"@, 45, 0);
    let id = crate::text::padded_right("ID"@, 28);
    let action = crate::text::padded_right("ACTION"@, 6);
    let pri = crate::text::padded_left("PRI"@, 3);
    let conditions = crate::text::padded_right("CONDITIONS"@, 45);
    let head = list_lines(rules, order)[0];
    assert(head.len() == 92);
    assert(head.subrange(0, 2) =~= id.take(2));
    assert(head.subrange(29, 35) =~= action.take(6));
    assert(head.subrange(36, 39) =~= pri.skip(0));
    assert(head.subrange(41, 51) =~= conditions.take(10));
    assert(head.skip(88) =~= "NAME"@);
}

} // verus!
