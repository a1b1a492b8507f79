//! Configuration: rules, focus profiles and defaults.
use vstd::prelude::*;
use crate::clock::same_time;
use crate::error::{Error, ErrorModel};
use crate::model::Urgency;
use crate::number;
use crate::number::decimal;
use crate::profile;
use crate::profile::{find_profile, validate_profiles, FocusProfile, ProfileModel};
use crate::rules;
use crate::rules::{Condition, ConditionModel, Decision, MatchMode, Rule, RuleModel};
use crate::text;
use crate::text::{is_blank, same_ignoring_ascii_case, trim};

verus! {

broadcast use vstd::string::group_string_axioms;

/// Current configuration schema version written by this build.
pub const CONFIG_VERSION: u32 = 1;

/// The version of a document that does not state one.
pub fn current_version() -> (r: u32)
    ensures
        r == CONFIG_VERSION,
{
    CONFIG_VERSION
}

/// Fallback behaviour when no rule matches.
#[derive(Clone, Copy, Debug, PartialEq, Eq, Structural)]
pub struct Defaults {
    pub decision: Decision,
}

impl Default for Defaults {
    fn default() -> (r: Defaults)
        ensures
            r.decision == Decision::Allow,
    {
        Defaults { decision: Decision::Allow }
    }
}

/// On-disk configuration document.
#[derive(Debug, PartialEq)]
pub struct Config {
    /// Schema version; bumped when the format changes incompatibly.
    pub version: u32,
    pub defaults: Defaults,
    pub profiles: Vec<FocusProfile>,
    pub rules: Vec<Rule>,
}

/// What a [`Config`] says.
#[verifier::ext_equal]
pub struct ConfigModel {
    pub version: nat,
    pub default_decision: Decision,
    pub profiles: Seq<ProfileModel>,
    pub rules: Seq<RuleModel>,
}

impl View for Config {
    type V = ConfigModel;

    open spec fn view(&self) -> ConfigModel {
        ConfigModel {
            version: self.version as nat,
            default_decision: self.defaults.decision,
            profiles: profile::profile_models(self.profiles@),
            rules: rules::rule_models(self.rules@),
        }
    }
}

impl Default for Config {
    fn default() -> (r: Config)
        ensures
            r@ == (ConfigModel {
                version: CONFIG_VERSION as nat,
                default_decision: Decision::Allow,
                profiles: Seq::empty(),
                rules: Seq::empty(),
            }),
    {
        Config {
            version: CONFIG_VERSION,
            defaults: Defaults { decision: Decision::Allow },
            profiles: Vec::new(),
            rules: Vec::new(),
        }
    }
}

impl Clone for Config {
    fn clone(&self) -> (r: Config)
        ensures
            r@ == self@,
    {
        let mut profiles: Vec<FocusProfile> = Vec::new();
        let mut i: usize = 0;
        while i < self.profiles.len()
            invariant
                i <= self.profiles@.len(),
                profiles@ == self.profiles@.take(i as int),
            decreases self.profiles@.len() - i,
        {
            profiles.push(self.profiles[i].clone());
            assert(self.profiles@.take(i as int).push(self.profiles@[i as int])
                =~= self.profiles@.take(i + 1));
            i += 1;
        }
        assert(self.profiles@.take(self.profiles@.len() as int) =~= self.profiles@);
        let mut copies: Vec<Rule> = Vec::new();
        let mut k: usize = 0;
        while k < self.rules.len()
            invariant
                k <= self.rules@.len(),
                copies@.len() == k,
                forall|m: int| 0 <= m < k ==> (#[trigger] copies@[m])@ == self.rules@[m]@,
            decreases self.rules@.len() - k,
        {
            copies.push(self.rules[k].clone());
            k += 1;
        }
        assert(rules::rule_models(copies@) =~= rules::rule_models(self.rules@));
        Config { version: self.version, defaults: self.defaults, profiles, rules: copies }
    }
}

/// The first of the first `n` names that no profile has.
pub open spec fn unknown_profile(
    names: Seq<Seq<char>>,
    profiles: Seq<ProfileModel>,
    n: nat,
) -> Option<Seq<char>>
    decreases n,
{
    if n == 0 {
        None
    } else {
        match unknown_profile(names, profiles, (n - 1) as nat) {
            Some(name) => Some(name),
            None => if profile::profile_named(profiles, names[n - 1]) is None {
                Some(names[n - 1])
            } else {
                None
            },
        }
    }
}

/// What is wrong with a condition of the rule `id`, if anything is.
pub open spec fn condition_fault(
    id: Seq<char>,
    condition: ConditionModel,
    profiles: Seq<ProfileModel>,
) -> Option<Seq<char>> {
    match condition {
        ConditionModel::App { apps } => if apps.len() == 0 {
            Some("rule `"@ + id + "`: app condition must list at least one application"@)
        } else {
            None
        },
        ConditionModel::Profile { profiles: names } => if names.len() == 0 {
            Some("rule `"@ + id + "`: profile condition must list at least one profile"@)
        } else {
            match unknown_profile(names, profiles, names.len()) {
                Some(name) => Some(
                    "rule `"@ + id + "` references unknown focus profile `"@ + name + "`"@,
                ),
                None => None,
            }
        },
        ConditionModel::TimeOfDay { start, end, weekdays } => if start == end {
            Some("rule `"@ + id + "`: time-of-day range must have a distinct start and end"@)
        } else {
            None
        },
        ConditionModel::Urgency { urgencies } => if urgencies.len() == 0 {
            Some("rule `"@ + id + "`: urgency condition must list at least one level"@)
        } else {
            None
        },
        ConditionModel::Fullscreen { equals } => None,
    }
}

/// The first fault among the first `n` conditions of the rule `id`.
pub open spec fn conditions_fault(
    id: Seq<char>,
    conditions: Seq<ConditionModel>,
    profiles: Seq<ProfileModel>,
    n: nat,
) -> Option<Seq<char>>
    decreases n,
{
    if n == 0 {
        None
    } else {
        match conditions_fault(id, conditions, profiles, (n - 1) as nat) {
            Some(message) => Some(message),
            None => condition_fault(id, conditions[n - 1], profiles),
        }
    }
}

/// What is wrong with the rule at position `i`, given those before it.
pub open spec fn rule_fault(
    rules: Seq<RuleModel>,
    profiles: Seq<ProfileModel>,
    i: int,
) -> Option<Seq<char>> {
    let id = text::trimmed(rules[i].id);
    if text::blank(rules[i].id) {
        Some("rule id must not be empty"@)
    } else if exists|j: int|
        0 <= j < i && profile::same_name(text::trimmed((#[trigger] rules[j]).id), id) {
        Some("duplicate rule id `"@ + id + "`"@)
    } else if text::blank(rules[i].name) {
        Some("rule `"@ + id + "` has an empty name"@)
    } else {
        conditions_fault(id, rules[i].conditions, profiles, rules[i].conditions.len())
    }
}

/// The first fault among the first `n` rules.
pub open spec fn rules_fault(
    rules: Seq<RuleModel>,
    profiles: Seq<ProfileModel>,
    n: nat,
) -> Option<Seq<char>>
    decreases n,
{
    if n == 0 {
        None
    } else {
        match rules_fault(rules, profiles, (n - 1) as nat) {
            Some(message) => Some(message),
            None => rule_fault(rules, profiles, n - 1),
        }
    }
}

impl ConfigModel {
    /// Why the document is refused, if it is: the first fault in the order
    /// version, profiles, rules.
    pub open spec fn fault(self) -> Option<Seq<char>> {
        if self.version == 0 || self.version > CONFIG_VERSION {
            Some(
                "unsupported config version "@ + number::digits(self.version)
                    + " (supported: 1..="@ + number::digits(CONFIG_VERSION as nat) + ")"@,
            )
        } else {
            match profile::profiles_fault(self.profiles) {
                Some(message) => Some(message),
                None => rules_fault(self.rules, self.profiles, self.rules.len()),
            }
        }
    }
}

proof fn lemma_conditions_fault_stays(
    id: Seq<char>,
    conditions: Seq<ConditionModel>,
    profiles: Seq<ProfileModel>,
    k: nat,
    n: nat,
)
    requires
        k <= n,
        conditions_fault(id, conditions, profiles, k) is Some,
    ensures
        conditions_fault(id, conditions, profiles, n) == conditions_fault(id, conditions, profiles, k),
    decreases n,
{
    if k < n {
        lemma_conditions_fault_stays(id, conditions, profiles, k, (n - 1) as nat);
    }
}

proof fn lemma_rules_fault_stays(
    rules: Seq<RuleModel>,
    profiles: Seq<ProfileModel>,
    k: nat,
    n: nat,
)
    requires
        k <= n,
        rules_fault(rules, profiles, k) is Some,
    ensures
        rules_fault(rules, profiles, n) == rules_fault(rules, profiles, k),
    decreases n,
{
    if k < n {
        lemma_rules_fault_stays(rules, profiles, k, (n - 1) as nat);
    }
}

proof fn lemma_unknown_stays(
    names: Seq<Seq<char>>,
    profiles: Seq<ProfileModel>,
    k: nat,
    n: nat,
)
    requires
        k <= n,
        unknown_profile(names, profiles, k) is Some,
    ensures
        unknown_profile(names, profiles, n) == unknown_profile(names, profiles, k),
    decreases n,
{
    if k < n {
        lemma_unknown_stays(names, profiles, k, (n - 1) as nat);
    }
}

/// A message about the rule `id`.
fn about_rule(id: &str, rest: &str) -> (r: Error)
    ensures
        r@ == ErrorModel::ConfigValidation("rule `"@ + id@ + rest@),
{
    let mut message = "rule `".to_string();
    message.append(id);
    message.append(rest);
    Error::validation(message)
}

impl Config {
    /// Structural validation of the whole document.
    pub fn validate(&self) -> (r: Result<(), Error>)
        ensures
            match self@.fault() {
                Some(message) => r is Err && r->Err_0@ == ErrorModel::ConfigValidation(message),
                None => r is Ok,
            },
    {
        if self.version == 0 || self.version > CONFIG_VERSION {
            let mut message = "unsupported config version ".to_string();
            message.append(decimal(self.version as u64).as_str());
            message.append(" (supported: 1..=");
            message.append(decimal(CONFIG_VERSION as u64).as_str());
            message.append(")");
            return Err(Error::validation(message));
        }
        match validate_profiles(self.profiles.as_slice()) {
            Ok(()) => {},
            Err(error) => {
                return Err(error);
            },
        }
        self.validate_rules()
    }

    fn validate_rules(&self) -> (r: Result<(), Error>)
        ensures
            match rules_fault(self@.rules, self@.profiles, self@.rules.len()) {
                Some(message) => r is Err && r->Err_0@ == ErrorModel::ConfigValidation(message),
                None => r is Ok,
            },
    {
        let ghost rules = self@.rules;
        let ghost profiles = self@.profiles;
        let mut seen: Vec<String> = Vec::new();
        let mut i: usize = 0;
        while i < self.rules.len()
            invariant
                i <= self.rules@.len(),
                rules == self@.rules,
                profiles == self@.profiles,
                rules_fault(rules, profiles, i as nat) is None,
                seen@.len() == i,
                forall|k: int| 0 <= k < i ==> (#[trigger] seen@[k])@ == text::trimmed(rules[k].id),
            decreases self.rules@.len() - i,
        {
            let rule = &self.rules[i];
            assert(rules[i as int] == rule@);
            proof {
                if rule_fault(rules, profiles, i as int) is Some {
                    assert(rules_fault(rules, profiles, (i + 1) as nat) is Some);
                    lemma_rules_fault_stays(rules, profiles, (i + 1) as nat, rules.len());
                }
                text::blank_trims_to_nothing(rule.id@);
            }
            let id = trim(rule.id.as_str());
            if id.as_str().is_empty() {
                return Err(Error::validation("rule id must not be empty".to_string()));
            }
            let mut j: usize = 0;
            while j < seen.len()
                invariant
                    i < rules.len(),
                    j <= i,
                    seen@.len() == i,
                    rules == self@.rules,
                    profiles == self@.profiles,
                    id@ == text::trimmed(rules[i as int].id),
                    !text::blank(rules[i as int].id),
                    forall|k: int|
                        0 <= k < i ==> (#[trigger] seen@[k])@ == text::trimmed(rules[k].id),
                    forall|k: int|
                        0 <= k < j ==> !profile::same_name(
                            text::trimmed((#[trigger] rules[k]).id),
                            id@,
                        ),
                    rule_fault(rules, profiles, i as int) is Some ==> rules_fault(
                        rules,
                        profiles,
                        rules.len(),
                    ) == rule_fault(rules, profiles, i as int),
                decreases i - j,
            {
                assert(seen@[j as int]@ == text::trimmed(rules[j as int].id));
                if same_ignoring_ascii_case(seen[j].as_str(), id.as_str()) {
                    let mut message = "duplicate rule id `".to_string();
                    message.append(id.as_str());
                    message.append("`");
                    return Err(Error::validation(message));
                }
                j += 1;
            }
            if is_blank(rule.name.as_str()) {
                return Err(about_rule(id.as_str(), "` has an empty name"));
            }
            let ghost conditions = rules[i as int].conditions;
            let mut k: usize = 0;
            while k < rule.conditions.len()
                invariant
                    i < rules.len(),
                    rules == self@.rules,
                    profiles == self@.profiles,
                    rules[i as int] == rule@,
                    conditions == rules::condition_models(rule.conditions@),
                    conditions == rules[i as int].conditions,
                    k <= rule.conditions@.len(),
                    id@ == text::trimmed(rules[i as int].id),
                    conditions_fault(id@, conditions, profiles, k as nat) is None,
                    rule_fault(rules, profiles, i as int) == conditions_fault(
                        id@,
                        conditions,
                        profiles,
                        conditions.len(),
                    ),
                    rule_fault(rules, profiles, i as int) is Some ==> rules_fault(
                        rules,
                        profiles,
                        rules.len(),
                    ) == rule_fault(rules, profiles, i as int),
                decreases rule.conditions@.len() - k,
            {
                assert(conditions[k as int] == rule.conditions@[k as int]@);
                match self.validate_condition(id.as_str(), &rule.conditions[k]) {
                    Ok(()) => {},
                    Err(error) => {
                        proof {
                            lemma_conditions_fault_stays(
                                id@,
                                conditions,
                                profiles,
                                (k + 1) as nat,
                                conditions.len(),
                            );
                        }
                        return Err(error);
                    },
                }
                k += 1;
            }
            assert(rule_fault(rules, profiles, i as int) is None);
            seen.push(id);
            i += 1;
        }
        Ok(())
    }

    fn validate_condition(&self, rule_id: &str, condition: &Condition) -> (r: Result<(), Error>)
        ensures
            match condition_fault(rule_id@, condition@, self@.profiles) {
                Some(message) => r is Err && r->Err_0@ == ErrorModel::ConfigValidation(message),
                None => r is Ok,
            },
    {
        match condition {
            Condition::App { apps } => {
                if apps.len() == 0 {
                    return Err(
                        about_rule(
                            rule_id,
                            "`: app condition must list at least one application",
                        ),
                    );
                }
                Ok(())
            },
            Condition::Profile { profiles } => {
                if profiles.len() == 0 {
                    return Err(
                        about_rule(
                            rule_id,
                            "`: profile condition must list at least one profile",
                        ),
                    );
                }
                let ghost names = crate::model::texts(profiles@);
                let mut i: usize = 0;
                while i < profiles.len()
                    invariant
                        i <= profiles@.len(),
                        names == crate::model::texts(profiles@),
                        names.len() > 0,
                        condition@ == (ConditionModel::Profile { profiles: names }),
                        unknown_profile(names, self@.profiles, i as nat) is None,
                    decreases profiles@.len() - i,
                {
                    assert(names[i as int] == profiles@[i as int]@);
                    if find_profile(self.profiles.as_slice(), profiles[i].as_str()).is_none() {
                        proof {
                            assert(unknown_profile(names, self@.profiles, (i + 1) as nat) == Some(
                                names[i as int],
                            ));
                            lemma_unknown_stays(
                                names,
                                self@.profiles,
                                (i + 1) as nat,
                                names.len(),
                            );
                        }
                        let mut message = "rule `".to_string();
                        message.append(rule_id);
                        message.append("` references unknown focus profile `");
                        message.append(profiles[i].as_str());
                        message.append("`");
                        return Err(Error::validation(message));
                    }
                    i += 1;
                }
                Ok(())
            },
            Condition::TimeOfDay { start, end, weekdays } => {
                if same_time(start, end) {
                    return Err(
                        about_rule(
                            rule_id,
                            "`: time-of-day range must have a distinct start and end",
                        ),
                    );
                }
                Ok(())
            },
            Condition::Urgency { urgencies } => {
                if urgencies.len() == 0 {
                    return Err(
                        about_rule(rule_id, "`: urgency condition must list at least one level"),
                    );
                }
                Ok(())
            },
            Condition::Fullscreen { equals } => Ok(()),
        }
    }
}

/// The first-run configuration.
pub open spec fn starter_model() -> ConfigModel {
    ConfigModel {
        version: CONFIG_VERSION as nat,
        default_decision: Decision::Allow,
        profiles: seq![
            ProfileModel {
                name: "Deep Work"@,
                description: Some("Notifications muted unless critical"@),
                default_decision: Some(Decision::Mute),
            },
            ProfileModel {
                name: "Meetings"@,
                description: Some("Everything batched into a digest"@),
                default_decision: None,
            },
        ],
        rules: seq![
            RuleModel {
                id: "critical-always"@,
                name: "Critical alerts always show"@,
                enabled: true,
                priority: 100,
                match_mode: MatchMode::All,
                conditions: seq![
                    ConditionModel::Urgency { urgencies: seq![Urgency::Critical] },
                ],
                action: Decision::Allow,
            },
            RuleModel {
                id: "mute-chat-when-fullscreen"@,
                name: "Mute chat apps while a window is fullscreen"@,
                enabled: true,
                priority: 10,
                match_mode: MatchMode::All,
                conditions: seq![
                    ConditionModel::App {
                        apps: seq!["slack"@, "discord"@, "teams"@, "telegram"@],
                    },
                    ConditionModel::Fullscreen { equals: true },
                ],
                action: Decision::Mute,
            },
        ],
    }
}

impl Config {
    /// First-run configuration with a couple of sensible starter rules.
    pub fn starter() -> (r: Config)
        ensures
            r@ == starter_model(),
            r@.fault() is None,
    {
        let mut urgencies: Vec<Urgency> = Vec::new();
        urgencies.push(Urgency::Critical);
        let critical = Rule::new("critical-always", Decision::Allow).named(
            "Critical alerts always show",
        ).with_priority(100).with_condition(Condition::Urgency { urgencies });
        assert(critical@.conditions =~= starter_model().rules[0].conditions);

        let mut apps: Vec<String> = Vec::new();
        apps.push("slack".to_string());
        apps.push("discord".to_string());
        apps.push("teams".to_string());
        apps.push("telegram".to_string());
        assert(crate::model::texts(apps@) =~= seq!["slack"@, "discord"@, "teams"@, "telegram"@]);
        let mut conditions: Vec<Condition> = Vec::new();
        conditions.push(Condition::App { apps });
        conditions.push(Condition::Fullscreen { equals: true });
        let chat = Rule::new("mute-chat-when-fullscreen", Decision::Mute).named(
            "Mute chat apps while a window is fullscreen",
        ).with_priority(10).with_conditions(conditions);
        assert(chat@.conditions =~= starter_model().rules[1].conditions);

        let mut profiles: Vec<FocusProfile> = Vec::new();
        profiles.push(
            FocusProfile::new("Deep Work").with_description(
                "Notifications muted unless critical",
            ).with_default_decision(Decision::Mute),
        );
        profiles.push(
            FocusProfile::new("Meetings").with_description("Everything batched into a digest"),
        );
        let mut rules: Vec<Rule> = Vec::new();
        rules.push(critical);
        rules.push(chat);
        let config = Config {
            version: CONFIG_VERSION,
            defaults: Defaults { decision: Decision::Allow },
            profiles,
            rules,
        };
        proof {
            assert(config@.profiles =~= starter_model().profiles);
            assert(config@.rules =~= starter_model().rules);
            starter_is_valid();
        }
        config
    }
}

proof fn lemma_untouched_by_trim(s: Seq<char>)
    requires
        s.len() > 0,
        !text::white(s.first()),
        !text::white(s.last()),
    ensures
        text::trimmed(s) == s,
        !text::blank(s),
        text::ascii_lower(s).len() == s.len(),
{
    assert(!text::white(s[0]));
}

/// The first-run configuration is valid.
pub proof fn starter_is_valid()
    ensures
        starter_model().fault() is None,
{
    let m = starter_model();
    reveal_strlit("Deep Work");
    reveal_strlit("Meetings");
    reveal_strlit("critical-always");
    reveal_strlit("mute-chat-when-fullscreen");
    reveal_strlit("Critical alerts always show");
    reveal_strlit("Mute chat apps while a window is fullscreen");
    lemma_untouched_by_trim("Deep Work"@);
    lemma_untouched_by_trim("Meetings"@);
    lemma_untouched_by_trim("critical-always"@);
    lemma_untouched_by_trim("mute-chat-when-fullscreen"@);
    lemma_untouched_by_trim("Critical alerts always show"@);
    lemma_untouched_by_trim("Mute chat apps while a window is fullscreen"@);

    let names = profile::profile_names(m.profiles);
    assert(names =~= seq!["Deep Work"@, "Meetings"@]);
    assert(profile::name_fault(names, 0) is None);
    assert(profile::name_fault(names, 1) is None) by {
        assert(text::ascii_lower("Deep Work"@).len() != text::ascii_lower("Meetings"@).len());
    }
    assert(profile::names_fault(names, 2) is None) by {
        reveal_with_fuel(profile::names_fault, 3);
    }

    assert(rule_fault(m.rules, m.profiles, 0) is None) by {
        assert(m.rules[0].conditions.len() == 1);
        reveal_with_fuel(conditions_fault, 3);
    }
    assert(rule_fault(m.rules, m.profiles, 1) is None) by {
        assert(text::ascii_lower("critical-always"@).len() != text::ascii_lower(
            "mute-chat-when-fullscreen"@,
        ).len());
        assert(m.rules[1].conditions.len() == 2);
        reveal_with_fuel(conditions_fault, 4);
    }
    assert(rules_fault(m.rules, m.profiles, 2) is None) by {
        reveal_with_fuel(rules_fault, 3);
    }
}

/// What a valid condition promises.
pub open spec fn condition_sound(condition: ConditionModel, profiles: Seq<ProfileModel>) -> bool {
    match condition {
        ConditionModel::App { apps } => apps.len() > 0,
        ConditionModel::Profile { profiles: names } => names.len() > 0 && forall|i: int|
            0 <= i < names.len() ==> profile::profile_named(profiles, #[trigger] names[i]) is Some,
        ConditionModel::TimeOfDay { start, end, weekdays } => start != end,
        ConditionModel::Urgency { urgencies } => urgencies.len() > 0,
        ConditionModel::Fullscreen { equals } => true,
    }
}

proof fn lemma_known(names: Seq<Seq<char>>, profiles: Seq<ProfileModel>, n: nat)
    requires
        n <= names.len(),
        unknown_profile(names, profiles, n) is None,
    ensures
        forall|i: int|
            0 <= i < n ==> profile::profile_named(profiles, #[trigger] names[i]) is Some,
    decreases n,
{
    if n > 0 {
        lemma_known(names, profiles, (n - 1) as nat);
    }
}

proof fn lemma_conditions_sound(
    id: Seq<char>,
    conditions: Seq<ConditionModel>,
    profiles: Seq<ProfileModel>,
    n: nat,
)
    requires
        n <= conditions.len(),
        conditions_fault(id, conditions, profiles, n) is None,
    ensures
        forall|i: int| 0 <= i < n ==> condition_sound(#[trigger] conditions[i], profiles),
    decreases n,
{
    if n > 0 {
        lemma_conditions_sound(id, conditions, profiles, (n - 1) as nat);
        let last = conditions[n - 1];
        assert(condition_fault(id, last, profiles) is None);
        if let ConditionModel::Profile { profiles: names } = last {
            lemma_known(names, profiles, names.len());
        }
    }
}

proof fn lemma_rules_sound(rules: Seq<RuleModel>, profiles: Seq<ProfileModel>, n: nat)
    requires
        n <= rules.len(),
        rules_fault(rules, profiles, n) is None,
    ensures
        forall|i: int|
            0 <= i < n ==> !text::blank((#[trigger] rules[i]).id) && !text::blank(rules[i].name),
        forall|i: int, j: int|
            0 <= j < i < n ==> !profile::same_name(
                text::trimmed((#[trigger] rules[j]).id),
                text::trimmed((#[trigger] rules[i]).id),
            ),
        forall|i: int, k: int|
            0 <= i < n && 0 <= k < rules[i].conditions.len() ==> condition_sound(
                #[trigger] rules[i].conditions[k],
                profiles,
            ),
    decreases n,
{
    if n > 0 {
        lemma_rules_sound(rules, profiles, (n - 1) as nat);
        let last = rules[n - 1];
        assert(rule_fault(rules, profiles, n - 1) is None);
        lemma_conditions_sound(
            text::trimmed(last.id),
            last.conditions,
            profiles,
            last.conditions.len(),
        );
    }
}

/// A document that passes validation has a supported version, profile names
/// and rule ids that are present and distinct, and conditions that can hold:
/// lists that are not empty, windows whose ends differ, and no profile that the
/// document does not define.
pub proof fn valid_config_is_sound(config: ConfigModel)
    requires
        config.fault() is None,
    ensures
        1 <= config.version <= CONFIG_VERSION,
        forall|i: int|
            0 <= i < config.profiles.len() ==> !text::blank((#[trigger] config.profiles[i]).name),
        forall|i: int, j: int|
            0 <= j < i < config.profiles.len() ==> !profile::same_name(
                text::trimmed((#[trigger] config.profiles[j]).name),
                text::trimmed((#[trigger] config.profiles[i]).name),
            ),
        forall|i: int|
            0 <= i < config.rules.len() ==> !text::blank((#[trigger] config.rules[i]).id)
                && !text::blank(config.rules[i].name),
        forall|i: int, j: int|
            0 <= j < i < config.rules.len() ==> !profile::same_name(
                text::trimmed((#[trigger] config.rules[j]).id),
                text::trimmed((#[trigger] config.rules[i]).id),
            ),
        forall|i: int, k: int|
            0 <= i < config.rules.len() && 0 <= k < config.rules[i].conditions.len()
                ==> condition_sound(#[trigger] config.rules[i].conditions[k], config.profiles),
{
    let names = profile::profile_names(config.profiles);
    profile::faultless_names_are_distinct(names, config.profiles.len());
    lemma_rules_sound(config.rules, config.profiles, config.rules.len());
    assert forall|i: int| 0 <= i < config.profiles.len() implies !text::blank(
        (#[trigger] config.profiles[i]).name,
    ) by {
        assert(names[i] == config.profiles[i].name);
    }
    assert forall|i: int, j: int| 0 <= j < i < config.profiles.len() implies !profile::same_name(
        text::trimmed((#[trigger] config.profiles[j]).name),
        text::trimmed((#[trigger] config.profiles[i]).name),
    ) by {
        assert(names[i] == config.profiles[i].name && names[j] == config.profiles[j].name);
    }
}

proof fn lemma_all_known(names: Seq<Seq<char>>, profiles: Seq<ProfileModel>, n: nat)
    requires
        n <= names.len(),
        forall|i: int|
            0 <= i < n ==> profile::profile_named(profiles, #[trigger] names[i]) is Some,
    ensures
        unknown_profile(names, profiles, n) is None,
    decreases n,
{
    if n > 0 {
        lemma_all_known(names, profiles, (n - 1) as nat);
    }
}

/// A condition has a fault exactly where it could never hold as it is meant: a
/// list is empty, a window has no length, or a profile is not defined.
pub proof fn conditions_have_a_fault_or_are_sound(
    id: Seq<char>,
    condition: ConditionModel,
    profiles: Seq<ProfileModel>,
)
    ensures
        condition_fault(id, condition, profiles) is None <==> condition_sound(condition, profiles),
        condition matches ConditionModel::App { apps } ==> (condition_fault(id, condition, profiles)
            is None <==> apps.len() > 0),
        condition matches ConditionModel::Urgency { urgencies } ==> (condition_fault(
            id,
            condition,
            profiles,
        ) is None <==> urgencies.len() > 0),
        condition matches ConditionModel::TimeOfDay { start, end, weekdays } ==> (condition_fault(
            id,
            condition,
            profiles,
        ) is None <==> start != end),
        condition is Fullscreen ==> condition_fault(id, condition, profiles) is None,
        condition matches ConditionModel::Profile { profiles: names } ==> (condition_fault(
            id,
            condition,
            profiles,
        ) is None <==> names.len() > 0 && forall|i: int|
            0 <= i < names.len() ==> profile::profile_named(profiles, #[trigger] names[i]) is Some),
{
    if let ConditionModel::Profile { profiles: names } = condition {
        if unknown_profile(names, profiles, names.len()) is None {
            lemma_known(names, profiles, names.len());
        } else if forall|i: int|
            0 <= i < names.len() ==> profile::profile_named(profiles, #[trigger] names[i]) is Some {
            lemma_all_known(names, profiles, names.len());
        }
    }
}

proof fn lemma_conditions_faultless(
    id: Seq<char>,
    conditions: Seq<ConditionModel>,
    profiles: Seq<ProfileModel>,
    n: nat,
)
    requires
        n <= conditions.len(),
        forall|i: int| 0 <= i < n ==> condition_sound(#[trigger] conditions[i], profiles),
    ensures
        conditions_fault(id, conditions, profiles, n) is None,
    decreases n,
{
    if n > 0 {
        lemma_conditions_faultless(id, conditions, profiles, (n - 1) as nat);
        conditions_have_a_fault_or_are_sound(id, conditions[n - 1], profiles);
    }
}

/// A rule has no fault where its id is seen and not that of an earlier rule, its
/// name is seen, and its conditions are sound.
pub proof fn sound_rules_have_no_fault(
    rules: Seq<RuleModel>,
    profiles: Seq<ProfileModel>,
    n: nat,
)
    requires
        n <= rules.len(),
        forall|i: int|
            0 <= i < n ==> !text::blank((#[trigger] rules[i]).id) && !text::blank(rules[i].name),
        forall|i: int, j: int|
            0 <= j < i < n ==> !profile::same_name(
                text::trimmed((#[trigger] rules[j]).id),
                text::trimmed((#[trigger] rules[i]).id),
            ),
        forall|i: int, k: int|
            0 <= i < n && 0 <= k < rules[i].conditions.len() ==> condition_sound(
                #[trigger] rules[i].conditions[k],
                profiles,
            ),
    ensures
        rules_fault(rules, profiles, n) is None,
    decreases n,
{
    if n > 0 {
        sound_rules_have_no_fault(rules, profiles, (n - 1) as nat);
        let last = rules[n - 1];
        assert forall|k: int| 0 <= k < last.conditions.len() implies condition_sound(
            #[trigger] last.conditions[k],
            profiles,
        ) by {
            assert(condition_sound(rules[n - 1].conditions[k], profiles));
        }
        lemma_conditions_faultless(
            text::trimmed(last.id),
            last.conditions,
            profiles,
            last.conditions.len(),
        );
    }
}

/// A document with a supported version, names and ids that are seen and distinct,
/// and sound conditions is valid: nothing else is asked of it.
pub proof fn sound_configs_are_valid(config: ConfigModel)
    requires
        1 <= config.version <= CONFIG_VERSION,
        forall|i: int|
            0 <= i < config.profiles.len() ==> !text::blank((#[trigger] config.profiles[i]).name),
        forall|i: int, j: int|
            0 <= j < i < config.profiles.len() ==> !profile::same_name(
                text::trimmed((#[trigger] config.profiles[j]).name),
                text::trimmed((#[trigger] config.profiles[i]).name),
            ),
        forall|i: int|
            0 <= i < config.rules.len() ==> !text::blank((#[trigger] config.rules[i]).id)
                && !text::blank(config.rules[i].name),
        forall|i: int, j: int|
            0 <= j < i < config.rules.len() ==> !profile::same_name(
                text::trimmed((#[trigger] config.rules[j]).id),
                text::trimmed((#[trigger] config.rules[i]).id),
            ),
        forall|i: int, k: int|
            0 <= i < config.rules.len() && 0 <= k < config.rules[i].conditions.len()
                ==> condition_sound(#[trigger] config.rules[i].conditions[k], config.profiles),
    ensures
        config.fault() is None,
{
    let names = profile::profile_names(config.profiles);
    assert forall|i: int| 0 <= i < names.len() implies !text::blank(#[trigger] names[i]) by {
        assert(!text::blank(config.profiles[i].name));
    }
    assert forall|i: int, j: int| 0 <= i < j < names.len() implies !profile::same_name(
        text::trimmed(#[trigger] names[i]),
        text::trimmed(#[trigger] names[j]),
    ) by {
        assert(!profile::same_name(
            text::trimmed(config.profiles[i].name),
            text::trimmed(config.profiles[j].name),
        ));
    }
    profile::distinct_names_have_no_fault(names, config.profiles.len());
    sound_rules_have_no_fault(config.rules, config.profiles, config.rules.len());
}

/// Faults come in order: that of the version before all, then those of the
/// profiles, then that of the first rule that has one.
pub proof fn the_first_fault_is_said(config: ConfigModel, at: int)
    ensures
        config.version == 0 || config.version > CONFIG_VERSION ==> config.fault() == Some(
            "unsupported config version "@ + number::digits(config.version) + " (supported: 1..="@
                + number::digits(CONFIG_VERSION as nat) + ")"@,
        ),
        1 <= config.version <= CONFIG_VERSION && profile::profiles_fault(config.profiles) is Some
            ==> config.fault() == profile::profiles_fault(config.profiles),
        1 <= config.version <= CONFIG_VERSION && profile::profiles_fault(config.profiles) is None
            && 0 <= at < config.rules.len() && rule_fault(config.rules, config.profiles, at) is Some
            && (forall|i: int|
            0 <= i < at ==> #[trigger] rule_fault(config.rules, config.profiles, i) is None)
            ==> config.fault() == rule_fault(config.rules, config.profiles, at),
{
    if 0 <= at < config.rules.len() && rule_fault(config.rules, config.profiles, at) is Some && (
    forall|i: int|
        0 <= i < at ==> #[trigger] rule_fault(config.rules, config.profiles, i) is None) {
        lemma_first_rule_fault(config.rules, config.profiles, at, config.rules.len());
    }
}

proof fn lemma_first_rule_fault(
    rules: Seq<RuleModel>,
    profiles: Seq<ProfileModel>,
    at: int,
    n: nat,
)
    requires
        0 <= at,
        rule_fault(rules, profiles, at) is Some,
        forall|i: int| 0 <= i < at ==> #[trigger] rule_fault(rules, profiles, i) is None,
    ensures
        n <= at ==> rules_fault(rules, profiles, n) is None,
        n > at ==> rules_fault(rules, profiles, n) == rule_fault(rules, profiles, at),
    decreases n,
{
    if n > 0 {
        lemma_first_rule_fault(rules, profiles, at, (n - 1) as nat);
    }
}

/// Under the first-run configuration what is critical is always shown, chat apps
/// are muted while a window is fullscreen, and without a profile all else is
/// shown.
pub proof fn the_starter_keeps_chats_quiet(
    n: crate::model::NotificationModel,
    c: crate::context::ContextModel,
)
    ensures
        n.urgency == Urgency::Critical ==> rules::verdict(starter_model(), n, c).decision
            == Decision::Allow,
        n.urgency != Urgency::Critical && c.fullscreen && (ConditionModel::App {
            apps: seq!["slack"@, "discord"@, "teams"@, "telegram"@],
        }).holds(n, c) ==> rules::verdict(starter_model(), n, c).decision == Decision::Mute,
        n.urgency != Urgency::Critical && !c.fullscreen && c.active_profile is None
            ==> rules::verdict(starter_model(), n, c).decision == Decision::Allow,
{
    let m = starter_model();
    let first = m.rules[0];
    let second = m.rules[1];
    let chats = ConditionModel::App { apps: seq!["slack"@, "discord"@, "teams"@, "telegram"@] };
    assert(first.conditions.len() == 1 && second.conditions.len() == 2);
    assert(first.conditions[0] == ConditionModel::Urgency { urgencies: seq![Urgency::Critical] });
    assert(second.conditions[0] == chats);
    assert(second.conditions[1] == ConditionModel::Fullscreen { equals: true });
    let one = seq![Urgency::Critical];
    assert(one.contains(Urgency::Critical)) by {
        assert(one[0] == Urgency::Critical);
    }
    assert(first.holds(n, c) <==> n.urgency == Urgency::Critical) by {
        if first.holds(n, c) {
            assert(first.conditions[0].holds(n, c));
        }
    }
    assert(second.holds(n, c) <==> c.fullscreen && chats.holds(n, c)) by {
        if second.holds(n, c) {
            assert(second.conditions[0].holds(n, c));
            assert(second.conditions[1].holds(n, c));
        }
        if c.fullscreen && chats.holds(n, c) {
            assert forall|i: int| 0 <= i < second.conditions.len() implies (
            #[trigger] second.conditions[i]).holds(n, c) by {
                assert(i == 0 || i == 1);
            }
        }
    }
    assert(m.rules.len() == 2);
    if n.urgency == Urgency::Critical {
        rules::the_highest_rule_decides(m, n, c, 0);
    } else if second.holds(n, c) {
        rules::the_highest_rule_decides(m, n, c, 1);
    } else if !c.fullscreen && c.active_profile is None {
        rules::without_a_rule_the_defaults_decide(m, n, c, 0);
    }
}

/// Under the first-run configuration deep work mutes what no rule lets through,
/// and meetings leave it to the global default.
pub proof fn the_starter_has_two_profiles(
    n: crate::model::NotificationModel,
    c: crate::context::ContextModel,
)
    requires
        n.urgency != Urgency::Critical,
        !c.fullscreen,
        c.active_profile is Some,
    ensures
        profile::same_name("Deep Work"@, c.active_profile->0) ==> rules::verdict(
            starter_model(),
            n,
            c,
        ).decision == Decision::Mute,
        !profile::same_name("Deep Work"@, c.active_profile->0) ==> rules::verdict(
            starter_model(),
            n,
            c,
        ).decision == Decision::Allow,
        starter_model().profiles.len() == 2,
        starter_model().profiles[1].name == "Meetings"@,
{
    let m = starter_model();
    let first = m.rules[0];
    let second = m.rules[1];
    let name = c.active_profile->0;
    assert(!first.holds(n, c)) by {
        if first.holds(n, c) {
            assert(first.conditions[0].holds(n, c));
        }
    }
    assert(!second.holds(n, c)) by {
        if second.holds(n, c) {
            assert(second.conditions[1].holds(n, c));
        }
    }
    assert(m.rules.len() == 2);
    assert(m.profiles[0].name == "Deep Work"@ && m.profiles[0].default_decision == Some(
        Decision::Mute,
    ));
    assert(m.profiles[1].default_decision is None);
    if profile::same_name("Deep Work"@, name) {
        rules::without_a_rule_the_defaults_decide(m, n, c, 0);
    } else if profile::same_name("Meetings"@, name) {
        rules::without_a_rule_the_defaults_decide(m, n, c, 1);
    } else {
        rules::without_a_rule_the_defaults_decide(m, n, c, 0);
    }
}

} // verus!
