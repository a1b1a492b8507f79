//! `tpt-focus profiles`: manage focus profiles in the configuration.
use vstd::prelude::*;
use crate::cli::effect;
use crate::cli::effect::{
    around,
    fault_of_saving,
    one_line,
    plain_failure,
    save,
    Effect,
    EffectModel,
    Failure,
    FailureModel,
};
use crate::cli::print;
use crate::cli::print::profile_line;
use crate::config;
use crate::config::{Config, ConfigModel};
use crate::model;
use crate::profile;
use crate::profile::{FocusProfile, ProfileModel};
use crate::rules::Decision;
use crate::text::same_ignoring_ascii_case;

verus! {

broadcast use vstd::string::group_string_axioms;

/// A default decision as typed.
#[derive(Clone, Copy, Debug, PartialEq, Eq, Structural)]
pub enum DefaultArg {
    Allow,
    Mute,
    Batch,
}

/// The default decision that was typed.
pub open spec fn default_typed(arg: DefaultArg) -> Decision {
    match arg {
        DefaultArg::Allow => Decision::Allow,
        DefaultArg::Mute => Decision::Mute,
        DefaultArg::Batch => Decision::Batch,
    }
}

impl DefaultArg {
    /// The default decision that was typed.
    pub fn decision(self) -> (r: Decision)
        ensures
            r == default_typed(self),
    {
        match self {
            DefaultArg::Allow => Decision::Allow,
            DefaultArg::Mute => Decision::Mute,
            DefaultArg::Batch => Decision::Batch,
        }
    }
}

/// What is asked of the profiles.
#[derive(Debug)]
pub enum ProfilesArgs {
    /// List configured focus profiles.
    List {
        /// Machine-readable output.
        json: bool,
    },
    /// Add or update a focus profile.
    Add {
        /// Profile name (matched case-insensitively by rules).
        name: String,
        /// Free-text description.
        description: Option<String>,
        /// Decision applied while active when no rule matches.
        default: Option<DefaultArg>,
    },
    /// Remove a focus profile.
    Remove { name: String },
}

/// The profile that was typed.
pub open spec fn typed_profile(
    name: Seq<char>,
    description: Option<Seq<char>>,
    default: Option<DefaultArg>,
) -> ProfileModel {
    ProfileModel {
        name,
        description,
        default_decision: match default {
            Some(arg) => Some(default_typed(arg)),
            None => None,
        },
    }
}

/// The position of the first profile of a name, or the number of profiles.
pub open spec fn profile_position(profiles: Seq<ProfileModel>, name: Seq<char>) -> int
    decreases profiles.len(),
{
    if profiles.len() == 0 || profile::same_name(profiles.first().name, name) {
        0
    } else {
        1 + profile_position(profiles.drop_first(), name)
    }
}

/// The profiles of other names.
pub open spec fn others(profiles: Seq<ProfileModel>, name: Seq<char>) -> Seq<ProfileModel> {
    profiles.filter(|p: ProfileModel| !profile::same_name(p.name, name))
}

/// A profile added or updated. What was done is said before it is saved, also
/// where it then cannot be saved.
pub open spec fn put(config: ConfigModel, line: Seq<char>) -> (ConfigModel, EffectModel) {
    (
        config,
        EffectModel::PrintThenSave { lines: seq![line], fault: effect::save_fault(config) },
    )
}

/// What a command about profiles leads to.
pub open spec fn ran(config: ConfigModel, args: ProfilesArgs, path: Seq<char>) -> Result<
    (ConfigModel, EffectModel),
    FailureModel,
> {
    match args {
        ProfilesArgs::List { json } => match config.fault() {
            Some(message) => Err(effect::plain("invalid configuration: "@ + message)),
            None => Ok(
                (
                    config,
                    if json {
                        EffectModel::PrintJson
                    } else if config.profiles.len() == 0 {
                        EffectModel::Print(seq!["no focus profiles configured ("@ + path + ")"@])
                    } else {
                        EffectModel::Print(
                            config.profiles.map_values(|p: ProfileModel| print::profile_text(p)),
                        )
                    },
                ),
            ),
        },
        ProfilesArgs::Add { name, description, default } => {
            let new = typed_profile(name@, model::text_if_any(description), default);
            let at = profile_position(config.profiles, name@);
            if at < config.profiles.len() {
                Ok(
                    put(
                        ConfigModel { profiles: config.profiles.update(at, new), ..config },
                        "profile `"@ + name@ + "` updated"@,
                    ),
                )
            } else {
                Ok(
                    put(
                        ConfigModel { profiles: config.profiles.push(new), ..config },
                        "profile `"@ + name@ + "` added"@,
                    ),
                )
            }
        },
        ProfilesArgs::Remove { name } => {
            if profile_position(config.profiles, name@) >= config.profiles.len() {
                Err(effect::plain("no profile named `"@ + name@ + "`"@))
            } else {
                effect::saved(
                    ConfigModel { profiles: others(config.profiles, name@), ..config },
                    seq!["profile `"@ + name@ + "` removed"@],
                )
            }
        },
    }
}

fn position_of_profile(profiles: &Vec<FocusProfile>, name: &str) -> (r: usize)
    ensures
        r == profile_position(profile::profile_models(profiles@), name@),
        r <= profiles@.len(),
{
    let ghost models = profile::profile_models(profiles@);
    let mut i: usize = 0;
    assert(models.skip(0) =~= models);
    while i < profiles.len()
        invariant
            i <= profiles@.len(),
            models == profile::profile_models(profiles@),
            profile_position(models, name@) == i + profile_position(models.skip(i as int), name@),
        decreases profiles@.len() - i,
    {
        assert(models.skip(i as int).first() == profiles@[i as int]@);
        assert(models.skip(i as int).drop_first() =~= models.skip(i + 1));
        if same_ignoring_ascii_case(profiles[i].name.as_str(), name) {
            return i;
        }
        i += 1;
    }
    i
}

fn list_profiles(profiles: &Vec<FocusProfile>) -> (r: Vec<String>)
    ensures
        model::texts(r@) == profile::profile_models(profiles@).map_values(
            |p: ProfileModel| print::profile_text(p),
        ),
{
    let mut lines: Vec<String> = Vec::new();
    let mut i: usize = 0;
    while i < profiles.len()
        invariant
            i <= profiles@.len(),
            lines@.len() == i,
            forall|k: int|
                0 <= k < i ==> (#[trigger] lines@[k])@ == print::profile_text(profiles@[k]@),
        decreases profiles@.len() - i,
    {
        lines.push(profile_line(&profiles[i]));
        i += 1;
    }
    assert(model::texts(lines@) =~= profile::profile_models(profiles@).map_values(
        |p: ProfileModel| print::profile_text(p),
    ));
    lines
}

fn other_profiles(profiles: &Vec<FocusProfile>, name: &str) -> (r: Vec<FocusProfile>)
    ensures
        profile::profile_models(r@) == others(profile::profile_models(profiles@), name@),
{
    let ghost models = profile::profile_models(profiles@);
    let ghost keep = |p: ProfileModel| !profile::same_name(p.name, name@);
    let mut kept: Vec<FocusProfile> = Vec::new();
    let mut i: usize = 0;
    proof {
        reveal(Seq::filter);
        assert(profile::profile_models(kept@) =~= models.take(0).filter(keep));
    }
    while i < profiles.len()
        invariant
            i <= profiles@.len(),
            models == profile::profile_models(profiles@),
            keep == (|p: ProfileModel| !profile::same_name(p.name, name@)),
            profile::profile_models(kept@) == models.take(i as int).filter(keep),
        decreases profiles@.len() - i,
    {
        proof {
            reveal(Seq::filter);
            assert(models.take(i + 1).drop_last() =~= models.take(i as int));
            assert(models.take(i + 1).last() == profiles@[i as int]@);
        }
        if !same_ignoring_ascii_case(profiles[i].name.as_str(), name) {
            let ghost before = kept@;
            kept.push(profiles[i].clone());
            assert(profile::profile_models(kept@) =~= profile::profile_models(before).push(
                profiles@[i as int]@,
            ));
        }
        i += 1;
    }
    assert(models.take(models.len() as int) =~= models);
    kept
}

fn announce(config: Config, line: String) -> (r: (Config, Effect))
    ensures
        (r.0@, r.1@) == put(config@, line@),
{
    let fault = fault_of_saving(&config);
    (config, Effect::PrintThenSave { lines: one_line(line), fault })
}

/// Carries out a command about profiles on the configuration that was read from
/// `path`.
pub fn run(config: Config, args: ProfilesArgs, path: &str) -> (r: Result<(Config, Effect), Failure>)
    ensures
        effect::outcome(r) == ran(config@, args, path@),
{
    match args {
        ProfilesArgs::List { json } => {
            match config.validate() {
                Ok(()) => {},
                Err(error) => {
                    return Err(plain_failure(error.to_text()));
                },
            }
            if json {
                return Ok((config, Effect::PrintJson));
            }
            if config.profiles.len() == 0 {
                let line = around("no focus profiles configured (", path, ")");
                return Ok((config, Effect::Print(one_line(line))));
            }
            let lines = list_profiles(&config.profiles);
            Ok((config, Effect::Print(lines)))
        },
        ProfilesArgs::Add { name, description, default } => {
            let profile = FocusProfile {
                name: name.clone(),
                description,
                default_decision: match default {
                    Some(arg) => Some(arg.decision()),
                    None => None,
                },
            };
            let ghost new = profile@;
            let mut config = config;
            let ghost before = config.profiles@;
            let at: usize = position_of_profile(&config.profiles, name.as_str());
            if at < config.profiles.len() {
                config.profiles.set(at, profile);
                assert(profile::profile_models(config.profiles@) =~= profile::profile_models(
                    before,
                ).update(at as int, new));
                Ok(announce(config, around("profile `", name.as_str(), "` updated")))
            } else {
                config.profiles.push(profile);
                assert(profile::profile_models(config.profiles@) =~= profile::profile_models(
                    before,
                ).push(new));
                Ok(announce(config, around("profile `", name.as_str(), "` added")))
            }
        },
        ProfilesArgs::Remove { name } => {
            if position_of_profile(&config.profiles, name.as_str()) >= config.profiles.len() {
                return Err(plain_failure(around("no profile named `", name.as_str(), "`")));
            }
            let kept = other_profiles(&config.profiles, name.as_str());
            let config = Config {
                version: config.version,
                defaults: config.defaults,
                profiles: kept,
                rules: config.rules,
            };
            save(config, one_line(around("profile `", name.as_str(), "` removed")))
        },
    }
}

proof fn lemma_gone(profiles: Seq<ProfileModel>, name: Seq<char>, asked: Seq<char>)
    requires
        profile::same_name(name, asked),
        forall|i: int|
            0 <= i < profiles.len() ==> !profile::same_name(
                (#[trigger] profiles[i]).name,
                name,
            ),
    ensures
        profile::profile_named(profiles, asked) is None,
    decreases profiles.len(),
{
    if profiles.len() > 0 {
        let rest = profiles.drop_first();
        assert(!profile::same_name(profiles[0].name, name));
        assert forall|i: int| 0 <= i < rest.len() implies !profile::same_name(
            (#[trigger] rest[i]).name,
            name,
        ) by {
            assert(rest[i] == profiles[i + 1]);
        }
        lemma_gone(rest, name, asked);
    }
}

proof fn lemma_others_differ(profiles: Seq<ProfileModel>, name: Seq<char>)
    ensures
        forall|i: int|
            0 <= i < others(profiles, name).len() ==> !profile::same_name(
                (#[trigger] others(profiles, name)[i]).name,
                name,
            ),
    decreases profiles.len(),
{
    reveal(Seq::filter);
    if profiles.len() > 0 {
        lemma_others_differ(profiles.drop_last(), name);
    }
}

/// A profile that a rule still names cannot be removed: the configuration
/// without it is invalid and is not saved.
pub proof fn named_profiles_stay(
    config: ConfigModel,
    name: Seq<char>,
    rule: int,
    condition: int,
    place: int,
)
    requires
        0 <= rule < config.rules.len(),
        0 <= condition < config.rules[rule].conditions.len(),
        config.rules[rule].conditions[condition] is Profile,
        0 <= place < config.rules[rule].conditions[condition]->profiles.len(),
        profile::same_name(config.rules[rule].conditions[condition]->profiles[place], name),
    ensures
        effect::save_fault(
            ConfigModel { profiles: others(config.profiles, name), ..config },
        ) is Some,
{
    let less = ConfigModel { profiles: others(config.profiles, name), ..config };
    if less.fault() is None {
        config::valid_config_is_sound(less);
        let c = less.rules[rule].conditions[condition];
        assert(config::condition_sound(c, less.profiles));
        lemma_others_differ(config.profiles, name);
        lemma_gone(less.profiles, name, c->profiles[place]);
        assert(false);
    }
}

proof fn lemma_profile_position(profiles: Seq<ProfileModel>, name: Seq<char>, at: int)
    requires
        0 <= at <= profiles.len(),
        at < profiles.len() ==> profile::same_name(profiles[at].name, name),
        forall|k: int| 0 <= k < at ==> !profile::same_name((#[trigger] profiles[k]).name, name),
    ensures
        profile_position(profiles, name) == at,
    decreases profiles.len(),
{
    if at > 0 {
        assert(!profile::same_name(profiles[0].name, name));
        let rest = profiles.drop_first();
        assert forall|k: int| 0 <= k < at - 1 implies !profile::same_name(
            (#[trigger] rest[k]).name,
            name,
        ) by {
            assert(rest[k] == profiles[k + 1]);
        }
        lemma_profile_position(rest, name, at - 1);
    }
}

/// Adding a profile replaces the first one of its name, in whatever case, where it
/// stands, or else puts it last; every other profile stays. The line is printed
/// before the configuration is saved or found invalid.
pub proof fn adding_replaces_or_comes_last(
    config: ConfigModel,
    name: String,
    description: Option<String>,
    default: Option<DefaultArg>,
    path: Seq<char>,
    at: int,
)
    requires
        0 <= at <= config.profiles.len(),
        at < config.profiles.len() ==> profile::same_name(config.profiles[at].name, name@),
        forall|k: int|
            0 <= k < at ==> !profile::same_name((#[trigger] config.profiles[k]).name, name@),
    ensures
        ({
            let r = ran(config, ProfilesArgs::Add { name, description, default }, path);
            let (after, said) = r->Ok_0;
            &&& r is Ok
            &&& at < config.profiles.len() ==> after.profiles.len() == config.profiles.len()
                && said->PrintThenSave_lines == seq!["profile `"@ + name@ + "` updated"@]
            &&& at == config.profiles.len() ==> after.profiles.len() == config.profiles.len() + 1
                && said->PrintThenSave_lines == seq!["profile `"@ + name@ + "` added"@]
            &&& after.profiles[at].name == name@
            &&& after.profiles[at].description == model::text_if_any(description)
            &&& default is None <==> after.profiles[at].default_decision is None
            &&& default == Some(DefaultArg::Allow) <==> after.profiles[at].default_decision == Some(
                Decision::Allow,
            )
            &&& default == Some(DefaultArg::Mute) <==> after.profiles[at].default_decision == Some(
                Decision::Mute,
            )
            &&& default == Some(DefaultArg::Batch) <==> after.profiles[at].default_decision == Some(
                Decision::Batch,
            )
            &&& forall|k: int|
                0 <= k < config.profiles.len() && k != at ==> #[trigger] after.profiles[k]
                    == config.profiles[k]
            &&& after.rules == config.rules && after.default_decision == config.default_decision
            &&& said is PrintThenSave
            &&& said->fault is Some <==> after.fault() is Some
        }),
{
    lemma_profile_position(config.profiles, name@, at);
}

/// Removing takes every profile of the name, in whatever case, and keeps all
/// others in order.
pub proof fn removing_takes_the_name_alone(
    profiles: Seq<ProfileModel>,
    last: ProfileModel,
    name: Seq<char>,
)
    ensures
        others(Seq::empty(), name).len() == 0,
        profile::same_name(last.name, name) ==> others(profiles.push(last), name) == others(
            profiles,
            name,
        ),
        !profile::same_name(last.name, name) ==> others(profiles.push(last), name) == others(
            profiles,
            name,
        ).push(last),
{
    reveal(Seq::filter);
    assert(profiles.push(last).drop_last() =~= profiles);
}

/// A profile can be removed where there is one of the name and the rest is valid,
/// and nowhere else.
pub proof fn removing_needs_a_profile(
    config: ConfigModel,
    name: String,
    path: Seq<char>,
    at: int,
)
    requires
        0 <= at <= config.profiles.len(),
        at < config.profiles.len() ==> profile::same_name(config.profiles[at].name, name@),
        forall|k: int|
            0 <= k < at ==> !profile::same_name((#[trigger] config.profiles[k]).name, name@),
    ensures
        ({
            let r = ran(config, ProfilesArgs::Remove { name }, path);
            let less = ConfigModel { profiles: others(config.profiles, name@), ..config };
            &&& r is Ok <==> at < config.profiles.len() && less.fault() is None
            &&& r matches Ok((after, said)) ==> after == less && said is Save
            &&& at == config.profiles.len() ==> r == Err::<
                (ConfigModel, EffectModel),
                FailureModel,
            >(effect::plain("no profile named `"@ + name@ + "`"@))
        }),
{
    lemma_profile_position(config.profiles, name@, at);
}

/// Listing changes nothing and shows one line for each profile, in order; an
/// invalid configuration is not listed.
pub proof fn listing_shows_every_profile(config: ConfigModel, path: Seq<char>, k: int)
    ensures
        config.fault() is Some <==> ran(config, ProfilesArgs::List { json: false }, path) is Err,
        config.fault() is None ==> ({
            let (after, said) = ran(config, ProfilesArgs::List { json: false }, path)->Ok_0;
            &&& after == config
            &&& said is Print
            &&& config.profiles.len() == 0 ==> said->Print_0 == seq![
                "no focus profiles configured ("@ + path + ")"@,
            ]
            &&& config.profiles.len() > 0 ==> said->Print_0.len() == config.profiles.len()
            &&& 0 <= k < config.profiles.len() ==> said->Print_0[k] == print::profile_text(
                config.profiles[k],
            )
        }),
{
}

} // verus!
