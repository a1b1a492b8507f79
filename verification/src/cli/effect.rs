//! What a command leaves to be done once it has decided.
use vstd::prelude::*;
use crate::config::{Config, ConfigModel};
use crate::model;

verus! {

broadcast use vstd::string::group_string_axioms;

/// Why a command fails: what could not be done and, where something else is
/// behind it, what that is.
#[derive(Debug, PartialEq, Eq)]
pub struct Failure {
    pub message: String,
    pub cause: Option<String>,
}

/// What a [`Failure`] says.
#[verifier::ext_equal]
pub struct FailureModel {
    pub message: Seq<char>,
    pub cause: Option<Seq<char>>,
}

impl View for Failure {
    type V = FailureModel;

    open spec fn view(&self) -> FailureModel {
        FailureModel { message: self.message@, cause: model::text_if_any(self.cause) }
    }
}

/// A failure with nothing else behind it.
pub open spec fn plain(message: Seq<char>) -> FailureModel {
    FailureModel { message, cause: None }
}

/// A failure with something else behind it.
pub open spec fn caused(message: Seq<char>, cause: Seq<char>) -> FailureModel {
    FailureModel { message, cause: Some(cause) }
}

/// What a failure that may be absent says.
pub open spec fn failure_if_any(failure: Option<Failure>) -> Option<FailureModel> {
    match failure {
        Some(f) => Some(f@),
        None => None,
    }
}

/// A failure with nothing else behind it.
pub(crate) fn plain_failure(message: String) -> (r: Failure)
    ensures
        r@ == plain(message@),
{
    Failure { message, cause: None }
}

/// A failure with something else behind it.
pub(crate) fn caused_failure(message: &str, cause: String) -> (r: Failure)
    ensures
        r@ == caused(message@, cause@),
{
    Failure { message: message.to_string(), cause: Some(cause) }
}

/// What is left to be done.
#[derive(Debug, PartialEq, Eq)]
pub enum Effect {
    /// Print these lines.
    Print(Vec<String>),
    /// Print what was asked for as JSON.
    PrintJson,
    /// Save what was changed, then print these lines.
    Save(Vec<String>),
    /// Print these lines, then save what was changed, or fail where it cannot
    /// be saved.
    PrintThenSave { lines: Vec<String>, fault: Option<Failure> },
}

/// What an [`Effect`] says.
pub enum EffectModel {
    Print(Seq<Seq<char>>),
    PrintJson,
    Save(Seq<Seq<char>>),
    PrintThenSave { lines: Seq<Seq<char>>, fault: Option<FailureModel> },
}

impl View for Effect {
    type V = EffectModel;

    open spec fn view(&self) -> EffectModel {
        match self {
            Effect::Print(lines) => EffectModel::Print(model::texts(lines@)),
            Effect::PrintJson => EffectModel::PrintJson,
            Effect::Save(lines) => EffectModel::Save(model::texts(lines@)),
            Effect::PrintThenSave { lines, fault } => EffectModel::PrintThenSave {
                lines: model::texts(lines@),
                fault: failure_if_any(*fault),
            },
        }
    }
}

/// A text with another before and another behind it.
pub(crate) fn around(before: &str, middle: &str, after: &str) -> (r: String)
    ensures
        r@ == before@ + middle@ + after@,
{
    let mut s = before.to_string();
    s.append(middle);
    s.append(after);
    s
}

/// A list of one line.
pub(crate) fn one_line(line: String) -> (r: Vec<String>)
    ensures
        model::texts(r@) == seq![line@],
{
    let mut out: Vec<String> = Vec::new();
    let ghost text = line@;
    out.push(line);
    assert(model::texts(out@) =~= seq![text]);
    out
}

/// Why a configuration cannot be saved, if it cannot.
pub open spec fn save_fault(config: ConfigModel) -> Option<FailureModel> {
    match config.fault() {
        Some(message) => Some(
            caused("failed to save config"@, "invalid configuration: "@ + message),
        ),
        None => None,
    }
}

/// The outcome of a command that changed a configuration: it is saved and the
/// lines are printed, unless it is invalid.
pub open spec fn saved(config: ConfigModel, lines: Seq<Seq<char>>) -> Result<
    (ConfigModel, EffectModel),
    FailureModel,
> {
    match save_fault(config) {
        Some(failure) => Err(failure),
        None => Ok((config, EffectModel::Save(lines))),
    }
}

/// What the outcome of a command says.
pub open spec fn outcome(r: Result<(Config, Effect), Failure>) -> Result<
    (ConfigModel, EffectModel),
    FailureModel,
> {
    match r {
        Ok((config, effect)) => Ok((config@, effect@)),
        Err(failure) => Err(failure@),
    }
}

/// Why a configuration cannot be saved, if it cannot.
pub(crate) fn fault_of_saving(config: &Config) -> (r: Option<Failure>)
    ensures
        failure_if_any(r) == save_fault(config@),
{
    match config.validate() {
        Ok(()) => None,
        Err(error) => Some(caused_failure("failed to save config", error.to_text())),
    }
}

/// The outcome of a command that changed a configuration.
pub(crate) fn save(config: Config, lines: Vec<String>) -> (r: Result<(Config, Effect), Failure>)
    ensures
        outcome(r) == saved(config@, model::texts(lines@)),
{
    match fault_of_saving(&config) {
        Some(failure) => Err(failure),
        None => Ok((config, Effect::Save(lines))),
    }
}

/// A configuration is saved exactly where it is valid; an invalid one is neither
/// saved nor announced, and the failure says what is behind it.
pub proof fn only_valid_configurations_are_saved(config: ConfigModel, lines: Seq<Seq<char>>)
    ensures
        save_fault(config) is Some <==> config.fault() is Some,
        config.fault() is None ==> saved(config, lines) == Ok::<
            (ConfigModel, EffectModel),
            FailureModel,
        >((config, EffectModel::Save(lines))),
        config.fault() matches Some(message) ==> saved(config, lines) == Err::<
            (ConfigModel, EffectModel),
            FailureModel,
        >(
            FailureModel {
                message: "failed to save config"@,
                cause: Some("invalid configuration: "@ + message),
            },
        ),
{
}

} // verus!
