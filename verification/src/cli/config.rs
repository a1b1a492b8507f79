//! `tpt-focus config`: inspect, create or validate the configuration.
use vstd::prelude::*;
use crate::config::Config;
use crate::number;
use crate::number::decimal;

verus! {

broadcast use vstd::string::group_string_axioms;

/// What is asked of the configuration.
#[derive(Debug)]
pub enum ConfigArgs {
    /// Write the starter configuration if no config file exists yet.
    Init {
        /// Overwrite an existing configuration file.
        force: bool,
    },
    /// Print the configuration file path.
    Path,
    /// Print the effective configuration.
    Show,
    /// Validate a configuration file (default: the active one).
    Validate {
        /// Alternative file to validate instead of the active configuration.
        path: Option<String>,
    },
}

/// What is to be done about the configuration file.
#[derive(Debug, PartialEq, Eq)]
pub enum ConfigStep {
    /// Write the starter configuration to the file, then print a line.
    WriteStarter(String),
    /// Print a line.
    Print(String),
    /// Print what the file holds.
    Show,
    /// Validate the file at a path.
    Validate(String),
}

/// What a [`ConfigStep`] says.
pub enum ConfigStepModel {
    WriteStarter(Seq<char>),
    Print(Seq<char>),
    Show,
    Validate(Seq<char>),
}

impl View for ConfigStep {
    type V = ConfigStepModel;

    open spec fn view(&self) -> ConfigStepModel {
        match self {
            ConfigStep::WriteStarter(line) => ConfigStepModel::WriteStarter(line@),
            ConfigStep::Print(line) => ConfigStepModel::Print(line@),
            ConfigStep::Show => ConfigStepModel::Show,
            ConfigStep::Validate(path) => ConfigStepModel::Validate(path@),
        }
    }
}

/// What a step, or the message in its place, says.
pub open spec fn step_of(r: Result<ConfigStep, String>) -> Result<ConfigStepModel, Seq<char>> {
    match r {
        Ok(step) => Ok(step@),
        Err(message) => Err(message@),
    }
}

/// What a command does about the configuration file at `path`, given whether
/// there is one. An existing file is overwritten only by force.
pub open spec fn planned(args: ConfigArgs, path: Seq<char>, exists: bool) -> Result<
    ConfigStepModel,
    Seq<char>,
> {
    match args {
        ConfigArgs::Init { force } => if exists && !force {
            Err(path + " already exists (use --force to overwrite)"@)
        } else {
            Ok(ConfigStepModel::WriteStarter("starter configuration written to "@ + path))
        },
        ConfigArgs::Path => Ok(ConfigStepModel::Print(path)),
        ConfigArgs::Show => Ok(ConfigStepModel::Show),
        ConfigArgs::Validate { path: other } => Ok(
            ConfigStepModel::Validate(
                match other {
                    Some(other) => other@,
                    None => path,
                },
            ),
        ),
    }
}

/// What a command does about the configuration file at `path`, given whether
/// there is one.
pub fn plan(args: &ConfigArgs, path: &str, exists: bool) -> (r: Result<ConfigStep, String>)
    ensures
        step_of(r) == planned(*args, path@, exists),
{
    match args {
        ConfigArgs::Init { force } => {
            if exists && !*force {
                let mut message = path.to_string();
                message.append(" already exists (use --force to overwrite)");
                return Err(message);
            }
            let mut line = "starter configuration written to ".to_string();
            line.append(path);
            Ok(ConfigStep::WriteStarter(line))
        },
        ConfigArgs::Path => Ok(ConfigStep::Print(path.to_string())),
        ConfigArgs::Show => Ok(ConfigStep::Show),
        ConfigArgs::Validate { path: other } => match other {
            Some(other) => Ok(ConfigStep::Validate(other.clone())),
            None => Ok(ConfigStep::Validate(path.to_string())),
        },
    }
}

/// What is said of a configuration that was read from `path`.
pub fn validate_line(path: &str, config: &Config) -> (r: Result<String, String>)
    ensures
        match config@.fault() {
            Some(message) => r is Err && r->Err_0@ == "invalid configuration: "@ + message,
            None => r is Ok && r->Ok_0@ == path@ + " is valid: "@ + number::digits(
                config@.rules.len(),
            ) + " rules, "@ + number::digits(config@.profiles.len()) + " profiles"@,
        },
{
    match config.validate() {
        Ok(()) => {
            let mut line = path.to_string();
            line.append(" is valid: ");
            line.append(decimal(config.rules.len() as u64).as_str());
            line.append(" rules, ");
            line.append(decimal(config.profiles.len() as u64).as_str());
            line.append(" profiles");
            Ok(line)
        },
        Err(error) => Err(error.to_text()),
    }
}

/// The configuration file for this invocation: the one that was named, else the
/// default.
pub fn config_path<P>(override_path: Option<P>, default_path: P) -> (r: P)
    ensures
        r == (match override_path {
            Some(path) => path,
            None => default_path,
        }),
{
    match override_path {
        Some(path) => path,
        None => default_path,
    }
}

/// The database for this invocation: the one that was named, else the default.
pub fn db_path<P>(override_path: Option<P>, default_path: P) -> (r: P)
    ensures
        r == (match override_path {
            Some(path) => path,
            None => default_path,
        }),
{
    match override_path {
        Some(path) => path,
        None => default_path,
    }
}

/// An existing configuration file is never overwritten unless by force.
pub proof fn existing_files_are_kept(args: ConfigArgs, path: Seq<char>)
    requires
        !(args matches ConfigArgs::Init { force } && force),
    ensures
        !(planned(args, path, true) is Ok && planned(args, path, true)->Ok_0 is WriteStarter),
{
}

/// A starter configuration is written where there is no file or by force, and
/// nowhere else; the other commands are about the configured file, and
/// validation about the one that was named, if one was.
pub proof fn config_commands_do_what_they_say(
    force: bool,
    other: Option<String>,
    path: Seq<char>,
    exists: bool,
)
    ensures
        planned(ConfigArgs::Init { force }, path, exists) is Ok <==> force || !exists,
        planned(ConfigArgs::Init { force }, path, exists) matches Ok(step) ==> step is WriteStarter,
        planned(ConfigArgs::Path, path, exists) == Ok::<ConfigStepModel, Seq<char>>(
            ConfigStepModel::Print(path),
        ),
        planned(ConfigArgs::Show, path, exists) == Ok::<ConfigStepModel, Seq<char>>(
            ConfigStepModel::Show,
        ),
        other is None ==> planned(ConfigArgs::Validate { path: other }, path, exists) == Ok::<
            ConfigStepModel,
            Seq<char>,
        >(ConfigStepModel::Validate(path)),
        other matches Some(named) ==> planned(ConfigArgs::Validate { path: other }, path, exists)
            == Ok::<ConfigStepModel, Seq<char>>(ConfigStepModel::Validate(named@)),
{
}

} // verus!
