//! `tpt-focus daemon`: run the notification engine headlessly (no GUI).
use vstd::prelude::*;
use crate::cli::effect::around;
use crate::clock;
use crate::clock::Span;
use crate::platform::access;
use crate::platform::access::{AccessState, Banner, BannerLevel};
use crate::storage::Retention;

verus! {

broadcast use vstd::string::group_string_axioms;

/// How the daemon is to run.
#[derive(Clone, Copy, Debug, PartialEq, Eq, Structural)]
pub struct DaemonArgs {
    /// Request notification consent on first run.
    pub consent: bool,
    /// Run the source even when consent is missing (degraded: no ingestion).
    pub degraded: bool,
}

/// Whether the user is to be asked for consent: only where nothing is decided
/// yet and the daemon was told to ask.
pub fn should_request(state: AccessState, args: &DaemonArgs) -> (r: bool)
    ensures
        r == (state == AccessState::Unknown && args.consent),
{
    state == AccessState::Unknown && args.consent
}

/// How the daemon starts.
#[derive(Clone, Copy, Debug, PartialEq, Eq, Structural)]
pub enum StartMode {
    /// Notifications are listened to.
    Listen,
    /// Rules and history stay usable, nothing is listened to.
    Degraded,
    /// The daemon does not start.
    Refuse,
}

/// How the daemon starts, given the access it has.
pub fn start_mode(access: AccessState, args: &DaemonArgs) -> (r: StartMode)
    ensures
        r == (if access == AccessState::Granted {
            StartMode::Listen
        } else if args.degraded {
            StartMode::Degraded
        } else {
            StartMode::Refuse
        }),
{
    if access.can_listen() {
        StartMode::Listen
    } else if args.degraded {
        StartMode::Degraded
    } else {
        StartMode::Refuse
    }
}

/// What the daemon says when it does not start.
pub fn refusal(access: AccessState) -> (r: String)
    ensures
        r@ == "notification access unavailable ("@ + access::access_word(access)
            + "); pass --degraded to run without live ingestion"@,
{
    around(
        "notification access unavailable (",
        access.as_str(),
        "); pass --degraded to run without live ingestion",
    )
}

/// What the daemon says when it listens.
pub fn listening_line(source: &str, access: AccessState) -> (r: String)
    ensures
        r@ == "listening via `"@ + source@ + "` (access: "@ + access::access_word(access) + ")"@,
{
    let mut line = around("listening via `", source, "` (access: ");
    line.append(access.as_str());
    line.append(")");
    line
}

/// What the daemon says when it runs without listening.
pub fn degraded_line(access: AccessState) -> (r: String)
    ensures
        r@ == "running degraded (access: "@ + access::access_word(access)
            + "): rules and history stay usable, live ingestion is off"@,
{
    around(
        "running degraded (access: ",
        access.as_str(),
        "): rules and history stay usable, live ingestion is off",
    )
}

/// The word for the severity of a banner.
pub fn level_word(banner: &Banner) -> (r: &'static str)
    ensures
        r@ == (match banner.level {
            BannerLevel::Info => "info"@,
            BannerLevel::Warning => "warning"@,
            BannerLevel::Error => "error"@,
        }),
{
    match banner.level {
        BannerLevel::Info => "info",
        BannerLevel::Warning => "warning",
        BannerLevel::Error => "error",
    }
}

/// Seconds between two looks at the schedules.
pub const TICK_SECONDS: u64 = 30;

/// Whether the retention policy is due at the `tick`-th look at the schedules:
/// once every hour.
pub fn retention_due(tick: u64) -> (r: bool)
    ensures
        r == ((tick * TICK_SECONDS) % 3600 == 0),
{
    assert((tick % 120 == 0) == ((tick * 30) % 3600 == 0)) by (nonlinear_arith);
    tick % 120 == 0
}

/// The retention policy that the engine applies on its own: 30 days and 20 000
/// notifications.
pub fn default_retention() -> (r: Retention)
    ensures
        r.max_age is Some,
        r.max_age->0@ == 30 * 86_400 * clock::SECOND,
        r.max_count == Some(20_000u64),
{
    Retention { max_age: Some(Span::from_days(30)), max_count: Some(20_000) }
}

} // verus!
