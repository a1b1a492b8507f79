//! Engine of the Unified Notification & Focus Center.
//!
//! The notification data model, the rule evaluation pipeline, focus profiles
//! and schedules, the digest of what was held back, the history and its
//! statements, and what the command-line tool and the tray decide. Contracts
//! state what is returned or changed. Files, the database, the display server
//! and the bus are reached from elsewhere; what goes to them and what is made
//! of their answers is here.

pub mod cli;
pub mod clock;
pub mod config;
pub mod context;
pub mod digest;
pub mod engine;
pub mod error;
pub mod glob;
pub mod model;
pub mod number;
pub mod platform;
pub mod profile;
pub mod rows;
pub mod rules;
pub mod runtime;
pub mod schedule;
pub mod sorting;
pub mod source;
pub mod sql;
pub mod storage;
pub mod tables;
pub mod text;
pub mod tray;

pub use crate::config::{Config, Defaults, CONFIG_VERSION};
pub use crate::context::{ContextProvider, ContextSnapshot, MockContextProvider};
pub use crate::digest::{DigestCollector, DigestEntry, DigestGroup, DEFAULT_WINDOW as DIGEST_WINDOW};
pub use crate::engine::{Pipeline, ProcessedNotification};
pub use crate::error::Error;
pub use crate::glob::pattern_matches;
pub use crate::model::{
    AppIdentity, IconRef, Notification, NotificationAction, NotificationId, Urgency,
};
pub use crate::platform::access::{
    AccessState, Banner, BannerAction, BannerLevel, MockAccess, NotificationAccess,
};
pub use crate::profile::{
    find_profile, ActiveProfile, FocusProfile, ScheduleController, ScheduleTick,
};
pub use crate::rules::{Condition, Decision, MatchMode, Rule, RuleEngine, RuleEvaluation};
pub use crate::runtime::FocusRuntime;
pub use crate::schedule::{active_schedules, Schedule};
pub use crate::source::{MockNotificationSource, SourceCapabilities};
pub use crate::storage::{HistoryEntry, HistoryExport, HistoryQuery, PruneReport, Retention};
