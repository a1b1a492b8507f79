//! What the popup window holds, and the commands that reach it from the tray
//! and the notification source.
use vstd::prelude::*;
use crate::clock;
use crate::clock::{Span, Timestamp};
use crate::config::Config;
use crate::model;
use crate::model::{copy_text_if_any, Notification, NotificationId, NotificationModel, Urgency};
use crate::number;
use crate::number::read_i32;
use crate::platform::access::AccessState;
use crate::profile;
use crate::profile::{ActiveProfile, FocusProfile, ProfileModel};
use crate::rules;
use crate::rules::{Condition, ConditionModel, Decision, MatchMode, Rule, RuleModel};
use crate::storage;
use crate::storage::{HistoryEntry, HistoryModel, HistoryQuery};
use crate::text;
use crate::text::{is_blank, trim};

verus! {

broadcast use vstd::string::group_string_axioms;

/// Which tab the popup window shows.
#[derive(Clone, Copy, Debug, PartialEq, Eq, Structural)]
pub enum Page {
    History,
    Digest,
    Rules,
    Profiles,
    Settings,
}

impl Default for Page {
    fn default() -> (r: Page)
        ensures
            r == Page::History,
    {
        Page::History
    }
}

/// The label of a page's tab.
pub open spec fn page_label(page: Page) -> Seq<char> {
    match page {
        Page::History => "History"@,
        Page::Digest => "Digest"@,
        Page::Rules => "Rules"@,
        Page::Profiles => "Profiles"@,
        Page::Settings => "Settings"@,
    }
}

impl Page {
    /// The pages in the order of their tabs.
    pub fn tabs() -> (r: Vec<Page>)
        ensures
            r@ == seq![Page::History, Page::Digest, Page::Rules, Page::Profiles, Page::Settings],
    {
        let tabs = vec![Page::History, Page::Digest, Page::Rules, Page::Profiles, Page::Settings];
        assert(tabs@ =~= seq![
            Page::History,
            Page::Digest,
            Page::Rules,
            Page::Profiles,
            Page::Settings,
        ]);
        tabs
    }

    /// The label of the page's tab.
    pub fn label(&self) -> (r: &'static str)
        ensures
            r@ == page_label(*self),
    {
        match self {
            Page::History => "History",
            Page::Digest => "Digest",
            Page::Rules => "Rules",
            Page::Profiles => "Profiles",
            Page::Settings => "Settings",
        }
    }
}

/// Commands from the tray and the notification source to the popup window.
#[derive(Debug, PartialEq, Eq)]
pub enum UiCommand {
    /// Show or hide the popup window.
    ToggleVisible,
    /// Show a specific page.
    Show(Page),
    /// Quick profile switch from the tray menu.
    ActivateProfile(Option<String>),
    /// Tear down.
    Quit,
}

impl Clone for UiCommand {
    fn clone(&self) -> (r: UiCommand)
        ensures
            r == *self,
    {
        match self {
            UiCommand::ToggleVisible => UiCommand::ToggleVisible,
            UiCommand::Show(page) => UiCommand::Show(*page),
            UiCommand::ActivateProfile(name) => UiCommand::ActivateProfile(copy_text_if_any(name)),
            UiCommand::Quit => UiCommand::Quit,
        }
    }
}

/// What a [`UiCommand`] says.
pub enum CommandModel {
    ToggleVisible,
    Show(Page),
    ActivateProfile(Option<Seq<char>>),
    Quit,
}

impl View for UiCommand {
    type V = CommandModel;

    open spec fn view(&self) -> CommandModel {
        match self {
            UiCommand::ToggleVisible => CommandModel::ToggleVisible,
            UiCommand::Show(page) => CommandModel::Show(*page),
            UiCommand::ActivateProfile(name) => CommandModel::ActivateProfile(
                model::text_if_any(*name),
            ),
            UiCommand::Quit => CommandModel::Quit,
        }
    }
}

/// What a command that may be absent says.
pub open spec fn command_if_any(command: Option<UiCommand>) -> Option<CommandModel> {
    match command {
        Some(c) => Some(c@),
        None => None,
    }
}

/// What happens to the popup window itself.
#[derive(Clone, Copy, Debug, PartialEq, Eq, Structural)]
pub enum WindowChange {
    /// It stays as it is.
    Keep,
    /// It is shown, focused and put in its place.
    Raise,
    /// It disappears.
    Hide,
    /// It closes for good.
    Close,
}

/// One allowed notification awaiting user attention.
#[derive(Debug, PartialEq)]
pub struct Bubble {
    pub notification: Notification,
    /// When the bubble should close; a bubble without it stays until it is
    /// dismissed.
    pub expires: Option<Timestamp>,
}

/// What a [`Bubble`] says.
pub struct BubbleModel {
    pub notification: NotificationModel,
    pub expires: Option<int>,
}

impl View for Bubble {
    type V = BubbleModel;

    open spec fn view(&self) -> BubbleModel {
        BubbleModel {
            notification: self.notification@,
            expires: storage::instant_if_any(self.expires),
        }
    }
}

/// What each bubble in a list says.
pub open spec fn bubble_models(bubbles: Seq<Bubble>) -> Seq<BubbleModel> {
    bubbles.map_values(|b: Bubble| b@)
}

/// Whether a notification's bubble stays until it is dismissed.
pub open spec fn sticky(notification: NotificationModel, timeout_ms: int) -> bool {
    timeout_ms <= 0 || notification.urgency == Urgency::Critical
}

/// The instant some milliseconds later, held back to the end of the calendar.
pub open spec fn expiry(now: int, timeout_ms: int) -> int {
    if clock::reachable(now + timeout_ms * 1_000_000) {
        now + timeout_ms * 1_000_000
    } else {
        (clock::LAST_SECOND + 1) * clock::SECOND - 1
    }
}

/// The bubble of a notification that comes up at an instant.
pub open spec fn bubble_at(notification: NotificationModel, timeout_ms: int, now: int) -> BubbleModel {
    BubbleModel {
        notification,
        expires: if sticky(notification, timeout_ms) {
            None
        } else {
            Some(expiry(now, timeout_ms))
        },
    }
}

impl BubbleModel {
    /// Whether the bubble's time is up.
    pub open spec fn expired(self, now: int) -> bool {
        self.expires is Some && self.expires->0 <= now
    }

    /// Whole seconds left to the bubble, if it expires.
    pub open spec fn seconds_left(self, now: int) -> Option<int> {
        match self.expires {
            Some(at) => Some(
                if at <= now {
                    0
                } else {
                    (at - now) / clock::SECOND as int
                },
            ),
            None => None,
        }
    }
}

impl Bubble {
    /// A bubble that comes up now. A timeout of zero or less and critical
    /// urgency stick.
    pub fn new(notification: Notification, expire_timeout_ms: i64) -> (r: Bubble)
        ensures
            exists|now: int|
                clock::reachable(now) && r@ == #[trigger] bubble_at(
                    notification@,
                    expire_timeout_ms as int,
                    now,
                ),
    {
        let now = Timestamp::now();
        let at: i128 = now.nanos();
        let bubble = Bubble::appearing(notification, expire_timeout_ms, now);
        assert(bubble@ == bubble_at(notification@, expire_timeout_ms as int, at as int));
        bubble
    }

    /// A bubble that comes up at an instant.
    pub fn appearing(notification: Notification, expire_timeout_ms: i64, now: Timestamp) -> (r:
        Bubble)
        ensures
            r.notification == notification,
            r@ == bubble_at(notification@, expire_timeout_ms as int, now@),
    {
        let expires = if expire_timeout_ms <= 0 || notification.urgency == Urgency::Critical {
            None
        } else {
            Some(now.later_by(Span::from_millis(expire_timeout_ms as u64)))
        };
        Bubble { notification, expires }
    }

    /// Whether the bubble's time is up.
    pub fn expired(&self, now: Timestamp) -> (r: bool)
        ensures
            r == self@.expired(now@),
    {
        match &self.expires {
            Some(at) => at.nanos() <= now.nanos(),
            None => false,
        }
    }

    /// Whole seconds left at an instant before the bubble expires; a sticky
    /// one has none.
    pub fn seconds_left(&self, now: Timestamp) -> (r: Option<i64>)
        ensures
            r is Some <==> self@.expires is Some,
            r is Some ==> Some(r->0 as int) == self@.seconds_left(now@),
    {
        match &self.expires {
            Some(at) => {
                let end: i128 = at.nanos();
                let start: i128 = now.nanos();
                if end <= start {
                    Some(0)
                } else {
                    Some(((end - start) / 1_000_000_000) as i64)
                }
            },
            None => None,
        }
    }

    /// Whole seconds left before the bubble expires; a sticky one has none.
    pub fn remaining_seconds(&self) -> (r: Option<i64>)
        ensures
            r is Some <==> self@.expires is Some,
            r is Some ==> exists|now: int|
                clock::reachable(now) && Some(r->0 as int) == #[trigger] self@.seconds_left(now),
    {
        let now = Timestamp::now();
        let at: i128 = now.nanos();
        let left = self.seconds_left(now);
        assert(left is Some ==> Some(left->0 as int) == self@.seconds_left(at as int));
        left
    }
}

impl Clone for Bubble {
    fn clone(&self) -> (r: Bubble)
        ensures
            r@ == self@,
    {
        Bubble { notification: self.notification.clone(), expires: self.expires }
    }
}

/// What is typed into the form for a new rule.
#[derive(Debug, PartialEq, Eq)]
pub struct RuleDraft {
    pub id: String,
    pub app: String,
    /// Index into the [actions](RuleDraft::actions).
    pub action: usize,
    pub fullscreen: bool,
    pub priority: String,
}

impl Default for RuleDraft {
    fn default() -> (r: RuleDraft)
        ensures
            r@ == empty_draft(),
    {
        let id = "".to_string();
        let app = "".to_string();
        let priority = "".to_string();
        proof {
            reveal_strlit("");
            assert(""@ =~= Seq::<char>::empty());
        }
        RuleDraft { id, app, action: 0, fullscreen: false, priority }
    }
}

impl Clone for RuleDraft {
    fn clone(&self) -> (r: RuleDraft)
        ensures
            r == *self,
    {
        RuleDraft {
            id: self.id.clone(),
            app: self.app.clone(),
            action: self.action,
            fullscreen: self.fullscreen,
            priority: self.priority.clone(),
        }
    }
}

/// What a [`RuleDraft`] says.
pub struct DraftModel {
    pub id: Seq<char>,
    pub app: Seq<char>,
    pub action: nat,
    pub fullscreen: bool,
    pub priority: Seq<char>,
}

impl View for RuleDraft {
    type V = DraftModel;

    open spec fn view(&self) -> DraftModel {
        DraftModel {
            id: self.id@,
            app: self.app@,
            action: self.action as nat,
            fullscreen: self.fullscreen,
            priority: self.priority@,
        }
    }
}

/// A form that nothing was typed into.
pub open spec fn empty_draft() -> DraftModel {
    DraftModel {
        id: Seq::empty(),
        app: Seq::empty(),
        action: 0,
        fullscreen: false,
        priority: Seq::empty(),
    }
}

/// The decision that an action of the form stands for.
pub open spec fn drafted_action(action: nat) -> Decision {
    if action == 0 {
        Decision::Allow
    } else if action == 1 {
        Decision::Mute
    } else {
        Decision::Batch
    }
}

/// The priority that was typed: a number that fits, or zero.
pub open spec fn drafted_priority(typed: Seq<char>) -> int {
    match number::signed_value(text::trimmed(typed)) {
        Some(n) => if i32::MIN <= n <= i32::MAX {
            n
        } else {
            0
        },
        None => 0,
    }
}

/// The rule that the form makes, or what is missing.
pub open spec fn drafted(draft: DraftModel) -> Result<RuleModel, Seq<char>> {
    let id = text::trimmed(draft.id);
    let app = text::trimmed(draft.app);
    if id.len() == 0 {
        Err("rule id must not be empty"@)
    } else if app.len() == 0 {
        Err("app pattern must not be empty"@)
    } else {
        let apps = seq![ConditionModel::App { apps: seq![app] }];
        Ok(
            RuleModel {
                id,
                name: id,
                enabled: true,
                priority: drafted_priority(draft.priority),
                match_mode: MatchMode::All,
                conditions: if draft.fullscreen {
                    apps.push(ConditionModel::Fullscreen { equals: true })
                } else {
                    apps
                },
                action: drafted_action(draft.action),
            },
        )
    }
}

impl RuleDraft {
    /// The actions that the form offers.
    pub fn actions() -> (r: [&'static str; 3])
        ensures
            forall|i: int|
                0 <= i < 3 ==> (#[trigger] r@[i])@ == rules::decision_word(drafted_action(i as nat)),
    {
        ["allow", "mute", "batch"]
    }

    /// Build a rule from the form; an error carries a message for the user.
    pub fn build(&self) -> (r: Result<Rule, String>)
        ensures
            match drafted(self@) {
                Ok(rule) => r is Ok && r->Ok_0@ == rule,
                Err(message) => r is Err && r->Err_0@ == message,
            },
    {
        let id = trim(self.id.as_str());
        if id.as_str().is_empty() {
            return Err("rule id must not be empty".to_string());
        }
        let app = trim(self.app.as_str());
        if app.as_str().is_empty() {
            return Err("app pattern must not be empty".to_string());
        }
        let action = if self.action == 0 {
            Decision::Allow
        } else if self.action == 1 {
            Decision::Mute
        } else {
            Decision::Batch
        };
        let priority: i32 = match read_i32(trim(self.priority.as_str()).as_str()) {
            Some(n) => n,
            None => 0,
        };
        let ghost pattern = app@;
        let mut apps: Vec<String> = Vec::new();
        apps.push(app);
        assert(model::texts(apps@) =~= seq![pattern]);
        let mut conditions: Vec<Condition> = Vec::new();
        conditions.push(Condition::App { apps });
        if self.fullscreen {
            conditions.push(Condition::Fullscreen { equals: true });
        }
        assert(rules::condition_models(conditions@) =~= drafted(self@)->Ok_0.conditions);
        let rule = Rule::new(id.as_str(), action).with_priority(priority).with_conditions(conditions);
        assert(rule@ =~= drafted(self@)->Ok_0);
        Ok(rule)
    }
}

/// Everything that the popup window shows.
#[derive(Debug)]
pub struct AppState {
    pub page: Page,
    pub visible: bool,
    pub search: String,
    pub history: Vec<HistoryEntry>,
    pub history_stale: bool,
    pub profiles: Vec<FocusProfile>,
    pub active_profile: Option<String>,
    pub rules: Vec<Rule>,
    pub access: AccessState,
    pub bubbles: Vec<Bubble>,
    pub rule_draft: RuleDraft,
    pub new_profile: String,
    pub status: String,
    pub config_path: String,
}

/// What an [`AppState`] says.
#[verifier::ext_equal]
pub struct StateModel {
    pub page: Page,
    pub visible: bool,
    pub search: Seq<char>,
    pub history: Seq<HistoryModel>,
    pub history_stale: bool,
    pub profiles: Seq<ProfileModel>,
    pub active_profile: Option<Seq<char>>,
    pub rules: Seq<RuleModel>,
    pub access: AccessState,
    pub bubbles: Seq<BubbleModel>,
    pub rule_draft: DraftModel,
    pub new_profile: Seq<char>,
    pub status: Seq<char>,
    pub config_path: Seq<char>,
}

impl View for AppState {
    type V = StateModel;

    open spec fn view(&self) -> StateModel {
        StateModel {
            page: self.page,
            visible: self.visible,
            search: self.search@,
            history: storage::history_models(self.history@),
            history_stale: self.history_stale,
            profiles: profile::profile_models(self.profiles@),
            active_profile: model::text_if_any(self.active_profile),
            rules: rules::rule_models(self.rules@),
            access: self.access,
            bubbles: bubble_models(self.bubbles@),
            rule_draft: self.rule_draft@,
            new_profile: self.new_profile@,
            status: self.status@,
            config_path: self.config_path@,
        }
    }
}

/// The state of a popup that was never opened.
pub open spec fn fresh_state(config_path: Seq<char>) -> StateModel {
    StateModel {
        page: Page::History,
        visible: false,
        search: Seq::empty(),
        history: Seq::empty(),
        history_stale: true,
        profiles: Seq::empty(),
        active_profile: None,
        rules: Seq::empty(),
        access: AccessState::Unknown,
        bubbles: Seq::empty(),
        rule_draft: empty_draft(),
        new_profile: Seq::empty(),
        status: Seq::empty(),
        config_path,
    }
}

/// The popup shown or hidden. Showing it asks for fresh history.
pub open spec fn turned(state: StateModel, visible: bool) -> StateModel {
    StateModel { visible, history_stale: visible || state.history_stale, ..state }
}

/// What a command makes of the state, and of the window.
pub open spec fn commanded(state: StateModel, command: CommandModel) -> (StateModel, WindowChange) {
    match command {
        CommandModel::ToggleVisible => (
            turned(state, !state.visible),
            if state.visible {
                WindowChange::Hide
            } else {
                WindowChange::Raise
            },
        ),
        CommandModel::Show(page) => (
            turned(StateModel { page, ..state }, true),
            WindowChange::Raise,
        ),
        CommandModel::ActivateProfile(name) => (
            StateModel { active_profile: name, ..state },
            WindowChange::Keep,
        ),
        CommandModel::Quit => (state, WindowChange::Close),
    }
}

/// The active profile of the engine after a command.
pub open spec fn profile_after(active: Option<Seq<char>>, command: CommandModel) -> Option<Seq<char>> {
    match command {
        CommandModel::ActivateProfile(name) => name,
        _ => active,
    }
}

/// The history is read again when it is stale, and every 800 milliseconds
/// while the popup is visible.
pub open spec fn refresh_wanted(state: StateModel, elapsed_ms: int) -> bool {
    state.history_stale || (state.visible && elapsed_ms >= 800)
}

/// The bubbles that are not up yet.
pub open spec fn lasting(bubbles: Seq<BubbleModel>, now: int) -> Seq<BubbleModel> {
    bubbles.filter(|b: BubbleModel| !b.expired(now))
}

/// The bubbles of other notifications.
pub open spec fn other_bubbles(bubbles: Seq<BubbleModel>, id: Seq<char>) -> Seq<BubbleModel> {
    bubbles.filter(|b: BubbleModel| b.notification.id != id)
}

impl AppState {
    /// The state of a popup that was never opened.
    pub fn new(config_path: String) -> (r: AppState)
        ensures
            r@ == fresh_state(config_path@),
    {
        let empty = "".to_string();
        proof {
            reveal_strlit("");
            assert(""@ =~= Seq::<char>::empty());
        }
        let state = AppState {
            page: Page::History,
            visible: false,
            search: empty.clone(),
            history: Vec::new(),
            history_stale: true,
            profiles: Vec::new(),
            active_profile: None,
            rules: Vec::new(),
            access: AccessState::Unknown,
            bubbles: Vec::new(),
            rule_draft: RuleDraft::default(),
            new_profile: empty.clone(),
            status: empty,
            config_path,
        };
        assert(state@ =~= fresh_state(config_path@));
        state
    }

    /// Show or hide the popup.
    pub fn set_visible(&mut self, visible: bool) -> (r: WindowChange)
        ensures
            final(self)@ == turned(old(self)@, visible),
            r == (if visible {
                WindowChange::Raise
            } else {
                WindowChange::Hide
            }),
    {
        self.visible = visible;
        if visible {
            self.history_stale = true;
            WindowChange::Raise
        } else {
            WindowChange::Hide
        }
    }

    /// Make a profile the active one, or none, here and in the engine.
    pub fn activate_profile(&mut self, active: &mut ActiveProfile, name: Option<String>)
        ensures
            final(self)@ == (StateModel {
                active_profile: model::text_if_any(name),
                ..old(self)@
            }),
            final(active)@ == model::text_if_any(name),
    {
        match &name {
            Some(name) => {
                let _ = active.activate(name.as_str());
            },
            None => {
                let _ = active.clear();
            },
        }
        self.active_profile = name;
    }

    /// Carry out a command from the tray or the notification source.
    pub fn run_command(&mut self, active: &mut ActiveProfile, command: UiCommand) -> (r:
        WindowChange)
        ensures
            (final(self)@, r) == commanded(old(self)@, command@),
            final(active)@ == profile_after(old(active)@, command@),
    {
        match command {
            UiCommand::ToggleVisible => {
                let visible = !self.visible;
                self.set_visible(visible)
            },
            UiCommand::Show(page) => {
                self.page = page;
                self.set_visible(true)
            },
            UiCommand::ActivateProfile(name) => {
                self.activate_profile(active, name);
                WindowChange::Keep
            },
            UiCommand::Quit => WindowChange::Close,
        }
    }

    /// Whether the history is to be read again, some milliseconds after it was
    /// read last.
    pub fn refresh_due(&self, elapsed_ms: u64) -> (r: bool)
        ensures
            r == refresh_wanted(self@, elapsed_ms as int),
    {
        self.history_stale || (self.visible && elapsed_ms >= 800)
    }

    /// What to search the history for; nothing where the search is blank.
    pub fn search_terms(&self) -> (r: Option<String>)
        ensures
            model::text_if_any(r) == (if text::blank(self@.search) {
                None
            } else {
                Some(self@.search)
            }),
    {
        if is_blank(self.search.as_str()) {
            None
        } else {
            Some(self.search.clone())
        }
    }

    /// The part of the history that the popup shows: the newest 200 entries.
    pub fn history_query() -> (r: HistoryQuery)
        ensures
            r@ == (storage::QueryModel { limit: Some(200), ..storage::everything() }),
    {
        HistoryQuery::new().with_limit(200)
    }

    /// Take over history that was read, and the rules and profiles in force.
    /// Where none could be read, what was shown stays.
    pub fn refreshed(&mut self, history: Option<Vec<HistoryEntry>>, config: &Config)
        ensures
            final(self)@ == (StateModel {
                history: match history {
                    Some(entries) => storage::history_models(entries@),
                    None => old(self)@.history,
                },
                history_stale: false,
                rules: config@.rules,
                profiles: config@.profiles,
                ..old(self)@
            }),
    {
        self.history_stale = false;
        if let Some(entries) = history {
            self.history = entries;
        }
        let config = config.clone();
        self.rules = config.rules;
        self.profiles = config.profiles;
    }

    /// Drop the bubbles whose time is up.
    pub fn drop_expired(&mut self, now: Timestamp)
        ensures
            final(self)@ == (StateModel {
                bubbles: lasting(old(self)@.bubbles, now@),
                ..old(self)@
            }),
    {
        let ghost models = bubble_models(self.bubbles@);
        let ghost keep = |b: BubbleModel| !b.expired(now@);
        let mut kept: Vec<Bubble> = Vec::new();
        let mut i: usize = 0;
        proof {
            reveal(Seq::filter);
            assert(bubble_models(kept@) =~= models.take(0).filter(keep));
        }
        while i < self.bubbles.len()
            invariant
                i <= self.bubbles@.len(),
                models == bubble_models(self.bubbles@),
                keep == (|b: BubbleModel| !b.expired(now@)),
                bubble_models(kept@) == models.take(i as int).filter(keep),
            decreases self.bubbles@.len() - i,
        {
            proof {
                reveal(Seq::filter);
                assert(models.take(i + 1).drop_last() =~= models.take(i as int));
                assert(models.take(i + 1).last() == self.bubbles@[i as int]@);
            }
            if !self.bubbles[i].expired(now) {
                let ghost before = kept@;
                let bubble = self.bubbles[i].clone();
                let ghost last = bubble@;
                kept.push(bubble);
                assert(bubble_models(kept@) =~= bubble_models(before).push(last));
            }
            i += 1;
        }
        assert(models.take(models.len() as int) =~= models);
        self.bubbles = kept;
    }

    /// Drop the bubbles of a notification.
    pub fn close_bubble(&mut self, id: &NotificationId)
        ensures
            final(self)@ == (StateModel {
                bubbles: other_bubbles(old(self)@.bubbles, id@),
                ..old(self)@
            }),
    {
        let ghost models = bubble_models(self.bubbles@);
        let ghost keep = |b: BubbleModel| b.notification.id != id@;
        let mut kept: Vec<Bubble> = Vec::new();
        let mut i: usize = 0;
        proof {
            reveal(Seq::filter);
            assert(bubble_models(kept@) =~= models.take(0).filter(keep));
        }
        while i < self.bubbles.len()
            invariant
                i <= self.bubbles@.len(),
                models == bubble_models(self.bubbles@),
                keep == (|b: BubbleModel| b.notification.id != id@),
                bubble_models(kept@) == models.take(i as int).filter(keep),
            decreases self.bubbles@.len() - i,
        {
            proof {
                reveal(Seq::filter);
                assert(models.take(i + 1).drop_last() =~= models.take(i as int));
                assert(models.take(i + 1).last() == self.bubbles@[i as int]@);
            }
            if !self.bubbles[i].notification.id.same(id) {
                let ghost before = kept@;
                let bubble = self.bubbles[i].clone();
                let ghost last = bubble@;
                kept.push(bubble);
                assert(bubble_models(kept@) =~= bubble_models(before).push(last));
            }
            i += 1;
        }
        assert(models.take(models.len() as int) =~= models);
        self.bubbles = kept;
    }
}

/// However the popup comes up, it comes up with its history to be read afresh.
pub proof fn popup_opens_on_fresh_history(state: StateModel, command: CommandModel)
    ensures
        commanded(state, command).1 == WindowChange::Raise ==> commanded(state, command).0.visible
            && commanded(state, command).0.history_stale && refresh_wanted(
            commanded(state, command).0,
            0,
        ),
{
}

/// A popup that is toggled twice is as visible as before, on the same page.
pub proof fn toggling_the_popup_twice(state: StateModel)
    ensures
        ({
            let once = commanded(state, CommandModel::ToggleVisible).0;
            let twice = commanded(once, CommandModel::ToggleVisible).0;
            &&& once.visible == !state.visible
            &&& twice == (StateModel { history_stale: true, ..state })
        }),
{
}

/// A command switches the profile in the popup and in the engine alike: where
/// the two agreed before it, they agree after it.
pub proof fn popup_and_engine_agree(
    state: StateModel,
    active: Option<Seq<char>>,
    command: CommandModel,
)
    requires
        state.active_profile == active,
    ensures
        commanded(state, command).0.active_profile == profile_after(active, command),
{
}

/// A sticky bubble stays until it is dismissed, and any other goes once its
/// timeout has passed and not before.
pub proof fn bubbles_last_their_time(
    notification: NotificationModel,
    timeout_ms: int,
    shown: int,
    now: int,
)
    requires
        clock::reachable(shown),
        clock::reachable(shown + timeout_ms * 1_000_000),
    ensures
        sticky(notification, timeout_ms) ==> !bubble_at(notification, timeout_ms, shown).expired(
            now,
        ),
        !sticky(notification, timeout_ms) ==> bubble_at(notification, timeout_ms, shown).expired(
            now,
        ) == (now >= shown + timeout_ms * 1_000_000),
{
}

/// A bubble that was closed is gone, and the others are still there.
pub proof fn closed_bubbles_are_gone(bubbles: Seq<BubbleModel>, id: Seq<char>)
    ensures
        forall|b: BubbleModel| #[trigger]
            other_bubbles(bubbles, id).contains(b) <==> bubbles.contains(b) && b.notification.id
                != id,
{
    let keep = |b: BubbleModel| b.notification.id != id;
    assert forall|b: BubbleModel| #[trigger]
        other_bubbles(bubbles, id).contains(b) <==> bubbles.contains(b) && b.notification.id != id by {
        let kept = bubbles.filter(keep);
        if kept.contains(b) {
            let i = kept.index_of(b);
            bubbles.lemma_filter_pred(keep, i);
            bubbles.lemma_filter_contains_rev(keep, b);
        }
        if bubbles.contains(b) && keep(b) {
            bubbles.lemma_filter_contains(keep, bubbles.index_of(b));
        }
    }
}

/// Critical notifications, and those without a timeout, stay until they are
/// dismissed, and no others do.
pub proof fn critical_bubbles_stay(n: NotificationModel, timeout_ms: int, shown: int)
    ensures
        n.urgency == Urgency::Critical ==> bubble_at(n, timeout_ms, shown).expires is None,
        timeout_ms <= 0 ==> bubble_at(n, timeout_ms, shown).expires is None,
        n.urgency != Urgency::Critical && timeout_ms > 0 ==> bubble_at(
            n,
            timeout_ms,
            shown,
        ).expires is Some,
        bubble_at(n, timeout_ms, shown).notification == n,
{
}

/// A bubble never outlives its timeout, and the calendar never cuts it short but
/// at its very end.
pub proof fn bubbles_expire_in_time(n: NotificationModel, timeout_ms: int, shown: int, now: int)
    requires
        clock::reachable(shown),
        timeout_ms > 0,
        n.urgency != Urgency::Critical,
    ensures
        now >= shown + timeout_ms * 1_000_000 ==> bubble_at(n, timeout_ms, shown).expired(now),
        now < shown + timeout_ms * 1_000_000 && clock::reachable(shown + timeout_ms * 1_000_000)
            ==> !bubble_at(n, timeout_ms, shown).expired(now),
{
}

/// The seconds left count down to nought: as many whole ones as still fit before
/// the bubble goes, and none once it is up or where it stays.
pub proof fn seconds_left_fit_before_the_end(b: BubbleModel, now: int)
    ensures
        b.expires is None <==> b.seconds_left(now) is None,
        b.expired(now) ==> b.seconds_left(now) == Some(0int),
        b.expires is Some && !b.expired(now) ==> {
            let left = b.seconds_left(now)->0;
            &&& left >= 0
            &&& now + left * 1_000_000_000 <= b.expires->0
            &&& b.expires->0 < now + (left + 1) * 1_000_000_000
        },
{
}

/// What lasts is every bubble whose time is not up, in order, and no other.
pub proof fn bubbles_go_when_their_time_is_up(bubbles: Seq<BubbleModel>, b: BubbleModel, now: int)
    ensures
        lasting(Seq::empty(), now).len() == 0,
        b.expires is Some && b.expires->0 <= now ==> lasting(bubbles.push(b), now) == lasting(
            bubbles,
            now,
        ),
        b.expires is None || b.expires->0 > now ==> lasting(bubbles.push(b), now) == lasting(
            bubbles,
            now,
        ).push(b),
{
    reveal(Seq::filter);
    assert(bubbles.push(b).drop_last() =~= bubbles);
}

/// A form makes a rule exactly where it has an id and an app that are seen: one
/// that is switched on, goes by the typed id, asks for the app and, where it
/// was ticked, for a fullscreen window.
pub proof fn forms_make_the_rule_they_say(draft: DraftModel)
    ensures
        drafted(draft) is Ok <==> !text::blank(draft.id) && !text::blank(draft.app),
        drafted(draft) matches Ok(rule) ==> {
            &&& rule.enabled
            &&& rule.id == text::trimmed(draft.id) && rule.name == rule.id
            &&& rule.match_mode == MatchMode::All
            &&& rule.conditions.len() == if draft.fullscreen {
                2int
            } else {
                1
            }
            &&& rule.conditions[0] == (ConditionModel::App {
                apps: seq![text::trimmed(draft.app)],
            })
            &&& draft.fullscreen ==> rule.conditions[1] == (ConditionModel::Fullscreen {
                equals: true,
            })
            &&& draft.action == 0 ==> rule.action == Decision::Allow
            &&& draft.action == 1 ==> rule.action == Decision::Mute
            &&& draft.action == 2 ==> rule.action == Decision::Batch
        },
        text::blank(draft.id) ==> drafted(draft) == Err::<RuleModel, Seq<char>>(
            "rule id must not be empty"@,
        ),
        !text::blank(draft.id) && text::blank(draft.app) ==> drafted(draft) == Err::<
            RuleModel,
            Seq<char>,
        >("app pattern must not be empty"@),
{
    text::blank_trims_to_nothing(draft.id);
    text::blank_trims_to_nothing(draft.app);
}

/// A typed priority is read back from its digits, and anything that is no
/// priority counts as nought.
pub proof fn typed_priorities_are_read(n: int)
    requires
        i32::MIN <= n <= i32::MAX,
    ensures
        text::trimmed(number::signed_digits(n)) == number::signed_digits(n) ==> drafted_priority(
            number::signed_digits(n),
        ) == n,
        forall|typed: Seq<char>|
            number::signed_value(text::trimmed(typed)) is None ==> #[trigger] drafted_priority(
                typed,
            ) == 0,
{
    number::reading_gives_back_signed_digits(n);
}

/// A command does what it says and nothing else: a page is shown by raising the
/// popup on it, a profile is switched without touching the window, and leaving
/// changes nothing.
pub proof fn commands_do_what_they_say(
    state: StateModel,
    page: Page,
    name: Option<Seq<char>>,
    active: Option<Seq<char>>,
)
    ensures
        ({
            let (shown, window) = commanded(state, CommandModel::Show(page));
            &&& shown.page == page && shown.visible && shown.history_stale
            &&& window == WindowChange::Raise
            &&& shown == (StateModel { page, visible: true, history_stale: true, ..state })
        }),
        ({
            let (switched, window) = commanded(state, CommandModel::ActivateProfile(name));
            &&& switched == (StateModel { active_profile: name, ..state })
            &&& window == WindowChange::Keep
        }),
        profile_after(active, CommandModel::ActivateProfile(name)) == name,
        profile_after(active, CommandModel::Show(page)) == active,
        profile_after(active, CommandModel::ToggleVisible) == active,
        profile_after(active, CommandModel::Quit) == active,
        commanded(state, CommandModel::Quit) == (state, WindowChange::Close),
        commanded(state, CommandModel::ToggleVisible).1 == if state.visible {
            WindowChange::Hide
        } else {
            WindowChange::Raise
        },
{
}

/// History is read again as soon as it is stale, at the latest 800 milliseconds
/// after the last time while the popup is seen, and never while it is hidden
/// and nothing is new.
pub proof fn history_is_read_again_in_time(state: StateModel, elapsed_ms: int)
    ensures
        state.history_stale ==> refresh_wanted(state, elapsed_ms),
        !state.history_stale && !state.visible ==> !refresh_wanted(state, elapsed_ms),
        !state.history_stale && state.visible ==> (refresh_wanted(state, elapsed_ms) <==> elapsed_ms
            >= 800),
{
}

/// A popup that was never opened is hidden, shows the history first and wants it
/// read at once; it holds nothing yet, no profile is active, and its form has
/// nothing typed into it and makes no rule.
pub proof fn a_fresh_popup_is_hidden_and_empty(config_path: Seq<char>, elapsed_ms: int)
    ensures
        ({
            let state = fresh_state(config_path);
            &&& !state.visible && state.page == Page::History
            &&& refresh_wanted(state, elapsed_ms)
            &&& state.history.len() == 0 && state.bubbles.len() == 0 && state.rules.len() == 0
                && state.profiles.len() == 0
            &&& state.active_profile is None && state.access == AccessState::Unknown
            &&& state.search.len() == 0 && state.status.len() == 0 && state.new_profile.len() == 0
            &&& state.config_path == config_path
            &&& state.rule_draft.id.len() == 0 && state.rule_draft.app.len() == 0
                && state.rule_draft.priority.len() == 0
            &&& state.rule_draft.action == 0 && !state.rule_draft.fullscreen
            &&& drafted(state.rule_draft) is Err
        }),
{
    text::blank_trims_to_nothing(empty_draft().id);
}

/// Showing or hiding the popup changes whether it is seen; showing it has the
/// history read again, hiding it leaves that as it was.
pub proof fn showing_reads_the_history_again(state: StateModel)
    ensures
        turned(state, true) == (StateModel { visible: true, history_stale: true, ..state }),
        turned(state, false) == (StateModel { visible: false, ..state }),
{
}

/// Closing takes every bubble of the notification and keeps all others in order.
pub proof fn closing_takes_one_notification(
    bubbles: Seq<BubbleModel>,
    b: BubbleModel,
    id: Seq<char>,
)
    ensures
        other_bubbles(Seq::empty(), id).len() == 0,
        b.notification.id == id ==> other_bubbles(bubbles.push(b), id) == other_bubbles(
            bubbles,
            id,
        ),
        b.notification.id != id ==> other_bubbles(bubbles.push(b), id) == other_bubbles(
            bubbles,
            id,
        ).push(b),
{
    reveal(Seq::filter);
    assert(bubbles.push(b).drop_last() =~= bubbles);
}

} // verus!
