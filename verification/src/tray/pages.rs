//! What the pages of the popup window show, and what a click on them does.
use vstd::prelude::*;
use crate::cli::effect::around;
use crate::cli::print::short_local_stamp;
use crate::clock;
use crate::clock::Timestamp;
use crate::config::{Config, ConfigModel};
use crate::context::ContextProvider;
use crate::digest;
use crate::digest::{DigestCollector, DigestGroup, GroupModel};
use crate::model;
use crate::model::{
    copy_actions, copy_text_if_any, ActionModel, AppIdentity, AppModel, NotificationAction,
    NotificationId,
};
use crate::number;
use crate::number::decimal;
use crate::platform::access;
use crate::platform::access::{AccessState, BannerLevel};
use crate::profile;
use crate::profile::{FocusProfile, ProfileModel};
use crate::rules;
use crate::rules::{Decision, Rule, RuleModel};
use crate::runtime::{FocusRuntime, RuntimeModel};
use crate::source;
use crate::storage::{HistoryEntry, HistoryModel};
use crate::text;
use crate::text::{same_ignoring_ascii_case, same_text, trim, truncate};
use crate::tray::state;
use crate::tray::state::{AppState, Bubble, BubbleModel, RuleDraft, StateModel};

verus! {

broadcast use vstd::string::group_string_axioms;

/// A colour of the popup window.
#[derive(Clone, Copy, Debug, PartialEq, Eq, Structural)]
pub enum Tint {
    Green,
    Gray,
    Yellow,
    LightBlue,
    LightRed,
}

/// The name that an app goes by: its display name, or its id.
pub open spec fn app_label(app: AppModel) -> Seq<char> {
    match app.display_name {
        Some(name) => name,
        None => app.app_id,
    }
}

/// The name that an app goes by, cut to 18 characters.
fn short_app_label(app: &AppIdentity) -> (r: String)
    ensures
        r@ == text::shortened(app_label(app@), 18),
{
    match &app.display_name {
        Some(name) => truncate(name.as_str(), 18),
        None => truncate(app.app_id.as_str(), 18),
    }
}

/// The text next to the tabs while a profile is active.
pub open spec fn focus_text(active: Option<Seq<char>>) -> Option<Seq<char>> {
    match active {
        Some(name) => Some("focus: "@ + name),
        None => None,
    }
}

/// One line of the history page.
#[derive(Debug, PartialEq)]
pub struct HistoryRow {
    pub id: NotificationId,
    /// When it came in, on this machine's calendar and clock.
    pub stamp: String,
    pub badge: &'static str,
    pub tint: Tint,
    pub app: String,
    pub title: String,
    pub read: bool,
    /// The label of the button that marks it read or unread.
    pub read_label: &'static str,
    /// Whether it can be removed from the operating system.
    pub dismissible: bool,
}

/// What a [`HistoryRow`] says.
#[verifier::ext_equal]
pub struct RowModel {
    pub id: Seq<char>,
    pub stamp: Seq<char>,
    pub badge: Seq<char>,
    pub tint: Tint,
    pub app: Seq<char>,
    pub title: Seq<char>,
    pub read: bool,
    pub read_label: Seq<char>,
    pub dismissible: bool,
}

impl View for HistoryRow {
    type V = RowModel;

    open spec fn view(&self) -> RowModel {
        RowModel {
            id: self.id@,
            stamp: self.stamp@,
            badge: self.badge@,
            tint: self.tint,
            app: self.app@,
            title: self.title@,
            read: self.read,
            read_label: self.read_label@,
            dismissible: self.dismissible,
        }
    }
}

/// The badge of a decision.
pub open spec fn badge_of(decision: Decision) -> (Seq<char>, Tint) {
    match decision {
        Decision::Allow => ("show"@, Tint::Green),
        Decision::Mute => ("muted"@, Tint::Gray),
        Decision::Batch => ("batch"@, Tint::Yellow),
    }
}

/// The line of a history entry, with the stamp of its instant.
pub open spec fn row_of(entry: HistoryModel, stamp: Seq<char>) -> RowModel {
    RowModel {
        id: entry.notification.id,
        stamp,
        badge: badge_of(entry.decision).0,
        tint: badge_of(entry.decision).1,
        app: text::shortened(app_label(entry.notification.source), 18),
        title: text::shortened(entry.notification.title, 42),
        read: entry.read,
        read_label: if entry.read {
            "mark unread"@
        } else {
            "mark read"@
        },
        dismissible: entry.decision == Decision::Allow,
    }
}

/// `row` is the line of a history entry: its stamp shows when the notification
/// came in, on a calendar and clock at some offset.
pub open spec fn shows_row(row: RowModel, entry: HistoryModel) -> bool {
    &&& row == row_of(entry, row.stamp)
    &&& clock::local_minute(row.stamp, entry.notification.timestamp / clock::SECOND as int)
}

/// What the history page says in place of lines.
pub open spec fn history_note(state: StateModel) -> Option<Seq<char>> {
    if state.history.len() > 0 {
        None
    } else if state.search.len() == 0 {
        Some("no notifications recorded yet"@)
    } else {
        Some("no notifications match the search"@)
    }
}

/// The buttons of a line of the history page.
#[derive(Clone, Copy, Debug, PartialEq, Eq, Structural)]
pub enum HistoryClick {
    /// Delete from the history.
    Delete,
    /// Mark read or unread.
    ToggleRead,
    /// Remove from the operating system.
    Dismiss,
}

/// What a click on a line of the history page asks for.
#[derive(Debug, PartialEq)]
pub enum HistoryAction {
    Delete(NotificationId),
    SetRead(NotificationId, bool),
    Dismiss(NotificationId),
}

/// What a click asks for, and whether the history is to be read again.
pub open spec fn clicked(row: HistoryRow, click: HistoryClick) -> (Option<HistoryAction>, bool) {
    match click {
        HistoryClick::Delete => (Some(HistoryAction::Delete(row.id)), true),
        HistoryClick::ToggleRead => (Some(HistoryAction::SetRead(row.id, !row.read)), true),
        HistoryClick::Dismiss => (
            if row.dismissible {
                Some(HistoryAction::Dismiss(row.id))
            } else {
                None
            },
            false,
        ),
    }
}

/// The line of a history entry.
pub fn history_row(entry: &HistoryEntry) -> (r: HistoryRow)
    ensures
        shows_row(r@, entry@),
{
    let (badge, tint) = match entry.decision {
        Decision::Allow => ("show", Tint::Green),
        Decision::Mute => ("muted", Tint::Gray),
        Decision::Batch => ("batch", Tint::Yellow),
    };
    HistoryRow {
        id: entry.notification.id.clone(),
        stamp: short_local_stamp(entry.notification.timestamp),
        badge,
        tint,
        app: short_app_label(&entry.notification.source),
        title: truncate(entry.notification.title.as_str(), 42),
        read: entry.read,
        read_label: if entry.read {
            "mark unread"
        } else {
            "mark read"
        },
        dismissible: entry.decision == Decision::Allow,
    }
}

impl AppState {
    /// The text next to the tabs while a profile is active.
    pub fn focus_label(&self) -> (r: Option<String>)
        ensures
            model::text_if_any(r) == focus_text(self@.active_profile),
    {
        match &self.active_profile {
            Some(name) => {
                let mut label = "focus: ".to_string();
                label.append(name.as_str());
                Some(label)
            },
            None => None,
        }
    }

    /// What the history page says in place of lines.
    pub fn history_hint(&self) -> (r: Option<&'static str>)
        ensures
            r is Some <==> history_note(self@) is Some,
            r matches Some(hint) ==> Some(hint@) == history_note(self@),
    {
        if self.history.len() > 0 {
            None
        } else if self.search.as_str().is_empty() {
            Some("no notifications recorded yet")
        } else {
            Some("no notifications match the search")
        }
    }

    /// The lines of the history page.
    pub fn history_page(&self) -> (r: Vec<HistoryRow>)
        ensures
            r@.len() == self@.history.len(),
            forall|k: int| 0 <= k < r@.len() ==> shows_row((#[trigger] r@[k])@, self@.history[k]),
    {
        let mut rows: Vec<HistoryRow> = Vec::new();
        let mut i: usize = 0;
        while i < self.history.len()
            invariant
                i <= self.history@.len(),
                rows@.len() == i,
                forall|k: int| 0 <= k < i ==> shows_row((#[trigger] rows@[k])@, self.history@[k]@),
            decreases self.history@.len() - i,
        {
            rows.push(history_row(&self.history[i]));
            i += 1;
        }
        rows
    }

    /// Take over what was typed into the search.
    pub fn search_changed(&mut self, search: String)
        ensures
            final(self)@ == (StateModel {
                search: search@,
                history_stale: true,
                ..old(self)@
            }),
    {
        self.search = search;
        self.history_stale = true;
    }

    /// A click on a line of the history page.
    pub fn history_click(&mut self, row: &HistoryRow, click: HistoryClick) -> (r: Option<
        HistoryAction,
    >)
        ensures
            r == clicked(*row, click).0,
            final(self)@ == (StateModel {
                history_stale: old(self)@.history_stale || clicked(*row, click).1,
                ..old(self)@
            }),
    {
        match click {
            HistoryClick::Delete => {
                self.history_stale = true;
                Some(HistoryAction::Delete(row.id.clone()))
            },
            HistoryClick::ToggleRead => {
                self.history_stale = true;
                Some(HistoryAction::SetRead(row.id.clone(), !row.read))
            },
            HistoryClick::Dismiss => if row.dismissible {
                Some(HistoryAction::Dismiss(row.id.clone()))
            } else {
                None
            },
        }
    }
}

/// One group of the digest page.
#[derive(Debug, PartialEq)]
pub struct DigestCard {
    pub app_id: String,
    /// How many are held back.
    pub held: String,
    /// The titles of the newest five, newest first.
    pub lines: Vec<String>,
    /// How many more there are.
    pub more: Option<String>,
}

/// What a [`DigestCard`] says.
#[verifier::ext_equal]
pub struct CardModel {
    pub app_id: Seq<char>,
    pub held: Seq<char>,
    pub lines: Seq<Seq<char>>,
    pub more: Option<Seq<char>>,
}

impl View for DigestCard {
    type V = CardModel;

    open spec fn view(&self) -> CardModel {
        CardModel {
            app_id: self.app_id@,
            held: self.held@,
            lines: model::texts(self.lines@),
            more: model::text_if_any(self.more),
        }
    }
}

/// What each group of the digest page says.
pub open spec fn card_models(cards: Seq<DigestCard>) -> Seq<CardModel> {
    cards.map_values(|c: DigestCard| c@)
}

/// How the digest page shows a group of held notifications.
pub open spec fn card_of(group: GroupModel) -> CardModel {
    let n = group.entries.len();
    CardModel {
        app_id: group.app_id,
        held: number::digits(n) + " held"@,
        lines: Seq::new(
            if n < 5 {
                n
            } else {
                5
            },
            |k: int| "  • "@ + group.entries[n - 1 - k].notification.title,
        ),
        more: if n > 5 {
            Some("  … and "@ + number::digits((n - 5) as nat) + " more"@)
        } else {
            None
        },
    }
}

/// How the digest page shows a group of held notifications.
pub fn digest_card(group: &DigestGroup) -> (r: DigestCard)
    ensures
        r@ == card_of(group@),
{
    let n: usize = group.entries.len();
    let mut lines: Vec<String> = Vec::new();
    let mut k: usize = 0;
    while k < n && k < 5
        invariant
            n == group.entries@.len(),
            k <= n,
            k <= 5,
            lines@.len() == k,
            forall|j: int|
                0 <= j < k ==> (#[trigger] lines@[j])@ == "  • "@
                    + group@.entries[n - 1 - j].notification.title,
        decreases n - k,
    {
        let mut line = "  • ".to_string();
        assert(group@.entries[n - 1 - k] == group.entries@[n - 1 - k]@);
        line.append(group.entries[n - 1 - k].notification.title.as_str());
        lines.push(line);
        k += 1;
    }
    let mut held = decimal(n as u64);
    held.append(" held");
    let more = if n > 5 {
        Some(around("  … and ", decimal((n - 5) as u64).as_str(), " more"))
    } else {
        None
    };
    let card = DigestCard { app_id: group.app_id.clone(), held, lines, more };
    assert(card@.lines =~= card_of(group@).lines);
    card
}

/// What the digest page says while nothing is held back.
pub open spec fn nothing_held() -> Seq<char> {
    "nothing is being held back right now"@
}

/// The groups of the digest page, or what it says in their place.
pub fn digest_page(groups: &Vec<DigestGroup>) -> (r: Result<Vec<DigestCard>, &'static str>)
    ensures
        match r {
            Ok(cards) => groups@.len() > 0 && card_models(cards@) == digest::group_models(
                groups@,
            ).map_values(|g: GroupModel| card_of(g)),
            Err(hint) => groups@.len() == 0 && hint@ == nothing_held(),
        },
{
    if groups.len() == 0 {
        return Err("nothing is being held back right now");
    }
    let mut cards: Vec<DigestCard> = Vec::new();
    let mut i: usize = 0;
    while i < groups.len()
        invariant
            i <= groups@.len(),
            cards@.len() == i,
            forall|k: int| 0 <= k < i ==> (#[trigger] cards@[k])@ == card_of(groups@[k]@),
        decreases groups@.len() - i,
    {
        cards.push(digest_card(&groups[i]));
        i += 1;
    }
    assert(card_models(cards@) =~= digest::group_models(groups@).map_values(
        |g: GroupModel| card_of(g),
    ));
    Ok(cards)
}

/// The ids of the notifications held in an app's group, oldest first.
pub open spec fn held_ids(groups: Seq<GroupModel>, app_id: Seq<char>) -> Seq<Seq<char>> {
    let at = digest::group_position(groups, app_id);
    if at < groups.len() {
        groups[at].entries.map_values(|e: digest::EntryModel| e.notification.id)
    } else {
        Seq::empty()
    }
}

/// What is held once an app's group was opened.
pub open spec fn held_after_opening(groups: Seq<GroupModel>, app_id: Seq<char>) -> Seq<GroupModel> {
    let at = digest::group_position(groups, app_id);
    if at < groups.len() {
        groups.remove(at)
    } else {
        groups
    }
}

impl AppState {
    /// Open an app's group on the digest page: it is held back no longer, and
    /// the notifications that came out of it are to be marked read.
    pub fn open_group(&mut self, digests: &mut DigestCollector, app_id: &str) -> (r: Vec<
        NotificationId,
    >)
        ensures
            final(self)@ == (StateModel { history_stale: true, ..old(self)@ }),
            source::id_texts(r@) == held_ids(old(digests)@, app_id@),
            final(digests)@ == held_after_opening(old(digests)@, app_id@),
            final(digests).maturity() == old(digests).maturity(),
    {
        let ghost before = digests@;
        proof {
            digest::position_is_found(before, app_id@);
        }
        self.history_stale = true;
        let mut ids: Vec<NotificationId> = Vec::new();
        match digests.take(app_id) {
            Some(group) => {
                let mut i: usize = 0;
                while i < group.entries.len()
                    invariant
                        i <= group.entries@.len(),
                        ids@.len() == i,
                        forall|k: int|
                            0 <= k < i ==> #[trigger] ids@[k] == group.entries@[k].notification.id,
                    decreases group.entries@.len() - i,
                {
                    ids.push(group.entries[i].notification.id.clone());
                    i += 1;
                }
                assert(source::id_texts(ids@) =~= held_ids(before, app_id@)) by {
                    let at = digest::group_position(before, app_id@);
                    assert(before[at] == group@);
                    assert(source::id_texts(ids@).len() == held_ids(before, app_id@).len());
                    assert forall|k: int| 0 <= k < ids@.len() implies source::id_texts(ids@)[k] == held_ids(
                        before,
                        app_id@,
                    )[k] by {
                        assert(group@.entries[k] == group.entries@[k]@);
                    }
                }
            },
            None => {
                assert(source::id_texts(ids@) =~= held_ids(before, app_id@));
            },
        }
        ids
    }
}

/// One line of the rules page.
#[derive(Debug, PartialEq)]
pub struct RuleRow {
    pub id: String,
    /// The label of the button that switches the rule.
    pub switch: &'static str,
    pub enabled: bool,
    pub action: &'static str,
    pub name: String,
}

/// What a [`RuleRow`] says.
#[verifier::ext_equal]
pub struct RuleRowModel {
    pub id: Seq<char>,
    pub switch: Seq<char>,
    pub enabled: bool,
    pub action: Seq<char>,
    pub name: Seq<char>,
}

impl View for RuleRow {
    type V = RuleRowModel;

    open spec fn view(&self) -> RuleRowModel {
        RuleRowModel {
            id: self.id@,
            switch: self.switch@,
            enabled: self.enabled,
            action: self.action@,
            name: self.name@,
        }
    }
}

/// What each line of the rules page says.
pub open spec fn rule_row_models(rows: Seq<RuleRow>) -> Seq<RuleRowModel> {
    rows.map_values(|r: RuleRow| r@)
}

/// The line of a rule.
pub open spec fn rule_row_of(rule: RuleModel) -> RuleRowModel {
    RuleRowModel {
        id: rule.id,
        switch: if rule.enabled {
            "on"@
        } else {
            "off"@
        },
        enabled: rule.enabled,
        action: rules::decision_word(rule.action),
        name: rule.name,
    }
}

/// The position of the first rule with an id, or the number of rules.
pub open spec fn id_position(rules: Seq<RuleModel>, id: Seq<char>) -> int
    decreases rules.len(),
{
    if rules.len() == 0 || rules.first().id == id {
        0
    } else {
        1 + id_position(rules.drop_first(), id)
    }
}

/// The configuration with its first rule of an id switched on or off.
pub open spec fn with_switched(config: ConfigModel, id: Seq<char>, on: bool) -> ConfigModel {
    let at = id_position(config.rules, id);
    if at < config.rules.len() {
        ConfigModel {
            rules: config.rules.update(at, RuleModel { enabled: on, ..config.rules[at] }),
            ..config
        }
    } else {
        config
    }
}

/// The configuration without its rules of an id.
pub open spec fn without_rule(config: ConfigModel, id: Seq<char>) -> ConfigModel {
    ConfigModel { rules: config.rules.filter(|r: RuleModel| r.id != id), ..config }
}

/// The configuration with one rule more.
pub open spec fn with_rule(config: ConfigModel, rule: RuleModel) -> ConfigModel {
    ConfigModel { rules: config.rules.push(rule), ..config }
}

/// The configuration with its first rule of an id switched on or off.
pub fn toggle_rule(config: &Config, id: &str, on: bool) -> (r: Config)
    ensures
        r@ == with_switched(config@, id@, on),
{
    let mut changed = config.clone();
    let ghost models = changed@.rules;
    let ghost before = config@;
    let mut i: usize = 0;
    assert(models.skip(0) =~= models);
    while i < changed.rules.len()
        invariant
            i <= changed.rules@.len(),
            changed@ == before,
            models == before.rules,
            before == config@,
            id_position(models, id@) == i + id_position(models.skip(i as int), id@),
        decreases changed.rules@.len() - i,
    {
        assert(models.skip(i as int).first() == changed.rules@[i as int]@);
        assert(models.skip(i as int).drop_first() =~= models.skip(i + 1));
        if same_text(changed.rules[i].id.as_str(), id) {
            let mut rule = changed.rules[i].clone();
            rule.enabled = on;
            let ghost switched = rule@;
            changed.rules.set(i, rule);
            assert(changed@.rules =~= models.update(i as int, switched));
            assert(changed@ =~= with_switched(before, id@, on));
            return changed;
        }
        i += 1;
    }
    changed
}

/// The configuration without its rules of an id.
pub fn remove_rule(config: &Config, id: &str) -> (r: Config)
    ensures
        r@ == without_rule(config@, id@),
{
    let mut config = config.clone();
    let ghost models = config@.rules;
    let ghost keep = |r: RuleModel| r.id != id@;
    let mut kept: Vec<Rule> = Vec::new();
    let mut i: usize = 0;
    proof {
        reveal(Seq::filter);
        assert(rules::rule_models(kept@) =~= models.take(0).filter(keep));
    }
    while i < config.rules.len()
        invariant
            i <= config.rules@.len(),
            models == rules::rule_models(config.rules@),
            keep == (|r: RuleModel| r.id != id@),
            rules::rule_models(kept@) == models.take(i as int).filter(keep),
        decreases config.rules@.len() - i,
    {
        proof {
            reveal(Seq::filter);
            assert(models.take(i + 1).drop_last() =~= models.take(i as int));
            assert(models.take(i + 1).last() == config.rules@[i as int]@);
        }
        if !same_text(config.rules[i].id.as_str(), id) {
            let ghost before = kept@;
            let rule = config.rules[i].clone();
            let ghost last = rule@;
            kept.push(rule);
            assert(rules::rule_models(kept@) =~= rules::rule_models(before).push(last));
        }
        i += 1;
    }
    assert(models.take(models.len() as int) =~= models);
    config.rules = kept;
    config
}

/// The configuration with one rule more.
pub fn add_rule(config: &Config, rule: Rule) -> (r: Config)
    ensures
        r@ == with_rule(config@, rule@),
{
    let mut config = config.clone();
    let ghost before = config.rules@;
    let ghost last = rule@;
    config.rules.push(rule);
    assert(rules::rule_models(config.rules@) =~= rules::rule_models(before).push(last));
    config
}

/// What a configuration that was to be saved makes of the state.
pub open spec fn persisted(
    state: StateModel,
    config: ConfigModel,
    written: Result<(), Seq<char>>,
) -> StateModel {
    match written {
        Ok(()) => StateModel {
            rules: config.rules,
            profiles: config.profiles,
            history_stale: true,
            ..state
        },
        Err(error) => StateModel { status: "save failed: "@ + error, ..state },
    }
}

/// What the outcome of a write says.
pub open spec fn written_as(written: Result<(), String>) -> Result<(), Seq<char>> {
    match written {
        Ok(()) => Ok(()),
        Err(error) => Err(error@),
    }
}

impl AppState {
    /// The lines of the rules page.
    pub fn rules_page(&self) -> (r: Vec<RuleRow>)
        ensures
            rule_row_models(r@) == self@.rules.map_values(|r: RuleModel| rule_row_of(r)),
    {
        let mut rows: Vec<RuleRow> = Vec::new();
        let mut i: usize = 0;
        while i < self.rules.len()
            invariant
                i <= self.rules@.len(),
                rows@.len() == i,
                forall|k: int|
                    0 <= k < i ==> (#[trigger] rows@[k])@ == rule_row_of(self.rules@[k]@),
            decreases self.rules@.len() - i,
        {
            let rule = &self.rules[i];
            rows.push(
                RuleRow {
                    id: rule.id.clone(),
                    switch: if rule.enabled {
                        "on"
                    } else {
                        "off"
                    },
                    enabled: rule.enabled,
                    action: rule.action.as_str(),
                    name: rule.name.clone(),
                },
            );
            i += 1;
        }
        assert(rule_row_models(rows@) =~= self@.rules.map_values(|r: RuleModel| rule_row_of(r)));
        rows
    }

    /// Take over what was typed into the form for a new rule.
    pub fn save_draft(&mut self, draft: RuleDraft)
        ensures
            final(self)@ == (StateModel { rule_draft: draft@, ..old(self)@ }),
    {
        self.rule_draft = draft;
    }

    /// The rule that the form makes; where it makes none, the status says why.
    pub fn submit_draft(&mut self) -> (r: Option<Rule>)
        ensures
            match state::drafted(old(self)@.rule_draft) {
                Ok(rule) => r is Some && r->0@ == rule && final(self)@ == old(self)@,
                Err(message) => r is None && final(self)@ == (StateModel {
                    status: message,
                    ..old(self)@
                }),
            },
    {
        match self.rule_draft.build() {
            Ok(rule) => Some(rule),
            Err(message) => {
                self.status = message;
                None
            },
        }
    }

    /// A changed configuration was to be saved. Once it is written it comes
    /// into force; where it could not be, the status says why and the old one
    /// stays.
    pub fn persist_config<C: ContextProvider>(
        &mut self,
        runtime: &mut FocusRuntime<C>,
        config: Config,
        written: Result<(), String>,
    )
        ensures
            final(self)@ == persisted(old(self)@, config@, written_as(written)),
            match written {
                Ok(_) => final(runtime)@ == (RuntimeModel { config, ..old(runtime)@ }),
                Err(_) => final(runtime)@ == old(runtime)@,
            },
    {
        match written {
            Ok(()) => {
                let shown = config.clone();
                self.rules = shown.rules;
                self.profiles = shown.profiles;
                self.history_stale = true;
                runtime.replace_config(config);
            },
            Err(error) => {
                let mut status = "save failed: ".to_string();
                status.append(error.as_str());
                self.status = status;
            },
        }
    }
}

/// A rule that is removed again was never there, unless another one had its id.
pub proof fn removing_undoes_adding(config: ConfigModel, rule: RuleModel)
    requires
        forall|i: int| 0 <= i < config.rules.len() ==> (#[trigger] config.rules[i]).id != rule.id,
    ensures
        without_rule(with_rule(config, rule), rule.id) == config,
{
    reveal(Seq::filter);
    let keep = |r: RuleModel| r.id != rule.id;
    let more = config.rules.push(rule);
    assert(more.drop_last() =~= config.rules);
    lemma_filter_keeps_all(config.rules, keep);
    assert(without_rule(with_rule(config, rule), rule.id) =~= config);
}

proof fn lemma_filter_keeps_all(rules: Seq<RuleModel>, keep: spec_fn(RuleModel) -> bool)
    requires
        forall|i: int| 0 <= i < rules.len() ==> keep(#[trigger] rules[i]),
    ensures
        rules.filter(keep) == rules,
    decreases rules.len(),
{
    reveal(Seq::filter);
    if rules.len() > 0 {
        assert forall|i: int| 0 <= i < rules.drop_last().len() implies keep(
            #[trigger] rules.drop_last()[i],
        ) by {
            assert(rules.drop_last()[i] == rules[i]);
        }
        lemma_filter_keeps_all(rules.drop_last(), keep);
        assert(rules.drop_last().push(rules.last()) =~= rules);
    }
}

/// One line of the profiles page.
#[derive(Debug, PartialEq)]
pub struct ProfileRow {
    pub name: String,
    pub description: Option<String>,
    pub active: bool,
    /// The label of the button that switches the profile.
    pub label: &'static str,
}

/// What a [`ProfileRow`] says.
#[verifier::ext_equal]
pub struct ProfileRowModel {
    pub name: Seq<char>,
    pub description: Option<Seq<char>>,
    pub active: bool,
    pub label: Seq<char>,
}

impl View for ProfileRow {
    type V = ProfileRowModel;

    open spec fn view(&self) -> ProfileRowModel {
        ProfileRowModel {
            name: self.name@,
            description: model::text_if_any(self.description),
            active: self.active,
            label: self.label@,
        }
    }
}

/// What each line of the profiles page says.
pub open spec fn profile_row_models(rows: Seq<ProfileRow>) -> Seq<ProfileRowModel> {
    rows.map_values(|r: ProfileRow| r@)
}

/// Whether a profile is the active one; the case of ASCII letters does not
/// matter.
pub open spec fn is_the_active_one(name: Seq<char>, active: Option<Seq<char>>) -> bool {
    active is Some && profile::same_name(active->0, name)
}

/// The line of a profile.
pub open spec fn profile_row_of(profile: ProfileModel, active: Option<Seq<char>>) -> ProfileRowModel {
    let is_active = is_the_active_one(profile.name, active);
    ProfileRowModel {
        name: profile.name,
        description: profile.description,
        active: is_active,
        label: if is_active {
            "● active"@
        } else {
            "activate"@
        },
    }
}

/// Whether a profile is the active one; the case of ASCII letters does not
/// matter.
pub(crate) fn names_active(name: &str, active: &Option<String>) -> (r: bool)
    ensures
        r == is_the_active_one(name@, model::text_if_any(*active)),
{
    match active {
        Some(active) => same_ignoring_ascii_case(active.as_str(), name),
        None => false,
    }
}

impl ProfileRow {
    /// The profile that is active after a click: the one of this line, or none
    /// where it was active already.
    pub fn choice(&self) -> (r: Option<String>)
        ensures
            model::text_if_any(r) == (if self@.active {
                None
            } else {
                Some(self@.name)
            }),
    {
        if self.active {
            None
        } else {
            Some(self.name.clone())
        }
    }
}

/// Some profile goes by a name.
pub open spec fn name_taken(profiles: Seq<ProfileModel>, name: Seq<char>) -> bool {
    exists|i: int| 0 <= i < profiles.len() && profile::same_name(#[trigger] profiles[i].name, name)
}

/// The configuration with a profile of a typed name, unless the name is blank
/// or taken.
pub open spec fn with_profile(config: ConfigModel, typed: Seq<char>) -> Option<ConfigModel> {
    let name = text::trimmed(typed);
    if name.len() == 0 || name_taken(config.profiles, name) {
        None
    } else {
        Some(
            ConfigModel {
                profiles: config.profiles.push(
                    ProfileModel { name, description: None, default_decision: None },
                ),
                ..config
            },
        )
    }
}

/// The configuration with a profile of a typed name, unless the name is blank
/// or taken.
pub fn add_profile(config: &Config, typed: &str) -> (r: Option<Config>)
    ensures
        match with_profile(config@, typed@) {
            Some(changed) => r is Some && r->0@ == changed,
            None => r is None,
        },
{
    let name = trim(typed);
    if name.as_str().is_empty() {
        return None;
    }
    let ghost models = config@.profiles;
    let mut i: usize = 0;
    while i < config.profiles.len()
        invariant
            i <= config.profiles@.len(),
            models == profile::profile_models(config.profiles@),
            models == config@.profiles,
            name@ == text::trimmed(typed@),
            forall|k: int| 0 <= k < i ==> !profile::same_name(#[trigger] models[k].name, name@),
        decreases config.profiles@.len() - i,
    {
        assert(models[i as int] == config.profiles@[i as int]@);
        if same_ignoring_ascii_case(config.profiles[i].name.as_str(), name.as_str()) {
            assert(profile::same_name(models[i as int].name, name@));
            return None;
        }
        i += 1;
    }
    let mut changed = config.clone();
    let ghost before = changed.profiles@;
    let profile = FocusProfile::new(name.as_str());
    let ghost last = profile@;
    changed.profiles.push(profile);
    assert(profile::profile_models(changed.profiles@) =~= profile::profile_models(before).push(
        last,
    ));
    assert(changed@ =~= with_profile(config@, typed@)->0);
    Some(changed)
}

impl AppState {
    /// The lines of the profiles page.
    pub fn profiles_page(&self) -> (r: Vec<ProfileRow>)
        ensures
            profile_row_models(r@) == self@.profiles.map_values(
                |p: ProfileModel| profile_row_of(p, self@.active_profile),
            ),
    {
        let mut rows: Vec<ProfileRow> = Vec::new();
        let mut i: usize = 0;
        while i < self.profiles.len()
            invariant
                i <= self.profiles@.len(),
                rows@.len() == i,
                forall|k: int|
                    0 <= k < i ==> (#[trigger] rows@[k])@ == profile_row_of(
                        self.profiles@[k]@,
                        self@.active_profile,
                    ),
            decreases self.profiles@.len() - i,
        {
            let profile = &self.profiles[i];
            let active = names_active(profile.name.as_str(), &self.active_profile);
            rows.push(
                ProfileRow {
                    name: profile.name.clone(),
                    description: copy_text_if_any(&profile.description),
                    active,
                    label: if active {
                        "● active"
                    } else {
                        "activate"
                    },
                },
            );
            i += 1;
        }
        assert(profile_row_models(rows@) =~= self@.profiles.map_values(
            |p: ProfileModel| profile_row_of(p, self@.active_profile),
        ));
        rows
    }

    /// Take over what was typed as the name of a new profile.
    pub fn new_profile_changed(&mut self, name: String)
        ensures
            final(self)@ == (StateModel { new_profile: name@, ..old(self)@ }),
    {
        self.new_profile = name;
    }
}

/// A click on a profile makes it the active one, and a second click none; the
/// page shows which.
pub proof fn profiles_switch_on_and_off(profile: ProfileModel, active: Option<Seq<char>>)
    requires
        active is None || !profile::same_name(active->0, profile.name),
    ensures
        !profile_row_of(profile, active).active,
        profile_row_of(profile, Some(profile.name)).active,
        !profile_row_of(profile, None).active,
{
}

/// A profile that the page added stands at the end, and its name is taken from
/// then on.
pub proof fn added_profiles_are_there(config: ConfigModel, typed: Seq<char>)
    requires
        with_profile(config, typed) is Some,
    ensures
        ({
            let changed = with_profile(config, typed)->0;
            &&& changed.profiles.drop_last() == config.profiles
            &&& changed.profiles.last().name == text::trimmed(typed)
            &&& with_profile(changed, typed) is None
        }),
{
    let changed = with_profile(config, typed)->0;
    assert(changed.profiles.drop_last() =~= config.profiles);
    assert(profile::same_name(
        changed.profiles[changed.profiles.len() - 1].name,
        text::trimmed(typed),
    ));
}

/// The colour of a banner.
pub open spec fn banner_tint(level: BannerLevel) -> Tint {
    match level {
        BannerLevel::Info => Tint::LightBlue,
        BannerLevel::Warning => Tint::Yellow,
        BannerLevel::Error => Tint::LightRed,
    }
}

/// The colour of a banner.
pub fn tint_of_banner(level: BannerLevel) -> (r: Tint)
    ensures
        r == banner_tint(level),
{
    match level {
        BannerLevel::Info => Tint::LightBlue,
        BannerLevel::Warning => Tint::Yellow,
        BannerLevel::Error => Tint::LightRed,
    }
}

/// What the settings page says in place of a banner.
pub open spec fn access_note(access: AccessState) -> Option<Seq<char>> {
    if access::banner_for(access) is Some {
        None
    } else if access == AccessState::Granted {
        Some("✔ notification access granted"@)
    } else {
        Some("✔ notifications available"@)
    }
}

/// The word for a yes or a no.
pub open spec fn truth_word(value: bool) -> Seq<char> {
    if value {
        "true"@
    } else {
        "false"@
    }
}

impl AppState {
    /// What the settings page says in place of a banner.
    pub fn settings_note(&self) -> (r: Option<&'static str>)
        ensures
            r is Some <==> access_note(self@.access) is Some,
            r matches Some(note) ==> Some(note@) == access_note(self@.access),
    {
        match self.access {
            AccessState::Denied | AccessState::Unavailable => None,
            AccessState::Granted => Some("✔ notification access granted"),
            _ => Some("✔ notifications available"),
        }
    }

    /// The lines of the settings page below its banner: the configuration, what
    /// the notification source can do, and the version.
    pub fn settings_lines(&self, can_dismiss: bool, version: &str) -> (r: Vec<String>)
        ensures
            model::texts(r@) == seq![
                "config: "@ + self@.config_path,
                "dismiss-through: "@ + truth_word(can_dismiss),
                "tpt-focus v"@ + version@,
            ],
    {
        let mut config = "config: ".to_string();
        config.append(self.config_path.as_str());
        let mut dismiss = "dismiss-through: ".to_string();
        dismiss.append(
            if can_dismiss {
                "true"
            } else {
                "false"
            },
        );
        let mut about = "tpt-focus v".to_string();
        about.append(version);
        let lines = vec![config, dismiss, about];
        assert(model::texts(lines@) =~= seq![
            "config: "@ + self@.config_path,
            "dismiss-through: "@ + truth_word(can_dismiss),
            "tpt-focus v"@ + version@,
        ]);
        lines
    }
}

/// How the popup shows a bubble.
#[derive(Debug, PartialEq)]
pub struct BubbleCard {
    pub id: NotificationId,
    pub app: String,
    pub title: String,
    /// The seconds left, if it expires.
    pub countdown: Option<String>,
    /// The body, if there is one.
    pub body: Option<String>,
    /// A button for each action.
    pub actions: Vec<NotificationAction>,
}

/// What a [`BubbleCard`] says.
#[verifier::ext_equal]
pub struct BubbleCardModel {
    pub id: Seq<char>,
    pub app: Seq<char>,
    pub title: Seq<char>,
    pub countdown: Option<Seq<char>>,
    pub body: Option<Seq<char>>,
    pub actions: Seq<ActionModel>,
}

impl View for BubbleCard {
    type V = BubbleCardModel;

    open spec fn view(&self) -> BubbleCardModel {
        BubbleCardModel {
            id: self.id@,
            app: self.app@,
            title: self.title@,
            countdown: model::text_if_any(self.countdown),
            body: model::text_if_any(self.body),
            actions: model::action_models(self.actions@),
        }
    }
}

/// What each bubble shown says.
pub open spec fn bubble_card_models(cards: Seq<BubbleCard>) -> Seq<BubbleCardModel> {
    cards.map_values(|c: BubbleCard| c@)
}

/// How the popup shows a bubble at an instant.
pub open spec fn bubble_card_of(bubble: BubbleModel, now: int) -> BubbleCardModel {
    let n = bubble.notification;
    BubbleCardModel {
        id: n.id,
        app: text::shortened(app_label(n.source), 18),
        title: text::shortened(n.title, 44),
        countdown: match bubble.seconds_left(now) {
            Some(seconds) => Some(number::digits(seconds as nat) + "s"@),
            None => None,
        },
        body: if n.body.len() == 0 {
            None
        } else {
            Some(text::shortened(n.body, 90))
        },
        actions: n.actions,
    }
}

/// How the popup shows a bubble at an instant.
pub fn bubble_card(bubble: &Bubble, now: Timestamp) -> (r: BubbleCard)
    ensures
        r@ == bubble_card_of(bubble@, now@),
{
    let countdown = match bubble.seconds_left(now) {
        Some(seconds) => {
            let mut text = decimal(seconds as u64);
            text.append("s");
            Some(text)
        },
        None => None,
    };
    let n = &bubble.notification;
    BubbleCard {
        id: n.id.clone(),
        app: short_app_label(&n.source),
        title: truncate(n.title.as_str(), 44),
        countdown,
        body: if n.body.as_str().is_empty() {
            None
        } else {
            Some(truncate(n.body.as_str(), 90))
        },
        actions: copy_actions(&n.actions),
    }
}

impl AppState {
    /// The bubbles at an instant, oldest first.
    pub fn bubbles_section(&self, now: Timestamp) -> (r: Vec<BubbleCard>)
        ensures
            bubble_card_models(r@) == self@.bubbles.map_values(
                |b: BubbleModel| bubble_card_of(b, now@),
            ),
    {
        let mut cards: Vec<BubbleCard> = Vec::new();
        let mut i: usize = 0;
        while i < self.bubbles.len()
            invariant
                i <= self.bubbles@.len(),
                cards@.len() == i,
                forall|k: int|
                    0 <= k < i ==> (#[trigger] cards@[k])@ == bubble_card_of(
                        self.bubbles@[k]@,
                        now@,
                    ),
            decreases self.bubbles@.len() - i,
        {
            cards.push(bubble_card(&self.bubbles[i], now));
            i += 1;
        }
        assert(bubble_card_models(cards@) =~= self@.bubbles.map_values(
            |b: BubbleModel| bubble_card_of(b, now@),
        ));
        cards
    }
}

/// A line of the history shows its entry: the decision by its own badge, whether
/// it was read, and what a click would do. Only what was shown can be dismissed.
pub proof fn lines_show_their_entry(entry: HistoryModel, stamp: Seq<char>)
    ensures
        ({
            let row = row_of(entry, stamp);
            &&& row.id == entry.notification.id
            &&& row.stamp == stamp
            &&& entry.decision == Decision::Allow ==> row.badge == "show"@ && row.tint
                == Tint::Green
            &&& entry.decision == Decision::Mute ==> row.badge == "muted"@ && row.tint == Tint::Gray
            &&& entry.decision == Decision::Batch ==> row.badge == "batch"@ && row.tint
                == Tint::Yellow
            &&& row.dismissible <==> entry.decision == Decision::Allow
            &&& row.read == entry.read
            &&& entry.read ==> row.read_label == "mark unread"@
            &&& !entry.read ==> row.read_label == "mark read"@
            &&& entry.notification.title.len() <= 42 ==> row.title == entry.notification.title
            &&& entry.notification.source.display_name matches Some(name) ==> name.len() <= 18
                ==> row.app == name
            &&& entry.notification.source.display_name is None
                && entry.notification.source.app_id.len() <= 18 ==> row.app
                == entry.notification.source.app_id
            &&& row.title.len() <= 42 && row.app.len() <= 18
        }),
{
    text::shortening_cuts_to_fit(entry.notification.title, 42);
    text::shortening_cuts_to_fit(app_label(entry.notification.source), 18);
}

/// A click asks for what its button says, on the line it is on: marking turns the
/// read mark over, and what cannot be dismissed is not. What changes the history
/// has it read again.
pub proof fn clicks_ask_for_what_they_say(row: HistoryRow)
    ensures
        clicked(row, HistoryClick::Delete) == (Some(HistoryAction::Delete(row.id)), true),
        row.read ==> clicked(row, HistoryClick::ToggleRead) == (
            Some(HistoryAction::SetRead(row.id, false)),
            true,
        ),
        !row.read ==> clicked(row, HistoryClick::ToggleRead) == (
            Some(HistoryAction::SetRead(row.id, true)),
            true,
        ),
        row.dismissible ==> clicked(row, HistoryClick::Dismiss) == (
            Some(HistoryAction::Dismiss(row.id)),
            false,
        ),
        !row.dismissible ==> clicked(row, HistoryClick::Dismiss).0 is None,
{
}

/// The history page says why it is empty exactly where it is.
pub proof fn empty_pages_say_why(state: StateModel)
    ensures
        history_note(state) is Some <==> state.history.len() == 0,
        state.history.len() == 0 && state.search.len() == 0 ==> history_note(state) == Some(
            "no notifications recorded yet"@,
        ),
        state.history.len() == 0 && state.search.len() > 0 ==> history_note(state) == Some(
            "no notifications match the search"@,
        ),
{
}

/// A digest card shows how many are held, the newest five by their titles, the
/// newest first, and how many more there are.
pub proof fn cards_show_the_newest(group: GroupModel, k: int)
    ensures
        ({
            let n = group.entries.len();
            let card = card_of(group);
            &&& card.app_id == group.app_id
            &&& card.held == number::digits(n) + " held"@
            &&& n <= 5 ==> card.lines.len() == n && card.more is None
            &&& n > 5 ==> card.lines.len() == 5 && card.more == Some(
                "  … and "@ + number::digits((n - 5) as nat) + " more"@,
            )
            &&& 0 <= k < card.lines.len() ==> card.lines[k] == "  • "@ + group.entries[n - 1
                - k].notification.title
        }),
{
}

/// Opening an app's group takes all that is held of the app and nothing of any
/// other, and says which notifications came out.
pub proof fn opening_takes_one_app(groups: Seq<GroupModel>, app_id: Seq<char>, i: int)
    requires
        digest::grouped_by_app(groups),
        0 <= i < groups.len(),
    ensures
        groups[i].app_id == app_id ==> {
            &&& held_after_opening(groups, app_id) == groups.remove(i)
            &&& held_ids(groups, app_id).len() == groups[i].entries.len()
            &&& forall|k: int|
                0 <= k < groups[i].entries.len() ==> #[trigger] held_ids(groups, app_id)[k]
                    == groups[i].entries[k].notification.id
        },
        (forall|k: int| 0 <= k < groups.len() ==> (#[trigger] groups[k]).app_id != app_id)
            ==> held_after_opening(groups, app_id) == groups && held_ids(groups, app_id).len() == 0,
{
    digest::position_is_found(groups, app_id);
    let at = digest::group_position(groups, app_id);
    if groups[i].app_id == app_id {
        if at < i {
            assert(groups[at].app_id != groups[i].app_id);
        } else if i < at {
            assert(groups[i].app_id != app_id);
        }
    }
}

/// A rule is switched where it stands: the first of its id, and nothing else of
/// it or of any other.
pub proof fn switching_touches_one_rule(config: ConfigModel, id: Seq<char>, on: bool, at: int)
    requires
        0 <= at < config.rules.len(),
        config.rules[at].id == id,
        forall|k: int| 0 <= k < at ==> (#[trigger] config.rules[k]).id != id,
    ensures
        with_switched(config, id, on).rules.len() == config.rules.len(),
        with_switched(config, id, on).rules[at].enabled == on,
        with_switched(config, id, on).rules[at] == (RuleModel { enabled: on, ..config.rules[at] }),
        forall|k: int|
            0 <= k < config.rules.len() && k != at ==> #[trigger] with_switched(
                config,
                id,
                on,
            ).rules[k] == config.rules[k],
        with_switched(config, id, on).profiles == config.profiles,
        with_switched(config, id, on).default_decision == config.default_decision,
{
    lemma_id_position(config.rules, id, at);
}

proof fn lemma_id_position(rules: Seq<RuleModel>, id: Seq<char>, at: int)
    requires
        0 <= at < rules.len(),
        rules[at].id == id,
        forall|k: int| 0 <= k < at ==> (#[trigger] rules[k]).id != id,
    ensures
        id_position(rules, id) == at,
    decreases rules.len(),
{
    if at > 0 {
        assert(rules[0].id != id);
        let rest = rules.drop_first();
        assert forall|k: int| 0 <= k < at - 1 implies (#[trigger] rest[k]).id != id by {
            assert(rest[k] == rules[k + 1]);
        }
        lemma_id_position(rest, id, at - 1);
    }
}

/// A saved configuration is shown and the history read again; where it could not
/// be saved, what was shown stays and the status says why.
pub proof fn only_what_was_saved_is_shown(
    state: StateModel,
    config: ConfigModel,
    error: Seq<char>,
)
    ensures
        persisted(state, config, Ok(())) == (StateModel {
            rules: config.rules,
            profiles: config.profiles,
            history_stale: true,
            ..state
        }),
        persisted(state, config, Err(error)).rules == state.rules,
        persisted(state, config, Err(error)).profiles == state.profiles,
        persisted(state, config, Err(error)).status == "save failed: "@ + error,
{
}

/// A profile is added exactly where its name is seen and no profile goes by it,
/// with nothing but that name, and nothing else changes.
pub proof fn profiles_are_added_under_new_names(config: ConfigModel, typed: Seq<char>)
    ensures
        with_profile(config, typed) is Some <==> !text::blank(typed) && forall|i: int|
            0 <= i < config.profiles.len() ==> !profile::same_name(
                (#[trigger] config.profiles[i]).name,
                text::trimmed(typed),
            ),
        with_profile(config, typed) matches Some(changed) ==> {
            &&& changed.profiles.len() == config.profiles.len() + 1
            &&& changed.profiles.last().description is None
                && changed.profiles.last().default_decision is None
            &&& changed.rules == config.rules
            &&& changed.default_decision == config.default_decision
        },
{
    text::blank_trims_to_nothing(typed);
    if exists|i: int|
        0 <= i < config.profiles.len() && profile::same_name(
            (#[trigger] config.profiles[i]).name,
            text::trimmed(typed),
        ) {
        let i = choose|i: int|
            0 <= i < config.profiles.len() && profile::same_name(
                (#[trigger] config.profiles[i]).name,
                text::trimmed(typed),
            );
        assert(profile::same_name(config.profiles[i].name, text::trimmed(typed)));
    }
    if name_taken(config.profiles, text::trimmed(typed)) {
        let i = choose|i: int|
            0 <= i < config.profiles.len() && profile::same_name(
                #[trigger] config.profiles[i].name,
                text::trimmed(typed),
            );
        assert(profile::same_name(config.profiles[i].name, text::trimmed(typed)));
    }
}

/// The page marks the active profile, in whatever case it is named, and no other.
pub proof fn the_active_profile_is_marked(profile: ProfileModel, active: Option<Seq<char>>)
    ensures
        active is None ==> !profile_row_of(profile, active).active,
        active matches Some(name) ==> (profile_row_of(profile, active).active
            <==> text::ascii_lower(name) == text::ascii_lower(profile.name)),
        profile_row_of(profile, active).active <==> profile_row_of(profile, active).label
            == "● active"@,
        profile_row_of(profile, active).name == profile.name,
        profile_row_of(profile, active).description == profile.description,
{
    reveal_strlit("● active");
    reveal_strlit("activate");
    assert("● active"@[0] == '●' && "activate"@[0] == 'a');
}

/// A bubble shows its notification: who it is from, what it says, cut to fit, the
/// seconds it has left where it expires, and every action.
pub proof fn bubbles_show_their_notification(bubble: BubbleModel, now: int)
    ensures
        ({
            let n = bubble.notification;
            let card = bubble_card_of(bubble, now);
            &&& card.id == n.id
            &&& card.actions == n.actions
            &&& n.title.len() <= 44 ==> card.title == n.title
            &&& card.title.len() <= 44
            &&& n.body.len() == 0 <==> card.body is None
            &&& 0 < n.body.len() <= 90 ==> card.body == Some(n.body)
            &&& bubble.expires is None <==> card.countdown is None
            &&& bubble.expired(now) ==> card.countdown == Some(number::digits(0) + "s"@)
        }),
{
    text::shortening_cuts_to_fit(bubble.notification.title, 44);
    if bubble.notification.body.len() > 0 {
        text::shortening_cuts_to_fit(bubble.notification.body, 90);
    }
}

/// The settings page says that all is well exactly where no banner warns.
pub proof fn settings_say_what_banners_do_not(access: AccessState)
    ensures
        access_note(access) is Some <==> access != AccessState::Denied && access
            != AccessState::Unavailable,
        access == AccessState::Granted ==> access_note(access) == Some(
            "✔ notification access granted"@,
        ),
{
}

/// A rule's line says whether it is on and what it does.
pub proof fn rule_lines_show_their_rule(rule: RuleModel)
    ensures
        rule.enabled ==> rule_row_of(rule).switch == "on"@ && rule_row_of(rule).enabled,
        !rule.enabled ==> rule_row_of(rule).switch == "off"@ && !rule_row_of(rule).enabled,
        rule_row_of(rule).id == rule.id && rule_row_of(rule).name == rule.name,
        rule.action == Decision::Allow ==> rule_row_of(rule).action == "allow"@,
        rule.action == Decision::Mute ==> rule_row_of(rule).action == "mute"@,
        rule.action == Decision::Batch ==> rule_row_of(rule).action == "batch"@,
{
}

/// A line is that of its entry, stamped with the minute in which the notification
/// came in.
pub proof fn lines_are_stamped_with_their_minute(row: RowModel, entry: HistoryModel)
    requires
        shows_row(row, entry),
    ensures
        row.id == entry.notification.id,
        row.read == entry.read,
        row.dismissible <==> entry.decision == Decision::Allow,
        row == row_of(entry, row.stamp),
        clock::local_minute(row.stamp, entry.notification.timestamp / 1_000_000_000),
{
}

/// Yes and no have their words.
pub proof fn yes_and_no_have_their_words(value: bool)
    ensures
        value <==> truth_word(value) == "true"@,
        !value <==> truth_word(value) == "false"@,
{
    reveal_strlit("true");
    reveal_strlit("false");
    assert("true"@.len() == 4 && "false"@.len() == 5);
}

} // verus!
