//! The menus of the tray icon, and what their entries do.
use vstd::prelude::*;
use crate::model;
use crate::profile;
use crate::profile::{FocusProfile, ProfileModel};
use crate::tray::pages;
use crate::tray::pages::names_active;
use crate::tray::state;
use crate::tray::state::{CommandModel, Page, UiCommand};

verus! {

broadcast use vstd::string::group_string_axioms;

/// An entry with a check mark.
#[derive(Debug, PartialEq, Eq)]
pub struct CheckEntry {
    pub label: String,
    pub checked: bool,
    pub command: UiCommand,
}

/// What a [`CheckEntry`] says.
pub struct CheckModel {
    pub label: Seq<char>,
    pub checked: bool,
    pub command: CommandModel,
}

impl View for CheckEntry {
    type V = CheckModel;

    open spec fn view(&self) -> CheckModel {
        CheckModel { label: self.label@, checked: self.checked, command: self.command@ }
    }
}

/// What each entry with a check mark says.
pub open spec fn check_models(entries: Seq<CheckEntry>) -> Seq<CheckModel> {
    entries.map_values(|e: CheckEntry| e@)
}

/// An entry of the status notifier's menu.
#[derive(Debug, PartialEq, Eq)]
pub enum MenuEntry {
    Item { label: &'static str, command: UiCommand },
    Separator,
    Submenu { label: &'static str, entries: Vec<CheckEntry> },
}

/// What a [`MenuEntry`] says.
pub enum MenuModel {
    Item { label: Seq<char>, command: CommandModel },
    Separator,
    Submenu { label: Seq<char>, entries: Seq<CheckModel> },
}

impl View for MenuEntry {
    type V = MenuModel;

    open spec fn view(&self) -> MenuModel {
        match self {
            MenuEntry::Item { label, command } => MenuModel::Item {
                label: label@,
                command: command@,
            },
            MenuEntry::Separator => MenuModel::Separator,
            MenuEntry::Submenu { label, entries } => MenuModel::Submenu {
                label: label@,
                entries: check_models(entries@),
            },
        }
    }
}

/// What each entry of the menu says.
pub open spec fn menu_models(entries: Seq<MenuEntry>) -> Seq<MenuModel> {
    entries.map_values(|e: MenuEntry| e@)
}

/// The entry that switches to a profile.
pub open spec fn profile_check(profile: ProfileModel, active: Option<Seq<char>>) -> CheckModel {
    CheckModel {
        label: profile.name,
        checked: pages::is_the_active_one(profile.name, active),
        command: CommandModel::ActivateProfile(Some(profile.name)),
    }
}

/// The entries that switch the profile: back to normal, and one for each
/// profile. Those of the state in force carry a check mark.
pub open spec fn profile_checks(
    profiles: Seq<ProfileModel>,
    active: Option<Seq<char>>,
) -> Seq<CheckModel> {
    seq![
        CheckModel {
            label: "normal (no profile)"@,
            checked: active is None,
            command: CommandModel::ActivateProfile(None),
        },
    ] + profiles.map_values(|p: ProfileModel| profile_check(p, active))
}

/// The status notifier's menu.
pub open spec fn notifier_menu(
    profiles: Seq<ProfileModel>,
    active: Option<Seq<char>>,
) -> Seq<MenuModel> {
    seq![
        MenuModel::Item { label: "Open / hide popup"@, command: CommandModel::ToggleVisible },
        MenuModel::Item { label: "History"@, command: CommandModel::Show(Page::History) },
        MenuModel::Item { label: "Digest"@, command: CommandModel::Show(Page::Digest) },
        MenuModel::Item { label: "Settings"@, command: CommandModel::Show(Page::Settings) },
        MenuModel::Separator,
        MenuModel::Submenu {
            label: "Focus profile"@,
            entries: profile_checks(profiles, active),
        },
        MenuModel::Separator,
        MenuModel::Item { label: "Quit"@, command: CommandModel::Quit },
    ]
}

/// The entries that switch the profile.
fn check_entries(profiles: &Vec<FocusProfile>, active: &Option<String>) -> (r: Vec<CheckEntry>)
    ensures
        check_models(r@) == profile_checks(
            profile::profile_models(profiles@),
            model::text_if_any(*active),
        ),
{
    let ghost models = profile::profile_models(profiles@);
    let ghost name = model::text_if_any(*active);
    let mut entries: Vec<CheckEntry> = Vec::new();
    entries.push(
        CheckEntry {
            label: "normal (no profile)".to_string(),
            checked: active.is_none(),
            command: UiCommand::ActivateProfile(None),
        },
    );
    let mut i: usize = 0;
    while i < profiles.len()
        invariant
            i <= profiles@.len(),
            models == profile::profile_models(profiles@),
            name == model::text_if_any(*active),
            entries@.len() == i + 1,
            entries@[0]@ == profile_checks(models, name)[0],
            forall|k: int|
                0 <= k < i ==> (#[trigger] entries@[k + 1])@ == profile_check(models[k], name),
        decreases profiles@.len() - i,
    {
        let profile = &profiles[i];
        assert(models[i as int] == profiles@[i as int]@);
        let entry = CheckEntry {
            label: profile.name.clone(),
            checked: names_active(profile.name.as_str(), active),
            command: UiCommand::ActivateProfile(Some(profile.name.clone())),
        };
        assert(entry@ == profile_check(models[i as int], name));
        entries.push(entry);
        i += 1;
    }
    assert(check_models(entries@) =~= profile_checks(models, name)) by {
        assert forall|k: int| 0 <= k < entries@.len() implies check_models(entries@)[k]
            == profile_checks(models, name)[k] by {
            if k > 0 {
                assert(entries@[(k - 1) + 1]@ == profile_check(models[k - 1], name));
            }
        }
    }
    entries
}

/// The status notifier's menu.
pub fn menu(profiles: &Vec<FocusProfile>, active: &Option<String>) -> (r: Vec<MenuEntry>)
    ensures
        menu_models(r@) == notifier_menu(
            profile::profile_models(profiles@),
            model::text_if_any(*active),
        ),
{
    let entries = check_entries(profiles, active);
    let menu = vec![
        MenuEntry::Item { label: "Open / hide popup", command: UiCommand::ToggleVisible },
        MenuEntry::Item { label: "History", command: UiCommand::Show(Page::History) },
        MenuEntry::Item { label: "Digest", command: UiCommand::Show(Page::Digest) },
        MenuEntry::Item { label: "Settings", command: UiCommand::Show(Page::Settings) },
        MenuEntry::Separator,
        MenuEntry::Submenu { label: "Focus profile", entries },
        MenuEntry::Separator,
        MenuEntry::Item { label: "Quit", command: UiCommand::Quit },
    ];
    assert(menu_models(menu@) =~= notifier_menu(
        profile::profile_models(profiles@),
        model::text_if_any(*active),
    ));
    menu
}

/// The id of the entry that shows or hides the popup.
pub const TOGGLE_VISIBLE_ID: u32 = 100;

/// The id of the entry that shows the history.
pub const SHOW_HISTORY_ID: u32 = 101;

/// The id of the entry that shows the digest.
pub const SHOW_DIGEST_ID: u32 = 102;

/// The id of the entry that shows the settings.
pub const SHOW_SETTINGS_ID: u32 = 103;

/// The id of the entry that goes back to normal.
pub const CLEAR_PROFILE_ID: u32 = 104;

/// The id of the entry that quits.
pub const QUIT_ID: u32 = 105;

/// The id of the first profile's entry; the others follow.
pub const PROFILE_BASE_ID: u32 = 1000;

/// An entry of the native menu; one with the id zero is a separator.
#[derive(Debug, PartialEq, Eq)]
pub struct NativeEntry {
    pub id: u32,
    pub label: String,
    pub checked: bool,
}

/// What a [`NativeEntry`] says.
pub struct NativeModel {
    pub id: int,
    pub label: Seq<char>,
    pub checked: bool,
}

impl View for NativeEntry {
    type V = NativeModel;

    open spec fn view(&self) -> NativeModel {
        NativeModel { id: self.id as int, label: self.label@, checked: self.checked }
    }
}

/// What each entry of the native menu says.
pub open spec fn native_models(entries: Seq<NativeEntry>) -> Seq<NativeModel> {
    entries.map_values(|e: NativeEntry| e@)
}

/// The native entry that switches to the profile at a position.
pub open spec fn native_profile(
    profiles: Seq<ProfileModel>,
    active: Option<Seq<char>>,
    i: int,
) -> NativeModel {
    NativeModel {
        id: PROFILE_BASE_ID + i,
        label: profiles[i].name,
        checked: pages::is_the_active_one(profiles[i].name, active),
    }
}

/// The part of the native menu above the profiles.
pub open spec fn native_head(active: Option<Seq<char>>) -> Seq<NativeModel> {
    seq![
        NativeModel {
            id: TOGGLE_VISIBLE_ID as int,
            label: "Open / hide popup\tCtrl+Alt+N"@,
            checked: false,
        },
        NativeModel { id: SHOW_HISTORY_ID as int, label: "History"@, checked: false },
        NativeModel { id: SHOW_DIGEST_ID as int, label: "Digest"@, checked: false },
        NativeModel { id: SHOW_SETTINGS_ID as int, label: "Settings"@, checked: false },
        NativeModel { id: 0, label: "-"@, checked: false },
        NativeModel {
            id: CLEAR_PROFILE_ID as int,
            label: "normal (no profile)"@,
            checked: active is None,
        },
    ]
}

/// The part of the native menu below the profiles.
pub open spec fn native_tail() -> Seq<NativeModel> {
    seq![
        NativeModel { id: 0, label: "-"@, checked: false },
        NativeModel { id: QUIT_ID as int, label: "Quit tpt-focus"@, checked: false },
    ]
}

/// The native menu.
pub open spec fn native_menu(
    profiles: Seq<ProfileModel>,
    active: Option<Seq<char>>,
) -> Seq<NativeModel> {
    native_head(active) + Seq::new(
        profiles.len(),
        |i: int| native_profile(profiles, active, i),
    ) + native_tail()
}

fn native_entry(id: u32, label: &str, checked: bool) -> (r: NativeEntry)
    ensures
        r@ == (NativeModel { id: id as int, label: label@, checked }),
{
    NativeEntry { id, label: label.to_string(), checked }
}

/// The native menu.
pub fn show_menu(profiles: &Vec<FocusProfile>, active: &Option<String>) -> (r: Vec<NativeEntry>)
    requires
        PROFILE_BASE_ID + profiles@.len() <= u32::MAX,
    ensures
        native_models(r@) == native_menu(
            profile::profile_models(profiles@),
            model::text_if_any(*active),
        ),
{
    let ghost models = profile::profile_models(profiles@);
    let ghost name = model::text_if_any(*active);
    let mut entries = vec![
        native_entry(TOGGLE_VISIBLE_ID, "Open / hide popup\tCtrl+Alt+N", false),
        native_entry(SHOW_HISTORY_ID, "History", false),
        native_entry(SHOW_DIGEST_ID, "Digest", false),
        native_entry(SHOW_SETTINGS_ID, "Settings", false),
        native_entry(0, "-", false),
        native_entry(CLEAR_PROFILE_ID, "normal (no profile)", active.is_none()),
    ];
    let ghost middle = Seq::new(models.len(), |i: int| native_profile(models, name, i));
    assert(native_models(entries@) =~= native_head(name) + middle.take(0));
    let mut i: usize = 0;
    while i < profiles.len()
        invariant
            i <= profiles@.len(),
            PROFILE_BASE_ID + profiles@.len() <= u32::MAX,
            models == profile::profile_models(profiles@),
            name == model::text_if_any(*active),
            middle == Seq::new(models.len(), |i: int| native_profile(models, name, i)),
            native_models(entries@) == native_head(name) + middle.take(i as int),
        decreases profiles@.len() - i,
    {
        let profile = &profiles[i];
        assert(models[i as int] == profiles@[i as int]@);
        let entry = native_entry(
            PROFILE_BASE_ID + i as u32,
            profile.name.as_str(),
            names_active(profile.name.as_str(), active),
        );
        assert(entry@ == middle[i as int]);
        let ghost before = entries@;
        entries.push(entry);
        assert(native_models(entries@) =~= native_models(before).push(middle[i as int]));
        assert(native_models(entries@) =~= native_head(name) + middle.take(i + 1));
        i += 1;
    }
    let ghost before = entries@;
    assert(middle.take(middle.len() as int) =~= middle);
    entries.push(native_entry(0, "-", false));
    entries.push(native_entry(QUIT_ID, "Quit tpt-focus", false));
    assert(native_models(entries@) =~= native_models(before) + native_tail());
    entries
}

/// The command of the native entry with an id, if there is one.
pub open spec fn command_of_id(id: int, profiles: Seq<ProfileModel>) -> Option<CommandModel> {
    if id == TOGGLE_VISIBLE_ID {
        Some(CommandModel::ToggleVisible)
    } else if id == SHOW_HISTORY_ID {
        Some(CommandModel::Show(Page::History))
    } else if id == SHOW_DIGEST_ID {
        Some(CommandModel::Show(Page::Digest))
    } else if id == SHOW_SETTINGS_ID {
        Some(CommandModel::Show(Page::Settings))
    } else if id == CLEAR_PROFILE_ID {
        Some(CommandModel::ActivateProfile(None))
    } else if id == QUIT_ID {
        Some(CommandModel::Quit)
    } else if PROFILE_BASE_ID <= id < PROFILE_BASE_ID + profiles.len() {
        Some(CommandModel::ActivateProfile(Some(profiles[id - PROFILE_BASE_ID].name)))
    } else {
        None
    }
}

/// The command of the native entry with an id, if there is one.
pub fn handle_menu_id(id: u32, profiles: &Vec<FocusProfile>) -> (r: Option<UiCommand>)
    ensures
        state::command_if_any(r) == command_of_id(id as int, profile::profile_models(profiles@)),
{
    if id == TOGGLE_VISIBLE_ID {
        Some(UiCommand::ToggleVisible)
    } else if id == SHOW_HISTORY_ID {
        Some(UiCommand::Show(Page::History))
    } else if id == SHOW_DIGEST_ID {
        Some(UiCommand::Show(Page::Digest))
    } else if id == SHOW_SETTINGS_ID {
        Some(UiCommand::Show(Page::Settings))
    } else if id == CLEAR_PROFILE_ID {
        Some(UiCommand::ActivateProfile(None))
    } else if id == QUIT_ID {
        Some(UiCommand::Quit)
    } else if id >= PROFILE_BASE_ID {
        let index: usize = (id - PROFILE_BASE_ID) as usize;
        if index < profiles.len() {
            assert(profile::profile_models(profiles@)[index as int] == profiles@[index as int]@);
            Some(UiCommand::ActivateProfile(Some(profiles[index].name.clone())))
        } else {
            None
        }
    } else {
        None
    }
}

/// Every native entry leads to what its label says: each profile's entry to
/// that profile, and a separator to nothing.
pub proof fn native_entries_keep_their_word(
    profiles: Seq<ProfileModel>,
    active: Option<Seq<char>>,
    i: int,
)
    requires
        0 <= i < profiles.len(),
    ensures
        ({
            let menu = native_menu(profiles, active);
            &&& command_of_id(menu[0].id, profiles) == Some(CommandModel::ToggleVisible)
            &&& command_of_id(menu[1].id, profiles) == Some(CommandModel::Show(Page::History))
            &&& command_of_id(menu[2].id, profiles) == Some(CommandModel::Show(Page::Digest))
            &&& command_of_id(menu[3].id, profiles) == Some(CommandModel::Show(Page::Settings))
            &&& command_of_id(menu[4].id, profiles) is None
            &&& command_of_id(menu[5].id, profiles) == Some(CommandModel::ActivateProfile(None))
            &&& menu[6 + i].label == profiles[i].name
            &&& command_of_id(menu[6 + i].id, profiles) == Some(
                CommandModel::ActivateProfile(Some(profiles[i].name)),
            )
            &&& command_of_id(menu[menu.len() - 2].id, profiles) is None
            &&& command_of_id(menu.last().id, profiles) == Some(CommandModel::Quit)
        }),
{
}

/// The two menus agree on the profiles: they offer the same names, check the
/// same ones and lead to the same commands.
pub proof fn menus_agree_on_profiles(
    profiles: Seq<ProfileModel>,
    active: Option<Seq<char>>,
    k: int,
)
    requires
        0 <= k <= profiles.len(),
    ensures
        ({
            let native = native_menu(profiles, active)[5 + k];
            let check = profile_checks(profiles, active)[k];
            &&& native.label == check.label
            &&& native.checked == check.checked
            &&& command_of_id(native.id, profiles) == Some(check.command)
        }),
{
}

/// The window message of a mouse event on the tray icon.
pub const TRAY_CALLBACK: u32 = 0x8001;

/// The window message of a menu selection.
pub const COMMAND_MESSAGE: u32 = 0x0111;

/// The window message of the global hotkey.
pub const HOTKEY_MESSAGE: u32 = 0x0312;

/// The mouse event of a released left button.
pub const LEFT_BUTTON_UP: u32 = 0x0202;

/// The mouse event of a released right button.
pub const RIGHT_BUTTON_UP: u32 = 0x0205;

/// How the tray window answers a window message.
#[derive(Debug, PartialEq, Eq)]
pub enum Answer {
    /// It sends a command to the popup.
    Send(UiCommand),
    /// It shows the menu.
    ShowMenu,
    /// It swallows the message.
    Swallow,
    /// It leaves the message to the system.
    PassOn,
}

/// What an [`Answer`] says.
pub enum AnswerModel {
    Send(CommandModel),
    ShowMenu,
    Swallow,
    PassOn,
}

impl View for Answer {
    type V = AnswerModel;

    open spec fn view(&self) -> AnswerModel {
        match self {
            Answer::Send(command) => AnswerModel::Send(command@),
            Answer::ShowMenu => AnswerModel::ShowMenu,
            Answer::Swallow => AnswerModel::Swallow,
            Answer::PassOn => AnswerModel::PassOn,
        }
    }
}

/// How the tray window answers a window message, given the menu id and the
/// mouse event that it may carry: a left click and the hotkey toggle the popup,
/// a right click shows the menu, and a menu selection runs its command.
pub open spec fn answered(
    message: u32,
    menu_id: u32,
    mouse: u32,
    profiles: Seq<ProfileModel>,
) -> AnswerModel {
    if message == TRAY_CALLBACK {
        if mouse == LEFT_BUTTON_UP {
            AnswerModel::Send(CommandModel::ToggleVisible)
        } else if mouse == RIGHT_BUTTON_UP {
            AnswerModel::ShowMenu
        } else {
            AnswerModel::Swallow
        }
    } else if message == HOTKEY_MESSAGE {
        AnswerModel::Send(CommandModel::ToggleVisible)
    } else if message == COMMAND_MESSAGE {
        match command_of_id(menu_id as int, profiles) {
            Some(command) => AnswerModel::Send(command),
            None => AnswerModel::Swallow,
        }
    } else {
        AnswerModel::PassOn
    }
}

/// How the tray window answers a window message, given the menu id and the
/// mouse event that it may carry.
pub fn answer_message(message: u32, menu_id: u32, mouse: u32, profiles: &Vec<FocusProfile>) -> (r:
    Answer)
    ensures
        r@ == answered(message, menu_id, mouse, profile::profile_models(profiles@)),
{
    if message == TRAY_CALLBACK {
        if mouse == LEFT_BUTTON_UP {
            Answer::Send(UiCommand::ToggleVisible)
        } else if mouse == RIGHT_BUTTON_UP {
            Answer::ShowMenu
        } else {
            Answer::Swallow
        }
    } else if message == HOTKEY_MESSAGE {
        Answer::Send(UiCommand::ToggleVisible)
    } else if message == COMMAND_MESSAGE {
        match handle_menu_id(menu_id, profiles) {
            Some(command) => Answer::Send(command),
            None => Answer::Swallow,
        }
    } else {
        Answer::PassOn
    }
}

/// The entries that switch the profile: the first one goes back to none, and
/// each profile has its own. An entry carries a check mark exactly where what
/// it switches to is in force.
pub proof fn the_profile_in_force_is_checked(
    profiles: Seq<ProfileModel>,
    active: Option<Seq<char>>,
    i: int,
)
    requires
        0 <= i < profiles.len(),
    ensures
        ({
            let checks = profile_checks(profiles, active);
            &&& checks.len() == profiles.len() + 1
            &&& checks[0].checked <==> active is None
            &&& checks[0].command == CommandModel::ActivateProfile(None)
            &&& checks[i + 1].label == profiles[i].name
            &&& checks[i + 1].command == CommandModel::ActivateProfile(Some(profiles[i].name))
            &&& active is None ==> !checks[i + 1].checked
            &&& active matches Some(name) ==> (checks[i + 1].checked <==> profile::same_name(
                name,
                profiles[i].name,
            ))
        }),
{
}

/// The menu leads where its labels say.
pub proof fn menu_entries_keep_their_word(profiles: Seq<ProfileModel>, active: Option<Seq<char>>)
    ensures
        ({
            let menu = notifier_menu(profiles, active);
            &&& menu.len() == 8
            &&& menu[0] == (MenuModel::Item {
                label: "Open / hide popup"@,
                command: CommandModel::ToggleVisible,
            })
            &&& menu[1] == (MenuModel::Item {
                label: "History"@,
                command: CommandModel::Show(Page::History),
            })
            &&& menu[2] == (MenuModel::Item {
                label: "Digest"@,
                command: CommandModel::Show(Page::Digest),
            })
            &&& menu[3] == (MenuModel::Item {
                label: "Settings"@,
                command: CommandModel::Show(Page::Settings),
            })
            &&& menu[5] is Submenu
            &&& menu[5]->entries == profile_checks(profiles, active)
            &&& menu[7] == (MenuModel::Item { label: "Quit"@, command: CommandModel::Quit })
        }),
{
}

/// A left click and the hotkey toggle the popup, a right click shows the menu, a
/// selection runs the command of its entry, and what the tray does not know is
/// left to the system.
pub proof fn messages_are_answered_as_meant(
    menu_id: u32,
    mouse: u32,
    profiles: Seq<ProfileModel>,
)
    ensures
        answered(TRAY_CALLBACK, menu_id, LEFT_BUTTON_UP, profiles) == AnswerModel::Send(
            CommandModel::ToggleVisible,
        ),
        answered(TRAY_CALLBACK, menu_id, RIGHT_BUTTON_UP, profiles) == AnswerModel::ShowMenu,
        mouse != LEFT_BUTTON_UP && mouse != RIGHT_BUTTON_UP ==> answered(
            TRAY_CALLBACK,
            menu_id,
            mouse,
            profiles,
        ) == AnswerModel::Swallow,
        answered(HOTKEY_MESSAGE, menu_id, mouse, profiles) == AnswerModel::Send(
            CommandModel::ToggleVisible,
        ),
        command_of_id(menu_id as int, profiles) matches Some(command) ==> answered(
            COMMAND_MESSAGE,
            menu_id,
            mouse,
            profiles,
        ) == AnswerModel::Send(command),
        command_of_id(menu_id as int, profiles) is None ==> answered(
            COMMAND_MESSAGE,
            menu_id,
            mouse,
            profiles,
        ) == AnswerModel::Swallow,
        forall|message: u32|
            message != TRAY_CALLBACK && message != HOTKEY_MESSAGE && message != COMMAND_MESSAGE
                ==> #[trigger] answered(message, menu_id, mouse, profiles) == AnswerModel::PassOn,
{
}

/// Only profiles are ever checked in the native menu: no entry that leads
/// elsewhere is, and the entry for no profile is where none is active.
pub proof fn only_profiles_are_checked(
    profiles: Seq<ProfileModel>,
    active: Option<Seq<char>>,
    i: int,
)
    requires
        0 <= i < profiles.len() + 8,
    ensures
        ({
            let menu = native_menu(profiles, active);
            &&& menu.len() == profiles.len() + 8
            &&& menu[5].checked <==> active is None
            &&& (i < 5 || i >= profiles.len() + 6) ==> !menu[i].checked
            &&& menu[0].label == "Open / hide popup\tCtrl+Alt+N"@
            &&& menu[1].label == "History"@ && menu[2].label == "Digest"@ && menu[3].label
                == "Settings"@
            &&& menu[5].label == "normal (no profile)"@
            &&& menu.last().label == "Quit tpt-focus"@
        }),
{
}

} // verus!
