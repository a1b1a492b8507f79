//! Linux desktop sessions: which backend sees the foreground, when it looks,
//! and the windows that a wlroots compositor announces.
use vstd::prelude::*;
use crate::context;
use crate::error::{Error, ErrorModel};
use crate::platform::linux;
use crate::platform::linux::{
    focused_state, Toplevel, ToplevelCache, NOTIFICATIONS_BUS_NAME, SOURCE_ID,
};

verus! {

broadcast use vstd::string::group_string_axioms;

/// A way to learn what is in the foreground.
#[derive(Clone, Copy, Debug, PartialEq, Eq, Structural)]
pub enum Backend {
    /// The toplevel protocol of wlroots compositors.
    Wayland,
    /// Properties of the X11 root window.
    X11,
    /// Nothing but the active profile.
    Static,
}

impl Backend {
    /// The name of the context provider.
    pub fn name(&self) -> (r: &'static str)
        ensures
            r@ == (match *self {
                Backend::Wayland => "linux-wayland"@,
                Backend::X11 => "linux-x11"@,
                Backend::Static => "linux-static"@,
            }),
    {
        match self {
            Backend::Wayland => "linux-wayland",
            Backend::X11 => "linux-x11",
            Backend::Static => "linux-static",
        }
    }
}

/// The backends to try in a session, best first, given whether it names a
/// Wayland display and an X11 display.
pub open spec fn candidates(wayland_display: bool, x11_display: bool) -> Seq<Backend> {
    (if wayland_display {
        seq![Backend::Wayland]
    } else {
        Seq::empty()
    }) + (if x11_display {
        seq![Backend::X11]
    } else {
        Seq::empty()
    }) + seq![Backend::Static]
}

/// The backends to try in a session, best first. XWayland still serves the X11
/// properties, so X11 comes before giving up.
pub fn backends(wayland_display: bool, x11_display: bool) -> (r: Vec<Backend>)
    ensures
        r@ == candidates(wayland_display, x11_display),
{
    let mut list: Vec<Backend> = Vec::new();
    if wayland_display {
        list.push(Backend::Wayland);
    }
    if x11_display {
        list.push(Backend::X11);
    }
    list.push(Backend::Static);
    assert(list@ =~= candidates(wayland_display, x11_display));
    list
}

/// What the last step of the X11 poller came to.
#[derive(Clone, Copy, Debug, PartialEq, Eq, Structural)]
pub enum X11Outcome {
    /// Nothing was done yet.
    Started,
    /// The display server could not be reached.
    Refused,
    /// The display has no such screen.
    NoScreen,
    /// The display server was reached.
    Connected,
    /// The foreground was looked at.
    Looked,
}

/// The next step of the X11 poller.
#[derive(Clone, Copy, Debug, PartialEq, Eq, Structural)]
pub enum X11Step {
    /// Try to reach the display server, after a wait in milliseconds.
    Connect { wait_ms: u64 },
    /// Look at the foreground, after a wait in milliseconds.
    Look { wait_ms: u64 },
    /// Stop.
    Finish,
}

/// How long the pollers wait between two looks, in milliseconds.
pub const POLL_INTERVAL_MS: u64 = 500;

/// How long the X11 poller waits before it tries to connect again, in
/// milliseconds.
pub const RECONNECT_MS: u64 = 2_000;

/// The next step of the X11 poller. The display server may start later, so a
/// refusal is tried again; a display without the screen ends it.
pub fn x11_step(stop: bool, last: X11Outcome) -> (r: X11Step)
    ensures
        r == (if stop {
            X11Step::Finish
        } else {
            match last {
                X11Outcome::Started => X11Step::Connect { wait_ms: 0 },
                X11Outcome::Refused => X11Step::Connect { wait_ms: RECONNECT_MS },
                X11Outcome::NoScreen => X11Step::Finish,
                X11Outcome::Connected => X11Step::Look { wait_ms: 0 },
                X11Outcome::Looked => X11Step::Look { wait_ms: POLL_INTERVAL_MS },
            }
        }),
{
    if stop {
        return X11Step::Finish;
    }
    match last {
        X11Outcome::Started => X11Step::Connect { wait_ms: 0 },
        X11Outcome::Refused => X11Step::Connect { wait_ms: RECONNECT_MS },
        X11Outcome::NoScreen => X11Step::Finish,
        X11Outcome::Connected => X11Step::Look { wait_ms: 0 },
        X11Outcome::Looked => X11Step::Look { wait_ms: POLL_INTERVAL_MS },
    }
}

/// The next step of a poller that waits in naps.
#[derive(Clone, Copy, Debug, PartialEq, Eq, Structural)]
pub enum PollStep {
    /// Look.
    Look,
    /// Wait for this many milliseconds.
    Nap { ms: u64 },
    /// Stop.
    Finish,
}

/// How long a nap of a poller is, in milliseconds.
pub const NAP_MS: u64 = 100;

/// The next step of the poller of a wlroots compositor: after each look a nap,
/// then another look unless it was told to stop.
pub fn toplevel_step(stop: bool, looked: bool) -> (r: PollStep)
    ensures
        r == (if looked {
            PollStep::Nap { ms: NAP_MS }
        } else if stop {
            PollStep::Finish
        } else {
            PollStep::Look
        }),
{
    if looked {
        PollStep::Nap { ms: NAP_MS }
    } else if stop {
        PollStep::Finish
    } else {
        PollStep::Look
    }
}

/// The interface of the toplevel protocol.
pub const TOPLEVEL_INTERFACE: &'static str = "zwlr_foreign_toplevel_manager_v1";

/// The version of the toplevel protocol to ask a compositor for.
pub fn toplevel_version(offered: u32) -> (r: u32)
    ensures
        r == (if offered < 3 {
            offered
        } else {
            3
        }),
{
    if offered < 3 {
        offered
    } else {
        3
    }
}

/// The number in four bytes.
pub open spec fn word(b0: u8, b1: u8, b2: u8, b3: u8, little_endian: bool) -> int {
    if little_endian {
        b0 + 256 * b1 + 65_536 * b2 + 16_777_216 * b3
    } else {
        b3 + 256 * b2 + 65_536 * b1 + 16_777_216 * b0
    }
}

/// The number at a position in a list of numbers.
pub open spec fn word_at(bytes: Seq<u8>, k: int, little_endian: bool) -> int {
    word(bytes[4 * k], bytes[4 * k + 1], bytes[4 * k + 2], bytes[4 * k + 3], little_endian)
}

/// The numbers in a list of bytes, four bytes each; what is left over at the end
/// is no number.
pub fn words_of(bytes: &Vec<u8>, little_endian: bool) -> (r: Vec<u32>)
    ensures
        r@.len() == bytes@.len() / 4,
        forall|k: int|
            0 <= k < r@.len() ==> #[trigger] r@[k] == word_at(bytes@, k, little_endian),
{
    let total: usize = bytes.len();
    let n: usize = total / 4;
    let mut out: Vec<u32> = Vec::new();
    let mut k: usize = 0;
    while k < n
        invariant
            total == bytes@.len(),
            n == total / 4,
            k <= n,
            out@.len() == k,
            forall|j: int|
                0 <= j < k ==> #[trigger] out@[j] == word_at(bytes@, j, little_endian),
        decreases n - k,
    {
        assert(4 * k + 3 < total);
        let b0: u32 = bytes[4 * k] as u32;
        let b1: u32 = bytes[4 * k + 1] as u32;
        let b2: u32 = bytes[4 * k + 2] as u32;
        let b3: u32 = bytes[4 * k + 3] as u32;
        let value: u32 = if little_endian {
            b0 + 256 * b1 + 65_536 * b2 + 16_777_216 * b3
        } else {
            b3 + 256 * b2 + 65_536 * b1 + 16_777_216 * b0
        };
        out.push(value);
        k += 1;
    }
    out
}

/// What a compositor says of a window.
#[derive(Debug, PartialEq, Eq)]
pub enum ToplevelEvent {
    Title(String),
    AppId(String),
    /// The window's states, as they came over the wire.
    State(Vec<u8>),
    Closed,
}

/// What a [`Toplevel`] says.
#[verifier::ext_equal]
pub struct WindowModel {
    pub app_id: Seq<char>,
    pub title: Seq<char>,
    pub states: Seq<u32>,
}

/// What a window says.
pub open spec fn window_model(window: Toplevel) -> WindowModel {
    WindowModel { app_id: window.app_id@, title: window.title@, states: window.states@ }
}

/// The windows that a compositor announced, by the handle of each.
#[derive(Debug)]
pub struct ToplevelTable {
    handles: Vec<u32>,
    windows: Vec<Toplevel>,
}

/// What a [`ToplevelTable`] holds: handles, none of them twice, and the window
/// of each.
#[verifier::ext_equal]
pub struct TableModel {
    pub handles: Seq<u32>,
    pub windows: Seq<WindowModel>,
}

impl View for ToplevelTable {
    type V = TableModel;

    closed spec fn view(&self) -> TableModel {
        TableModel {
            handles: self.handles@,
            windows: self.windows@.map_values(|w: Toplevel| window_model(w)),
        }
    }
}

/// A window of which nothing was said yet.
pub open spec fn blank_window() -> WindowModel {
    WindowModel { app_id: Seq::empty(), title: Seq::empty(), states: Seq::empty() }
}

/// The states that came over the wire are these numbers.
pub open spec fn read_states(bytes: Seq<u8>, states: Seq<u32>, little_endian: bool) -> bool {
    &&& states.len() == bytes.len() / 4
    &&& forall|k: int| 0 <= k < states.len() ==> #[trigger] states[k] == word_at(
        bytes,
        k,
        little_endian,
    )
}

/// An event leads from one window to the next.
pub open spec fn event_leads_to(
    before: WindowModel,
    event: ToplevelEvent,
    after: WindowModel,
    little_endian: bool,
) -> bool {
    match event {
        ToplevelEvent::Title(title) => after == (WindowModel { title: title@, ..before }),
        ToplevelEvent::AppId(app_id) => after == (WindowModel { app_id: app_id@, ..before }),
        ToplevelEvent::State(bytes) => {
            &&& after == (WindowModel { states: after.states, ..before })
            &&& read_states(bytes@, after.states, little_endian)
        },
        ToplevelEvent::Closed => false,
    }
}

impl ToplevelTable {
    #[verifier::type_invariant]
    spec fn well_formed(self) -> bool {
        &&& self.handles@.len() == self.windows@.len()
        &&& self.handles@.no_duplicates()
    }

    /// A compositor that announced nothing yet.
    pub fn new() -> (r: ToplevelTable)
        ensures
            r@.handles.len() == 0,
            r@.windows.len() == 0,
    {
        ToplevelTable { handles: Vec::new(), windows: Vec::new() }
    }

    fn find(&self, handle: u32) -> (r: usize)
        ensures
            r <= self@.handles.len(),
            r < self@.handles.len() ==> self@.handles[r as int] == handle,
            r == self@.handles.len() ==> !self@.handles.contains(handle),
    {
        let mut i: usize = 0;
        while i < self.handles.len()
            invariant
                i <= self.handles@.len(),
                forall|k: int| 0 <= k < i ==> #[trigger] self.handles@[k] != handle,
            decreases self.handles@.len() - i,
        {
            if self.handles[i] == handle {
                return i;
            }
            i += 1;
        }
        i
    }

    /// The compositor announces a window; one that it announced before stays as
    /// it is.
    pub fn announce(&mut self, handle: u32)
        ensures
            final(self)@ == announced(old(self)@, handle),
            final(self)@.sound(),
    {
        proof {
            use_type_invariant(&*self);
        }
        if self.find(handle) < self.handles.len() {
            return;
        }
        let mut table = ToplevelTable::new();
        std::mem::swap(self, &mut table);
        let ghost before = table@;
        let ToplevelTable { mut handles, mut windows } = table;
        let window = Toplevel::default();
        assert(window_model(window) == blank_window()) by {
            assert(window.app_id@ =~= Seq::empty());
            assert(window.title@ =~= Seq::empty());
            assert(window.states@ =~= Seq::empty());
        }
        let ghost list = windows@;
        handles.push(handle);
        windows.push(window);
        assert(windows@.map_values(|w: Toplevel| window_model(w)) =~= list.map_values(
            |w: Toplevel| window_model(w),
        ).push(blank_window()));
        *self = ToplevelTable { handles, windows };
    }

    /// The compositor says something of a window; windows that it never
    /// announced are left out. Says whether the foreground is to be published at
    /// once.
    pub fn apply(&mut self, handle: u32, event: ToplevelEvent, little_endian: bool) -> (r: bool)
        ensures
            applied(old(self)@, handle, event, final(self)@, little_endian),
            final(self)@.sound(),
            r == (old(self)@.handles.contains(handle) && event is Closed),
    {
        proof {
            use_type_invariant(&*self);
        }
        let at: usize = self.find(handle);
        if at >= self.handles.len() {
            return false;
        }
        let mut table = ToplevelTable::new();
        std::mem::swap(self, &mut table);
        let ghost before = table@;
        let ToplevelTable { mut handles, mut windows } = table;
        let ghost list = windows@;
        assert(before.handles.contains(handle));
        match event {
            ToplevelEvent::Closed => {
                handles.remove(at);
                windows.remove(at);
                assert(windows@.map_values(|w: Toplevel| window_model(w)) =~= list.map_values(
                    |w: Toplevel| window_model(w),
                ).remove(at as int));
                *self = ToplevelTable { handles, windows };
                assert(closed_at(before, handle, self@, at as int));
                true
            },
            ToplevelEvent::Title(title) => {
                let old_window = &windows[at];
                let window = Toplevel {
                    app_id: old_window.app_id.clone(),
                    title,
                    states: copy_numbers(&old_window.states),
                };
                let ghost changed = window_model(window);
                windows.set(at, window);
                assert(windows@.map_values(|w: Toplevel| window_model(w)) =~= list.map_values(
                    |w: Toplevel| window_model(w),
                ).update(at as int, changed));
                *self = ToplevelTable { handles, windows };
                assert(changed_at(before, handle, event, self@, at as int, little_endian));
                false
            },
            ToplevelEvent::AppId(app_id) => {
                let old_window = &windows[at];
                let window = Toplevel {
                    app_id,
                    title: old_window.title.clone(),
                    states: copy_numbers(&old_window.states),
                };
                let ghost changed = window_model(window);
                windows.set(at, window);
                assert(windows@.map_values(|w: Toplevel| window_model(w)) =~= list.map_values(
                    |w: Toplevel| window_model(w),
                ).update(at as int, changed));
                *self = ToplevelTable { handles, windows };
                assert(changed_at(before, handle, event, self@, at as int, little_endian));
                false
            },
            ToplevelEvent::State(bytes) => {
                let states = words_of(&bytes, little_endian);
                let old_window = &windows[at];
                let window = Toplevel {
                    app_id: old_window.app_id.clone(),
                    title: old_window.title.clone(),
                    states,
                };
                let ghost changed = window_model(window);
                windows.set(at, window);
                assert(windows@.map_values(|w: Toplevel| window_model(w)) =~= list.map_values(
                    |w: Toplevel| window_model(w),
                ).update(at as int, changed));
                *self = ToplevelTable { handles, windows };
                assert(changed_at(before, handle, event, self@, at as int, little_endian));
                false
            },
        }
    }

    /// What the windows tell about the foreground.
    pub fn publish(&self) -> (r: ToplevelCache)
        ensures
            shows_foreground(self@, r),
    {
        let cache = focused_state(&self.windows);
        proof {
            let windows = self.windows@;
            let models = self@.windows;
            assert forall|i: int| #[trigger] leads_windows(models, i) implies cache.fullscreen
                == models[i].states.contains(linux::STATE_FULLSCREEN) && context::app_if_any(
                cache.foreground_app,
            ) == linux::window_identity(models[i].app_id, models[i].title) by {
                assert(linux::first_active(windows, i)) by {
                    assert forall|k: int| 0 <= k < i implies !(
                    #[trigger] windows[k]).states@.contains(linux::STATE_ACTIVATED) by {
                        assert(models[k] == window_model(windows[k]));
                    }
                }
            }
            if forall|i: int|
                0 <= i < models.len() ==> !(#[trigger] models[i]).states.contains(
                    linux::STATE_ACTIVATED,
                ) {
                assert forall|i: int| 0 <= i < windows.len() implies !(
                #[trigger] windows[i]).states@.contains(linux::STATE_ACTIVATED) by {
                    assert(models[i] == window_model(windows[i]));
                }
            }
        }
        cache
    }
}

fn copy_numbers(list: &Vec<u32>) -> (r: Vec<u32>)
    ensures
        r@ == list@,
{
    let copy = list.clone();
    assert(copy@ =~= list@);
    copy
}

impl TableModel {
    /// No handle stands twice, and each has its window.
    pub open spec fn sound(self) -> bool {
        &&& self.handles.no_duplicates()
        &&& self.handles.len() == self.windows.len()
    }
}

/// The table after a window was announced.
pub open spec fn announced(table: TableModel, handle: u32) -> TableModel {
    if table.handles.contains(handle) {
        table
    } else {
        TableModel {
            handles: table.handles.push(handle),
            windows: table.windows.push(blank_window()),
        }
    }
}

/// The window at a position, which has the handle, was closed.
pub open spec fn closed_at(before: TableModel, handle: u32, after: TableModel, at: int) -> bool {
    &&& 0 <= at < before.handles.len()
    &&& before.handles[at] == handle
    &&& after == (TableModel {
        handles: before.handles.remove(at),
        windows: before.windows.remove(at),
    })
}

/// The window at a position, which has the handle, was changed by an event.
pub open spec fn changed_at(
    before: TableModel,
    handle: u32,
    event: ToplevelEvent,
    after: TableModel,
    at: int,
    little_endian: bool,
) -> bool {
    &&& 0 <= at < before.handles.len()
    &&& before.handles[at] == handle
    &&& after.handles == before.handles
    &&& after.windows == before.windows.update(at, after.windows[at])
    &&& event_leads_to(before.windows[at], event, after.windows[at], little_endian)
}

/// An event leads from one table to the next.
pub open spec fn applied(
    before: TableModel,
    handle: u32,
    event: ToplevelEvent,
    after: TableModel,
    little_endian: bool,
) -> bool {
    if !before.handles.contains(handle) {
        after == before
    } else if event is Closed {
        exists|at: int| #[trigger] closed_at(before, handle, after, at)
    } else {
        exists|at: int| #[trigger] changed_at(before, handle, event, after, at, little_endian)
    }
}

/// The window at `i` is the first that has the focus.
pub open spec fn leads_windows(windows: Seq<WindowModel>, i: int) -> bool {
    &&& 0 <= i < windows.len()
    &&& windows[i].states.contains(linux::STATE_ACTIVATED)
    &&& forall|k: int|
        0 <= k < i ==> !(#[trigger] windows[k]).states.contains(linux::STATE_ACTIVATED)
}

/// `cache` holds what the first window with the focus tells, or nothing where
/// none has it.
pub open spec fn shows_foreground(table: TableModel, cache: ToplevelCache) -> bool {
    &&& forall|i: int| #[trigger]
        leads_windows(table.windows, i) ==> cache.fullscreen == table.windows[i].states.contains(
            linux::STATE_FULLSCREEN,
        ) && context::app_if_any(cache.foreground_app) == linux::window_identity(
            table.windows[i].app_id,
            table.windows[i].title,
        )
    &&& (forall|i: int|
        0 <= i < table.windows.len() ==> !(#[trigger] table.windows[i]).states.contains(
            linux::STATE_ACTIVATED,
        )) ==> cache.foreground_app is None && !cache.fullscreen
}

/// A window that was closed is gone: its handle is unknown from then on.
pub proof fn closed_windows_are_gone(
    before: TableModel,
    handle: u32,
    after: TableModel,
    little_endian: bool,
)
    requires
        before.sound(),
        applied(before, handle, ToplevelEvent::Closed, after, little_endian),
    ensures
        !after.handles.contains(handle),
{
    if before.handles.contains(handle) {
        let at = choose|at: int| #[trigger] closed_at(before, handle, after, at);
        if after.handles.contains(handle) {
            let k = after.handles.index_of(handle);
            let m = if k < at {
                k
            } else {
                k + 1
            };
            assert(before.handles[m] == handle);
        }
    }
}

/// The error of a daemon that could not claim its name on the bus.
pub open spec fn claim_failure(taken: bool, detail: Seq<char>) -> ErrorModel {
    ErrorModel::Source(
        if taken {
            "another notification daemon already owns "@ + NOTIFICATIONS_BUS_NAME@
                + " (GNOME Shell, dunst, mako, …); disable it to use tpt-focus"@
        } else {
            "failed to claim "@ + NOTIFICATIONS_BUS_NAME@ + ": "@ + detail
        },
    )
}

/// The error of a daemon that could not claim its name on the bus, given
/// whether the name was taken and what the bus said.
pub fn claim_error(taken: bool, detail: &str) -> (r: Error)
    ensures
        r@ == claim_failure(taken, detail@),
{
    let mut message = if taken {
        "another notification daemon already owns ".to_string()
    } else {
        "failed to claim ".to_string()
    };
    message.append(NOTIFICATIONS_BUS_NAME);
    if taken {
        message.append(" (GNOME Shell, dunst, mako, …); disable it to use tpt-focus");
    } else {
        message.append(": ");
        message.append(detail);
    }
    Error::Source(message)
}

/// Whether the bus daemon may stop: only once it runs.
pub fn check_stop(running: bool) -> (r: Result<(), Error>)
    ensures
        r is Ok <==> running,
        r matches Err(error) ==> error@ == ErrorModel::SourceNotRunning(SOURCE_ID@),
{
    if running {
        Ok(())
    } else {
        Err(Error::SourceNotRunning(SOURCE_ID.to_string()))
    }
}

/// A backend is tried where the session names its display; the compositor comes
/// before X11, and the one that always works comes last.
pub proof fn backends_are_tried_best_first(wayland: bool, x11: bool)
    ensures
        ({
            let list = candidates(wayland, x11);
            &&& list.len() == (if wayland {
                1int
            } else {
                0
            }) + (if x11 {
                1int
            } else {
                0
            }) + 1
            &&& list.last() == Backend::Static
            &&& wayland ==> list[0] == Backend::Wayland
            &&& x11 ==> list[list.len() - 2] == Backend::X11
        }),
{
}

/// Four bytes make one number: each counts 256 times as much as the one that is
/// less significant, and the other byte order reads them backwards.
pub proof fn four_bytes_make_one_number(b0: u8, b1: u8, b2: u8, b3: u8)
    ensures
        ({
            let n = word(b0, b1, b2, b3, true);
            &&& n == word(b3, b2, b1, b0, false)
            &&& n % 256 == b0
            &&& n / 256 % 256 == b1
            &&& n / 65_536 % 256 == b2
            &&& n / 16_777_216 == b3
        }),
{
    let n = word(b0, b1, b2, b3, true);
    let two = b2 + 256 * b3;
    let three = b1 + 256 * two;
    lemma_split(n, 256, three, b0 as int);
    lemma_split(three, 256, two, b1 as int);
    lemma_split(n, 65_536, two, b0 + 256 * b1);
    lemma_split(two, 256, b3 as int, b2 as int);
    lemma_split(n, 16_777_216, b3 as int, b0 + 256 * b1 + 65_536 * b2);
}

proof fn lemma_split(n: int, d: int, q: int, r: int)
    requires
        0 <= r < d,
        n == q * d + r,
    ensures
        n / d == q,
        n % d == r,
{
    vstd::arithmetic::div_mod::lemma_fundamental_div_mod_converse(n, d, q, r);
}

/// The numbers stand one behind the other, four bytes apart.
pub proof fn numbers_stand_four_bytes_apart(bytes: Seq<u8>, more: Seq<u8>, k: int, little: bool)
    requires
        more.len() == 4,
        bytes.len() % 4 == 0,
    ensures
        word_at(bytes + more, (bytes.len() / 4) as int, little) == word(
            more[0],
            more[1],
            more[2],
            more[3],
            little,
        ),
        0 <= k < bytes.len() / 4 ==> word_at(bytes + more, k, little) == word_at(bytes, k, little),
{
    let n = (bytes.len() / 4) as int;
    assert(4 * n == bytes.len());
}

/// An event changes what it is about and leaves the rest of the window as it was.
pub proof fn events_change_what_they_are_about(
    before: WindowModel,
    event: ToplevelEvent,
    after: WindowModel,
    little: bool,
)
    requires
        event_leads_to(before, event, after, little),
    ensures
        event matches ToplevelEvent::Title(title) ==> after.title == title@ && after.app_id
            == before.app_id && after.states == before.states,
        event matches ToplevelEvent::AppId(app_id) ==> after.app_id == app_id@ && after.title
            == before.title && after.states == before.states,
        event matches ToplevelEvent::State(bytes) ==> after.app_id == before.app_id && after.title
            == before.title && after.states.len() == bytes@.len() / 4 && forall|k: int|
            0 <= k < after.states.len() ==> #[trigger] after.states[k] == word_at(
                bytes@,
                k,
                little,
            ),
        !(event is Closed),
{
}

/// An event leaves every window but its own as it was; one for a handle that is
/// not known changes nothing.
pub proof fn events_leave_other_windows_alone(
    before: TableModel,
    handle: u32,
    event: ToplevelEvent,
    after: TableModel,
    little: bool,
    i: int,
)
    requires
        before.sound(),
        applied(before, handle, event, after, little),
    ensures
        !before.handles.contains(handle) ==> after == before,
        !(event is Closed) ==> after.handles == before.handles && (0 <= i < before.handles.len()
            && before.handles[i] != handle ==> after.windows[i] == before.windows[i]),
        event is Closed && before.handles.contains(handle) ==> after.handles.len() + 1
            == before.handles.len() && (0 <= i < before.handles.len() && before.handles[i] != handle
            ==> exists|k: int|
            0 <= k < after.handles.len() && #[trigger] after.handles[k] == before.handles[i]
                && after.windows[k] == before.windows[i]),
        after.sound(),
{
    if before.handles.contains(handle) {
        if event is Closed {
            let at = choose|at: int| #[trigger] closed_at(before, handle, after, at);
            if 0 <= i < before.handles.len() && before.handles[i] != handle {
                let k = if i < at {
                    i
                } else {
                    i - 1
                };
                assert(after.handles[k] == before.handles[i]);
                assert(after.windows[k] == before.windows[i]);
            }
            assert forall|a: int, b: int|
                0 <= a < after.handles.len() && 0 <= b < after.handles.len() && a
                    != b implies after.handles[a] != after.handles[b] by {
                let x = if a < at {
                    a
                } else {
                    a + 1
                };
                let y = if b < at {
                    b
                } else {
                    b + 1
                };
                assert(before.handles[x] != before.handles[y]);
            }
        } else {
            let at = choose|at: int| #[trigger]
                changed_at(before, handle, event, after, at, little);
            if 0 <= i < before.handles.len() && before.handles[i] != handle {
                assert(i != at);
            }
        }
    }
}

/// A window that is announced is known from then on, with nothing said of it yet,
/// and those that were known stay as they are.
pub proof fn announced_windows_are_known(table: TableModel, handle: u32)
    requires
        table.sound(),
    ensures
        announced(table, handle).handles.contains(handle),
        announced(table, handle).sound(),
        table.handles.contains(handle) ==> announced(table, handle) == table,
        !table.handles.contains(handle) ==> {
            let after = announced(table, handle);
            &&& after.handles.len() == table.handles.len() + 1
            &&& after.handles.drop_last() == table.handles
            &&& after.windows.drop_last() == table.windows
            &&& after.windows.last().app_id.len() == 0 && after.windows.last().title.len() == 0
                && after.windows.last().states.len() == 0
        },
{
    if !table.handles.contains(handle) {
        let after = announced(table, handle);
        assert(after.handles[table.handles.len() as int] == handle);
        assert(after.handles.drop_last() =~= table.handles);
        assert(after.windows.drop_last() =~= table.windows);
    }
}

/// The foreground is the first window that has the focus; where none has it there
/// is nothing in the foreground and nothing is fullscreen.
pub proof fn the_first_focused_window_is_in_front(
    table: TableModel,
    cache: ToplevelCache,
    i: int,
)
    requires
        shows_foreground(table, cache),
    ensures
        0 <= i < table.windows.len() && table.windows[i].states.contains(linux::STATE_ACTIVATED)
            && (forall|k: int|
            0 <= k < i ==> !(#[trigger] table.windows[k]).states.contains(linux::STATE_ACTIVATED))
            ==> (cache.fullscreen <==> table.windows[i].states.contains(linux::STATE_FULLSCREEN))
            && context::app_if_any(cache.foreground_app) == linux::window_identity(
            table.windows[i].app_id,
            table.windows[i].title,
        ),
        (forall|k: int|
            0 <= k < table.windows.len() ==> !(#[trigger] table.windows[k]).states.contains(
                linux::STATE_ACTIVATED,
            )) ==> cache.foreground_app is None && !cache.fullscreen,
{
    if 0 <= i < table.windows.len() && table.windows[i].states.contains(linux::STATE_ACTIVATED) && (
    forall|k: int|
        0 <= k < i ==> !(#[trigger] table.windows[k]).states.contains(linux::STATE_ACTIVATED)) {
        assert(leads_windows(table.windows, i));
    }
}

/// One window at most is the first that has the focus, and one is where any has it.
pub proof fn one_window_leads(windows: Seq<WindowModel>, some: int)
    requires
        0 <= some < windows.len(),
        windows[some].states.contains(linux::STATE_ACTIVATED),
    ensures
        exists|i: int| #[trigger] leads_windows(windows, i),
        forall|i: int| #[trigger] leads_windows(windows, i) ==> i <= some,
        forall|i: int, j: int| #[trigger]
            leads_windows(windows, i) && #[trigger] leads_windows(windows, j) ==> i == j,
    decreases some,
{
    if forall|k: int|
        0 <= k < some ==> !(#[trigger] windows[k]).states.contains(linux::STATE_ACTIVATED) {
        assert(leads_windows(windows, some));
    } else {
        let k = choose|k: int|
            0 <= k < some && (#[trigger] windows[k]).states.contains(linux::STATE_ACTIVATED);
        one_window_leads(windows, k);
    }
    assert forall|i: int| #[trigger] leads_windows(windows, i) implies i <= some by {
        if some < i {
            assert(!windows[some].states.contains(linux::STATE_ACTIVATED));
        }
    }
    assert forall|i: int, j: int| #[trigger]
        leads_windows(windows, i) && #[trigger] leads_windows(windows, j) implies i == j by {
        if i < j {
            assert(!windows[i].states.contains(linux::STATE_ACTIVATED));
        } else if j < i {
            assert(!windows[j].states.contains(linux::STATE_ACTIVATED));
        }
    }
}

/// A daemon that cannot claim its name says what the bus said, or, where another
/// daemon has the name, that it is to be disabled.
pub proof fn claims_fail_for_a_reason(detail: Seq<char>, other: Seq<char>)
    ensures
        claim_failure(true, detail) == claim_failure(true, other),
        claim_failure(false, detail) == ErrorModel::Source(
            "failed to claim "@ + NOTIFICATIONS_BUS_NAME@ + ": "@ + detail,
        ),
        claim_failure(true, detail) == ErrorModel::Source(
            "another notification daemon already owns "@ + NOTIFICATIONS_BUS_NAME@
                + " (GNOME Shell, dunst, mako, …); disable it to use tpt-focus"@,
        ),
{
}

/// A window has the focus or is fullscreen where its states hold the number that
/// the toplevel protocol gives to it, 2 or 3, in the byte order of the machine.
pub proof fn states_have_the_protocols_numbers(bytes: Seq<u8>, states: Seq<u32>, little: bool, k: int)
    requires
        read_states(bytes, states, little),
        0 <= k < states.len(),
        word_at(bytes, k, little) == 2 || word_at(bytes, k, little) == 3,
    ensures
        word_at(bytes, k, little) == 2 ==> states.contains(linux::STATE_ACTIVATED),
        word_at(bytes, k, little) == 3 ==> states.contains(linux::STATE_FULLSCREEN),
{
    assert(states[k] == word_at(bytes, k, little));
}

} // verus!
