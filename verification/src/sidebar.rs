//! The sidebar's state and how it reacts to zellij's events and pipes: which
//! state it moves to and what it asks its host to do.

use vstd::prelude::*;

use crate::mark::{parse_mark, parse_rescue_mark, MarkKind};
use crate::marks::{alive_marks, MarkTable};
use crate::numbers::{decimal, push_decimal, push_signed, signed_decimal};
use crate::strings::{push_char, same_text, to_uppercase, uppercase};
use crate::timezone::{clock_timezone, resolve_timezone};
use crate::tab::{active_index, active_position, same_tabs, tabs_view, Tab, TabView};

verus! {

/// Rows above the tab list: top border, session, date, clock, mode, divider.
pub const HEAD: usize = 6;

/// Rows below the tab list: divider, tab count, bottom border.
pub const FOOT: usize = 3;

/// Hard cap on the number of rescue marks a sidebar keeps.
pub const MAX_MARKS: usize = 128;

/// Something zellij tells the sidebar.
pub enum SidebarEvent {
    /// The user answered the permission request.
    PermissionResult,
    /// The session's tabs, as they are now.
    TabUpdate(Vec<Tab>),
    /// The input mode changed: the session's name, and the name of the mode.
    ModeUpdate { session: Option<String>, mode: String },
    /// The sidebar's pane was shown or hidden.
    Visible(bool),
    /// The one-second timer fired.
    Timer,
    /// A left click on the given row.
    LeftClick(usize),
    /// The wheel scrolled up.
    ScrollUp,
    /// The wheel scrolled down.
    ScrollDown,
    /// Anything else.
    Other,
}

/// The value of a [`SidebarEvent`].
pub enum EventView {
    PermissionResult,
    TabUpdate(Seq<TabView>),
    ModeUpdate { session: Option<Seq<char>>, mode: Seq<char> },
    Visible(bool),
    Timer,
    LeftClick(usize),
    ScrollUp,
    ScrollDown,
    Other,
}

impl View for SidebarEvent {
    type V = EventView;

    open spec fn view(&self) -> EventView {
        match self {
            SidebarEvent::PermissionResult => EventView::PermissionResult,
            SidebarEvent::TabUpdate(tabs) => EventView::TabUpdate(tabs_view(tabs@)),
            SidebarEvent::ModeUpdate { session, mode } => EventView::ModeUpdate {
                session: match session {
                    Some(s) => Some(s@),
                    None => None,
                },
                mode: mode@,
            },
            SidebarEvent::Visible(v) => EventView::Visible(*v),
            SidebarEvent::Timer => EventView::Timer,
            SidebarEvent::LeftClick(r) => EventView::LeftClick(*r),
            SidebarEvent::ScrollUp => EventView::ScrollUp,
            SidebarEvent::ScrollDown => EventView::ScrollDown,
            SidebarEvent::Other => EventView::Other,
        }
    }
}

/// What the sidebar asks its host to do after an event.
pub struct Reaction {
    /// Render the sidebar again.
    pub render: bool,
    /// Arm the one-second timer.
    pub arm_timer: bool,
    /// Write this text as the tab manifest.
    pub manifest: Option<String>,
    /// Switch to the tab at this 1-based position.
    pub switch_to: Option<usize>,
}

/// The value of a [`Reaction`].
pub struct ReactionView {
    pub render: bool,
    pub arm_timer: bool,
    pub manifest: Option<Seq<char>>,
    pub switch_to: Option<usize>,
}

impl View for Reaction {
    type V = ReactionView;

    open spec fn view(&self) -> ReactionView {
        ReactionView {
            render: self.render,
            arm_timer: self.arm_timer,
            manifest: match self.manifest {
                Some(m) => Some(m@),
                None => None,
            },
            switch_to: self.switch_to,
        }
    }
}

/// A reaction that asks for nothing but, perhaps, a render.
pub open spec fn quiet(render: bool) -> ReactionView {
    ReactionView { render, arm_timer: false, manifest: None, switch_to: None }
}

/// The value of a [`State`].
pub struct StateView {
    pub tabs: Seq<TabView>,
    pub session: Seq<char>,
    pub mode: Seq<char>,
    pub granted: bool,
    pub armed: bool,
    pub visible: bool,
    pub last_arm_ms: i64,
    pub last_manifest_ms: i64,
    pub scroll_start: usize,
    pub tab_area_rows: usize,
    pub marks: Map<Seq<char>, (MarkKind, i64)>,
    pub build_label: Seq<char>,
    pub zone: Seq<char>,
}

/// The sidebar of a new plugin instance.
pub open spec fn initial(build_label: Seq<char>) -> StateView {
    StateView {
        tabs: seq![],
        session: seq![],
        mode: seq![],
        granted: false,
        armed: false,
        visible: true,
        last_arm_ms: 0,
        last_manifest_ms: 0,
        scroll_start: 0,
        tab_area_rows: 0,
        marks: Map::empty(),
        build_label,
        zone: "UTC"@,
    }
}

/// Arm the timer unless it is armed: the new state and whether to arm it.
pub open spec fn arm(s: StateView, now_ms: i64) -> (StateView, bool) {
    if !s.armed {
        (StateView { armed: true, last_arm_ms: now_ms, ..s }, true)
    } else {
        (s, false)
    }
}

/// Restart the tick chain of a visible sidebar when it is not armed or when
/// more than five seconds passed since it was armed (the chain is dead).
pub open spec fn heal(s: StateView, now_ms: i64) -> (StateView, bool) {
    if !s.visible {
        (s, false)
    } else if !s.armed || now_ms - s.last_arm_ms > 5000 {
        arm(StateView { armed: false, ..s }, now_ms)
    } else {
        (s, false)
    }
}

/// A tab name on one manifest line: newlines and tabs become spaces.
pub open spec fn flat_name(name: Seq<char>) -> Seq<char> {
    name.map_values(|c: char| if c == '\n' || c == '\t' { ' ' } else { c })
}

/// The manifest line of the tab at 0-based index `i`.
pub open spec fn manifest_row(i: int, t: TabView) -> Seq<char> {
    decimal((i + 1) as nat) + seq!['\t', if t.active { '*' } else { '-' }, '\t'] + flat_name(
        t.name,
    ) + seq!['\n']
}

/// The manifest lines of `tabs`, in order.
pub open spec fn manifest_rows(tabs: Seq<TabView>) -> Seq<char>
    decreases tabs.len(),
{
    if tabs.len() == 0 {
        seq![]
    } else {
        manifest_rows(tabs.drop_last()) + manifest_row(tabs.len() - 1, tabs.last())
    }
}

/// The text of the tab manifest written at `now_ms`.
pub open spec fn manifest_text(s: StateView, now_ms: i64) -> Seq<char> {
    "# zellij-vertical-tabs tab manifest v1\n"@ + "plugin: "@ + s.build_label + seq!['\n']
        + "session: "@ + s.session + seq!['\n'] + "written_ms: "@ + signed_decimal(now_ms as int)
        + seq!['\n'] + "tabs: "@ + decimal(s.tabs.len()) + seq!['\n'] + manifest_rows(s.tabs)
}

/// Write the manifest when the sidebar is visible and knows its session.
pub open spec fn manifest(s: StateView, now_ms: i64) -> (StateView, Option<Seq<char>>) {
    if !s.visible || s.session.len() == 0 {
        (s, None)
    } else {
        (StateView { last_manifest_ms: now_ms, ..s }, Some(manifest_text(s, now_ms)))
    }
}

/// The 1-based position of the tab shown on `row`, if a tab is shown there.
pub open spec fn clicked_tab(s: StateView, row: usize) -> Option<usize> {
    if HEAD <= row < HEAD + s.tab_area_rows {
        let i = s.scroll_start + (row - HEAD);
        if i < s.tabs.len() {
            Some((i + 1) as usize)
        } else {
            None
        }
    } else {
        None
    }
}

/// The 1-based position of the tab `d` steps from the focused one, wrapping
/// around, when there is a tab.
pub open spec fn relative_tab(s: StateView, d: int) -> Option<usize> {
    if s.tabs.len() == 0 {
        None
    } else {
        Some(((active_index(s.tabs) + d) % (s.tabs.len() as int) + 1) as usize)
    }
}

/// How the sidebar reacts to an event at `now_ms`: its next state and what it
/// asks of its host.
pub open spec fn on_event(s: StateView, e: EventView, now_ms: i64) -> (
    StateView,
    ReactionView,
) {
    match e {
        EventView::PermissionResult => (StateView { granted: true, ..s }, quiet(true)),
        EventView::TabUpdate(tabs) => {
            let (h, armed) = heal(s, now_ms);
            if h.tabs != tabs {
                let (m, text) = manifest(StateView { tabs, ..h }, now_ms);
                (m, ReactionView { render: true, arm_timer: armed, manifest: text, switch_to: None })
            } else {
                (h, ReactionView { render: false, arm_timer: armed, manifest: None, switch_to: None })
            }
        },
        EventView::ModeUpdate { session, mode } => {
            let (h, armed) = heal(s, now_ms);
            let name = match session {
                Some(n) => n,
                None => seq![],
            };
            let (m, text) = if name != h.session {
                manifest(StateView { session: name, ..h }, now_ms)
            } else {
                (h, None)
            };
            (
                StateView { mode: uppercase(mode), ..m },
                ReactionView { render: true, arm_timer: armed, manifest: text, switch_to: None },
            )
        },
        EventView::Visible(v) => {
            let shown = StateView { visible: v, ..s };
            if v {
                let (h, armed) = heal(shown, now_ms);
                (h, ReactionView { render: true, arm_timer: armed, manifest: None, switch_to: None })
            } else {
                (shown, quiet(false))
            }
        },
        EventView::Timer => {
            if now_ms - s.last_arm_ms < 900 {
                (s, quiet(false))
            } else {
                let idle = StateView { armed: false, ..s };
                if idle.visible {
                    let (a, armed) = arm(idle, now_ms);
                    let (m, text) = if now_ms - a.last_manifest_ms > 60_000 {
                        manifest(a, now_ms)
                    } else {
                        (a, None)
                    };
                    (
                        m,
                        ReactionView {
                            render: true,
                            arm_timer: armed,
                            manifest: text,
                            switch_to: None,
                        },
                    )
                } else {
                    (idle, quiet(false))
                }
            }
        },
        EventView::LeftClick(row) => (
            s,
            ReactionView {
                render: false,
                arm_timer: false,
                manifest: None,
                switch_to: clicked_tab(s, row),
            },
        ),
        EventView::ScrollUp => (
            s,
            ReactionView {
                render: false,
                arm_timer: false,
                manifest: None,
                switch_to: relative_tab(s, -1),
            },
        ),
        EventView::ScrollDown => (
            s,
            ReactionView {
                render: false,
                arm_timer: false,
                manifest: None,
                switch_to: relative_tab(s, 1),
            },
        ),
        EventView::Other => (s, quiet(false)),
    }
}

/// Whether some tab is named `name`.
pub open spec fn has_tab_named(tabs: Seq<TabView>, name: Seq<char>) -> bool {
    exists|i: int| 0 <= i < tabs.len() && #[trigger] tabs[i].name == name
}

/// The marks after a pipe that asks for `kind` on `tab`, once the expired
/// marks are gone.
pub open spec fn marks_after(
    s: StateView,
    tab: Seq<char>,
    kind: MarkKind,
    now_ms: i64,
) -> Map<Seq<char>, (MarkKind, i64)> {
    let m = alive_marks(s.marks, now_ms);
    if kind == MarkKind::Clear && tab == "*"@ {
        Map::empty()
    } else if kind == MarkKind::Clear {
        m.remove(tab)
    } else if has_tab_named(s.tabs, tab) && (m.contains_key(tab) || m.dom().len() < MAX_MARKS) {
        m.insert(tab, (kind, now_ms))
    } else {
        m
    }
}

/// How the sidebar takes a pipe message named `name` with `payload` at
/// `now_ms`: its next state and whether to render.
pub open spec fn on_pipe(
    s: StateView,
    name: Seq<char>,
    payload: Option<Seq<char>>,
    now_ms: i64,
) -> (StateView, bool) {
    if name != "rescue-mark"@ {
        (s, false)
    } else {
        match payload {
            None => (s, false),
            Some(p) => match parse_mark(p) {
                None => (s, false),
                Some((tab, kind)) => (
                    StateView { marks: marks_after(s, tab, kind, now_ms), ..s },
                    s.visible,
                ),
            },
        }
    }
}

/// A vertical tab sidebar: the tabs it shows, the clock's tick chain, the
/// viewport of its last render and the rescue marks it paints.
pub struct State {
    pub(crate) tabs: Vec<Tab>,
    pub(crate) session: String,
    pub(crate) mode: String,
    pub(crate) granted: bool,
    pub(crate) armed: bool,
    pub(crate) visible: bool,
    pub(crate) last_arm_ms: i64,
    pub(crate) last_manifest_ms: i64,
    pub(crate) scroll_start: usize,
    pub(crate) tab_area_rows: usize,
    pub(crate) marks: MarkTable,
    pub(crate) build_label: String,
    pub(crate) zone: String,
}

impl View for State {
    type V = StateView;

    closed spec fn view(&self) -> StateView {
        StateView {
            tabs: tabs_view(self.tabs@),
            session: self.session@,
            mode: self.mode@,
            granted: self.granted,
            armed: self.armed,
            visible: self.visible,
            last_arm_ms: self.last_arm_ms,
            last_manifest_ms: self.last_manifest_ms,
            scroll_start: self.scroll_start,
            tab_area_rows: self.tab_area_rows,
            marks: self.marks@,
            build_label: self.build_label@,
            zone: self.zone@,
        }
    }
}

impl State {
    /// The value of a sidebar, field by field.
    pub(crate) proof fn lemma_view(&self)
        ensures
            self@ == (StateView {
                tabs: tabs_view(self.tabs@),
                session: self.session@,
                mode: self.mode@,
                granted: self.granted,
                armed: self.armed,
                visible: self.visible,
                last_arm_ms: self.last_arm_ms,
                last_manifest_ms: self.last_manifest_ms,
                scroll_start: self.scroll_start,
                tab_area_rows: self.tab_area_rows,
                marks: self.marks@,
                build_label: self.build_label@,
                zone: self.zone@,
            }),
    {
    }

    /// A new sidebar whose footer and manifest carry `build_label`
    /// (`version@rev`).
    pub fn new(build_label: String) -> (s: State)
        ensures
            s@ == initial(build_label@),
    {
        let s = State {
            tabs: Vec::new(),
            session: String::new(),
            mode: String::new(),
            granted: false,
            armed: false,
            visible: true,
            last_arm_ms: 0,
            last_manifest_ms: 0,
            scroll_start: 0,
            tab_area_rows: 0,
            marks: MarkTable::new(),
            build_label,
            zone: String::from_str("UTC"),
        };
        assert(s@.tabs =~= Seq::<TabView>::empty());
        s
    }

    /// Start the sidebar: take the clock's zone from the plugin's `timezone`
    /// setting or the `TZ` environment variable, and arm the timer; returns
    /// whether the host must arm it. No other setting is read.
    pub fn load(&mut self, configured: Option<&str>, env_tz: Option<&str>, now_ms: i64) -> (go: bool)
        ensures
            (final(self)@, go) == arm(
                StateView {
                    zone: clock_timezone(
                        match configured {
                            Some(c) => Some(c@),
                            None => None,
                        },
                        match env_tz {
                            Some(e) => Some(e@),
                            None => None,
                        },
                    ),
                    ..old(self)@
                },
                now_ms,
            ),
    {
        self.zone = resolve_timezone(configured, env_tz);
        self.arm(now_ms)
    }

    /// Arm the one-second timer unless it is armed; returns whether the host
    /// must arm it.
    pub fn arm(&mut self, now_ms: i64) -> (go: bool)
        ensures
            (final(self)@, go) == arm(old(self)@, now_ms),
    {
        if !self.armed {
            self.armed = true;
            self.last_arm_ms = now_ms;
            true
        } else {
            false
        }
    }

    /// Self-healing tick: a visible sidebar whose timer is not armed, or was
    /// armed more than five seconds ago, arms it again.
    fn heal_timer(&mut self, now_ms: i64) -> (go: bool)
        ensures
            (final(self)@, go) == heal(old(self)@, now_ms),
    {
        if !self.visible {
            return false;
        }
        if !self.armed || (now_ms as i128) - (self.last_arm_ms as i128) > 5000 {
            self.armed = false;
            self.arm(now_ms)
        } else {
            false
        }
    }

    /// The manifest text, when the sidebar is visible and knows its session.
    fn write_manifest(&mut self, now_ms: i64) -> (text: Option<String>)
        ensures
            (final(self)@, match text {
                Some(t) => Some(t@),
                None => None,
            }) == manifest(old(self)@, now_ms),
    {
        if !self.visible || self.session.as_str().is_empty() {
            return None;
        }
        let ghost v = self@;
        let mut body = String::new();
        body.append("# zellij-vertical-tabs tab manifest v1\n");
        body.append("plugin: ");
        body.append(self.build_label.as_str());
        push_char(&mut body, '\n');
        body.append("session: ");
        body.append(self.session.as_str());
        push_char(&mut body, '\n');
        body.append("written_ms: ");
        push_signed(&mut body, now_ms);
        push_char(&mut body, '\n');
        body.append("tabs: ");
        push_decimal(&mut body, self.tabs.len() as u64);
        push_char(&mut body, '\n');
        let ghost head = body@;
        let mut i: usize = 0;
        assert(v.tabs.take(0) =~= Seq::<TabView>::empty());
        while i < self.tabs.len()
            invariant
                v == self@,
                i <= self.tabs.len(),
                body@ == head + manifest_rows(v.tabs.take(i as int)),
            decreases self.tabs.len() - i,
        {
            let ghost before = body@;
            push_decimal(&mut body, (i + 1) as u64);
            push_char(&mut body, '\t');
            push_char(&mut body, if self.tabs[i].active { '*' } else { '-' });
            push_char(&mut body, '\t');
            push_flat_name(&mut body, self.tabs[i].name.as_str());
            push_char(&mut body, '\n');
            proof {
                assert(v.tabs.take(i + 1).drop_last() =~= v.tabs.take(i as int));
                assert(v.tabs[i as int] == self.tabs@[i as int]@);
                assert(body@ =~= before + manifest_row(i as int, v.tabs[i as int]));
            }
            i = i + 1;
        }
        assert(v.tabs.take(i as int) =~= v.tabs);
        assert(body@ =~= manifest_text(v, now_ms));
        self.last_manifest_ms = now_ms;
        Some(body)
    }

    /// The 1-based position of the tab `d` steps from the focused one.
    fn switch_rel(&self, d: i64) -> (to: Option<usize>)
        ensures
            to == relative_tab(self@, d as int),
    {
        let n = self.tabs.len();
        if n == 0 {
            return None;
        }
        let cur = active_position(&self.tabs);
        let next = wrap_index(cur, d, n);
        Some(next + 1)
    }

    /// React to `event` at `now_ms`.
    pub fn update(&mut self, event: SidebarEvent, now_ms: i64) -> (r: Reaction)
        ensures
            (final(self)@, r@) == on_event(old(self)@, event@, now_ms),
    {
        match event {
            SidebarEvent::PermissionResult => {
                self.granted = true;
                Reaction { render: true, arm_timer: false, manifest: None, switch_to: None }
            },
            SidebarEvent::TabUpdate(tabs) => {
                let armed = self.heal_timer(now_ms);
                if !same_tabs(&self.tabs, &tabs) {
                    self.tabs = tabs;
                    let text = self.write_manifest(now_ms);
                    Reaction { render: true, arm_timer: armed, manifest: text, switch_to: None }
                } else {
                    Reaction { render: false, arm_timer: armed, manifest: None, switch_to: None }
                }
            },
            SidebarEvent::ModeUpdate { session, mode } => {
                let armed = self.heal_timer(now_ms);
                let name = match session {
                    Some(n) => n,
                    None => String::new(),
                };
                let text = if !same_text(name.as_str(), self.session.as_str()) {
                    self.session = name;
                    self.write_manifest(now_ms)
                } else {
                    None
                };
                self.mode = to_uppercase(mode.as_str());
                Reaction { render: true, arm_timer: armed, manifest: text, switch_to: None }
            },
            SidebarEvent::Visible(v) => {
                self.visible = v;
                let armed = if v {
                    self.heal_timer(now_ms)
                } else {
                    false
                };
                Reaction { render: v, arm_timer: armed, manifest: None, switch_to: None }
            },
            SidebarEvent::Timer => {
                if (now_ms as i128) - (self.last_arm_ms as i128) < 900 {
                    return Reaction { render: false, arm_timer: false, manifest: None, switch_to: None };
                }
                self.armed = false;
                if self.visible {
                    let armed = self.arm(now_ms);
                    let text = if (now_ms as i128) - (self.last_manifest_ms as i128) > 60_000 {
                        self.write_manifest(now_ms)
                    } else {
                        None
                    };
                    Reaction { render: true, arm_timer: armed, manifest: text, switch_to: None }
                } else {
                    Reaction { render: false, arm_timer: false, manifest: None, switch_to: None }
                }
            },
            SidebarEvent::LeftClick(row) => {
                let mut to = None;
                if row >= HEAD && row - HEAD < self.tab_area_rows {
                    match self.scroll_start.checked_add(row - HEAD) {
                        Some(i) => {
                            assert(self@.tabs.len() == self.tabs.len());
                            if i < self.tabs.len() {
                                to = Some(i + 1);
                            }
                        },
                        None => {
                            assert(self@.tabs.len() == self.tabs.len());
                        },
                    }
                }
                Reaction { render: false, arm_timer: false, manifest: None, switch_to: to }
            },
            SidebarEvent::ScrollUp => {
                let to = self.switch_rel(-1);
                Reaction { render: false, arm_timer: false, manifest: None, switch_to: to }
            },
            SidebarEvent::ScrollDown => {
                let to = self.switch_rel(1);
                Reaction { render: false, arm_timer: false, manifest: None, switch_to: to }
            },
            SidebarEvent::Other => Reaction {
                render: false,
                arm_timer: false,
                manifest: None,
                switch_to: None,
            },
        }
    }

    /// Take a pipe message named `name` with `payload` at `now_ms`; returns
    /// whether to render. A `rescue-mark` payload sets, refreshes or clears a
    /// mark; expired marks are dropped first.
    pub fn pipe(&mut self, name: &str, payload: Option<&str>, now_ms: i64) -> (render: bool)
        ensures
            (final(self)@, render) == on_pipe(old(self)@, name@, match payload {
                Some(p) => Some(p@),
                None => None,
            }, now_ms),
    {
        if !same_text(name, "rescue-mark") {
            return false;
        }
        let p = match payload {
            Some(p) => p,
            None => {
                return false;
            },
        };
        let (tab, kind) = match parse_rescue_mark(p) {
            Some(m) => m,
            None => {
                return false;
            },
        };
        self.marks.sweep(now_ms);
        match kind {
            MarkKind::Clear => {
                if same_text(tab.as_str(), "*") {
                    self.marks.clear();
                } else {
                    self.marks.remove(tab.as_str());
                }
            },
            _ => {
                let known = self.has_tab(tab.as_str());
                if known && (self.marks.contains(tab.as_str()) || self.marks.len() < MAX_MARKS) {
                    self.marks.set(tab, kind, now_ms);
                }
            },
        }
        self.visible
    }

    /// Whether some tab is named `name`.
    fn has_tab(&self, name: &str) -> (b: bool)
        ensures
            b == has_tab_named(self@.tabs, name@),
    {
        let mut i: usize = 0;
        while i < self.tabs.len()
            invariant
                i <= self.tabs.len(),
                forall|j: int| 0 <= j < i ==> self.tabs@[j].name@ != name@,
            decreases self.tabs.len() - i,
        {
            if same_text(self.tabs[i].name.as_str(), name) {
                assert(self@.tabs[i as int].name == name@);
                return true;
            }
            i = i + 1;
        }
        assert forall|j: int| 0 <= j < self@.tabs.len() implies #[trigger] self@.tabs[j].name
            != name@ by {
            assert(self@.tabs[j] == self.tabs@[j]@);
        }
        false
    }
}

/// Append `name` to `out` with newlines and tabs turned into spaces.
fn push_flat_name(out: &mut String, name: &str)
    ensures
        final(out)@ == old(out)@ + flat_name(name@),
{
    let cs = crate::strings::chars_of(name);
    let mut i: usize = 0;
    while i < cs.len()
        invariant
            cs@ == name@,
            i <= cs.len(),
            out@ == old(out)@ + flat_name(name@.take(i as int)),
        decreases cs.len() - i,
    {
        let c = cs[i];
        push_char(out, if c == '\n' || c == '\t' { ' ' } else { c });
        i = i + 1;
        assert(flat_name(name@.take(i as int)) =~= flat_name(name@.take(i - 1)).push(
            if c == '\n' || c == '\t' { ' ' } else { c },
        ));
    }
    assert(name@.take(i as int) =~= name@);
}

/// `(cur + d) mod n`, the Euclidean remainder.
fn wrap_index(cur: usize, d: i64, n: usize) -> (r: usize)
    requires
        cur < n,
    ensures
        r == (cur as int + d as int) % (n as int),
{
    let n_wide = n as u128;
    if d >= 0 {
        let step = (d as u128) % n_wide;
        let r = ((cur as u128) + step) % n_wide;
        proof {
            vstd::arithmetic::div_mod::lemma_add_mod_noop(cur as int, d as int, n as int);
            vstd::arithmetic::div_mod::lemma_small_mod(cur as nat, n as nat);
            vstd::arithmetic::div_mod::lemma_mod_bound(((cur as u128) + step) as int, n as int);
        }
        r as usize
    } else {
        let back = ((0i128 - (d as i128)) as u128) % n_wide;
        let r = ((cur as u128) + n_wide - back) % n_wide;
        proof {
            lemma_wrap_back(cur as int, -(d as int), n as int);
            vstd::arithmetic::div_mod::lemma_mod_bound(((cur as u128) + n_wide - back) as int, n as int);
        }
        r as usize
    }
}

/// Stepping back `e` from `cur` modulo `n` is stepping forward by `n` less
/// `e mod n`.
proof fn lemma_wrap_back(cur: int, e: int, n: int)
    requires
        0 <= cur < n,
        0 < e,
    ensures
        (cur + n - e % n) % n == (cur - e) % n,
{
    vstd::arithmetic::div_mod::lemma_fundamental_div_mod(e, n);
    let q = e / n;
    let r = e % n;
    assert(cur - e == n * (-(q + 1)) + (cur + n - r)) by (nonlinear_arith)
        requires
            e == n * q + r,
    ;
    vstd::arithmetic::div_mod::lemma_mod_multiples_vanish(-(q + 1), cur + n - r, n);
}

/// A hidden sidebar arms no timer and writes no manifest until it is shown
/// again: only the on-screen instance keeps a clock ticking.
pub proof fn lemma_hidden_sidebar_parks(s: StateView, e: EventView, now_ms: i64)
    requires
        !s.visible,
        e != EventView::Visible(true),
    ensures
        !on_event(s, e, now_ms).1.arm_timer,
        on_event(s, e, now_ms).1.manifest is None,
        !on_event(s, e, now_ms).0.visible,
{
}

/// A timer that fires less than 900 ms after the last arm belongs to a
/// duplicate chain: it changes nothing and asks for nothing.
pub proof fn lemma_duplicate_tick_dropped(s: StateView, now_ms: i64)
    requires
        now_ms - s.last_arm_ms < 900,
    ensures
        on_event(s, EventView::Timer, now_ms) == (s, quiet(false)),
{
}

/// A visible sidebar whose tick chain is dead (not armed, or armed more than
/// five seconds ago) restarts it on the next tab, mode or visibility event.
pub proof fn lemma_dead_chain_heals(s: StateView, e: EventView, now_ms: i64)
    requires
        s.visible || e == EventView::Visible(true),
        !s.armed || now_ms - s.last_arm_ms > 5000,
        e is TabUpdate || e is ModeUpdate || e == EventView::Visible(true),
    ensures
        on_event(s, e, now_ms).1.arm_timer,
        on_event(s, e, now_ms).0.armed,
        on_event(s, e, now_ms).0.last_arm_ms == now_ms,
{
}

/// A manifest is only ever written by a visible sidebar that knows its
/// session, and it lists the tabs of the new state at the time of the event.
pub proof fn lemma_manifest_from_live_session(s: StateView, e: EventView, now_ms: i64)
    ensures
        on_event(s, e, now_ms).1.manifest matches Some(text) ==> {
            let t = on_event(s, e, now_ms).0;
            &&& t.visible
            &&& t.session.len() > 0
            &&& t.last_manifest_ms == now_ms
            &&& text == manifest_text(t, now_ms)
        },
{
}

/// The rescue marks stay bounded: a pipe never takes the table past
/// `MAX_MARKS`, adds only names of live tabs, never stores `Clear`, and leaves
/// only marks that are alive at the time of the pipe.
pub proof fn lemma_pipe_bounds_marks(
    s: StateView,
    name: Seq<char>,
    payload: Option<Seq<char>>,
    now_ms: i64,
)
    requires
        s.marks.dom().finite(),
        s.marks.dom().len() <= MAX_MARKS,
        forall|k: Seq<char>| #[trigger] s.marks.contains_key(k) ==> s.marks[k].0 != MarkKind::Clear,
    ensures
        ({
            let t = on_pipe(s, name, payload, now_ms).0;
            &&& t.marks.dom().finite()
            &&& t.marks.dom().len() <= MAX_MARKS
            &&& forall|k: Seq<char>| #[trigger]
                t.marks.contains_key(k) ==> s.marks.contains_key(k) || has_tab_named(s.tabs, k)
            &&& forall|k: Seq<char>| #[trigger]
                t.marks.contains_key(k) ==> t.marks[k].0 != MarkKind::Clear
            &&& (t.marks != s.marks ==> forall|k: Seq<char>| #[trigger]
                t.marks.contains_key(k) ==> crate::marks::alive(now_ms, t.marks[k].1))
        }),
{
    if name == "rescue-mark"@ && payload is Some {
        let p = payload->0;
        if let Some((tab, kind)) = parse_mark(p) {
            let m = alive_marks(s.marks, now_ms);
            assert(m.dom() <= s.marks.dom());
            vstd::set_lib::lemma_len_subset(m.dom(), s.marks.dom());
            assert(m.dom().finite()) by {
                vstd::set_lib::lemma_set_subset_finite(s.marks.dom(), m.dom());
            }
            if kind == MarkKind::Clear && tab == "*"@ {
                assert(Map::<Seq<char>, (MarkKind, i64)>::empty().dom() =~= Set::empty());
            } else if kind == MarkKind::Clear {
            } else if has_tab_named(s.tabs, tab) && (m.contains_key(tab) || m.dom().len()
                < MAX_MARKS) {
                if m.contains_key(tab) {
                    assert(m.insert(tab, (kind, now_ms)).dom() =~= m.dom());
                }
            }
        }
    }
}

/// A tab update that changes the tabs of a visible sidebar that knows its
/// session redraws it and rewrites the manifest with the new tabs, stamped
/// with the time of the update, whatever changed (the set of tabs, their
/// names, or only which one is focused); an update that changes nothing
/// neither redraws nor writes.
pub proof fn lemma_tab_change_rewrites_manifest(s: StateView, tabs: Seq<TabView>, now_ms: i64)
    ensures
        (s.visible && s.session.len() > 0 && s.tabs != tabs) ==> {
            let (t, r) = on_event(s, EventView::TabUpdate(tabs), now_ms);
            &&& r.render
            &&& t.tabs == tabs
            &&& t.session == s.session
            &&& t.last_manifest_ms == now_ms
            &&& r.manifest == Some(manifest_text(t, now_ms))
        },
        s.tabs == tabs ==> {
            let (t, r) = on_event(s, EventView::TabUpdate(tabs), now_ms);
            &&& !r.render
            &&& r.manifest is None
            &&& t.tabs == tabs
            &&& t.last_manifest_ms == s.last_manifest_ms
        },
{
}

/// A `rescue-mark` pipe that sets a state on a live tab stamps the mark with
/// the state and the time of the pipe, whether the mark is new (the table has
/// room) or refreshes a live mark on that tab, even one in the same state; every
/// other live mark stays as it was, and the expired ones are gone.
pub proof fn lemma_pipe_sets_mark(
    s: StateView,
    payload: Seq<char>,
    tab: Seq<char>,
    kind: MarkKind,
    now_ms: i64,
)
    requires
        parse_mark(payload) == Some((tab, kind)),
        kind != MarkKind::Clear,
        has_tab_named(s.tabs, tab),
        (s.marks.contains_key(tab) && crate::marks::alive(now_ms, s.marks[tab].1)) || alive_marks(
            s.marks,
            now_ms,
        ).dom().len() < MAX_MARKS,
    ensures
        ({
            let (t, render) = on_pipe(s, "rescue-mark"@, Some(payload), now_ms);
            &&& render == s.visible
            &&& t.marks.contains_key(tab)
            &&& t.marks[tab] == (kind, now_ms)
            &&& forall|k: Seq<char>|
                k != tab ==> (#[trigger] t.marks.contains_key(k) <==> s.marks.contains_key(k)
                    && crate::marks::alive(now_ms, s.marks[k].1))
            &&& forall|k: Seq<char>|
                k != tab && #[trigger] t.marks.contains_key(k) ==> t.marks[k] == s.marks[k]
            &&& t.tabs == s.tabs
        }),
{
    let m = alive_marks(s.marks, now_ms);
    if s.marks.contains_key(tab) && crate::marks::alive(now_ms, s.marks[tab].1) {
        assert(m.contains_key(tab));
    }
}

/// A `rescue-mark` pipe that clears a tab removes its mark and keeps every
/// other live mark as it was; clearing `*` removes every mark.
pub proof fn lemma_pipe_clears_mark(s: StateView, payload: Seq<char>, tab: Seq<char>, now_ms: i64)
    requires
        parse_mark(payload) == Some((tab, MarkKind::Clear)),
    ensures
        ({
            let t = on_pipe(s, "rescue-mark"@, Some(payload), now_ms).0;
            &&& !t.marks.contains_key(tab)
            &&& tab == "*"@ ==> t.marks.dom().is_empty()
            &&& tab != "*"@ ==> forall|k: Seq<char>|
                k != tab ==> (#[trigger] t.marks.contains_key(k) <==> s.marks.contains_key(k)
                    && crate::marks::alive(now_ms, s.marks[k].1))
            &&& tab != "*"@ ==> forall|k: Seq<char>|
                k != tab && #[trigger] t.marks.contains_key(k) ==> t.marks[k] == s.marks[k]
        }),
{
    if tab == "*"@ {
        assert(Map::<Seq<char>, (MarkKind, i64)>::empty().dom() =~= Set::empty());
    }
}

/// Scrolling lands on a tab: the position is between 1 and the number of tabs.
pub proof fn lemma_scroll_lands_on_tab(s: StateView, d: int)
    requires
        s.tabs.len() <= usize::MAX,
    ensures
        relative_tab(s, d) matches Some(p) ==> 1 <= p <= s.tabs.len(),
{
    if s.tabs.len() > 0 {
        vstd::arithmetic::div_mod::lemma_mod_bound(active_index(s.tabs) + d, s.tabs.len() as int);
    }
}

} // verus!
