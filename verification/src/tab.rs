//! The tabs of a session, as the sidebar sees them.

use vstd::prelude::*;

use crate::strings::same_text;

verus! {

/// One tab of the session: every field that zellij reports for it.
pub struct Tab {
    /// The tab's 0-indexed position.
    pub position: usize,
    /// The name of the tab.
    pub name: String,
    /// Whether this tab is focused.
    pub active: bool,
    pub panes_to_hide: usize,
    pub is_fullscreen_active: bool,
    /// Whether input sent to this tab is synced to all its panes.
    pub is_sync_panes_active: bool,
    pub are_floating_panes_visible: bool,
    pub other_focused_clients: Vec<u16>,
    pub active_swap_layout_name: Option<String>,
    pub is_swap_layout_dirty: bool,
    pub viewport_rows: usize,
    pub viewport_columns: usize,
    pub display_area_rows: usize,
    pub display_area_columns: usize,
    pub selectable_tiled_panes_count: usize,
    pub selectable_floating_panes_count: usize,
    pub tab_id: usize,
    /// Whether this tab has a persistent bell notification.
    pub has_bell_notification: bool,
    pub is_flashing_bell: bool,
}

/// The value of a [`Tab`], with its text as character sequences.
pub struct TabView {
    pub position: usize,
    pub name: Seq<char>,
    pub active: bool,
    pub panes_to_hide: usize,
    pub is_fullscreen_active: bool,
    pub is_sync_panes_active: bool,
    pub are_floating_panes_visible: bool,
    pub other_focused_clients: Seq<u16>,
    pub active_swap_layout_name: Option<Seq<char>>,
    pub is_swap_layout_dirty: bool,
    pub viewport_rows: usize,
    pub viewport_columns: usize,
    pub display_area_rows: usize,
    pub display_area_columns: usize,
    pub selectable_tiled_panes_count: usize,
    pub selectable_floating_panes_count: usize,
    pub tab_id: usize,
    pub has_bell_notification: bool,
    pub is_flashing_bell: bool,
}

/// The characters of an optional string.
pub open spec fn opt_text(s: Option<String>) -> Option<Seq<char>> {
    match s {
        Some(t) => Some(t@),
        None => None,
    }
}

impl View for Tab {
    type V = TabView;

    open spec fn view(&self) -> TabView {
        TabView {
            position: self.position,
            name: self.name@,
            active: self.active,
            panes_to_hide: self.panes_to_hide,
            is_fullscreen_active: self.is_fullscreen_active,
            is_sync_panes_active: self.is_sync_panes_active,
            are_floating_panes_visible: self.are_floating_panes_visible,
            other_focused_clients: self.other_focused_clients@,
            active_swap_layout_name: opt_text(self.active_swap_layout_name),
            is_swap_layout_dirty: self.is_swap_layout_dirty,
            viewport_rows: self.viewport_rows,
            viewport_columns: self.viewport_columns,
            display_area_rows: self.display_area_rows,
            display_area_columns: self.display_area_columns,
            selectable_tiled_panes_count: self.selectable_tiled_panes_count,
            selectable_floating_panes_count: self.selectable_floating_panes_count,
            tab_id: self.tab_id,
            has_bell_notification: self.has_bell_notification,
            is_flashing_bell: self.is_flashing_bell,
        }
    }
}

/// The values of a list of tabs.
pub open spec fn tabs_view(tabs: Seq<Tab>) -> Seq<TabView> {
    tabs.map_values(|t: Tab| t@)
}

fn same_clients(a: &Vec<u16>, b: &Vec<u16>) -> (r: bool)
    ensures
        r == (a@ == b@),
{
    if a.len() != b.len() {
        return false;
    }
    let mut i: usize = 0;
    while i < a.len()
        invariant
            a.len() == b.len(),
            i <= a.len(),
            forall|j: int| 0 <= j < i ==> a@[j] == b@[j],
        decreases a.len() - i,
    {
        if a[i] != b[i] {
            return false;
        }
        i = i + 1;
    }
    assert(a@ =~= b@);
    true
}

fn same_opt_text(a: &Option<String>, b: &Option<String>) -> (r: bool)
    ensures
        r == (opt_text(*a) == opt_text(*b)),
{
    match (a, b) {
        (Some(x), Some(y)) => same_text(x.as_str(), y.as_str()),
        (None, None) => true,
        _ => false,
    }
}

/// Whether two tabs are equal in every field.
pub fn same_tab(a: &Tab, b: &Tab) -> (r: bool)
    ensures
        r == (a@ == b@),
{
    a.position == b.position && same_text(a.name.as_str(), b.name.as_str()) && a.active
        == b.active && a.panes_to_hide == b.panes_to_hide && a.is_fullscreen_active
        == b.is_fullscreen_active && a.is_sync_panes_active == b.is_sync_panes_active
        && a.are_floating_panes_visible == b.are_floating_panes_visible && same_clients(
        &a.other_focused_clients,
        &b.other_focused_clients,
    ) && same_opt_text(&a.active_swap_layout_name, &b.active_swap_layout_name)
        && a.is_swap_layout_dirty == b.is_swap_layout_dirty && a.viewport_rows == b.viewport_rows
        && a.viewport_columns == b.viewport_columns && a.display_area_rows == b.display_area_rows
        && a.display_area_columns == b.display_area_columns && a.selectable_tiled_panes_count
        == b.selectable_tiled_panes_count && a.selectable_floating_panes_count
        == b.selectable_floating_panes_count && a.tab_id == b.tab_id && a.has_bell_notification
        == b.has_bell_notification && a.is_flashing_bell == b.is_flashing_bell
}

/// Whether two lists of tabs are equal, tab by tab.
pub fn same_tabs(a: &Vec<Tab>, b: &Vec<Tab>) -> (r: bool)
    ensures
        r == (tabs_view(a@) == tabs_view(b@)),
{
    if a.len() != b.len() {
        assert(tabs_view(a@).len() != tabs_view(b@).len());
        return false;
    }
    let mut i: usize = 0;
    while i < a.len()
        invariant
            a.len() == b.len(),
            i <= a.len(),
            forall|j: int| 0 <= j < i ==> a@[j]@ == b@[j]@,
        decreases a.len() - i,
    {
        if !same_tab(&a[i], &b[i]) {
            assert(tabs_view(a@)[i as int] != tabs_view(b@)[i as int]);
            return false;
        }
        i = i + 1;
    }
    assert(tabs_view(a@) =~= tabs_view(b@));
    true
}

/// The position of the first focused tab, if any.
pub open spec fn first_active(tabs: Seq<TabView>) -> Option<int>
    decreases tabs.len(),
{
    if tabs.len() == 0 {
        None
    } else {
        match first_active(tabs.drop_last()) {
            Some(i) => Some(i),
            None => if tabs.last().active {
                Some(tabs.len() - 1)
            } else {
                None
            },
        }
    }
}

/// The index of the focused tab, or 0 when none is focused.
pub open spec fn active_index(tabs: Seq<TabView>) -> int {
    match first_active(tabs) {
        Some(i) => i,
        None => 0,
    }
}

/// `first_active` is the least index of a focused tab.
pub proof fn lemma_first_active(tabs: Seq<TabView>)
    ensures
        match first_active(tabs) {
            Some(i) => 0 <= i < tabs.len() && tabs[i].active && forall|j: int|
                0 <= j < i ==> !(#[trigger] tabs[j]).active,
            None => forall|j: int| 0 <= j < tabs.len() ==> !(#[trigger] tabs[j]).active,
        },
    decreases tabs.len(),
{
    if tabs.len() > 0 {
        let t = tabs.drop_last();
        lemma_first_active(t);
        assert forall|j: int| 0 <= j < t.len() implies t[j] == tabs[j] by {}
    }
}

/// The index of the first focused tab, or 0 when none is focused.
pub fn active_position(tabs: &Vec<Tab>) -> (i: usize)
    ensures
        i == active_index(tabs_view(tabs@)),
        tabs.len() > 0 ==> i < tabs.len(),
{
    let ghost tv = tabs_view(tabs@);
    proof {
        lemma_first_active(tv);
    }
    let mut i: usize = 0;
    while i < tabs.len()
        invariant
            tv == tabs_view(tabs@),
            i <= tabs.len(),
            forall|j: int| 0 <= j < i ==> !(#[trigger] tv[j]).active,
            match first_active(tv) {
                Some(k) => 0 <= k < tv.len() && tv[k].active && forall|j: int|
                    0 <= j < k ==> !(#[trigger] tv[j]).active,
                None => forall|j: int| 0 <= j < tv.len() ==> !(#[trigger] tv[j]).active,
            },
        decreases tabs.len() - i,
    {
        if tabs[i].active {
            assert(tv[i as int].active);
            return i;
        }
        assert(!tv[i as int].active);
        i = i + 1;
    }
    0
}

} // verus!
