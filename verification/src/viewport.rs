//! Viewport arithmetic: which tab row the sidebar shows first.

use vstd::prelude::*;

verus! {

/// The first visible row of a window of `area` rows over `n` tabs, with the
/// window centred on `active` and clamped so that it never runs past the end.
pub open spec fn window_start(n: int, area: int, active: int) -> int {
    if n <= area {
        0
    } else {
        let centred = if active - area / 2 > 0 { active - area / 2 } else { 0 };
        if centred < n - area { centred } else { n - area }
    }
}

/// First visible row of the tab viewport: centers `active` in a window of
/// `area` rows over `n` tabs, clamped so the window never runs past the end.
pub fn scroll_window(n: usize, area: usize, active: usize) -> (start: usize)
    ensures
        start == window_start(n as int, area as int, active as int),
{
    if n <= area {
        0
    } else {
        active.saturating_sub(area / 2).min(n - area)
    }
}

/// A window over more tabs than it has rows never runs past the last tab.
pub proof fn lemma_window_in_bounds(n: int, area: int, active: int)
    requires
        0 <= area < n,
    ensures
        0 <= window_start(n, area, active),
        window_start(n, area, active) + area <= n,
{
}

/// When every tab fits, the window starts at the first tab.
pub proof fn lemma_window_fits_from_top(n: int, area: int, active: int)
    requires
        n <= area,
    ensures
        window_start(n, area, active) == 0,
{
}

/// The active tab always lies inside a window of at least one row.
pub proof fn lemma_window_contains_active(n: int, area: int, active: int)
    requires
        1 <= area,
        0 <= active < n,
    ensures
        window_start(n, area, active) <= active < window_start(n, area, active) + area,
{
}

} // verus!
