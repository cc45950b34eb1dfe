//! The text of the sidebar: a framed panel with the session, date, clock and
//! mode on top, the scrolling tab list, and the tab count and build label at
//! the bottom, in the Catppuccin Mocha palette.

use vstd::prelude::*;

use crate::mark::{glyph_text, MarkKind};
use crate::marks::alive_marks;
use crate::numbers::{decimal, push_decimal, push_repeated, push_right2, repeated, right_aligned};
use crate::sidebar::{State, StateView, FOOT, HEAD};
use crate::strings::{push_char, same_text};
use crate::tab::{active_index, active_position, Tab, TabView};
use crate::text::{trunc, truncated};
use crate::timezone::{local_time, local_time_text};
use crate::viewport::{scroll_window, window_start};
use crate::width::{display_width, str_width};

verus! {

pub const MAUVE: &'static str = "\u{1b}[38;2;203;166;247m";

pub const BLUE: &'static str = "\u{1b}[38;2;137;180;250m";

pub const TEXT: &'static str = "\u{1b}[38;2;205;214;244m";

pub const SUBTEXT: &'static str = "\u{1b}[38;2;166;173;200m";

pub const OVERLAY1: &'static str = "\u{1b}[38;2;127;132;156m";

pub const OVERLAY0: &'static str = "\u{1b}[38;2;108;112;134m";

pub const GREEN: &'static str = "\u{1b}[38;2;166;227;161m";

pub const PEACH: &'static str = "\u{1b}[38;2;250;179;135m";

pub const YELLOW: &'static str = "\u{1b}[38;2;249;226;175m";

pub const SURFACE0_BG: &'static str = "\u{1b}[48;2;49;50;68m";

pub const BOLD: &'static str = "\u{1b}[1m";

pub const RESET: &'static str = "\u{1b}[0m";

/// Columns that a tab row spends before the name: the border, a 3-column
/// gutter, the 2-column index and a space.
pub const LEAD: usize = 6;

/// `a - b`, or 0 when `b` is larger.
pub open spec fn minus(a: int, b: int) -> int {
    if a >= b {
        a - b
    } else {
        0
    }
}

/// A horizontal rule of `n` columns.
pub open spec fn bar(n: int) -> Seq<char> {
    repeated('\u{2500}', n)
}

/// The flair after a tab's name: its rescue mark's glyph, then the sync and
/// bell indicators.
pub open spec fn flair_text(t: TabView, mark: Option<MarkKind>) -> Seq<char> {
    (match mark {
        Some(k) => if glyph_text(k).len() > 0 {
            seq![' '] + glyph_text(k)
        } else {
            seq![]
        },
        None => seq![],
    }) + (if t.is_sync_panes_active {
        " \u{1f517}"@
    } else {
        seq![]
    }) + (if t.has_bell_notification {
        " \u{1f514}"@
    } else {
        seq![]
    })
}

/// The row of an active tab: `body` on the highlight band, padded with spaces
/// to `inner` columns.
pub open spec fn active_row(body: Seq<char>, inner: int) -> Seq<char> {
    OVERLAY0@ + seq!['\u{2502}'] + SURFACE0_BG@ + MAUVE@ + BOLD@ + body + repeated(
        ' ',
        minus(inner, str_width(body) as int),
    ) + RESET@
}

/// The row of an inactive tab.
pub open spec fn inactive_row(idx: nat, name: Seq<char>, flair: Seq<char>) -> Seq<char> {
    OVERLAY0@ + seq!['\u{2502}'] + RESET@ + "   "@ + OVERLAY1@ + right_aligned(decimal(idx), 2)
        + RESET@ + seq![' '] + TEXT@ + name + YELLOW@ + flair + RESET@
}

/// The flair that a row of `inner` columns keeps: all of it when the lead and
/// the flair fit, none otherwise.
pub open spec fn kept_flair(t: TabView, mark: Option<MarkKind>, inner: int) -> Seq<char> {
    if LEAD + str_width(flair_text(t, mark)) <= inner {
        flair_text(t, mark)
    } else {
        seq![]
    }
}

/// The columns the kept flair takes.
pub open spec fn kept_flair_width(t: TabView, mark: Option<MarkKind>, inner: int) -> int {
    if LEAD + str_width(flair_text(t, mark)) <= inner {
        str_width(flair_text(t, mark)) as int
    } else {
        0
    }
}

/// The columns left for the name of tab `t` in a row of `inner` columns.
pub open spec fn name_budget(t: TabView, mark: Option<MarkKind>, inner: int) -> int {
    minus(inner, LEAD + kept_flair_width(t, mark, inner))
}

/// The row of tab `t`, shown at 1-based position `idx` in `inner` columns:
/// the flair is dropped when it leaves no room, and the name is truncated to
/// the columns left.
pub open spec fn tab_line_text(t: TabView, idx: nat, inner: int, mark: Option<MarkKind>) -> Seq<
    char,
> {
    let flair = kept_flair(t, mark, inner);
    let name = truncated(t.name, name_budget(t, mark, inner));
    if t.active {
        active_row(" \u{258c} "@ + right_aligned(decimal(idx), 2) + seq![' '] + name + flair, inner)
    } else {
        inactive_row(idx, name, flair)
    }
}

/// Append `s` to `out`.
fn push_text(out: &mut String, s: &str)
    ensures
        final(out)@ == old(out)@ + s@,
{
    out.append(s);
}

/// The flair of `tab` with rescue mark `mark`.
fn flair_of(tab: &Tab, mark: Option<MarkKind>) -> (flair: String)
    ensures
        flair@ == flair_text(tab@, mark),
{
    let mut flair = String::new();
    match mark {
        Some(k) => {
            let g = k.glyph();
            if !g.is_empty() {
                push_char(&mut flair, ' ');
                push_text(&mut flair, g);
            }
        },
        None => {},
    }
    let ghost first = flair@;
    if tab.is_sync_panes_active {
        push_text(&mut flair, " \u{1f517}");
    }
    let ghost second = flair@;
    if tab.has_bell_notification {
        push_text(&mut flair, " \u{1f514}");
    }
    assert(first =~= (match mark {
        Some(k) => if glyph_text(k).len() > 0 {
            seq![' '] + glyph_text(k)
        } else {
            seq![]
        },
        None => seq![],
    }));
    assert(second =~= first + (if tab.is_sync_panes_active {
        " \u{1f517}"@
    } else {
        seq![]
    }));
    assert(flair@ =~= second + (if tab.has_bell_notification {
        " \u{1f514}"@
    } else {
        seq![]
    }));
    flair
}

fn active_line(body: &str, inner: usize) -> (line: String)
    ensures
        line@ == active_row(body@, inner as int),
{
    let pad = inner.saturating_sub(display_width(body));
    let mut line = String::new();
    push_text(&mut line, OVERLAY0);
    push_char(&mut line, '\u{2502}');
    push_text(&mut line, SURFACE0_BG);
    push_text(&mut line, MAUVE);
    push_text(&mut line, BOLD);
    push_text(&mut line, body);
    push_repeated(&mut line, ' ', pad);
    push_text(&mut line, RESET);
    assert(line@ =~= active_row(body@, inner as int));
    line
}

fn inactive_line(idx: usize, name: &str, flair: &str) -> (line: String)
    ensures
        line@ == inactive_row(idx as nat, name@, flair@),
{
    let mut line = String::new();
    push_text(&mut line, OVERLAY0);
    push_char(&mut line, '\u{2502}');
    push_text(&mut line, RESET);
    push_text(&mut line, "   ");
    push_text(&mut line, OVERLAY1);
    push_right2(&mut line, idx);
    push_text(&mut line, RESET);
    push_char(&mut line, ' ');
    push_text(&mut line, TEXT);
    push_text(&mut line, name);
    push_text(&mut line, YELLOW);
    push_text(&mut line, flair);
    push_text(&mut line, RESET);
    assert(line@ =~= inactive_row(idx as nat, name@, flair@));
    line
}

/// The row of `tab` at 1-based position `idx` in `inner` columns, with the
/// glyph of its rescue mark, if any.
pub fn tab_line(tab: &Tab, idx: usize, inner: usize, mark: Option<MarkKind>) -> (line: String)
    ensures
        line@ == tab_line_text(tab@, idx as nat, inner as int, mark),
        str_width(truncated(tab@.name, name_budget(tab@, mark, inner as int))) <= name_budget(
            tab@,
            mark,
            inner as int,
        ),
        kept_flair(tab@, mark, inner as int).len() > 0 ==> LEAD + kept_flair_width(
            tab@,
            mark,
            inner as int,
        ) <= inner,
{
    let mut flair = flair_of(tab, mark);
    let mut flair_w = display_width(flair.as_str());
    if inner < LEAD || flair_w > inner - LEAD {
        flair = String::new();
        flair_w = 0;
    }
    assert(flair@ == kept_flair(tab@, mark, inner as int));
    assert(flair_w == kept_flair_width(tab@, mark, inner as int));
    let budget = inner.saturating_sub(LEAD + flair_w);
    assert(budget == minus(inner as int, LEAD + kept_flair_width(tab@, mark, inner as int)));
    let name = trunc(tab.name.as_str(), budget);
    if tab.active {
        let mut body = String::new();
        push_text(&mut body, " \u{258c} ");
        push_right2(&mut body, idx);
        push_char(&mut body, ' ');
        push_text(&mut body, name.as_str());
        push_text(&mut body, flair.as_str());
        assert(body@ =~= " \u{258c} "@ + right_aligned(decimal(idx as nat), 2) + seq![' '] + name@
            + flair@);
        active_line(body.as_str(), inner)
    } else {
        inactive_line(idx, name.as_str(), flair.as_str())
    }
}

/// The session name the header shows: `zellij` until the session is known.
pub open spec fn session_shown(session: Seq<char>) -> Seq<char> {
    if session.len() == 0 {
        "zellij"@
    } else {
        session
    }
}

/// The emoji of an input mode.
pub open spec fn mode_emoji(mode: Seq<char>) -> Seq<char> {
    if mode == "NORMAL"@ {
        "\u{1f513}"@
    } else if mode == "LOCKED"@ {
        "\u{1f512}"@
    } else if mode == "SCROLL"@ || mode == "SEARCH"@ || mode == "ENTERSEARCH"@ {
        "\u{1f50d}"@
    } else if mode == "RENAMETAB"@ || mode == "RENAMEPANE"@ {
        "\u{270f}\u{fe0f}"@
    } else {
        "\u{2699}\u{fe0f}"@
    }
}

/// The colour of an input mode's name.
pub open spec fn mode_colour(mode: Seq<char>) -> Seq<char> {
    if mode == "NORMAL"@ {
        GREEN@
    } else if mode == "LOCKED"@ {
        PEACH@
    } else {
        BLUE@
    }
}

/// The state of the rescue mark on the tab named `name`, if it has one.
pub open spec fn mark_of(s: StateView, name: Seq<char>) -> Option<MarkKind> {
    if s.marks.contains_key(name) {
        Some(s.marks[name].0)
    } else {
        None
    }
}

/// A row that shows only the left border.
pub open spec fn side_row() -> Seq<char> {
    OVERLAY0@ + seq!['\u{2502}'] + RESET@
}

/// A divider row of `inner` columns.
pub open spec fn divider_row(inner: int) -> Seq<char> {
    OVERLAY0@ + seq!['\u{251c}'] + bar(inner) + RESET@
}

/// The footer row that counts the tabs and the tabs above and below the
/// window.
pub open spec fn count_row(n: int, above: int, below: int) -> Seq<char> {
    OVERLAY0@ + seq!['\u{2502}'] + RESET@ + seq![' '] + OVERLAY1@ + "\u{f0312} "@ + decimal(
        n as nat,
    ) + " tabs"@ + (if above > 0 {
        "  \u{2191}"@ + decimal(above as nat)
    } else {
        seq![]
    }) + (if below > 0 {
        " \u{2193}"@ + decimal(below as nat)
    } else {
        seq![]
    }) + RESET@
}

/// The closing border, with the build label in it when it fits.
pub open spec fn bottom_row(label: Seq<char>, inner: int) -> Seq<char> {
    let w = str_width(label) as int;
    if inner >= w + 4 {
        OVERLAY0@ + "\u{2570}\u{2500} "@ + OVERLAY1@ + label + OVERLAY0@ + seq![' '] + bar(
            inner - (w + 3),
        ) + RESET@
    } else {
        OVERLAY0@ + seq!['\u{2570}'] + bar(inner) + RESET@
    }
}

/// The date the header shows at `now_ms`, in the sidebar's zone; blank when
/// chrono cannot place the instant in it.
pub open spec fn date_text(s: StateView, now_ms: int) -> Seq<char> {
    match local_time(now_ms, s.zone, "%a %d/%m"@) {
        Some(t) => t,
        None => seq![],
    }
}

/// The clock the header shows at `now_ms`, in the sidebar's zone; blank when
/// chrono cannot place the instant in it.
pub open spec fn clock_text(s: StateView, now_ms: int) -> Seq<char> {
    match local_time(now_ms, s.zone, "%H:%M:%S"@) {
        Some(t) => t,
        None => seq![],
    }
}

/// Row `row` of a sidebar of `rows` rows and `cols` columns in state `s` at
/// `now_ms`.
pub open spec fn frame_row(s: StateView, rows: int, cols: int, now_ms: int, row: int) -> Seq<char> {
    let inner = cols - 1;
    let n = s.tabs.len() as int;
    let area = rows - HEAD - FOOT;
    let start = s.scroll_start as int;
    let shown = if area < minus(n, start) {
        area
    } else {
        minus(n, start)
    };
    if row == 0 {
        OVERLAY0@ + seq!['\u{256d}'] + bar(inner) + RESET@
    } else if row == 1 {
        side_row() + " \u{1f3e0} "@ + MAUVE@ + BOLD@ + truncated(
            session_shown(s.session),
            minus(inner, 4),
        ) + RESET@
    } else if row == 2 {
        side_row() + " \u{1f4c5} "@ + SUBTEXT@ + date_text(s, now_ms) + RESET@
    } else if row == 3 {
        side_row() + " \u{1f552} "@ + SUBTEXT@ + clock_text(s, now_ms) + RESET@
    } else if row == 4 {
        side_row() + seq![' '] + mode_emoji(s.mode) + seq![' '] + mode_colour(s.mode) + BOLD@
            + s.mode + RESET@
    } else if row == 5 {
        divider_row(inner)
    } else if HEAD <= row < HEAD + area {
        let i = start + (row - HEAD);
        if i < n {
            tab_line_text(s.tabs[i], (i + 1) as nat, inner, mark_of(s, s.tabs[i].name))
        } else {
            side_row()
        }
    } else if row == rows - FOOT {
        divider_row(inner)
    } else if row == rows - FOOT + 1 {
        count_row(n, start, minus(n, start + shown))
    } else if row == rows - 1 {
        bottom_row(s.build_label, inner)
    } else {
        side_row()
    }
}

/// The name that row `r` shows, if any, fits the columns left for it: the
/// session name in the header, and the name of the tab on a tab row.
pub open spec fn names_fit(s: StateView, rows: int, cols: int, r: int) -> bool {
    let inner = cols - 1;
    let area = rows - HEAD - FOOT;
    &&& r == 1 ==> str_width(truncated(session_shown(s.session), minus(inner, 4))) <= minus(
        inner,
        4,
    )
    &&& (HEAD <= r < HEAD + area && s.scroll_start + (r - HEAD) < s.tabs.len()) ==> {
        let t = s.tabs[s.scroll_start + (r - HEAD)];
        let m = mark_of(s, t.name);
        str_width(truncated(t.name, name_budget(t, m, inner))) <= name_budget(t, m, inner)
    }
}

/// Whether a sidebar with `rows` rows and `cols` columns is drawn at all.
pub open spec fn drawable(s: StateView, rows: int, cols: int) -> bool {
    s.granted && cols >= 10 && rows >= HEAD + FOOT + 1
}

/// The state after a render: expired marks dropped, and the viewport of the
/// render remembered for clicks.
pub open spec fn after_render(s: StateView, rows: int, cols: int, now_ms: i64) -> StateView {
    if !drawable(s, rows, cols) {
        s
    } else {
        let area = rows - HEAD - FOOT;
        StateView {
            marks: alive_marks(s.marks, now_ms),
            tab_area_rows: area as usize,
            scroll_start: window_start(s.tabs.len() as int, area, active_index(s.tabs)) as usize,
            ..s
        }
    }
}

impl State {
    /// The lines of the sidebar in a pane of `rows` rows and `cols` columns at
    /// `now_ms`, with the date and clock of that instant in the sidebar's zone
    /// in the header; `None` when it is not drawn (no permission yet, or the
    /// pane is too small).
    pub fn render(&mut self, rows: usize, cols: usize, now_ms: i64) -> (lines: Option<Vec<String>>)
        ensures
            final(self)@ == after_render(old(self)@, rows as int, cols as int, now_ms),
            lines is Some <==> drawable(old(self)@, rows as int, cols as int),
            lines matches Some(ls) ==> ls.len() == rows && forall|r: int|
                0 <= r < rows ==> (#[trigger] ls@[r])@ == frame_row(
                    final(self)@,
                    rows as int,
                    cols as int,
                    now_ms as int,
                    r,
                ) && names_fit(final(self)@, rows as int, cols as int, r),
    {
        proof {
            self.lemma_view();
        }
        if !self.granted || cols < 10 || rows < HEAD + FOOT + 1 {
            return None;
        }
        let ghost before = self@;
        self.marks.sweep(now_ms);
        let n = self.tabs.len();
        let area = rows - HEAD - FOOT;
        self.tab_area_rows = area;
        let active = active_position(&self.tabs);
        let start = scroll_window(n, area, active);
        self.scroll_start = start;
        proof {
            if n > area {
                crate::viewport::lemma_window_in_bounds(n as int, area as int, active as int);
            }
        }
        proof {
            self.lemma_view();
        }
        assert(self@ == after_render(before, rows as int, cols as int, now_ms));
        let inner = cols - 1;
        let sess: &str = if self.session.as_str().is_empty() {
            "zellij"
        } else {
            self.session.as_str()
        };
        let room = n - start;
        let shown = if area < room {
            area
        } else {
            room
        };
        let below = n - start - shown;
        let date = match local_time_text(now_ms, self.zone.as_str(), "%a %d/%m") {
            Some(t) => t,
            None => String::new(),
        };
        let clock = match local_time_text(now_ms, self.zone.as_str(), "%H:%M:%S") {
            Some(t) => t,
            None => String::new(),
        };
        let mut lines: Vec<String> = Vec::new();
        let mut row: usize = 0;
        while row < rows
            invariant
                self@ == after_render(before, rows as int, cols as int, now_ms),
                drawable(before, rows as int, cols as int),
                row <= rows,
                lines@.len() == row,
                n == self@.tabs.len(),
                start == self@.scroll_start,
                start <= n,
                start + area <= usize::MAX,
                area == rows - HEAD - FOOT,
                inner == cols - 1,
                shown == (if area < minus(n as int, start as int) {
                    area as int
                } else {
                    minus(n as int, start as int)
                }),
                below == minus(n as int, start + shown),
                sess@ == session_shown(self@.session),
                date@ == date_text(self@, now_ms as int),
                clock@ == clock_text(self@, now_ms as int),
                forall|r: int|
                    0 <= r < row ==> (#[trigger] lines@[r])@ == frame_row(
                        self@,
                        rows as int,
                        cols as int,
                        now_ms as int,
                        r,
                    ) && names_fit(self@, rows as int, cols as int, r),
            decreases rows - row,
        {
            let line = self.row_text(
                row,
                rows,
                inner,
                sess,
                date.as_str(),
                clock.as_str(),
                now_ms,
                start,
                area,
                below,
            );
            lines.push(line);
            row = row + 1;
        }
        Some(lines)
    }

    /// Row `row` of the frame.
    fn row_text(
        &self,
        row: usize,
        rows: usize,
        inner: usize,
        sess: &str,
        date: &str,
        clock: &str,
        now_ms: i64,
        start: usize,
        area: usize,
        below: usize,
    ) -> (line: String)
        requires
            date@ == date_text(self@, now_ms as int),
            clock@ == clock_text(self@, now_ms as int),
            rows >= HEAD + FOOT + 1,
            row < rows,
            inner >= 9,
            area == rows - HEAD - FOOT,
            start == self@.scroll_start,
            start <= self@.tabs.len(),
            start + area <= usize::MAX,
            sess@ == session_shown(self@.session),
            below == minus(
                self@.tabs.len() as int,
                start + (if area < minus(self@.tabs.len() as int, start as int) {
                    area as int
                } else {
                    minus(self@.tabs.len() as int, start as int)
                }),
            ),
        ensures
            line@ == frame_row(self@, rows as int, inner + 1, now_ms as int, row as int),
            names_fit(self@, rows as int, inner + 1, row as int),
    {
        proof {
            self.lemma_view();
        }
        let mut line = String::new();
        if row == 0 {
            push_text(&mut line, OVERLAY0);
            push_char(&mut line, '\u{256d}');
            push_repeated(&mut line, '\u{2500}', inner);
            push_text(&mut line, RESET);
        } else if row == 1 {
            push_side(&mut line);
            push_text(&mut line, " \u{1f3e0} ");
            push_text(&mut line, MAUVE);
            push_text(&mut line, BOLD);
            let t = trunc(sess, inner - 4);
            push_text(&mut line, t.as_str());
            push_text(&mut line, RESET);
        } else if row == 2 {
            push_side(&mut line);
            push_text(&mut line, " \u{1f4c5} ");
            push_text(&mut line, SUBTEXT);
            push_text(&mut line, date);
            push_text(&mut line, RESET);
        } else if row == 3 {
            push_side(&mut line);
            push_text(&mut line, " \u{1f552} ");
            push_text(&mut line, SUBTEXT);
            push_text(&mut line, clock);
            push_text(&mut line, RESET);
        } else if row == 4 {
            push_side(&mut line);
            push_char(&mut line, ' ');
            push_text(&mut line, self.mode_emoji());
            push_char(&mut line, ' ');
            push_text(&mut line, self.mode_colour());
            push_text(&mut line, BOLD);
            push_text(&mut line, self.mode.as_str());
            push_text(&mut line, RESET);
        } else if row == 5 {
            push_divider(&mut line, inner);
        } else if row < HEAD + area {
            let i = start + (row - HEAD);
            if i < self.tabs.len() {
                let tab = &self.tabs[i];
                let mark = self.marks.get(tab.name.as_str());
                assert(self@.tabs[i as int] == tab@);
                return tab_line(tab, i + 1, inner, mark);
            } else {
                push_side(&mut line);
            }
        } else if row == rows - FOOT {
            push_divider(&mut line, inner);
        } else if row == rows - FOOT + 1 {
            push_side(&mut line);
            push_char(&mut line, ' ');
            push_text(&mut line, OVERLAY1);
            push_text(&mut line, "\u{f0312} ");
            push_decimal(&mut line, self.tabs.len() as u64);
            push_text(&mut line, " tabs");
            if start > 0 {
                push_text(&mut line, "  \u{2191}");
                push_decimal(&mut line, start as u64);
            }
            if below > 0 {
                push_text(&mut line, " \u{2193}");
                push_decimal(&mut line, below as u64);
            }
            push_text(&mut line, RESET);
        } else if row == rows - 1 {
            let lw = display_width(self.build_label.as_str());
            if lw <= inner - 4 {
                push_text(&mut line, OVERLAY0);
                push_text(&mut line, "\u{2570}\u{2500} ");
                push_text(&mut line, OVERLAY1);
                push_text(&mut line, self.build_label.as_str());
                push_text(&mut line, OVERLAY0);
                push_char(&mut line, ' ');
                push_repeated(&mut line, '\u{2500}', inner - (lw + 3));
                push_text(&mut line, RESET);
            } else {
                push_text(&mut line, OVERLAY0);
                push_char(&mut line, '\u{2570}');
                push_repeated(&mut line, '\u{2500}', inner);
                push_text(&mut line, RESET);
            }
        } else {
            push_side(&mut line);
        }
        line
    }

    fn mode_emoji(&self) -> (e: &'static str)
        ensures
            e@ == mode_emoji(self@.mode),
    {
        proof {
            self.lemma_view();
        }
        let m = self.mode.as_str();
        if same_text(m, "NORMAL") {
            "\u{1f513}"
        } else if same_text(m, "LOCKED") {
            "\u{1f512}"
        } else if same_text(m, "SCROLL") || same_text(m, "SEARCH") || same_text(m, "ENTERSEARCH") {
            "\u{1f50d}"
        } else if same_text(m, "RENAMETAB") || same_text(m, "RENAMEPANE") {
            "\u{270f}\u{fe0f}"
        } else {
            "\u{2699}\u{fe0f}"
        }
    }

    fn mode_colour(&self) -> (c: &'static str)
        ensures
            c@ == mode_colour(self@.mode),
    {
        proof {
            self.lemma_view();
        }
        let m = self.mode.as_str();
        if same_text(m, "NORMAL") {
            GREEN
        } else if same_text(m, "LOCKED") {
            PEACH
        } else {
            BLUE
        }
    }
}

fn push_side(out: &mut String)
    ensures
        final(out)@ == old(out)@ + side_row(),
{
    push_text(out, OVERLAY0);
    push_char(out, '\u{2502}');
    push_text(out, RESET);
    assert(final(out)@ =~= old(out)@ + side_row());
}

fn push_divider(out: &mut String, inner: usize)
    ensures
        final(out)@ == old(out)@ + divider_row(inner as int),
{
    push_text(out, OVERLAY0);
    push_char(out, '\u{251c}');
    push_repeated(out, '\u{2500}', inner);
    push_text(out, RESET);
    assert(final(out)@ =~= old(out)@ + divider_row(inner as int));
}

/// The header's mode row, for every state: the mode's emoji, then the mode's
/// name in bold. Normal mode shows an open lock in green and locked mode a
/// closed lock in peach; scroll, search and entering a search show a
/// magnifier, renaming a tab or a pane a pencil, and any other mode a gear,
/// those three in blue.
pub proof fn lemma_mode_row(s: StateView, rows: int, cols: int, now_ms: int)
    ensures
        ({
            let row = frame_row(s, rows, cols, now_ms, 4);
            let lead = OVERLAY0@ + seq!['\u{2502}'] + RESET@ + seq![' '];
            let tail = BOLD@ + s.mode + RESET@;
            let known = s.mode == "NORMAL"@ || s.mode == "LOCKED"@ || s.mode == "SCROLL"@
                || s.mode == "SEARCH"@ || s.mode == "ENTERSEARCH"@ || s.mode == "RENAMETAB"@
                || s.mode == "RENAMEPANE"@;
            &&& s.mode == "NORMAL"@ ==> row == lead + seq!['\u{1f513}', ' '] + GREEN@ + tail
            &&& s.mode == "LOCKED"@ ==> row == lead + seq!['\u{1f512}', ' '] + PEACH@ + tail
            &&& (s.mode == "SCROLL"@ || s.mode == "SEARCH"@ || s.mode == "ENTERSEARCH"@) ==> row
                == lead + seq!['\u{1f50d}', ' '] + BLUE@ + tail
            &&& (s.mode == "RENAMETAB"@ || s.mode == "RENAMEPANE"@) ==> row == lead + seq![
                '\u{270f}',
                '\u{fe0f}',
                ' ',
            ] + BLUE@ + tail
            &&& !known ==> row == lead + seq!['\u{2699}', '\u{fe0f}', ' '] + BLUE@ + tail
        }),
{
    reveal_strlit("NORMAL");
    reveal_strlit("LOCKED");
    reveal_strlit("SCROLL");
    reveal_strlit("SEARCH");
    reveal_strlit("ENTERSEARCH");
    reveal_strlit("RENAMETAB");
    reveal_strlit("RENAMEPANE");
    reveal_strlit("\u{1f513}");
    reveal_strlit("\u{1f512}");
    reveal_strlit("\u{1f50d}");
    reveal_strlit("\u{270f}\u{fe0f}");
    reveal_strlit("\u{2699}\u{fe0f}");
    let lead = OVERLAY0@ + seq!['\u{2502}'] + RESET@ + seq![' '];
    let tail = BOLD@ + s.mode + RESET@;
    let row = frame_row(s, rows, cols, now_ms, 4);
    // The mode names differ in their first two letters or their length.
    assert("NORMAL"@[0] == 'N' && "LOCKED"@[0] == 'L' && "SCROLL"@[0] == 'S');
    assert("SEARCH"@[0] == 'S' && "ENTERSEARCH"@[0] == 'E' && "RENAMETAB"@[0] == 'R');
    assert("RENAMEPANE"@[0] == 'R' && "SCROLL"@[1] == 'C' && "SEARCH"@[1] == 'E');
    assert("RENAMETAB"@.len() == 9 && "RENAMEPANE"@.len() == 10);
    let e = mode_emoji(s.mode);
    let c = mode_colour(s.mode);
    assert(row =~= lead + (e + seq![' ']) + c + tail);
    if s.mode == "NORMAL"@ {
        assert(e + seq![' '] =~= seq!['\u{1f513}', ' ']);
    } else if s.mode == "LOCKED"@ {
        assert(e + seq![' '] =~= seq!['\u{1f512}', ' ']);
    } else if s.mode == "SCROLL"@ || s.mode == "SEARCH"@ || s.mode == "ENTERSEARCH"@ {
        assert(e + seq![' '] =~= seq!['\u{1f50d}', ' ']);
    } else if s.mode == "RENAMETAB"@ || s.mode == "RENAMEPANE"@ {
        assert(e + seq![' '] =~= seq!['\u{270f}', '\u{fe0f}', ' ']);
    } else {
        assert(e + seq![' '] =~= seq!['\u{2699}', '\u{fe0f}', ' ']);
    }
}

/// `a + b` holds `c` exactly when `a` or `b` does.
proof fn lemma_concat_contains(a: Seq<char>, b: Seq<char>, c: char)
    ensures
        (a + b).contains(c) <==> a.contains(c) || b.contains(c),
{
    if (a + b).contains(c) {
        let i = choose|i: int| 0 <= i < (a + b).len() && (a + b)[i] == c;
        if i < a.len() {
            assert(a[i] == c);
        } else {
            assert(b[i - a.len()] == c);
        }
    }
    if a.contains(c) {
        let i = choose|i: int| 0 <= i < a.len() && a[i] == c;
        assert((a + b)[i] == c);
    }
    if b.contains(c) {
        let i = choose|i: int| 0 <= i < b.len() && b[i] == c;
        assert((a + b)[a.len() + i] == c);
    }
}

/// A tab's flair shows the link glyph exactly when its panes are synced and
/// the bell glyph exactly when it rang, whatever its rescue mark; with no
/// mark it is those two indicators alone, each after a space, the link first.
pub proof fn lemma_flair_indicators(t: TabView, mark: Option<MarkKind>)
    ensures
        flair_text(t, mark).contains('\u{1f517}') <==> t.is_sync_panes_active,
        flair_text(t, mark).contains('\u{1f514}') <==> t.has_bell_notification,
        mark is None ==> flair_text(t, mark) == (if t.is_sync_panes_active {
            seq![' ', '\u{1f517}']
        } else {
            seq![]
        }) + (if t.has_bell_notification {
            seq![' ', '\u{1f514}']
        } else {
            seq![]
        }),
{
    reveal_strlit(" \u{1f517}");
    reveal_strlit(" \u{1f514}");
    let g: Seq<char> = match mark {
        Some(k) => if glyph_text(k).len() > 0 {
            seq![' '] + glyph_text(k)
        } else {
            seq![]
        },
        None => seq![],
    };
    let link: Seq<char> = if t.is_sync_panes_active {
        " \u{1f517}"@
    } else {
        seq![]
    };
    let bell: Seq<char> = if t.has_bell_notification {
        " \u{1f514}"@
    } else {
        seq![]
    };
    assert(flair_text(t, mark) == g + link + bell);
    assert(!g.contains('\u{1f517}') && !g.contains('\u{1f514}')) by {
        match mark {
            Some(k) => {
                if glyph_text(k).len() > 0 {
                    assert(g =~= seq![' ', glyph_text(k)[0]]);
                }
            },
            None => {},
        }
    }
    assert(link.contains('\u{1f517}') <==> t.is_sync_panes_active) by {
        if t.is_sync_panes_active {
            assert(link[1] == '\u{1f517}');
        }
    }
    assert(!link.contains('\u{1f514}'));
    assert(bell.contains('\u{1f514}') <==> t.has_bell_notification) by {
        if t.has_bell_notification {
            assert(bell[1] == '\u{1f514}');
        }
    }
    assert(!bell.contains('\u{1f517}'));
    lemma_concat_contains(g, link, '\u{1f517}');
    lemma_concat_contains(g + link, bell, '\u{1f517}');
    lemma_concat_contains(g, link, '\u{1f514}');
    lemma_concat_contains(g + link, bell, '\u{1f514}');
    if mark is None {
        assert(g + link + bell =~= link + bell);
    }
}

/// After a render, the focused tab lies inside the window of rows the render
/// drew, and the window never runs past the last tab.
pub proof fn lemma_render_shows_active(s: StateView, rows: int, cols: int, now_ms: i64)
    requires
        drawable(s, rows, cols),
        0 < s.tabs.len() <= usize::MAX,
        rows <= usize::MAX,
    ensures
        ({
            let t = after_render(s, rows, cols, now_ms);
            &&& t.scroll_start <= active_index(t.tabs) < t.scroll_start + t.tab_area_rows
            &&& (t.scroll_start + t.tab_area_rows <= t.tabs.len() || t.scroll_start == 0)
        }),
{
    let area = rows - HEAD - FOOT;
    let n = s.tabs.len() as int;
    crate::tab::lemma_first_active(s.tabs);
    crate::viewport::lemma_window_contains_active(n, area, active_index(s.tabs));
    if n > area {
        crate::viewport::lemma_window_in_bounds(n, area, active_index(s.tabs));
    }
}

/// Clicking a row of the tab list switches to the tab that the last render
/// drew on that row.
pub proof fn lemma_click_selects_drawn_tab(
    s: StateView,
    rows: int,
    cols: int,
    now_ms: i64,
    row: usize,
)
    requires
        drawable(s, rows, cols),
        rows <= usize::MAX,
        s.tabs.len() <= usize::MAX,
        ({
            let t = after_render(s, rows, cols, now_ms);
            &&& HEAD <= row < HEAD + t.tab_area_rows
            &&& t.scroll_start + (row - HEAD) < t.tabs.len()
        }),
    ensures
        ({
            let t = after_render(s, rows, cols, now_ms);
            let i = t.scroll_start + (row - HEAD);
            &&& crate::sidebar::clicked_tab(t, row) == Some((i + 1) as usize)
            &&& frame_row(t, rows, cols, now_ms as int, row as int) == tab_line_text(
                t.tabs[i],
                (i + 1) as nat,
                cols - 1,
                mark_of(t, t.tabs[i].name),
            )
        }),
{
}

} // verus!
