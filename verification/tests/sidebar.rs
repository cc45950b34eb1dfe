use chrono::DateTime;
use std::collections::BTreeMap;
use unicode_width::UnicodeWidthStr;
use zellij_vertical_tabs::{
    resolve_timezone, tab_line, trunc, MarkKind, Reaction, SidebarEvent, State, Tab,
};

const MAUVE: &str = "\u{1b}[38;2;203;166;247m";
const BLUE: &str = "\u{1b}[38;2;137;180;250m";
const TEXT: &str = "\u{1b}[38;2;205;214;244m";
const SUBTEXT: &str = "\u{1b}[38;2;166;173;200m";
const OVERLAY1: &str = "\u{1b}[38;2;127;132;156m";
const OVERLAY0: &str = "\u{1b}[38;2;108;112;134m";
const GREEN: &str = "\u{1b}[38;2;166;227;161m";
const PEACH: &str = "\u{1b}[38;2;250;179;135m";
const YELLOW: &str = "\u{1b}[38;2;249;226;175m";
const SURFACE0_BG: &str = "\u{1b}[48;2;49;50;68m";
const BOLD: &str = "\u{1b}[1m";
const RESET: &str = "\u{1b}[0m";
const LABEL: &str = "0.1.0@dev";

fn tab(name: &str, active: bool) -> Tab {
    Tab {
        position: 0,
        name: name.to_string(),
        active,
        panes_to_hide: 0,
        is_fullscreen_active: false,
        is_sync_panes_active: false,
        are_floating_panes_visible: false,
        other_focused_clients: Vec::new(),
        active_swap_layout_name: None,
        is_swap_layout_dirty: false,
        viewport_rows: 0,
        viewport_columns: 0,
        display_area_rows: 0,
        display_area_columns: 0,
        selectable_tiled_panes_count: 0,
        selectable_floating_panes_count: 0,
        tab_id: 0,
        has_bell_notification: false,
        is_flashing_bell: false,
    }
}

fn tabs(names: &[&str], active: usize) -> Vec<Tab> {
    names
        .iter()
        .enumerate()
        .map(|(i, n)| {
            let mut t = tab(n, i == active);
            t.position = i;
            t
        })
        .collect()
}

fn ready_state(names: &[&str], active: usize, now: i64) -> State {
    let mut s = State::new(LABEL.to_string());
    s.update(SidebarEvent::PermissionResult, now);
    s.update(
        SidebarEvent::ModeUpdate { session: Some("work".to_string()), mode: "Normal".to_string() },
        now,
    );
    s.update(SidebarEvent::TabUpdate(tabs(names, active)), now);
    s
}

fn reaction(r: &Reaction) -> (bool, bool, Option<String>, Option<usize>) {
    (r.render, r.arm_timer, r.manifest.clone(), r.switch_to)
}

// The row of a tab, written the way the plugin writes it with `format!`.
fn expected_tab_line(t: &Tab, idx: usize, inner: usize, mark: Option<MarkKind>) -> String {
    let mut flair = String::new();
    if let Some(g) = mark.map(MarkKind::glyph).filter(|g| !g.is_empty()) {
        flair.push(' ');
        flair.push_str(g);
    }
    if t.is_sync_panes_active {
        flair.push_str(" \u{1f517}");
    }
    if t.has_bell_notification {
        flair.push_str(" \u{1f514}");
    }
    const LEAD: usize = 6;
    let mut flair_w = UnicodeWidthStr::width(flair.as_str());
    if LEAD + flair_w > inner {
        flair.clear();
        flair_w = 0;
    }
    let name = trunc(&t.name, inner.saturating_sub(LEAD + flair_w));
    if t.active {
        let body = format!(" \u{258c} {idx:>2} {name}{flair}");
        let pad = inner.saturating_sub(UnicodeWidthStr::width(body.as_str()));
        format!("{OVERLAY0}\u{2502}{SURFACE0_BG}{MAUVE}{BOLD}{body}{}{RESET}", " ".repeat(pad))
    } else {
        format!(
            "{OVERLAY0}\u{2502}{RESET}   {OVERLAY1}{idx:>2}{RESET} {TEXT}{name}{YELLOW}{flair}{RESET}"
        )
    }
}

// The frame, written the way the plugin writes it with `format!`.
#[allow(clippy::too_many_arguments)]
fn expected_frame(
    tabs: &[Tab],
    session: &str,
    mode: &str,
    marks: &BTreeMap<String, MarkKind>,
    rows: usize,
    cols: usize,
    now_ms: i64,
    zone: &str,
) -> Vec<String> {
    let tz: chrono_tz::Tz = zone.parse().unwrap();
    let now = DateTime::from_timestamp_millis(now_ms).unwrap().with_timezone(&tz);
    let date = now.format("%a %d/%m").to_string();
    let clock = now.format("%H:%M:%S").to_string();
    const HEAD: usize = 6;
    const FOOT: usize = 3;
    let inner = cols.saturating_sub(1);
    let bar = |n: usize| "\u{2500}".repeat(n);
    let sess = if session.is_empty() { "zellij" } else { session };
    let (mode_emoji, mode_col) = match mode {
        "NORMAL" => ("\u{1f513}", GREEN),
        "LOCKED" => ("\u{1f512}", PEACH),
        "SCROLL" | "SEARCH" | "ENTERSEARCH" => ("\u{1f50d}", BLUE),
        "RENAMETAB" | "RENAMEPANE" => ("\u{270f}\u{fe0f}", BLUE),
        _ => ("\u{2699}\u{fe0f}", BLUE),
    };
    let n = tabs.len();
    let tab_area = rows - HEAD - FOOT;
    let active = tabs.iter().position(|t| t.active).unwrap_or(0);
    let start = zellij_vertical_tabs::scroll_window(n, tab_area, active);
    let shown = tab_area.min(n.saturating_sub(start));
    let above = start;
    let below = n.saturating_sub(start + shown);
    let mut out = Vec::new();
    for row in 0..rows {
        let line = if row == 0 {
            format!("{OVERLAY0}\u{256d}{}{RESET}", bar(inner))
        } else if row == 1 {
            format!(
                "{OVERLAY0}\u{2502}{RESET} \u{1f3e0} {MAUVE}{BOLD}{}{RESET}",
                trunc(sess, inner.saturating_sub(4))
            )
        } else if row == 2 {
            format!("{OVERLAY0}\u{2502}{RESET} \u{1f4c5} {SUBTEXT}{date}{RESET}")
        } else if row == 3 {
            format!("{OVERLAY0}\u{2502}{RESET} \u{1f552} {SUBTEXT}{clock}{RESET}")
        } else if row == 4 {
            format!("{OVERLAY0}\u{2502}{RESET} {} {mode_col}{BOLD}{}{RESET}", mode_emoji, mode)
        } else if row == 5 {
            format!("{OVERLAY0}\u{251c}{}{RESET}", bar(inner))
        } else if row >= HEAD && row < HEAD + tab_area {
            let i = start + (row - HEAD);
            match tabs.get(i) {
                Some(t) => expected_tab_line(t, i + 1, inner, marks.get(&t.name).copied()),
                None => format!("{OVERLAY0}\u{2502}{RESET}"),
            }
        } else if row == rows - FOOT {
            format!("{OVERLAY0}\u{251c}{}{RESET}", bar(inner))
        } else if row == rows - FOOT + 1 {
            let mut s = format!("{OVERLAY0}\u{2502}{RESET} {OVERLAY1}\u{f0312} {} tabs", n);
            if above > 0 {
                s.push_str(&format!("  \u{2191}{}", above));
            }
            if below > 0 {
                s.push_str(&format!(" \u{2193}{}", below));
            }
            s.push_str(RESET);
            s
        } else if row == rows - 1 {
            let lw = UnicodeWidthStr::width(LABEL);
            if inner >= lw + 4 {
                format!(
                    "{OVERLAY0}\u{2570}\u{2500} {OVERLAY1}{LABEL}{OVERLAY0} {}{RESET}",
                    bar(inner.saturating_sub(lw + 3))
                )
            } else {
                format!("{OVERLAY0}\u{2570}{}{RESET}", bar(inner))
            }
        } else {
            format!("{OVERLAY0}\u{2502}{RESET}")
        };
        out.push(line);
    }
    out
}

#[test]
fn render_matches_the_plugin_layout() {
    let names = ["main", "build \u{1f528}", "a very long tab name that will not fit", "logs"];
    let marks = BTreeMap::new();
    let now = 1_700_000_123_456;
    for zone in ["UTC", "America/Recife", "Asia/Kolkata"] {
        for rows in [10usize, 11, 12, 20] {
            for cols in [10usize, 14, 20, 24, 40] {
                for active in 0..names.len() {
                    let mut s = ready_state(&names, active, 1_000);
                    s.load(Some(zone), None, now);
                    let got = s.render(rows, cols, now).unwrap();
                    let want = expected_frame(
                        &tabs(&names, active),
                        "work",
                        "NORMAL",
                        &marks,
                        rows,
                        cols,
                        now,
                        zone,
                    );
                    assert_eq!(got, want, "zone {zone} rows {rows} cols {cols} active {active}");
                }
            }
        }
    }
}

#[test]
fn render_scrolls_with_many_tabs() {
    let names: Vec<String> = (0..30).map(|i| format!("tab{i}")).collect();
    let refs: Vec<&str> = names.iter().map(|s| s.as_str()).collect();
    let mut s = ready_state(&refs, 20, 0);
    let got = s.render(15, 30, 0).unwrap();
    let want = expected_frame(&tabs(&refs, 20), "work", "NORMAL", &BTreeMap::new(), 15, 30, 0, "UTC");
    assert_eq!(got, want);
    // window of 6 rows centred on tab 20 -> starts at 17; 17 above, 7 below
    assert!(got[13].contains("30 tabs  \u{2191}17 \u{2193}7"));
}

#[test]
fn render_needs_permission_and_room() {
    let mut s = State::new(LABEL.to_string());
    assert!(s.render(20, 30, 0).is_none());
    s.update(SidebarEvent::PermissionResult, 0);
    assert!(s.render(9, 30, 0).is_none());
    assert!(s.render(20, 9, 0).is_none());
    let lines = s.render(10, 10, 0).unwrap();
    assert_eq!(lines.len(), 10);
    // no session yet: the header shows "zellij", cut to the 5 columns left
    assert!(lines[1].contains("zell\u{2026}"));
    let lines = s.render(10, 20, 0).unwrap();
    assert!(lines[1].contains("zellij"));
}

#[test]
fn render_shows_modes() {
    for (mode, shown) in [
        ("Normal", "NORMAL"),
        ("Locked", "LOCKED"),
        ("Scroll", "SCROLL"),
        ("EnterSearch", "ENTERSEARCH"),
        ("RenameTab", "RENAMETAB"),
        ("Pane", "PANE"),
    ] {
        let mut s = ready_state(&["a"], 0, 0);
        s.update(SidebarEvent::ModeUpdate { session: Some("work".into()), mode: mode.into() }, 0);
        let got = s.render(12, 20, 0).unwrap();
        let want =
            expected_frame(&tabs(&["a"], 0), "work", shown, &BTreeMap::new(), 12, 20, 0, "UTC");
        assert_eq!(got, want);
    }
}

#[test]
fn tab_line_flair_and_truncation() {
    let mut t = tab("a rather long name", false);
    t.is_sync_panes_active = true;
    t.has_bell_notification = true;
    for inner in 0..30 {
        for mark in [None, Some(MarkKind::Done), Some(MarkKind::Fail), Some(MarkKind::Clear)] {
            for active in [false, true] {
                t.active = active;
                assert_eq!(tab_line(&t, 3, inner, mark), expected_tab_line(&t, 3, inner, mark));
                assert_eq!(tab_line(&t, 12, inner, mark), expected_tab_line(&t, 12, inner, mark));
            }
        }
    }
    // too narrow for the flair: it is dropped and the name keeps the room
    let line = tab_line(&t, 1, 10, Some(MarkKind::Done));
    assert!(!line.contains('\u{2705}'));
    assert!(line.contains("a \u{2026}") || line.contains("a\u{2026}") || line.contains('\u{2026}'));
}

#[test]
fn timer_ticks_only_while_visible() {
    let mut s = State::new(LABEL.to_string());
    assert!(s.arm(0));
    assert!(!s.arm(10));
    // a tick 1 s later re-arms and renders
    assert_eq!(reaction(&s.update(SidebarEvent::Timer, 1_000)), (true, true, None, None));
    // a duplicate tick within 900 ms of the arm is dropped
    assert_eq!(reaction(&s.update(SidebarEvent::Timer, 1_500)), (false, false, None, None));
    // hidden: the next tick parks the chain
    assert_eq!(reaction(&s.update(SidebarEvent::Visible(false), 1_600)), (false, false, None, None));
    assert_eq!(reaction(&s.update(SidebarEvent::Timer, 2_000)), (false, false, None, None));
    // while hidden nothing re-arms
    assert_eq!(reaction(&s.update(SidebarEvent::TabUpdate(tabs(&["a"], 0)), 3_000)).1, false);
    // shown again: the chain restarts at once
    assert_eq!(reaction(&s.update(SidebarEvent::Visible(true), 4_000)), (true, true, None, None));
}

#[test]
fn dead_tick_chain_heals() {
    let mut s = State::new(LABEL.to_string());
    assert!(s.arm(0));
    // the timer event was lost; 5 s later nothing has re-armed it
    let r = s.update(SidebarEvent::TabUpdate(Vec::new()), 5_000);
    assert!(!r.arm_timer);
    let r = s.update(SidebarEvent::TabUpdate(Vec::new()), 5_001);
    assert!(r.arm_timer);
    assert!(!r.render);
}

#[test]
fn manifest_mirrors_tabs() {
    let mut s = State::new(LABEL.to_string());
    // no session known yet: nothing written
    let r = s.update(SidebarEvent::TabUpdate(tabs(&["a"], 0)), 7);
    assert!(r.render);
    assert_eq!(r.manifest, None);
    let r = s.update(
        SidebarEvent::ModeUpdate { session: Some("work".into()), mode: "Normal".into() },
        42,
    );
    assert_eq!(
        r.manifest.as_deref(),
        Some(
            "# zellij-vertical-tabs tab manifest v1\nplugin: 0.1.0@dev\nsession: work\n\
             written_ms: 42\ntabs: 1\n1\t*\ta\n"
        )
    );
    let r = s.update(SidebarEvent::TabUpdate(tabs(&["x\ty", "new\nline"], 1)), -5);
    assert_eq!(
        r.manifest.as_deref(),
        Some(
            "# zellij-vertical-tabs tab manifest v1\nplugin: 0.1.0@dev\nsession: work\n\
             written_ms: -5\ntabs: 2\n1\t-\tx y\n2\t*\tnew line\n"
        )
    );
    // the same tabs again: no render, no manifest
    let r = s.update(SidebarEvent::TabUpdate(tabs(&["x\ty", "new\nline"], 1)), 50);
    assert!(!r.render);
    assert_eq!(r.manifest, None);
    // any field differs: a change
    let mut changed = tabs(&["x\ty", "new\nline"], 1);
    changed[0].viewport_rows = 3;
    assert!(s.update(SidebarEvent::TabUpdate(changed), 60).render);
}

#[test]
fn manifest_refreshes_once_a_minute() {
    let mut s = ready_state(&["a"], 0, 0);
    assert!(s.arm(0) || true);
    let r = s.update(SidebarEvent::Timer, 30_000);
    assert_eq!(r.manifest, None);
    let r = s.update(SidebarEvent::Timer, 61_000);
    assert!(r.manifest.unwrap().contains("written_ms: 61000\n"));
}

#[test]
fn hidden_instance_writes_no_manifest() {
    let mut s = ready_state(&["a"], 0, 0);
    s.update(SidebarEvent::Visible(false), 0);
    let r = s.update(SidebarEvent::TabUpdate(tabs(&["a", "b"], 0)), 10);
    assert!(r.render);
    assert_eq!(r.manifest, None);
}

#[test]
fn clicks_and_wheel_switch_tabs() {
    let names = ["a", "b", "c", "d", "e", "f", "g", "h"];
    let mut s = ready_state(&names, 6, 0);
    let lines = s.render(12, 20, 0).unwrap();
    // the rows clicked below show the tabs they switch to
    assert!(lines[6].ends_with(&format!("{TEXT}f{YELLOW}{RESET}")));
    assert!(lines[8].ends_with(&format!("{TEXT}h{YELLOW}{RESET}")));
    // 3 rows of tabs, window centred on index 6 -> starts at 5
    assert_eq!(s.update(SidebarEvent::LeftClick(6), 0).switch_to, Some(6));
    assert_eq!(s.update(SidebarEvent::LeftClick(8), 0).switch_to, Some(8));
    assert_eq!(s.update(SidebarEvent::LeftClick(9), 0).switch_to, None);
    assert_eq!(s.update(SidebarEvent::LeftClick(5), 0).switch_to, None);
    assert_eq!(s.update(SidebarEvent::LeftClick(usize::MAX), 0).switch_to, None);
    assert_eq!(s.update(SidebarEvent::ScrollUp, 0).switch_to, Some(6));
    assert_eq!(s.update(SidebarEvent::ScrollDown, 0).switch_to, Some(8));
    let mut last = ready_state(&names, 7, 0);
    assert_eq!(last.update(SidebarEvent::ScrollDown, 0).switch_to, Some(1));
    let mut first = ready_state(&names, 0, 0);
    assert_eq!(first.update(SidebarEvent::ScrollUp, 0).switch_to, Some(8));
    let mut none = ready_state(&[], 0, 0);
    assert_eq!(none.update(SidebarEvent::ScrollUp, 0).switch_to, None);
    assert_eq!(none.update(SidebarEvent::Other, 0).render, false);
}

#[test]
fn rescue_marks_paint_and_expire() {
    let names = ["build", "logs"];
    let mut s = ready_state(&names, 0, 0);
    assert!(s.pipe("rescue-mark", Some("build:wip"), 1_000));
    assert!(!s.pipe("other", Some("build:ok"), 1_000));
    assert!(!s.pipe("rescue-mark", None, 1_000));
    assert!(!s.pipe("rescue-mark", Some("build:nope"), 1_000));
    // unknown tabs are not marked
    assert!(s.pipe("rescue-mark", Some("ghost:fail"), 1_000));
    let mut marks = BTreeMap::new();
    marks.insert("build".to_string(), MarkKind::Wip);
    let got = s.render(12, 30, 2_000).unwrap();
    assert_eq!(got, expected_frame(&tabs(&names, 0), "work", "NORMAL", &marks, 12, 30, 2_000, "UTC"));
    assert!(got[6].contains('\u{23f3}'));
    // refresh, then let it expire after 15 minutes
    assert!(s.pipe("rescue-mark", Some("build:ok"), 10_000));
    let got = s.render(12, 30, 10_000 + 899_999).unwrap();
    assert!(got[6].contains('\u{2705}'));
    let got = s.render(12, 30, 10_000 + 900_000).unwrap();
    assert!(!got[6].contains('\u{2705}'));
    // clear one, and clear all
    assert!(s.pipe("rescue-mark", Some("build:fail"), 0));
    assert!(s.pipe("rescue-mark", Some("logs:ok"), 0));
    assert!(s.pipe("rescue-mark", Some("build:clear"), 0));
    let got = s.render(12, 30, 0).unwrap();
    assert!(!got[6].contains('\u{274c}'));
    assert!(got[7].contains('\u{2705}'));
    assert!(s.pipe("rescue-mark", Some("*:clear"), 0));
    let got = s.render(12, 30, 0).unwrap();
    assert!(!got[7].contains('\u{2705}'));
    // a hidden instance stores the mark but does not ask to render
    s.update(SidebarEvent::Visible(false), 0);
    assert!(!s.pipe("rescue-mark", Some("logs:ok"), 0));
}

#[test]
fn rescue_marks_are_capped() {
    let names: Vec<String> = (0..200).map(|i| format!("t{i}")).collect();
    let refs: Vec<&str> = names.iter().map(|s| s.as_str()).collect();
    let mut s = ready_state(&refs, 0, 0);
    for n in &names {
        s.pipe("rescue-mark", Some(&format!("{n}:ok")), 0);
    }
    let got = s.render(300, 40, 0).unwrap();
    let marked = got.iter().filter(|l| l.contains('\u{2705}')).count();
    assert_eq!(marked, 128);
    // an existing key may always refresh
    assert!(s.pipe("rescue-mark", Some("t0:fail"), 0));
    let got = s.render(300, 40, 0).unwrap();
    assert!(got[6].contains('\u{274c}'));
}

#[test]
fn timezone_choice() {
    assert_eq!(resolve_timezone(Some("Europe/Lisbon"), Some("Asia/Tokyo")), "Europe/Lisbon");
    assert_eq!(resolve_timezone(None, Some("Asia/Tokyo")), "Asia/Tokyo");
    assert_eq!(resolve_timezone(None, None), "America/Recife");
    assert_eq!(resolve_timezone(Some("Mars/Olympus"), None), "UTC");
    assert_eq!(resolve_timezone(Some("europe/lisbon"), None), "UTC");
}

#[test]
fn header_shows_the_local_date_and_clock() {
    let mut s = ready_state(&["a"], 0, 0);
    // 2023-11-14 22:13:20 UTC
    let now = 1_700_000_000_000;
    let lines = s.render(12, 30, now).unwrap();
    assert!(lines[2].contains("Tue 14/11"));
    assert!(lines[3].contains("22:13:20"));
    s.load(Some("America/Recife"), Some("Asia/Tokyo"), now);
    let lines = s.render(12, 30, now).unwrap();
    assert!(lines[2].contains("Tue 14/11"));
    assert!(lines[3].contains("19:13:20"));
    s.load(None, Some("Asia/Tokyo"), now);
    let lines = s.render(12, 30, now).unwrap();
    assert!(lines[2].contains("Wed 15/11"));
    assert!(lines[3].contains("07:13:20"));
    // an unknown zone falls back to UTC
    s.load(Some("Nowhere/Special"), None, now);
    let lines = s.render(12, 30, now).unwrap();
    assert!(lines[3].contains("22:13:20"));
}

#[test]
fn emoji_names_fit_their_rows() {
    let heart = "\u{2764}\u{fe0f}";
    let name = heart.repeat(8);
    let mut s = ready_state(&[name.as_str(), "b"], 1, 0);
    let lines = s.render(12, 14, 0).unwrap();
    // inner = 13 columns, 6 of them lead: the name gets 7 columns
    let shown = trunc(&name, 7);
    assert!(UnicodeWidthStr::width(shown.as_str()) <= 7);
    assert!(shown.ends_with('\u{2026}'));
    assert!(lines[6].contains(shown.as_str()));
}
