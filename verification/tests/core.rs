use unicode_width::UnicodeWidthStr;
use zellij_vertical_tabs::text::truncate_measured;
use zellij_vertical_tabs::{parse_rescue_mark, scroll_window, trunc, MarkKind};

// Narrow, wide, zero-width and combining characters, and the pieces of emoji
// presentation, modifier and ZWJ sequences, whose widths do not add up.
const ALPHABET: [char; 19] = [
    'a', ' ', ':', '\u{1f528}', '\u{4e2d}', '\u{2026}', '\t', '\u{2764}', '\u{fe0f}', '\u{fe0e}',
    '\u{200d}', '\u{1f468}', '\u{1f3fd}', '\u{301}', '\u{263a}', '\r', '\n', '\u{200b}', '\u{5b57}',
];

/// Every string of up to `len` characters over `ALPHABET`, in a fixed order.
fn strings_up_to(len: usize) -> Vec<String> {
    let mut out = vec![String::new()];
    let mut layer = vec![String::new()];
    for _ in 0..len {
        let mut next = Vec::new();
        for s in &layer {
            for c in ALPHABET {
                let mut t = s.clone();
                t.push(c);
                next.push(t);
            }
        }
        out.extend(next.iter().cloned());
        layer = next;
    }
    out
}

fn width(s: &str) -> usize {
    UnicodeWidthStr::width(s)
}

#[test]
fn trunc_respects_width() {
    for s in strings_up_to(3) {
        for max in 0..10 {
            let out = trunc(&s, max);
            assert!(width(&out) <= max, "{s:?} {max} -> {out:?}");
            let cut = out.strip_suffix('\u{2026}').unwrap_or(&out);
            assert!(s.starts_with(cut), "{s:?} {max} -> {out:?}");
        }
    }
}

#[test]
fn trunc_is_faithful() {
    for s in strings_up_to(3) {
        for max in 1..10 {
            let out = trunc(&s, max);
            if width(&s) <= max {
                assert_eq!(out, s);
            } else {
                let ellipsis = '\u{2026}';
                assert!(out.ends_with(ellipsis), "{s:?} {max} -> {out:?}");
                let prefix = &out[..out.len() - ellipsis.len_utf8()];
                assert!(s.starts_with(prefix));
            }
        }
    }
}

#[test]
fn trunc_edge_cases() {
    assert_eq!(trunc("hello", 0), "");
    assert_eq!(trunc("", 0), "");
    assert_eq!(trunc("", 3), "");
    assert_eq!(trunc("hello", 5), "hello");
    assert_eq!(trunc("hello", 1), "\u{2026}");
    assert_eq!(trunc("hello", 4), "hel\u{2026}");
    assert_eq!(trunc("\u{1f528}\u{1f528}\u{1f528}", 5), "\u{1f528}\u{1f528}\u{2026}");
    assert_eq!(trunc("\u{1f528}\u{1f528}\u{1f528}", 4), "\u{1f528}\u{2026}");
    assert_eq!(trunc("a\u{4e2d}b", 3), "a\u{2026}");
    assert_eq!(width("\u{2026}"), 1);
}

#[test]
fn trunc_measures_emoji_sequences_whole() {
    let heart = "\u{2764}\u{fe0f}";
    assert_eq!(width(heart), 2);
    // the pair alone is two columns, so with the ellipsis it fills three
    let s = format!("{heart}xyz");
    assert_eq!(trunc(&s, 3), format!("{heart}\u{2026}"));
    // three pairs, six columns, in four: the last candidate that fits wins
    let s = heart.repeat(3);
    let out = trunc(&s, 4);
    assert_eq!(out, "\u{2764}\u{fe0f}\u{2764}\u{2026}");
    assert_eq!(width(&out), 4);
    let s = "\u{263a}\u{fe0f}\u{263a}\u{fe0f}";
    assert_eq!(width(s), 4);
    assert_eq!(trunc(s, 3), "\u{263a}\u{fe0f}\u{2026}");
}

#[test]
fn scroll_window_in_bounds() {
    for n in 0usize..60 {
        for area in 1usize..30 {
            for active in 0..n.max(1) {
                let start = scroll_window(n, area, active);
                if n <= area {
                    assert_eq!(start, 0);
                } else {
                    assert!(start + area <= n);
                    assert!(start <= active);
                    assert!(active < start + area);
                }
            }
        }
    }
}

#[test]
fn scroll_window_centres_active() {
    assert_eq!(scroll_window(100, 10, 50), 45);
    assert_eq!(scroll_window(100, 10, 3), 0);
    assert_eq!(scroll_window(100, 10, 99), 90);
    assert_eq!(scroll_window(5, 10, 4), 0);
    assert_eq!(scroll_window(11, 10, 10), 1);
}

#[test]
fn parse_mark_states_and_edges() {
    // known states
    assert_eq!(
        parse_rescue_mark("build:ok"),
        Some(("build".to_string(), MarkKind::Done))
    );
    // emoji tab name + whitespace + case-insensitive state
    assert_eq!(
        parse_rescue_mark("  \u{1f528} Rescue : WIP "),
        Some(("\u{1f528} Rescue".to_string(), MarkKind::Wip))
    );
    // last-colon split keeps colons inside the tab name
    assert_eq!(
        parse_rescue_mark("a:b:fail"),
        Some(("a:b".to_string(), MarkKind::Fail))
    );
    // wildcard clear
    assert_eq!(
        parse_rescue_mark("*:clear"),
        Some(("*".to_string(), MarkKind::Clear))
    );
    // garbage / malformed -> inert
    assert_eq!(parse_rescue_mark("t:bogus"), None);
    assert_eq!(parse_rescue_mark("nocolon"), None);
    assert_eq!(parse_rescue_mark(":ok"), None);
    assert_eq!(parse_rescue_mark(""), None);
}

#[test]
fn parse_mark_aliases() {
    let cases = [
        ("ok", MarkKind::Done),
        ("done", MarkKind::Done),
        ("READY", MarkKind::Done),
        ("wip", MarkKind::Wip),
        ("Pending", MarkKind::Wip),
        ("run", MarkKind::Wip),
        ("running", MarkKind::Wip),
        ("fail", MarkKind::Fail),
        ("err", MarkKind::Fail),
        ("Error", MarkKind::Fail),
        ("clear", MarkKind::Clear),
        ("NONE", MarkKind::Clear),
    ];
    for (state, kind) in cases {
        assert_eq!(
            parse_rescue_mark(&format!("tab:{state}")),
            Some(("tab".to_string(), kind))
        );
    }
    assert_eq!(parse_rescue_mark("tab:o k"), None);
    assert_eq!(parse_rescue_mark("tab:"), None);
    assert_eq!(parse_rescue_mark("   :ok"), None);
    assert_eq!(
        parse_rescue_mark("\u{3000}x\u{a0}:\tdone\n"),
        Some(("x".to_string(), MarkKind::Done))
    );
    // Only ASCII letters are folded: a Kelvin sign is not a 'k'.
    assert_eq!(parse_rescue_mark("tab:o\u{212a}"), None);
}

#[test]
fn parse_mark_never_panics() {
    for s in strings_up_to(3) {
        let _ = parse_rescue_mark(&s);
    }
}

#[test]
fn parse_mark_preserves_tab() {
    let tabs = ["x", "build ", "\u{1f528} Rescue", "a b  c\t", "-", "\u{4e2d}\u{5b57}"];
    let states = ["ok", "wip", "fail", "clear", "done", "err", "pending"];
    for tab in tabs {
        for st in states {
            let (got, _) = parse_rescue_mark(&format!("{tab}:{st}")).unwrap();
            assert_eq!(got, tab.trim_end());
        }
    }
}

#[test]
fn mark_glyphs() {
    assert_eq!(MarkKind::Done.glyph(), "\u{2705}");
    assert_eq!(MarkKind::Wip.glyph(), "\u{23f3}");
    assert_eq!(MarkKind::Fail.glyph(), "\u{274c}");
    assert_eq!(MarkKind::Clear.glyph(), "");
    for k in [MarkKind::Done, MarkKind::Wip, MarkKind::Fail] {
        assert_eq!(width(k.glyph()), 2);
    }
}

#[test]
fn truncate_measured_reads_the_given_widths() {
    // per-character cut in 4 columns: "ab" (two columns each would be "a")
    let ones = vec![1; 6];
    assert_eq!(truncate_measured("abcdef", 4, 6, 1, &ones, &vec![4]), "abc\u{2026}");
    // the whole cut is wider than its characters: shorten until one fits
    assert_eq!(truncate_measured("abcdef", 4, 6, 1, &ones, &vec![5, 5, 3]), "a\u{2026}");
    // down to the ellipsis alone
    assert_eq!(truncate_measured("abcdef", 4, 6, 1, &ones, &vec![9, 9, 9]), "\u{2026}");
    // every character fits on its own: start one short of the whole name
    assert_eq!(truncate_measured("abc", 4, 9, 1, &vec![1, 1, 1], &vec![4]), "ab\u{2026}");
    // the total alone decides whether a cut is needed
    assert_eq!(truncate_measured("abcdef", 6, 6, 1, &Vec::new(), &Vec::new()), "abcdef");
    assert_eq!(truncate_measured("abcdef", 1, 9, 1, &Vec::new(), &Vec::new()), "\u{2026}");
    assert_eq!(truncate_measured("abcdef", 0, 9, 1, &Vec::new(), &Vec::new()), "");
    // no room even for the ellipsis
    assert_eq!(truncate_measured("abcdef", 2, 9, 3, &Vec::new(), &Vec::new()), "");
}

/// The cut made character by character, keeping one column for the ellipsis.
fn per_character_cut(s: &str, max: usize) -> String {
    if max == 0 {
        return String::new();
    }
    if width(s) <= max {
        return s.to_string();
    }
    if max == 1 {
        return "\u{2026}".to_string();
    }
    let mut out = String::new();
    let mut w = 0usize;
    for ch in s.chars() {
        let cw = width(ch.to_string().as_str());
        if w + cw > max.saturating_sub(1) {
            out.push('\u{2026}');
            break;
        }
        out.push(ch);
        w += cw;
    }
    out
}

#[test]
fn trunc_keeps_the_per_character_cut() {
    for s in strings_up_to(3) {
        for max in 0..10 {
            let plain = per_character_cut(&s, max);
            if width(&plain) <= max {
                assert_eq!(trunc(&s, max), plain, "{s:?} {max}");
            }
        }
    }
    assert_eq!(trunc("\r\nab", 2), "\r\u{2026}");
    assert_eq!(trunc("a very long name", 8), "a very \u{2026}");
}
