//! Rescue marks: per-tab status glyphs that a restore script sets through a
//! `rescue-mark` pipe payload of the form `<tab>:<state>`.

use vstd::prelude::*;

use crate::strings::{
    chars_of, is_white_space, trim_end, trim_start, lower_range_is, string_of_range, to_ascii_lower, trim, trim_range,
};

verus! {

/// A rescue mark's state, parsed from a `rescue-mark` pipe payload. Rendered as
/// a per-tab status glyph so a restore operator sees convergence in-place.
#[derive(Debug, Clone, Copy, PartialEq, Eq, Structural)]
pub enum MarkKind {
    /// converged / done
    Done,
    /// in progress
    Wip,
    /// failed
    Fail,
    /// remove the mark (never stored)
    Clear,
}

/// The characters of the glyph of each kind.
pub open spec fn glyph_text(k: MarkKind) -> Seq<char> {
    match k {
        MarkKind::Done => seq!['\u{2705}'],
        MarkKind::Wip => seq!['\u{23f3}'],
        MarkKind::Fail => seq!['\u{274c}'],
        MarkKind::Clear => seq![],
    }
}

impl MarkKind {
    /// The status glyph. Width-2, self-coloured emoji so it drops into the
    /// bell/sync flair slot with no ANSI. `Clear` has no glyph: it is a
    /// removal, never rendered.
    pub fn glyph(self) -> (g: &'static str)
        ensures
            g@ == glyph_text(self),
    {
        match self {
            MarkKind::Done => {
                proof {
                    reveal_strlit("\u{2705}");
                }
                "\u{2705}"
            },
            MarkKind::Wip => {
                proof {
                    reveal_strlit("\u{23f3}");
                }
                "\u{23f3}"
            },
            MarkKind::Fail => {
                proof {
                    reveal_strlit("\u{274c}");
                }
                "\u{274c}"
            },
            MarkKind::Clear => {
                proof {
                    reveal_strlit("");
                }
                ""
            },
        }
    }
}

/// The kind a (lower-cased, trimmed) state word names, with its aliases.
pub open spec fn state_kind(w: Seq<char>) -> Option<MarkKind> {
    if w == "ok"@ || w == "done"@ || w == "ready"@ {
        Some(MarkKind::Done)
    } else if w == "wip"@ || w == "pending"@ || w == "run"@ || w == "running"@ {
        Some(MarkKind::Wip)
    } else if w == "fail"@ || w == "err"@ || w == "error"@ {
        Some(MarkKind::Fail)
    } else if w == "clear"@ || w == "none"@ {
        Some(MarkKind::Clear)
    } else {
        None
    }
}

/// The index of the last `c` in `s`, if there is one.
pub open spec fn last_index_of(s: Seq<char>, c: char) -> Option<int>
    decreases s.len(),
{
    if s.len() == 0 {
        None
    } else if s.last() == c {
        Some(s.len() - 1)
    } else {
        last_index_of(s.drop_last(), c)
    }
}

/// The mark a payload asks for: the payload trimmed and split at its last
/// `:`; the tab is the trimmed text before it and must not be empty; the state
/// is the trimmed, ASCII lower-cased text after it and must be a known word.
pub open spec fn parse_mark(payload: Seq<char>) -> Option<(Seq<char>, MarkKind)> {
    let t = trim(payload);
    match last_index_of(t, ':') {
        None => None,
        Some(j) => {
            let tab = trim(t.take(j));
            if tab.len() == 0 {
                None
            } else {
                match state_kind(to_ascii_lower(trim(t.skip(j + 1)))) {
                    None => None,
                    Some(k) => Some((tab, k)),
                }
            }
        },
    }
}

/// The kind that `v[lo..hi]`, lower-cased, names.
fn state_kind_of(v: &Vec<char>, lo: usize, hi: usize) -> (k: Option<MarkKind>)
    requires
        lo <= hi <= v.len(),
    ensures
        k == state_kind(to_ascii_lower(v@.subrange(lo as int, hi as int))),
{
    if lower_range_is(v, lo, hi, "ok") || lower_range_is(v, lo, hi, "done") || lower_range_is(
        v,
        lo,
        hi,
        "ready",
    ) {
        Some(MarkKind::Done)
    } else if lower_range_is(v, lo, hi, "wip") || lower_range_is(v, lo, hi, "pending")
        || lower_range_is(v, lo, hi, "run") || lower_range_is(v, lo, hi, "running") {
        Some(MarkKind::Wip)
    } else if lower_range_is(v, lo, hi, "fail") || lower_range_is(v, lo, hi, "err")
        || lower_range_is(v, lo, hi, "error") {
        Some(MarkKind::Fail)
    } else if lower_range_is(v, lo, hi, "clear") || lower_range_is(v, lo, hi, "none") {
        Some(MarkKind::Clear)
    } else {
        None
    }
}

/// Parse a `rescue-mark` pipe payload of the form `<tab>:<state>`.
///
/// Splits on the LAST `:` so a tab name may itself contain colons. Tab `*` is
/// the wildcard (only meaningful with `clear`). An unknown state or an empty
/// tab yields `None`. Marks are keyed by the trimmed tab name.
pub fn parse_rescue_mark(payload: &str) -> (r: Option<(String, MarkKind)>)
    ensures
        match r {
            Some((tab, k)) => parse_mark(payload@) == Some((tab@, k)),
            None => parse_mark(payload@) is None,
        },
{
    let v = chars_of(payload);
    let (a, b) = trim_range(&v, 0, v.len());
    let ghost t = v@.subrange(a as int, b as int);
    assert(v@.subrange(0, v.len() as int) =~= payload@);
    let mut j = b;
    while j > a && v[j - 1] != ':'
        invariant
            a <= j <= b <= v.len(),
            t == v@.subrange(a as int, b as int),
            last_index_of(t, ':') == last_index_of(v@.subrange(a as int, j as int), ':'),
        decreases j - a,
    {
        assert(v@.subrange(a as int, j as int).drop_last() =~= v@.subrange(a as int, j - 1));
        j = j - 1;
    }
    if j == a {
        assert(v@.subrange(a as int, j as int).len() == 0);
        return None;
    }
    let colon = j - 1;
    assert(last_index_of(v@.subrange(a as int, j as int), ':') == Some(colon - a));
    assert(t.take(colon - a) =~= v@.subrange(a as int, colon as int));
    assert(t.skip(colon - a + 1) =~= v@.subrange(j as int, b as int));
    let (ta, tb) = trim_range(&v, a, colon);
    if ta == tb {
        return None;
    }
    let (sa, sb) = trim_range(&v, j, b);
    match state_kind_of(&v, sa, sb) {
        None => None,
        Some(k) => Some((string_of_range(&v, ta, tb), k)),
    }
}

/// Every state word is a non-empty run of lower-case ASCII letters.
proof fn lemma_state_word_letters(w: Seq<char>)
    requires
        state_kind(w) is Some,
    ensures
        w.len() > 0,
        forall|i: int| 0 <= i < w.len() ==> 'a' <= #[trigger] w[i] && w[i] <= 'z',
{
    reveal_strlit("ok");
    reveal_strlit("done");
    reveal_strlit("ready");
    reveal_strlit("wip");
    reveal_strlit("pending");
    reveal_strlit("run");
    reveal_strlit("running");
    reveal_strlit("fail");
    reveal_strlit("err");
    reveal_strlit("error");
    reveal_strlit("clear");
    reveal_strlit("none");
}

/// Trimming leaves alone a sequence that starts and ends with a character
/// other than white space.
proof fn lemma_trim_unchanged(s: Seq<char>)
    requires
        s.len() > 0,
        !is_white_space(s[0]),
        !is_white_space(s.last()),
    ensures
        trim(s) == s,
{
}

/// Trimming the end of a sequence that starts with a character other than white
/// space leaves at least that character.
proof fn lemma_trim_end_keeps_first(s: Seq<char>)
    requires
        s.len() > 0,
        !is_white_space(s[0]),
    ensures
        trim_end(s).len() > 0,
    decreases s.len(),
{
    if is_white_space(s.last()) {
        lemma_trim_end_keeps_first(s.drop_last());
    }
}

/// The last `c` of `x + y`, where `y` holds no `c`, is the last `c` of `x`.
proof fn lemma_last_index_skips(x: Seq<char>, y: Seq<char>, c: char)
    requires
        !y.contains(c),
    ensures
        last_index_of(x + y, c) == last_index_of(x, c),
    decreases y.len(),
{
    if y.len() == 0 {
        assert(x + y =~= x);
    } else {
        assert((x + y).drop_last() =~= x + y.drop_last());
        assert((x + y).last() == y.last());
        assert(!y.drop_last().contains(c)) by {
            if y.drop_last().contains(c) {
                let i = choose|i: int| 0 <= i < y.drop_last().len() && y.drop_last()[i] == c;
                assert(y[i] == c);
            }
        }
        lemma_last_index_skips(x, y.drop_last(), c);
    }
}

/// A payload `<tab>:<state>`, where the tab starts with a character other than
/// white space and holds no colon and the state is a known word, always parses,
/// to the tab with its trailing white space removed and the state's kind.
pub proof fn lemma_parse_keeps_tab(tab: Seq<char>, state: Seq<char>)
    requires
        tab.len() > 0,
        !is_white_space(tab[0]),
        !tab.contains(':'),
        state_kind(state) is Some,
    ensures
        parse_mark(tab + seq![':'] + state) == Some((trim_end(tab), state_kind(state)->0)),
{
    lemma_state_word_letters(state);
    let p = tab + seq![':'] + state;
    assert(p[0] == tab[0]);
    assert(p.last() == state.last());
    lemma_trim_unchanged(p);
    assert(!state.contains(':'));
    assert(p =~= (tab + seq![':']) + state);
    lemma_last_index_skips(tab + seq![':'], state, ':');
    assert((tab + seq![':']).drop_last() =~= tab);
    let j = tab.len() as int;
    assert(last_index_of(tab + seq![':'], ':') == Some(j));
    assert(p.take(j) =~= tab);
    assert(p.skip(j + 1) =~= state);
    assert(trim_start(tab) == tab);
    lemma_trim_end_keeps_first(tab);
    lemma_trim_unchanged(state);
    assert(to_ascii_lower(state) =~= state);
}

} // verus!
