//! Width-safe truncation of tab and session names.

use vstd::prelude::*;

use crate::strings::{chars_of, push_char, string_of_range};
use crate::width::{display_width, str_width};

verus! {

/// The character appended to a name that was cut.
pub open spec fn ellipsis() -> char {
    '\u{2026}'
}

/// The first `k` characters of `s` followed by the ellipsis.
pub open spec fn with_ellipsis(s: Seq<char>, k: int) -> Seq<char> {
    s.take(k).push(ellipsis())
}

/// The width of each character of `s`, measured alone.
pub open spec fn char_widths(s: Seq<char>) -> Seq<int> {
    Seq::new(s.len(), |i: int| str_width(seq![s[i]]) as int)
}

/// The per-character cut: starting at character `k`, keep each character whose
/// width, measured alone, still fits in what is left of `budget`; stop at the
/// first that does not. The number of characters kept.
pub open spec fn greedy(cw: Seq<int>, budget: int, k: int) -> int
    decreases cw.len() - k,
{
    if 0 <= k < cw.len() && cw[k] <= budget {
        greedy(cw, budget - cw[k], k + 1)
    } else {
        k
    }
}

/// Where shortening starts: the per-character cut, or one character short of
/// the whole name when the per-character cut kept every character.
pub open spec fn cut_start(len: int, k0: int) -> int {
    if k0 < len {
        k0
    } else if len > 0 {
        len - 1
    } else {
        0
    }
}

/// The widths of the cuts of `s` from `start` down: entry `j` is the width of
/// the first `start - j` characters followed by the ellipsis.
pub open spec fn cut_widths(s: Seq<char>, start: int) -> Seq<int> {
    Seq::new((start + 1) as nat, |j: int| str_width(with_ellipsis(s, start - j)) as int)
}

/// How many characters to give back from the cut at `start`: one more for
/// each measured cut that is wider than `max`, down to the ellipsis alone.
pub open spec fn shortened(ws: Seq<int>, max: int, start: int, j: int) -> int
    decreases start - j,
{
    if 0 <= j < start && j < ws.len() && ws[j] > max {
        shortened(ws, max, start, j + 1)
    } else {
        j
    }
}

/// `s`, `width` columns wide, cut to at most `max` columns, where the ellipsis
/// alone is `ellipsis_width` columns wide, `cw` are the widths of the
/// characters measured alone and `ws` the widths of the whole cuts from the
/// per-character one down: unchanged when it fits; empty when not even the
/// ellipsis fits; the ellipsis alone in one column; otherwise the
/// per-character cut (one column kept for the ellipsis), shortened while the
/// whole cut is wider than `max`.
pub open spec fn truncated_measured(
    s: Seq<char>,
    max: int,
    width: int,
    ellipsis_width: int,
    cw: Seq<int>,
    ws: Seq<int>,
) -> Seq<char> {
    if max == 0 {
        seq![]
    } else if width <= max {
        s
    } else if ellipsis_width > max {
        seq![]
    } else if max == 1 {
        seq![ellipsis()]
    } else {
        let start = cut_start(s.len() as int, greedy(cw, max - 1, 0));
        with_ellipsis(s, start - shortened(ws, max, start, 0))
    }
}

/// `s` cut to at most `max` columns, as `unicode-width` measures them.
pub open spec fn truncated(s: Seq<char>, max: int) -> Seq<char> {
    let start = cut_start(s.len() as int, greedy(char_widths(s), max - 1, 0));
    truncated_measured(
        s,
        max,
        str_width(s) as int,
        str_width(seq![ellipsis()]) as int,
        char_widths(s),
        cut_widths(s, start),
    )
}

/// The integers of a list of widths.
pub open spec fn as_ints(ws: Seq<usize>) -> Seq<int> {
    ws.map_values(|w: usize| w as int)
}

proof fn lemma_greedy(cw: Seq<int>, budget: int, k: int)
    requires
        0 <= k <= cw.len(),
    ensures
        k <= greedy(cw, budget, k) <= cw.len(),
    decreases cw.len() - k,
{
    if k < cw.len() && cw[k] <= budget {
        lemma_greedy(cw, budget - cw[k], k + 1);
    }
}

/// What `shortened` gives back: between `j` and `start`; below `start` only
/// at a measured cut that fits.
proof fn lemma_shortened(ws: Seq<int>, max: int, start: int, j: int)
    requires
        0 <= j <= start,
    ensures
        j <= shortened(ws, max, start, j) <= start,
        shortened(ws, max, start, j) < start && shortened(ws, max, start, j) < ws.len() ==> ws[shortened(ws, max, start, j)] <= max,
    decreases start - j,
{
    if j < start && j < ws.len() && ws[j] > max {
        lemma_shortened(ws, max, start, j + 1);
    }
}

/// Shortening over the cuts measured until one fits, or down to the ellipsis
/// alone, gives back as many characters as over all of them.
proof fn lemma_shortened_prefix(ws: Seq<int>, part: Seq<int>, max: int, start: int, j: int)
    requires
        part.len() <= ws.len(),
        part =~= ws.take(part.len() as int),
        ws.len() == start + 1,
        part.len() == start || part.len() == ws.len() || (part.len() > 0 && part.last() <= max),
        0 <= j <= part.len(),
        j <= start,
        j > 0 ==> part[j - 1] > max,
    ensures
        shortened(part, max, start, j) == shortened(ws, max, start, j),
    decreases start - j,
{
    if j < start && j < part.len() && part[j] > max {
        lemma_shortened_prefix(ws, part, max, start, j + 1);
    } else if j < start && j == part.len() && part.len() < ws.len() {
        assert(part[j - 1] > max);
    }
}

/// Truncate `s`, which is `width` columns wide, to at most `max` columns,
/// given the width `ellipsis_width` of the ellipsis alone, the widths
/// `char_widths` of its characters measured alone, and the widths
/// `cut_widths` of the whole cuts from the per-character one down, measured
/// until one fits.
pub fn truncate_measured(
    s: &str,
    max: usize,
    width: usize,
    ellipsis_width: usize,
    char_widths: &Vec<usize>,
    cut_widths: &Vec<usize>,
) -> (out: String)
    requires
        max >= 2 && width > max && ellipsis_width <= max ==> char_widths@.len() == s@.len(),
    ensures
        out@ == truncated_measured(
            s@,
            max as int,
            width as int,
            ellipsis_width as int,
            as_ints(char_widths@),
            as_ints(cut_widths@),
        ),
{
    let mut out = String::new();
    if max == 0 {
        return out;
    }
    if width <= max {
        return String::from_str(s);
    }
    if ellipsis_width > max {
        return out;
    }
    if max == 1 {
        push_char(&mut out, '\u{2026}');
        return out;
    }
    let ghost cw = as_ints(char_widths@);
    let ghost ws = as_ints(cut_widths@);
    let budget = max - 1;
    let mut left = budget;
    let mut k: usize = 0;
    while k < char_widths.len() && char_widths[k] <= left
        invariant
            cw == as_ints(char_widths@),
            k <= char_widths.len(),
            left <= budget,
            greedy(cw, left as int, k as int) == greedy(cw, budget as int, 0),
        decreases char_widths.len() - k,
    {
        left = left - char_widths[k];
        k = k + 1;
    }
    let n = char_widths.len();
    let start = if k < n {
        k
    } else if n > 0 {
        n - 1
    } else {
        0
    };
    assert(start == cut_start(s@.len() as int, greedy(cw, max - 1, 0)));
    let mut j: usize = 0;
    while j < start && j < cut_widths.len() && cut_widths[j] > max
        invariant
            ws == as_ints(cut_widths@),
            j <= start,
            shortened(ws, max as int, start as int, j as int) == shortened(
                ws,
                max as int,
                start as int,
                0,
            ),
        decreases start - j,
    {
        j = j + 1;
    }
    let chars = chars_of(s);
    let mut out = string_of_range(&chars, 0, start - j);
    push_char(&mut out, '\u{2026}');
    assert(chars@.subrange(0, (start - j) as int) =~= s@.take((start - j) as int));
    out
}

/// The empty string, which `display_width` measures as zero columns.
fn empty_text() -> (out: String)
    ensures
        out@ == Seq::<char>::empty(),
        str_width(out@) == 0,
{
    let out = String::new();
    let _w = display_width(out.as_str());
    out
}

/// Truncate `s` to at most `max` display columns, char-safely, appending `…`
/// when anything was cut; empty when `max` is zero or not even the ellipsis
/// fits. The cut is made character by character, keeping one column for the
/// ellipsis; where the whole cut measures wider than `max` (emoji sequences
/// and ligatures whose width is not the sum of their characters'), it is
/// shortened further until it fits.
pub fn trunc(s: &str, max: usize) -> (out: String)
    ensures
        out@ == truncated(s@, max as int),
        str_width(out@) <= max,
        max >= 1 && str_width(s@) <= max ==> out@ == s@,
        out@ == s@ || out@.len() == 0 || exists|k: int|
            #![trigger s@.take(k)]
            0 <= k <= s@.len() && out@ == with_ellipsis(s@, k),
        max >= 1 && str_width(s@) > max && str_width(seq![ellipsis()]) <= max ==> exists|k: int|
            #![trigger s@.take(k)]
            0 <= k < s@.len() && out@ == with_ellipsis(s@, k),
        max >= 2 && str_width(s@) > max && str_width(seq![ellipsis()]) <= max && ({
            let k0 = greedy(char_widths(s@), max - 1, 0);
            k0 < s@.len() && str_width(with_ellipsis(s@, k0)) <= max
        }) ==> out@ == with_ellipsis(s@, greedy(char_widths(s@), max - 1, 0)),
{
    if max == 0 {
        return empty_text();
    }
    let width = display_width(s);
    if width <= max {
        return String::from_str(s);
    }
    let ellipsis_width = display_width("\u{2026}");
    proof {
        reveal_strlit("\u{2026}");
        assert("\u{2026}"@ =~= seq![ellipsis()]);
    }
    if ellipsis_width > max {
        return empty_text();
    }
    let chars = chars_of(s);
    if max == 1 {
        let mut out = String::new();
        push_char(&mut out, '\u{2026}');
        assert(out@ =~= with_ellipsis(s@, 0));
        assert(s@.len() > 0) by {
            if s@.len() == 0 {
                assert(str_width(s@) == 0);
            }
        }
        return out;
    }
    proof {
        if s@.len() == 0 {
            assert(width == 0);
        }
    }
    // the width of each character, measured alone
    let mut alone: Vec<usize> = Vec::new();
    let mut i: usize = 0;
    while i < chars.len()
        invariant
            chars@ == s@,
            i <= chars.len(),
            as_ints(alone@) =~= char_widths(s@).take(i as int),
        decreases chars.len() - i,
    {
        let mut one = String::new();
        push_char(&mut one, chars[i]);
        assert(one@ =~= seq![s@[i as int]]);
        let w = display_width(one.as_str());
        assert(w as int == char_widths(s@)[i as int]);
        let ghost before = alone@;
        alone.push(w);
        assert(as_ints(alone@) =~= as_ints(before).push(w as int));
        assert(char_widths(s@).take(i + 1) =~= char_widths(s@).take(i as int).push(
            char_widths(s@)[i as int],
        ));
        i = i + 1;
        assert(as_ints(alone@) =~= char_widths(s@).take(i as int));
    }
    assert(char_widths(s@).take(s@.len() as int) =~= char_widths(s@));
    let ghost cw = char_widths(s@);
    let ghost k0 = greedy(cw, max - 1, 0);
    let ghost start = cut_start(s@.len() as int, k0);
    proof {
        lemma_greedy(cw, (max - 1) as int, 0);
    }
    // the per-character cut, as it stands without measuring the whole
    let budget = max - 1;
    let mut left = budget;
    let mut k: usize = 0;
    while k < alone.len() && alone[k] <= left
        invariant
            cw == as_ints(alone@),
            k <= alone.len(),
            left <= budget,
            greedy(cw, left as int, k as int) == k0,
        decreases alone.len() - k,
    {
        left = left - alone[k];
        k = k + 1;
    }
    let n = chars.len();
    let first = if k < n {
        k
    } else {
        n - 1
    };
    assert(first == start);
    // the whole cuts from there down, measured until one fits
    let ghost full = cut_widths(s@, start);
    let mut cuts: Vec<usize> = Vec::new();
    let mut fits = false;
    let mut j: usize = 0;
    while !fits && j < first
        invariant
            chars@ == s@,
            full == cut_widths(s@, start),
            first == start,
            first < chars.len(),
            j <= first,
            !fits ==> cuts@.len() == j && (j > 0 ==> cuts@[j - 1] > max),
            fits ==> cuts@.len() == j + 1 && cuts@[j as int] <= max && (j > 0
                ==> cuts@[j - 1] > max),
            as_ints(cuts@) =~= full.take(cuts@.len() as int),
        decreases first - j + (if fits { 0int } else { 1 }),
    {
        let mut candidate = string_of_range(&chars, 0, first - j);
        push_char(&mut candidate, '\u{2026}');
        assert(candidate@ =~= with_ellipsis(s@, start - j));
        let w = display_width(candidate.as_str());
        cuts.push(w);
        assert(as_ints(cuts@) =~= full.take(cuts@.len() as int));
        if w <= max {
            fits = true;
        } else {
            j = j + 1;
        }
    }
    proof {
        let part = as_ints(cuts@);
        if fits {
            assert(part.last() <= max);
        } else {
            assert(part.len() == start);
        }
        lemma_shortened_prefix(full, part, max as int, start, 0);
        lemma_shortened(full, max as int, start, 0);
    }
    let out = truncate_measured(s, max, width, ellipsis_width, &alone, &cuts);
    proof {
        let back = shortened(full, max as int, start, 0);
        if back < start {
            assert(full[back] == str_width(with_ellipsis(s@, start - back)) as int);
        } else {
            assert(with_ellipsis(s@, 0) =~= seq![ellipsis()]);
        }
        if k0 < s@.len() && str_width(with_ellipsis(s@, k0)) <= max {
            assert(full[0] <= max);
        }
    }
    out
}

/// Truncation never splits a character: the result is the input itself, the
/// empty string, or a prefix of the input followed by the ellipsis.
pub proof fn lemma_trunc_is_prefix(s: Seq<char>, max: int)
    ensures
        truncated(s, max) == s || truncated(s, max).len() == 0 || exists|k: int|
            #![trigger s.take(k)]
            0 <= k <= s.len() && truncated(s, max) == with_ellipsis(s, k),
{
    let start = cut_start(s.len() as int, greedy(char_widths(s), max - 1, 0));
    if max >= 2 && str_width(s) > max && str_width(seq![ellipsis()]) <= max {
        lemma_greedy(char_widths(s), max - 1, 0);
        lemma_shortened(cut_widths(s, start), max, start, 0);
    } else if max == 1 && str_width(s) > max && str_width(seq![ellipsis()]) <= max {
        assert(with_ellipsis(s, 0) =~= seq![ellipsis()]);
    }
}

} // verus!
