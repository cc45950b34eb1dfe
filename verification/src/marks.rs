//! The table of rescue marks a sidebar shows: tab name to state and the time
//! the mark was set, each name at most once.

use vstd::prelude::*;

use crate::mark::MarkKind;
use crate::strings::same_text;

verus! {

broadcast use vstd::set::group_set_axioms;

/// How long a mark with no refresh lives, in milliseconds (15 minutes).
pub const MARK_TTL_MS: i64 = 900_000;

/// A mark set at `set_ms` is still alive at `now_ms`.
pub open spec fn alive(now_ms: i64, set_ms: i64) -> bool {
    now_ms - set_ms < MARK_TTL_MS
}

/// The marks of `m` that are still alive at `now_ms`.
pub open spec fn alive_marks(
    m: Map<Seq<char>, (MarkKind, i64)>,
    now_ms: i64,
) -> Map<Seq<char>, (MarkKind, i64)> {
    Map::new(|k: Seq<char>| m.dom().contains(k) && alive(now_ms, m[k].1), |k: Seq<char>| m[k])
}

struct MarkEntry {
    name: String,
    kind: MarkKind,
    set_ms: i64,
}

/// The map that a list of entries stands for.
spec fn entries_map(s: Seq<MarkEntry>) -> Map<Seq<char>, (MarkKind, i64)>
    decreases s.len(),
{
    if s.len() == 0 {
        Map::empty()
    } else {
        entries_map(s.drop_last()).insert(s.last().name@, (s.last().kind, s.last().set_ms))
    }
}

spec fn distinct_names(s: Seq<MarkEntry>) -> bool {
    forall|i: int, j: int| 0 <= i < j < s.len() ==> s[i].name@ != s[j].name@
}

/// What the map of a list of entries with distinct names holds: the name of
/// each entry, with that entry's state and time, and nothing else.
proof fn lemma_entries_map(s: Seq<MarkEntry>)
    requires
        distinct_names(s),
    ensures
        entries_map(s).dom().finite(),
        entries_map(s).dom().len() == s.len(),
        forall|k: Seq<char>|
            #![trigger entries_map(s).dom().contains(k)]
            entries_map(s).dom().contains(k) <==> exists|i: int|
                0 <= i < s.len() && s[i].name@ == k,
        forall|i: int|
            #![trigger s[i]]
            0 <= i < s.len() ==> entries_map(s)[s[i].name@] == (s[i].kind, s[i].set_ms),
    decreases s.len(),
{
    if s.len() > 0 {
        let t = s.drop_last();
        assert(distinct_names(t));
        lemma_entries_map(t);
        assert(!entries_map(t).dom().contains(s.last().name@)) by {
            if entries_map(t).dom().contains(s.last().name@) {
                let i = choose|i: int| 0 <= i < t.len() && t[i].name@ == s.last().name@;
                assert(s[i] == t[i]);
            }
        }
        assert forall|k: Seq<char>|
            #![trigger entries_map(s).dom().contains(k)]
            entries_map(s).dom().contains(k) implies exists|i: int|
                0 <= i < s.len() && s[i].name@ == k by {
            if k != s.last().name@ {
                let i = choose|i: int| 0 <= i < t.len() && t[i].name@ == k;
                assert(s[i] == t[i]);
            } else {
                assert(s[s.len() - 1].name@ == k);
            }
        }
        assert forall|k: Seq<char>|
            (exists|i: int| 0 <= i < s.len() && s[i].name@ == k) implies #[trigger] entries_map(
            s,
        ).dom().contains(k) by {
            let i = choose|i: int| 0 <= i < s.len() && s[i].name@ == k;
            if i < s.len() - 1 {
                assert(t[i] == s[i]);
            }
        }
        assert forall|i: int|
            #![trigger s[i]]
            0 <= i < s.len() implies entries_map(s)[s[i].name@] == (s[i].kind, s[i].set_ms) by {
            if i < s.len() - 1 {
                assert(t[i] == s[i]);
            }
        }
    }
}

/// Rescue marks keyed by tab name.
pub struct MarkTable {
    entries: Vec<MarkEntry>,
}

impl View for MarkTable {
    type V = Map<Seq<char>, (MarkKind, i64)>;

    closed spec fn view(&self) -> Map<Seq<char>, (MarkKind, i64)> {
        entries_map(self.entries@)
    }
}

impl MarkTable {
    #[verifier::type_invariant]
    spec fn names_distinct(&self) -> bool {
        distinct_names(self.entries@)
    }

    /// A table with no marks.
    pub fn new() -> (t: MarkTable)
        ensures
            t@ == Map::<Seq<char>, (MarkKind, i64)>::empty(),
    {
        MarkTable { entries: Vec::new() }
    }

    /// The number of marks.
    pub fn len(&self) -> (n: usize)
        ensures
            self@.dom().finite(),
            n == self@.dom().len(),
    {
        proof {
            use_type_invariant(self);
            lemma_entries_map(self.entries@);
        }
        self.entries.len()
    }

    /// The state of the mark on `name`, if it has one.
    pub fn get(&self, name: &str) -> (k: Option<MarkKind>)
        ensures
            k == (if self@.contains_key(name@) {
                Some(self@[name@].0)
            } else {
                None
            }),
    {
        proof {
            use_type_invariant(self);
            lemma_entries_map(self.entries@);
        }
        let mut i: usize = 0;
        while i < self.entries.len()
            invariant
                i <= self.entries.len(),
                forall|j: int| 0 <= j < i ==> self.entries@[j].name@ != name@,
            decreases self.entries.len() - i,
        {
            if same_text(self.entries[i].name.as_str(), name) {
                assert(self.entries@[i as int].name@ == name@);
                proof {
                    use_type_invariant(self);
                    lemma_entries_map(self.entries@);
                }
                assert(entries_map(self.entries@).dom().contains(name@));
                assert(entries_map(self.entries@)[self.entries@[i as int].name@] == (
                    self.entries@[i as int].kind,
                    self.entries@[i as int].set_ms,
                ));
                return Some(self.entries[i].kind);
            }
            i = i + 1;
        }
        proof {
            use_type_invariant(self);
            lemma_entries_map(self.entries@);
        }
        None
    }

    /// Whether `name` has a mark.
    pub fn contains(&self, name: &str) -> (b: bool)
        ensures
            b == self@.contains_key(name@),
    {
        self.get(name).is_some()
    }

    /// Remove every mark.
    pub fn clear(&mut self)
        ensures
            final(self)@ == Map::<Seq<char>, (MarkKind, i64)>::empty(),
    {
        self.entries = Vec::new();
    }

    /// The entries of this table that `retained` keeps.
    fn kept(&self, name: Option<&str>, now_ms: Option<i64>) -> (v: Vec<MarkEntry>)
        ensures
            distinct_names(v@),
            entries_map(v@) == retained(self@, name_view(name), now_ms),
    {
        proof {
            use_type_invariant(self);
        }
        let ghost s = self.entries@;
        let ghost drop = name_view(name);
        let mut v: Vec<MarkEntry> = Vec::new();
        let mut i: usize = 0;
        assert(entries_map(v@) =~= retained(entries_map(s.take(0)), drop, now_ms));
        while i < self.entries.len()
            invariant
                s == self.entries@,
                drop == name_view(name),
                distinct_names(s),
                i <= s.len(),
                distinct_names(v@),
                entries_map(v@) == retained(entries_map(s.take(i as int)), drop, now_ms),
            decreases s.len() - i,
        {
            let e = &self.entries[i];
            let ghost m = entries_map(s.take(i as int));
            proof {
                assert(s.take(i + 1).drop_last() =~= s.take(i as int));
                lemma_entries_map(s.take(i as int));
                lemma_entries_map(v@);
                assert(!m.dom().contains(e.name@)) by {
                    if m.dom().contains(e.name@) {
                        let l = choose|l: int| 0 <= l < i && s.take(i as int)[l].name@ == e.name@;
                        assert(s[l].name@ == s[i as int].name@);
                    }
                }
            }
            let drop_it = match name {
                Some(n) => same_text(e.name.as_str(), n),
                None => false,
            };
            let expired = match now_ms {
                Some(t) => (t as i128) - (e.set_ms as i128) >= (MARK_TTL_MS as i128),
                None => false,
            };
            if !drop_it && !expired {
                let ghost old_v = v@;
                v.push(MarkEntry { name: e.name.clone(), kind: e.kind, set_ms: e.set_ms });
                proof {
                    assert(v@.drop_last() =~= old_v);
                    assert forall|a: int, b: int| 0 <= a < b < v@.len() implies v@[a].name@
                        != v@[b].name@ by {
                        if b == v@.len() - 1 {
                            assert(entries_map(old_v).dom().contains(old_v[a].name@));
                        }
                    }
                    assert(entries_map(v@) =~= retained(
                        entries_map(s.take(i + 1)),
                        drop,
                        now_ms,
                    ));
                }
            } else {
                proof {
                    assert(entries_map(v@) =~= retained(
                        entries_map(s.take(i + 1)),
                        drop,
                        now_ms,
                    ));
                }
            }
            i = i + 1;
        }
        assert(s.take(i as int) =~= s);
        v
    }

    /// Remove the mark on `name`, if there is one.
    pub fn remove(&mut self, name: &str)
        ensures
            final(self)@ == old(self)@.remove(name@),
    {
        let v = self.kept(Some(name), None);
        assert(retained(self@, Some(name@), None) =~= self@.remove(name@));
        self.entries = v;
    }

    /// Drop the marks that are no longer alive at `now_ms`.
    pub fn sweep(&mut self, now_ms: i64)
        ensures
            final(self)@ == alive_marks(old(self)@, now_ms),
    {
        let v = self.kept(None, Some(now_ms));
        assert(retained(self@, None, Some(now_ms)) =~= alive_marks(self@, now_ms));
        self.entries = v;
    }

    /// Set the mark on `name` to `kind`, as set at `now_ms`.
    pub fn set(&mut self, name: String, kind: MarkKind, now_ms: i64)
        ensures
            final(self)@ == old(self)@.insert(name@, (kind, now_ms)),
    {
        let mut v = self.kept(Some(name.as_str()), None);
        let ghost old_v = v@;
        let ghost key = name@;
        proof {
            lemma_entries_map(v@);
        }
        v.push(MarkEntry { name, kind, set_ms: now_ms });
        proof {
            assert(v@.drop_last() =~= old_v);
            assert forall|a: int, b: int| 0 <= a < b < v@.len() implies v@[a].name@
                != v@[b].name@ by {
                if b == v@.len() - 1 {
                    assert(entries_map(old_v).dom().contains(old_v[a].name@));
                }
            }
            assert(entries_map(v@) =~= self@.insert(key, (kind, now_ms)));
        }
        self.entries = v;
    }
}

spec fn name_view(name: Option<&str>) -> Option<Seq<char>> {
    match name {
        Some(n) => Some(n@),
        None => None,
    }
}

/// The marks of `m` that are not on `drop` (when given) and are alive at
/// `now_ms` (when given).
spec fn retained(
    m: Map<Seq<char>, (MarkKind, i64)>,
    drop: Option<Seq<char>>,
    now_ms: Option<i64>,
) -> Map<Seq<char>, (MarkKind, i64)> {
    Map::new(
        |k: Seq<char>|
            m.dom().contains(k) && (drop matches Some(n) ==> k != n) && (now_ms matches Some(t)
                ==> alive(t, m[k].1)),
        |k: Seq<char>| m[k],
    )
}

} // verus!
