//! Ordered Material role palette.
//!
//! Key names and iteration order follow the pipeline's role table —
//! downstream SCSS/JSON diffs depend on both the mixed-case names
//! (`surfaceContainerLow`, `primary_paletteKeyColor`) and the order.

use vstd::prelude::*;

use crate::text::str_eq;

verus! {

/// An entry as seen by specifications: (role, value).
pub type EntryView = (Seq<char>, Seq<char>);

/// The views of ordered (key, value) string pairs.
pub open spec fn entries_view(entries: Seq<(String, String)>) -> Seq<EntryView> {
    entries.map_values(|e: (String, String)| (e.0@, e.1@))
}

/// Pushing an entry pushes its view.
pub proof fn lemma_entries_view_push(es: Seq<(String, String)>, e: (String, String))
    ensures
        entries_view(es.push(e)) == entries_view(es).push((e.0@, e.1@)),
{
    assert(entries_view(es.push(e)) =~= entries_view(es).push((e.0@, e.1@)));
}

/// Index of the first entry whose key is `key`.
pub open spec fn first_index<V>(es: Seq<(Seq<char>, V)>, key: Seq<char>) -> Option<int>
    decreases es.len(),
{
    if es.len() == 0 {
        None
    } else {
        match first_index(es.drop_last(), key) {
            Some(i) => Some(i),
            None => if es.last().0 == key {
                Some(es.len() - 1)
            } else {
                None
            },
        }
    }
}

/// The value of the first entry whose key is `key`.
pub open spec fn lookup(es: Seq<EntryView>, key: Seq<char>) -> Option<Seq<char>> {
    match first_index(es, key) {
        Some(i) => Some(es[i].1),
        None => None,
    }
}

/// `set` on views: overwrite the first entry named `key`, or append one.
pub open spec fn assign(es: Seq<EntryView>, key: Seq<char>, value: Seq<char>) -> Seq<EntryView> {
    match first_index(es, key) {
        Some(i) => es.update(i, (es[i].0, value)),
        None => es.push((key, value)),
    }
}

/// `first_index` finds the first entry with the key, or reports that none has it.
pub proof fn lemma_first_index<V>(es: Seq<(Seq<char>, V)>, key: Seq<char>)
    ensures
        match first_index(es, key) {
            Some(i) => 0 <= i < es.len() && es[i].0 == key && forall|j: int|
                0 <= j < i ==> #[trigger] es[j].0 != key,
            None => forall|j: int| 0 <= j < es.len() ==> #[trigger] es[j].0 != key,
        },
    decreases es.len(),
{
    if es.len() > 0 {
        lemma_first_index(es.drop_last(), key);
        assert forall|j: int| 0 <= j < es.len() - 1 implies #[trigger] es[j] == es.drop_last()[j] by {}
    }
}

/// The first entry with the key determines `first_index`.
pub proof fn lemma_first_index_at<V>(es: Seq<(Seq<char>, V)>, key: Seq<char>, i: int)
    requires
        0 <= i < es.len(),
        es[i].0 == key,
        forall|j: int| 0 <= j < i ==> #[trigger] es[j].0 != key,
    ensures
        first_index(es, key) == Some(i),
{
    lemma_first_index(es, key);
}

/// A generated palette: ordered `(role, "#RRGGBB")` pairs, including the
/// extended success roles. Terminal colors live separately.
#[derive(Debug, Clone, PartialEq, Eq)]
pub struct Palette {
    pub dark: bool,
    /// Ordered role → uppercase hex ("#RRGGBB").
    pub entries: Vec<(String, String)>,
}

impl Palette {
    /// The entries as (role, value) character sequences.
    pub open spec fn view_entries(&self) -> Seq<EntryView> {
        entries_view(self.entries@)
    }

    /// Position of the first entry named `role`.
    fn position(&self, role: &str) -> (r: Option<usize>)
        ensures
            match r {
                Some(i) => i < self.entries@.len() && first_index(self.view_entries(), role@) == Some(
                    i as int,
                ),
                None => first_index(self.view_entries(), role@) is None,
            },
    {
        let ghost es = self.view_entries();
        let mut i: usize = 0;
        while i < self.entries.len()
            invariant
                es == self.view_entries(),
                0 <= i <= self.entries@.len(),
                first_index(es.take(i as int), role@) is None,
            decreases self.entries@.len() - i,
        {
            assert(es.take(i + 1).drop_last() =~= es.take(i as int));
            if str_eq(self.entries[i].0.as_str(), role) {
                proof {
                    lemma_first_index(es.take(i as int), role@);
                    assert forall|j: int| 0 <= j < i implies #[trigger] es[j].0 != role@ by {
                        assert(es.take(i as int)[j] == es[j]);
                    }
                    lemma_first_index_at(es, role@, i as int);
                }
                return Some(i);
            }
            i = i + 1;
        }
        assert(es.take(i as int) =~= es);
        None
    }

    /// The value of the first entry named `role`.
    pub fn get(&self, role: &str) -> (r: Option<&str>)
        ensures
            match r {
                Some(v) => lookup(self.view_entries(), role@) == Some(v@),
                None => lookup(self.view_entries(), role@) is None,
            },
    {
        match self.position(role) {
            Some(i) => Some(self.entries[i].1.as_str()),
            None => None,
        }
    }

    /// Overwrite the value of the first entry named `role`, or append
    /// `(role, hex)` when there is none.
    pub fn set(&mut self, role: &str, hex: String)
        ensures
            final(self).dark == old(self).dark,
            final(self).view_entries() == assign(old(self).view_entries(), role@, hex@),
    {
        let ghost es = self.view_entries();
        match self.position(role) {
            Some(i) => {
                let key = self.entries[i].0.clone();
                self.entries.set(i, (key, hex));
                assert(self.view_entries() =~= es.update(i as int, (es[i as int].0, hex@)));
            },
            None => {
                self.entries.push((role.to_string(), hex));
                assert(self.view_entries() =~= es.push((role@, hex@)));
            },
        }
    }
}

// ── laws ────────────────────────────────────────────────────────────────

/// After `set(role, hex)`, `get(role)` gives back `hex`.
pub proof fn lemma_get_after_set(es: Seq<EntryView>, key: Seq<char>, value: Seq<char>)
    ensures
        lookup(assign(es, key, value), key) == Some(value),
{
    lemma_first_index(es, key);
    let es2 = assign(es, key, value);
    lemma_first_index(es2, key);
    match first_index(es, key) {
        Some(i) => {
            assert(es2[i].0 == key);
            match first_index(es2, key) {
                Some(k) => {
                    if k < i {
                        assert(es2[k] == es[k]);
                    }
                    if k > i {
                        assert(es2[i].0 == key);
                    }
                },
                None => {
                    assert(es2[i].0 == key);
                },
            }
        },
        None => {
            assert(es2[es.len() as int].0 == key);
            match first_index(es2, key) {
                Some(k) => {
                    if k < es.len() {
                        assert(es2[k] == es[k]);
                    }
                },
                None => {},
            }
        },
    }
}

/// `set(role, ..)` leaves what `get` returns for every other role unchanged.
pub proof fn lemma_set_keeps_others(
    es: Seq<EntryView>,
    key: Seq<char>,
    value: Seq<char>,
    other: Seq<char>,
)
    requires
        other != key,
    ensures
        lookup(assign(es, key, value), other) == lookup(es, other),
{
    lemma_first_index(es, key);
    lemma_first_index(es, other);
    let es2 = assign(es, key, value);
    lemma_first_index(es2, other);
    assert forall|j: int| 0 <= j < es.len() implies #[trigger] es2[j].0 == es[j].0 by {}
    match first_index(es, other) {
        Some(i) => {
            assert(es2[i].0 == other);
            match first_index(es2, other) {
                Some(k) => {
                    if k < i {
                        assert(es2[k].0 == es[k].0);
                    }
                    if k > i {
                        assert(es2[i].0 == other);
                    }
                    if first_index(es, key) == Some(i) {
                        assert(false);
                    }
                },
                None => {},
            }
        },
        None => {
            match first_index(es2, other) {
                Some(k) => {
                    if k < es.len() {
                        assert(es2[k].0 == es[k].0);
                    } else {
                        assert(es2[k].0 == key);
                    }
                },
                None => {},
            }
        },
    }
}

/// `set` keeps the order of the roles: an existing role stays where it is,
/// a new one is appended at the end.
pub proof fn lemma_set_keeps_order(es: Seq<EntryView>, key: Seq<char>, value: Seq<char>)
    ensures
        lookup(es, key) is Some ==> assign(es, key, value).len() == es.len(),
        lookup(es, key) is None ==> assign(es, key, value).len() == es.len() + 1 && assign(
            es,
            key,
            value,
        ).last() == (key, value),
        forall|j: int|
            0 <= j < es.len() ==> (#[trigger] assign(es, key, value)[j]).0 == es[j].0,
{
    lemma_first_index(es, key);
}

/// Setting the same role twice keeps only the second value.
pub proof fn lemma_set_twice(es: Seq<EntryView>, key: Seq<char>, v1: Seq<char>, v2: Seq<char>)
    ensures
        assign(assign(es, key, v1), key, v2) == assign(es, key, v2),
{
    lemma_first_index(es, key);
    let es1 = assign(es, key, v1);
    lemma_first_index(es1, key);
    match first_index(es, key) {
        Some(i) => {
            match first_index(es1, key) {
                Some(k) => {
                    if k < i {
                        assert(es1[k] == es[k]);
                    }
                    if k > i {
                        assert(es1[i].0 == key);
                    }
                },
                None => {
                    assert(es1[i].0 == key);
                },
            }
            assert(assign(es1, key, v2) =~= assign(es, key, v2));
        },
        None => {
            match first_index(es1, key) {
                Some(k) => {
                    if k < es.len() {
                        assert(es1[k] == es[k]);
                    }
                },
                None => {
                    assert(es1[es.len() as int].0 == key);
                },
            }
            assert(assign(es1, key, v2) =~= assign(es, key, v2));
        },
    }
}

} // verus!
