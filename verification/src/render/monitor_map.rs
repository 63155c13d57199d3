use vstd::prelude::*;

use crate::strings::{chars_eq, chars_of, string_from_chars};

verus! {

/// Per-monitor state: at most one entry for each monitor name.
#[derive(Debug)]
pub struct MonitorMap<V> {
    pub entries: Vec<(String, V)>,
}

/// The entry of `monitor` in `entries`, if any.
pub open spec fn lookup<V>(entries: Seq<(String, V)>, monitor: Seq<char>) -> Option<V>
    decreases entries.len(),
{
    if entries.len() == 0 {
        None
    } else if entries.last().0@ == monitor {
        Some(entries.last().1)
    } else {
        lookup(entries.drop_last(), monitor)
    }
}

impl<V> MonitorMap<V> {
    /// No monitor has two entries.
    pub open spec fn wf(&self) -> bool {
        forall|i: int, j: int|
            0 <= i < j < self.entries@.len() ==> #[trigger] self.entries@[i].0@
                != #[trigger] self.entries@[j].0@
    }

    pub open spec fn get_spec(&self, monitor: Seq<char>) -> Option<V> {
        lookup(self.entries@, monitor)
    }

    pub fn new() -> (r: MonitorMap<V>)
        ensures
            r.wf(),
            forall|m: Seq<char>| #[trigger] r.get_spec(m) is None,
    {
        MonitorMap { entries: Vec::new() }
    }

    /// Index of the entry for `monitor`.
    pub fn find(&self, monitor: &str) -> (r: Option<usize>)
        requires
            self.wf(),
        ensures
            match r {
                Some(i) => i < self.entries@.len() && self.entries@[i as int].0@ == monitor@
                    && self.get_spec(monitor@) == Some(self.entries@[i as int].1),
                None => self.get_spec(monitor@) is None,
            },
    {
        let want: Vec<char> = chars_of(monitor);
        let mut i: usize = self.entries.len();
        proof {
            assert(self.entries@.take(self.entries@.len() as int) =~= self.entries@);
        }
        while i > 0
            invariant
                i <= self.entries@.len(),
                want@ == monitor@,
                self.wf(),
                forall|j: int| i <= j < self.entries@.len() ==> self.entries@[j].0@ != monitor@,
                lookup(self.entries@, monitor@) == lookup(self.entries@.take(i as int), monitor@),
            decreases i,
        {
            proof {
                assert(self.entries@.take(i as int).drop_last() =~= self.entries@.take(i - 1));
            }
            let name: Vec<char> = chars_of(self.entries[i - 1].0.as_str());
            if chars_eq(name.as_slice(), want.as_slice()) {
                return Some(i - 1);
            }
            i = i - 1;
        }
        None
    }

    /// The entry for `monitor`.
    pub fn get(&self, monitor: &str) -> (r: Option<&V>)
        requires
            self.wf(),
        ensures
            match self.get_spec(monitor@) {
                Some(v) => r == Some(&v),
                None => r is None,
            },
    {
        match self.find(monitor) {
            Some(i) => Some(&self.entries[i].1),
            None => None,
        }
    }

    /// Puts `value` as the entry for `monitor`.
    pub fn insert(&mut self, monitor: &str, value: V)
        requires
            old(self).wf(),
        ensures
            final(self).wf(),
            final(self).get_spec(monitor@) == Some(value),
            forall|m: Seq<char>| m != monitor@ ==> #[trigger] final(self).get_spec(m) == old(
                self,
            ).get_spec(m),
    {
        match self.find(monitor) {
            Some(i) => {
                let name: String = string_from_chars(chars_of(monitor).as_slice());
                let ghost before = self.entries@;
                self.entries.set(i, (name, value));
                proof {
                    assert forall|m: Seq<char>| #[trigger] lookup(self.entries@, m) == if m
                        == monitor@ {
                        Some(value)
                    } else {
                        lookup(before, m)
                    } by {
                        lemma_lookup_update(before, i as int, name, value, m);
                    }
                }
            },
            None => {
                let name: String = string_from_chars(chars_of(monitor).as_slice());
                let ghost before = self.entries@;
                self.entries.push((name, value));
                proof {
                    assert(self.entries@.drop_last() =~= before);
                    assert forall|i: int, j: int|
                        0 <= i < j < self.entries@.len() implies #[trigger] self.entries@[i].0@
                        != #[trigger] self.entries@[j].0@ by {
                        if j == self.entries@.len() - 1 {
                            lemma_lookup_absent(before, monitor@, i);
                        }
                    }
                }
            },
        }
    }

    /// Drops the entry for `monitor`; says whether there was one.
    pub fn remove(&mut self, monitor: &str) -> (r: bool)
        requires
            old(self).wf(),
        ensures
            final(self).wf(),
            r == old(self).get_spec(monitor@) is Some,
            final(self).get_spec(monitor@) is None,
            forall|m: Seq<char>| m != monitor@ ==> #[trigger] final(self).get_spec(m) == old(
                self,
            ).get_spec(m),
    {
        match self.find(monitor) {
            Some(i) => {
                let ghost before = self.entries@;
                let _ = self.entries.remove(i);
                proof {
                    assert(self.entries@ =~= before.remove(i as int));
                    assert forall|a: int, b: int|
                        0 <= a < b < self.entries@.len() implies #[trigger] self.entries@[a].0@
                        != #[trigger] self.entries@[b].0@ by {
                        let a0 = if a < i {
                            a
                        } else {
                            a + 1
                        };
                        let b0 = if b < i {
                            b
                        } else {
                            b + 1
                        };
                        assert(before[a0].0@ != before[b0].0@);
                    }
                    assert forall|m: Seq<char>| #[trigger] lookup(self.entries@, m) == if m
                        == monitor@ {
                        None
                    } else {
                        lookup(before, m)
                    } by {
                        lemma_lookup_remove(before, i as int, m);
                    }
                }
                true
            },
            None => false,
        }
    }
}

/// Without duplicates, `lookup` finds the one entry with the name.
pub proof fn lemma_lookup_at<V>(entries: Seq<(String, V)>, k: int)
    requires
        0 <= k < entries.len(),
        forall|i: int, j: int|
            0 <= i < j < entries.len() ==> #[trigger] entries[i].0@ != #[trigger] entries[j].0@,
    ensures
        lookup(entries, entries[k].0@) == Some(entries[k].1),
    decreases entries.len(),
{
    if k < entries.len() - 1 {
        assert(entries[k].0@ != entries[entries.len() - 1].0@);
        lemma_lookup_at(entries.drop_last(), k);
    }
}

/// `lookup` misses a name that no entry has.
pub proof fn lemma_lookup_absent<V>(entries: Seq<(String, V)>, m: Seq<char>, k: int)
    requires
        lookup(entries, m) is None,
        0 <= k < entries.len(),
    ensures
        entries[k].0@ != m,
    decreases entries.len(),
{
    if k < entries.len() - 1 {
        lemma_lookup_absent(entries.drop_last(), m, k);
    }
}

proof fn lemma_lookup_none_all<V>(entries: Seq<(String, V)>, m: Seq<char>)
    requires
        forall|k: int| 0 <= k < entries.len() ==> #[trigger] entries[k].0@ != m,
    ensures
        lookup(entries, m) is None,
    decreases entries.len(),
{
    if entries.len() > 0 {
        lemma_lookup_none_all(entries.drop_last(), m);
    }
}

proof fn lemma_lookup_update<V>(entries: Seq<(String, V)>, i: int, name: String, value: V, m: Seq<char>)
    requires
        0 <= i < entries.len(),
        entries[i].0@ == name@,
        forall|a: int, b: int|
            0 <= a < b < entries.len() ==> #[trigger] entries[a].0@ != #[trigger] entries[b].0@,
    ensures
        lookup(entries.update(i, (name, value)), m) == if m == name@ {
            Some(value)
        } else {
            lookup(entries, m)
        },
    decreases entries.len(),
{
    let u = entries.update(i, (name, value));
    if i == entries.len() - 1 {
        assert(u.drop_last() =~= entries.drop_last());
    } else {
        assert(u.drop_last() =~= entries.drop_last().update(i, (name, value)));
        lemma_lookup_update(entries.drop_last(), i, name, value, m);
        if m == name@ {
            assert(entries.last().0@ != entries[i].0@);
        }
    }
}

proof fn lemma_lookup_remove<V>(entries: Seq<(String, V)>, i: int, m: Seq<char>)
    requires
        0 <= i < entries.len(),
        forall|a: int, b: int|
            0 <= a < b < entries.len() ==> #[trigger] entries[a].0@ != #[trigger] entries[b].0@,
    ensures
        lookup(entries.remove(i), m) == if m == entries[i].0@ {
            None
        } else {
            lookup(entries, m)
        },
    decreases entries.len(),
{
    let r = entries.remove(i);
    if i == entries.len() - 1 {
        assert(r =~= entries.drop_last());
        if m == entries[i].0@ {
            assert forall|k: int| 0 <= k < r.len() implies #[trigger] r[k].0@ != m by {
                assert(entries[k].0@ != entries[i].0@);
            }
            lemma_lookup_none_all(r, m);
        }
    } else {
        assert(r.drop_last() =~= entries.drop_last().remove(i));
        assert(r.last() == entries.last());
        lemma_lookup_remove(entries.drop_last(), i, m);
        if m == entries[i].0@ {
            assert(entries.last().0@ != entries[i].0@);
        }
    }
}

} // verus!
