//! Counts per key, for the bar chart.
use crate::format::same_text;
use vstd::prelude::*;

verus! {

/// The map that a list of (key, count) entries stands for; a later entry of
/// a key wins, though in a [`KeyCounts`] no key is listed twice.
pub open spec fn as_map(es: Seq<(Seq<char>, nat)>) -> Map<Seq<char>, nat>
    decreases es.len(),
{
    if es.len() == 0 {
        Map::empty()
    } else {
        as_map(es.drop_last()).insert(es.last().0, es.last().1)
    }
}

pub open spec fn keys_unique(es: Seq<(Seq<char>, nat)>) -> bool {
    forall|i: int, j: int| 0 <= i < es.len() && 0 <= j < es.len() && i != j ==> es[i].0 != es[j].0
}

/// The count of `k` in `m`, 0 for a key that is not there.
pub open spec fn count_in(m: Map<Seq<char>, nat>, k: Seq<char>) -> nat {
    if m.contains_key(k) {
        m[k]
    } else {
        0
    }
}

/// Counts per key, each key listed once, in the order keys were first seen.
#[derive(Debug)]
pub struct KeyCounts {
    /// The (key, count) entries; [`KeyCounts::wf`] holds while no key is listed twice.
    pub entries: Vec<(String, usize)>,
}

proof fn lemma_map_has(es: Seq<(Seq<char>, nat)>, i: int)
    requires
        keys_unique(es),
        0 <= i < es.len(),
    ensures
        as_map(es).contains_key(es[i].0),
        as_map(es)[es[i].0] == es[i].1,
    decreases es.len(),
{
    if i < es.len() - 1 {
        lemma_map_has(es.drop_last(), i);
    }
}

proof fn lemma_map_lacks(es: Seq<(Seq<char>, nat)>, k: Seq<char>)
    requires
        forall|i: int| 0 <= i < es.len() ==> es[i].0 != k,
    ensures
        !as_map(es).contains_key(k),
    decreases es.len(),
{
    if es.len() > 0 {
        lemma_map_lacks(es.drop_last(), k);
    }
}

proof fn lemma_map_update(es: Seq<(Seq<char>, nat)>, i: int, v: nat)
    requires
        keys_unique(es),
        0 <= i < es.len(),
    ensures
        as_map(es.update(i, (es[i].0, v))) == as_map(es).insert(es[i].0, v),
    decreases es.len(),
{
    let us = es.update(i, (es[i].0, v));
    if i == es.len() - 1 {
        assert(us.drop_last() =~= es.drop_last());
        assert(as_map(es).insert(es[i].0, v) =~= as_map(es.drop_last()).insert(es[i].0, v));
    } else {
        let d = es.drop_last();
        assert(us.drop_last() =~= d.update(i, (d[i].0, v)));
        lemma_map_update(d, i, v);
        assert(es.last().0 != es[i].0);
        assert(as_map(us) =~= as_map(es).insert(es[i].0, v));
    }
}

impl KeyCounts {
    pub open spec fn pairs(&self) -> Seq<(Seq<char>, nat)> {
        self.entries@.map_values(|e: (String, usize)| (e.0@, e.1 as nat))
    }

    pub open spec fn wf(&self) -> bool {
        keys_unique(self.pairs())
    }

    pub fn new() -> (r: KeyCounts)
        ensures
            r.wf(),
            r@ == Map::<Seq<char>, nat>::empty(),
    {
        let r = KeyCounts { entries: Vec::new() };
        assert(r.pairs() =~= Seq::empty());
        r
    }

    fn position(&self, key: &str) -> (r: Option<usize>)
        ensures
            match r {
                Some(i) => i < self.pairs().len() && self.pairs()[i as int].0 == key@,
                None => forall|i: int| 0 <= i < self.pairs().len() ==> self.pairs()[i].0 != key@,
            },
    {
        let mut i: usize = 0;
        while i < self.entries.len()
            invariant
                i <= self.entries@.len(),
                forall|j: int| 0 <= j < i ==> self.pairs()[j].0 != key@,
            decreases self.entries@.len() - i,
        {
            if same_text(self.entries[i].0.as_str(), key) {
                return Some(i);
            }
            i = i + 1;
        }
        None
    }

    /// The count of `key`, 0 for a key not seen.
    pub fn get(&self, key: &str) -> (r: usize)
        requires
            self.wf(),
        ensures
            r == count_in(self@, key@),
    {
        match self.position(key) {
            Some(i) => {
                proof {
                    lemma_map_has(self.pairs(), i as int);
                }
                self.entries[i].1
            },
            None => {
                proof {
                    lemma_map_lacks(self.pairs(), key@);
                }
                0
            },
        }
    }

    /// Adds `count` to the count of `key`.
    pub fn add(&mut self, key: &str, count: usize)
        requires
            old(self).wf(),
            count_in(old(self)@, key@) + count <= usize::MAX,
        ensures
            final(self).wf(),
            final(self)@ == old(self)@.insert(key@, (count_in(old(self)@, key@) + count) as nat),
    {
        match self.position(key) {
            Some(i) => {
                proof {
                    lemma_map_has(self.pairs(), i as int);
                    lemma_map_update(self.pairs(), i as int, (count_in(self@, key@) + count) as nat);
                }
                let c = self.entries[i].1 + count;
                self.entries.set(i, (String::from_str(key), c));
                assert(self.pairs() =~= old(self).pairs().update(
                    i as int,
                    (old(self).pairs()[i as int].0, c as nat),
                ));
                assert forall|a: int, b: int|
                    0 <= a < self.pairs().len() && 0 <= b < self.pairs().len() && a != b implies
                    self.pairs()[a].0 != self.pairs()[b].0 by {
                    assert(self.pairs()[a].0 == old(self).pairs()[a].0);
                    assert(self.pairs()[b].0 == old(self).pairs()[b].0);
                }
            },
            None => {
                proof {
                    lemma_map_lacks(self.pairs(), key@);
                }
                self.entries.push((String::from_str(key), count));
                assert(self.pairs().drop_last() =~= old(self).pairs());
                assert forall|a: int, b: int|
                    0 <= a < self.pairs().len() && 0 <= b < self.pairs().len() && a != b implies
                    self.pairs()[a].0 != self.pairs()[b].0 by {
                    let n = old(self).pairs().len() as int;
                    if a < n {
                        assert(self.pairs()[a] == old(self).pairs()[a]);
                    }
                    if b < n {
                        assert(self.pairs()[b] == old(self).pairs()[b]);
                    }
                }
            },
        }
    }

    /// Whether no key has been counted.
    pub fn is_empty(&self) -> (r: bool)
        ensures
            r == (self@ == Map::<Seq<char>, nat>::empty()),
    {
        if self.entries.len() == 0 {
            assert(self.pairs() =~= Seq::empty());
            true
        } else {
            assert(as_map(self.pairs()).contains_key(self.pairs().last().0));
            false
        }
    }
}

impl View for KeyCounts {
    type V = Map<Seq<char>, nat>;

    open spec fn view(&self) -> Map<Seq<char>, nat> {
        as_map(self.pairs())
    }
}

} // verus!
