//! The views a controller renders for: each view's plugin id and the width
//! it asked for, kept in a `BTreeMap` and handed out in increasing id order.
use vstd::prelude::*;

use std::collections::BTreeMap;
use vstd::std_specs::cmp::OrdSpec;
use vstd::std_specs::iter::IteratorSpec;

use crate::state::PaneManifest;

verus! {

broadcast use {vstd::std_specs::btree::group_btree_axioms, vstd::laws_cmp::group_laws_cmp};

/// No id occurs twice, and ids increase along the entries.
pub open spec fn ids_increasing(s: Seq<(u32, usize)>) -> bool {
    forall|i: int, j: int| 0 <= i < j < s.len() ==> s[i].0 < s[j].0
}

/// The entries `s` are exactly those of the map `m`.
pub open spec fn lists(s: Seq<(u32, usize)>, m: Map<u32, usize>) -> bool {
    &&& forall|i: int|
        0 <= i < s.len() ==> m.contains_key(#[trigger] s[i].0) && m[s[i].0] == s[i].1
    &&& forall|k: u32| m.contains_key(k) ==> exists|i: int| 0 <= i < s.len() && #[trigger] s[i].0 == k
}

/// The entries of `m` in increasing id order.
pub open spec fn ordered(m: Map<u32, usize>) -> Seq<(u32, usize)> {
    choose|s: Seq<(u32, usize)>| ids_increasing(s) && lists(s, m)
}

/// Some plugin pane of the manifest has id `id`.
pub open spec fn plugin_live(m: PaneManifest, id: u32) -> bool {
    exists|t: int, p: int|
        0 <= t < m.panes@.len() && 0 <= p < m.panes@[t].1@.len() && (#[trigger] m.panes@[t].1@[p]).is_plugin
            && m.panes@[t].1@[p].id == id
}

/// The views of `m` whose plugin still has a pane in `panes`.
pub open spec fn live_views(m: Map<u32, usize>, panes: PaneManifest) -> Map<u32, usize> {
    Map::new(|k: u32| m.contains_key(k) && plugin_live(panes, k), |k: u32| m[k])
}

/// Two listings of one map in increasing id order are the same.
pub proof fn lemma_ordered_unique(s: Seq<(u32, usize)>, t: Seq<(u32, usize)>, m: Map<u32, usize>)
    requires
        ids_increasing(s),
        ids_increasing(t),
        lists(s, m),
        lists(t, m),
    ensures
        s == t,
    decreases s.len() + t.len(),
{
    if s.len() == 0 && t.len() == 0 {
        assert(s =~= t);
    } else if s.len() == 0 {
        assert(m.contains_key(t[0].0));
    } else if t.len() == 0 {
        assert(m.contains_key(s[0].0));
    } else {
        let k = s[0].0;
        assert(m.contains_key(k));
        let j = choose|j: int| 0 <= j < t.len() && #[trigger] t[j].0 == k;
        assert(m.contains_key(t[0].0));
        let i = choose|i: int| 0 <= i < s.len() && #[trigger] s[i].0 == t[0].0;
        assert(s[0].0 <= s[i].0);
        assert(t[0].0 <= t[j].0);
        assert(t[0].0 == k);
        let m2 = m.remove(k);
        let s2 = s.skip(1);
        let t2 = t.skip(1);
        assert forall|a: int, b: int| 0 <= a < b < s2.len() implies s2[a].0 < s2[b].0 by {
            assert(s2[a] == s[a + 1] && s2[b] == s[b + 1]);
        }
        assert forall|a: int, b: int| 0 <= a < b < t2.len() implies t2[a].0 < t2[b].0 by {
            assert(t2[a] == t[a + 1] && t2[b] == t[b + 1]);
        }
        assert forall|a: int| 0 <= a < s2.len() implies m2.contains_key(#[trigger] s2[a].0)
            && m2[s2[a].0] == s2[a].1 by {
            assert(s2[a] == s[a + 1]);
            assert(s[0].0 < s[a + 1].0);
        }
        assert forall|a: int| 0 <= a < t2.len() implies m2.contains_key(#[trigger] t2[a].0)
            && m2[t2[a].0] == t2[a].1 by {
            assert(t2[a] == t[a + 1]);
            assert(t[0].0 < t[a + 1].0);
        }
        assert forall|x: u32| m2.contains_key(x) implies exists|a: int|
            0 <= a < s2.len() && #[trigger] s2[a].0 == x by {
            let a = choose|a: int| 0 <= a < s.len() && #[trigger] s[a].0 == x;
            assert(a != 0);
            assert(s2[a - 1] == s[a]);
        }
        assert forall|x: u32| m2.contains_key(x) implies exists|a: int|
            0 <= a < t2.len() && #[trigger] t2[a].0 == x by {
            let a = choose|a: int| 0 <= a < t.len() && #[trigger] t[a].0 == x;
            assert(a != 0);
            assert(t2[a - 1] == t[a]);
        }
        lemma_ordered_unique(s2, t2, m2);
        assert(s[0] == t[0]);
        assert(s =~= seq![s[0]] + s2);
        assert(t =~= seq![t[0]] + t2);
    }
}

/// A listing in increasing id order is the one `ordered` gives.
pub proof fn lemma_ordered(s: Seq<(u32, usize)>, m: Map<u32, usize>)
    requires
        ids_increasing(s),
        lists(s, m),
    ensures
        ordered(m) == s,
{
    let t = ordered(m);
    assert(ids_increasing(t) && lists(t, m));
    lemma_ordered_unique(s, t, m);
}

/// The views a controller renders for.
pub struct ViewTable {
    map: BTreeMap<u32, usize>,
}

impl View for ViewTable {
    type V = Map<u32, usize>;

    closed spec fn view(&self) -> Map<u32, usize> {
        self.map@
    }
}

/// The keys of the map's iteration increase, in the map's own order.
proof fn lemma_iteration_ordered(keys: Seq<u32>)
    requires
        vstd::std_specs::btree::increasing_seq(keys),
    ensures
        forall|i: int, j: int| 0 <= i < j < keys.len() ==> keys[i] < keys[j],
{
    assert forall|i: int, j: int| 0 <= i < j < keys.len() implies keys[i] < keys[j] by {
        assert(keys[i].cmp_spec(&keys[j]) is Less);
    }
}

impl ViewTable {
    /// No views.
    pub fn new() -> (res: ViewTable)
        ensures
            res@ == Map::<u32, usize>::empty(),
    {
        ViewTable { map: BTreeMap::new() }
    }

    /// Forgets every view.
    pub fn clear(&mut self)
        ensures
            final(self)@ == Map::<u32, usize>::empty(),
    {
        self.map = BTreeMap::new();
    }

    /// The number of views.
    pub fn len(&self) -> (res: usize)
        ensures
            res == self@.len(),
    {
        self.map.len()
    }

    /// The width recorded for the view with plugin id `id`.
    pub fn get(&self, id: u32) -> (res: Option<usize>)
        ensures
            res == (if self@.contains_key(id) {
                Some(self@[id])
            } else {
                None
            }),
    {
        match self.map.get(&id) {
            Some(c) => Some(*c),
            None => None,
        }
    }

    /// Records `cols` as the width of the view with plugin id `id`.
    pub fn insert(&mut self, id: u32, cols: usize)
        ensures
            final(self)@ == old(self)@.insert(id, cols),
    {
        self.map.insert(id, cols);
    }

    /// The views in increasing id order.
    pub fn entries(&self) -> (res: Vec<(u32, usize)>)
        ensures
            res@ == ordered(self@),
            ids_increasing(res@),
            lists(res@, self@),
    {
        let mut res: Vec<(u32, usize)> = Vec::new();
        let ghost all = self.map.iter().remaining();
        for kv in it: self.map.iter()
            invariant
                it.seq() == all,
                res@ == all.take(it.index() as int).map_values(|kv: (&u32, &usize)| (*kv.0, *kv.1)),
        {
            let ghost before = res@;
            res.push((*kv.0, *kv.1));
            proof {
                let n = it.index();
                assert(all.take(n + 1).map_values(|kv: (&u32, &usize)| (*kv.0, *kv.1)) =~= before.push(
                    (*kv.0, *kv.1),
                ));
            }
        }
        proof {
            let s = res@;
            let keys = all.map_values(|kv: (&u32, &usize)| *kv.0);
            assert(all.take(all.len() as int) =~= all);
            lemma_iteration_ordered(keys);
            assert forall|i: int, j: int| 0 <= i < j < s.len() implies s[i].0 < s[j].0 by {
                assert(s[i].0 == keys[i] && s[j].0 == keys[j]);
            }
            assert forall|i: int| 0 <= i < s.len() implies self@.contains_key(#[trigger] s[i].0)
                && self@[s[i].0] == s[i].1 by {
                assert(self.map@.contains_key(*all[i].0));
            }
            assert forall|k: u32| self@.contains_key(k) implies exists|i: int|
                0 <= i < s.len() && #[trigger] s[i].0 == k by {
                assert(self.map@.contains_key(k));
                assert(all.contains((&k, &self.map@[k])));
                let i = choose|i: int| 0 <= i < all.len() && all[i] == (&k, &self.map@[k]);
                assert(s[i].0 == k);
            }
            lemma_ordered(s, self@);
        }
        res
    }

    /// Keeps only the views whose plugin still has a pane in `m`.
    pub fn retain_live(&mut self, m: &PaneManifest)
        ensures
            final(self)@ == live_views(old(self)@, *m),
    {
        let es = self.entries();
        let ghost orig = self@;
        let mut kept: BTreeMap<u32, usize> = BTreeMap::new();
        let mut i: usize = 0;
        while i < es.len()
            invariant
                i <= es@.len(),
                es@ == ordered(orig),
                ids_increasing(es@),
                lists(es@, orig),
                kept@ == Map::new(
                    |k: u32|
                        orig.contains_key(k) && plugin_live(*m, k) && exists|a: int|
                            0 <= a < i && #[trigger] es@[a].0 == k,
                    |k: u32| orig[k],
                ),
            decreases es.len() - i,
        {
            let (id, cols) = es[i];
            let ghost before = kept@;
            if is_live(m, id) {
                kept.insert(id, cols);
            }
            proof {
                assert(orig.contains_key(es@[i as int].0));
                let next = Map::new(
                    |k: u32|
                        orig.contains_key(k) && plugin_live(*m, k) && exists|a: int|
                            0 <= a < i + 1 && #[trigger] es@[a].0 == k,
                    |k: u32| orig[k],
                );
                assert forall|k: u32| #[trigger] next.contains_key(k) == kept@.contains_key(k) by {
                    if next.contains_key(k) {
                        let a = choose|a: int| 0 <= a < i + 1 && #[trigger] es@[a].0 == k;
                        if a < i {
                            assert(before.contains_key(k));
                        }
                    }
                    if kept@.contains_key(k) && k != id {
                        assert(before.contains_key(k));
                    }
                    if kept@.contains_key(k) && k == id {
                        assert(es@[i as int].0 == k);
                    }
                }
                assert(kept@ =~= next);
            }
            i += 1;
        }
        proof {
            assert forall|k: u32| orig.contains_key(k) implies exists|a: int|
                0 <= a < es@.len() && #[trigger] es@[a].0 == k by {}
            assert(kept@ =~= live_views(orig, *m));
        }
        self.map = kept;
    }
}

/// Whether some plugin pane of `m` has id `id`.
pub fn is_live(m: &PaneManifest, id: u32) -> (res: bool)
    ensures
        res == plugin_live(*m, id),
{
    let mut t: usize = 0;
    while t < m.panes.len()
        invariant
            t <= m.panes@.len(),
            forall|a: int, b: int|
                0 <= a < t && 0 <= b < m.panes@[a].1@.len() ==> !((#[trigger] m.panes@[a].1@[b]).is_plugin
                    && m.panes@[a].1@[b].id == id),
        decreases m.panes.len() - t,
    {
        let panes = &m.panes[t].1;
        let mut p: usize = 0;
        while p < panes.len()
            invariant
                t < m.panes@.len(),
                panes@ == m.panes@[t as int].1@,
                p <= panes@.len(),
                forall|a: int, b: int|
                    0 <= a < t && 0 <= b < m.panes@[a].1@.len() ==> !((#[trigger] m.panes@[a].1@[b]).is_plugin
                        && m.panes@[a].1@[b].id == id),
                forall|b: int| 0 <= b < p ==> !((#[trigger] panes@[b]).is_plugin && panes@[b].id == id),
            decreases panes.len() - p,
        {
            if panes[p].is_plugin && panes[p].id == id {
                assert(m.panes@[t as int].1@[p as int].is_plugin);
                return true;
            }
            p += 1;
        }
        assert forall|a: int, b: int|
            0 <= a < t + 1 && 0 <= b < m.panes@[a].1@.len() implies !((#[trigger] m.panes@[a].1@[b]).is_plugin
            && m.panes@[a].1@[b].id == id) by {
            if a == t {
                assert(m.panes@[a].1@[b] == panes@[b]);
            }
        }
        t += 1;
    }
    false
}

} // verus!
