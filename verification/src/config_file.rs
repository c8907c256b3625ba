//! One configuration file: a table of overrides, sorted by title.

use vstd::prelude::*;
use std::collections::BTreeMap;
use vstd::laws_cmp::group_laws_cmp;
use vstd::std_specs::btree::{group_btree_axioms, increasing_seq};
use vstd::std_specs::cmp::OrdSpec;
use vstd::std_specs::iter::IteratorSpec;
use crate::config::{override_views, GameConfig, GameConfigView};

verus! {

broadcast use {group_btree_axioms, group_laws_cmp};

/// One configuration file: the overrides it holds, one for a title.
#[derive(Debug)]
pub struct GameConfigFile {
    pub overrides: BTreeMap<u32, GameConfig>,
}

/// The mathematical content of a table of overrides.
pub open spec fn table_views(table: Map<u32, GameConfig>) -> Map<u32, GameConfigView> {
    Map::new(|id: u32| table.contains_key(id), |id: u32| table[id]@)
}

/// The titles of `list` rise from each entry to the next.
pub open spec fn rising(list: Seq<(u32, GameConfigView)>) -> bool {
    forall|i: int, j: int| 0 <= i < j < list.len() ==> list[i].0 < list[j].0
}

/// `list` holds what `table` holds, sorted by title: each entry is an
/// entry of the table, and every title of the table has its entry.
pub open spec fn lists(list: Seq<(u32, GameConfigView)>, table: Map<u32, GameConfigView>) -> bool {
    &&& rising(list)
    &&& forall|i: int|
        0 <= i < list.len() ==> table.contains_key(#[trigger] list[i].0) && table[list[i].0]
            == list[i].1
    &&& forall|id: u32|
        table.contains_key(id) ==> exists|i: int| 0 <= i < list.len() && #[trigger] list[i].0 == id
}

/// The entries of `table` in the order of their titles.
pub open spec fn sorted_entries(table: Map<u32, GameConfigView>) -> Seq<(u32, GameConfigView)> {
    choose|list: Seq<(u32, GameConfigView)>| lists(list, table)
}

impl View for GameConfigFile {
    type V = Seq<(u32, GameConfigView)>;

    /// The overrides in the order in which they are read: by rising title.
    open spec fn view(&self) -> Seq<(u32, GameConfigView)> {
        sorted_entries(table_views(self.overrides@))
    }
}

/// Two sorted lists of one table have the same title at each position.
pub proof fn lemma_same_titles(
    a: Seq<(u32, GameConfigView)>,
    b: Seq<(u32, GameConfigView)>,
    table: Map<u32, GameConfigView>,
    i: int,
)
    requires
        lists(a, table),
        lists(b, table),
        0 <= i < a.len(),
    ensures
        i < b.len(),
        b[i].0 == a[i].0,
    decreases i,
{
    let id = a[i].0;
    assert(table.contains_key(id));
    let j = choose|j: int| 0 <= j < b.len() && #[trigger] b[j].0 == id;
    if j < i {
        lemma_same_titles(b, a, table, j);
        assert(a[j].0 < a[i].0);
    }
    if i < j {
        let other = b[i].0;
        assert(table.contains_key(other));
        let k = choose|k: int| 0 <= k < a.len() && #[trigger] a[k].0 == other;
        assert(b[i].0 < b[j].0);
        if k < i {
            lemma_same_titles(a, b, table, k);
            assert(b[k].0 < b[i].0);
        } else if k > i {
            assert(a[i].0 < a[k].0);
        }
    }
}

/// A table has one sorted list only.
pub proof fn lemma_one_sorted_list(
    a: Seq<(u32, GameConfigView)>,
    b: Seq<(u32, GameConfigView)>,
    table: Map<u32, GameConfigView>,
)
    requires
        lists(a, table),
        lists(b, table),
    ensures
        a == b,
{
    if a.len() > 0 {
        lemma_same_titles(a, b, table, a.len() - 1);
    }
    if b.len() > 0 {
        lemma_same_titles(b, a, table, b.len() - 1);
    }
    assert forall|i: int| 0 <= i < a.len() implies a[i] == b[i] by {
        lemma_same_titles(a, b, table, i);
        assert(table[a[i].0] == a[i].1);
        assert(table[b[i].0] == b[i].1);
    }
    assert(a =~= b);
}

impl GameConfigFile {
    /// The file without overrides.
    pub fn new() -> (out: Self)
        ensures
            out.overrides@ == Map::<u32, GameConfig>::empty(),
            out@.len() == 0,
    {
        let out = GameConfigFile { overrides: BTreeMap::new() };
        proof {
            let table = table_views(out.overrides@);
            let none = Seq::<(u32, GameConfigView)>::empty();
            assert(lists(none, table));
            lemma_one_sorted_list(none, out@, table);
        }
        out
    }

    /// The overrides in the order in which they are read: by rising
    /// title, each title once.
    pub fn entries(&self) -> (out: Vec<(u32, GameConfig)>)
        ensures
            override_views(out@) == self@,
            lists(self@, table_views(self.overrides@)),
    {
        let mut out: Vec<(u32, GameConfig)> = Vec::new();
        let all = self.overrides.iter();
        proof {
            let titles = all.remaining().map_values(|kv: (&u32, &GameConfig)| *kv.0);
            assert(increasing_seq(titles));
            assert forall|i: int, j: int| 0 <= i < j < all.remaining().len() implies *all.remaining()[i].0
                < *all.remaining()[j].0 by {
                assert(titles[i] == *all.remaining()[i].0);
                assert(titles[j] == *all.remaining()[j].0);
                assert(titles[i].cmp_spec(&titles[j]) is Less);
            }
        }
        for kv in it: all
            invariant
                out@.len() == it.index(),
                forall|i: int, j: int|
                    0 <= i < j < it.seq().len() ==> *it.seq()[i].0 < *it.seq()[j].0,
                forall|i: int|
                    0 <= i < out@.len() ==> out@[i].0 == *it.seq()[i].0 && out@[i].1@ == (
                    *it.seq()[i].1)@,
        {
            let (id, config) = kv;
            out.push((*id, config.clone()));
        }
        proof {
            let table = table_views(self.overrides@);
            let list = override_views(out@);
            assert forall|id: u32| self.overrides@.contains_key(id) implies exists|i: int|
                0 <= i < out@.len() && #[trigger] out@[i].0 == id by {}
            assert(lists(list, table)) by {
                assert forall|id: u32| table.contains_key(id) implies exists|i: int|
                    0 <= i < list.len() && #[trigger] list[i].0 == id by {
                    let i = choose|i: int| 0 <= i < out@.len() && #[trigger] out@[i].0 == id;
                    assert(list[i].0 == id);
                }
            }
            lemma_one_sorted_list(list, self@, table);
        }
        out
    }
}

} // verus!
