//! The ordered mapping from names to definition nodes.
//!
//! The entries are kept by a `LinkedHashMap`, which Verus does not look
//! into. What the map holds is named by `node_map_entries`: the names in
//! their order, each with the view of its node. The contracts of the five
//! private functions at the end of this file say how the `LinkedHashMap`
//! treats that sequence, and everything else is proved from them.

use vstd::prelude::*;
use linked_hash_map::LinkedHashMap;
use crate::schema::{LexiconData, LexiconDataView};

verus! {

/// Named definition nodes, in the order in which their names were last
/// inserted: a name that is inserted again moves to the end.
#[verifier::external_body]
#[derive(Debug)]
pub struct NodeMap {
    inner: LinkedHashMap<String, LexiconData>,
}

/// The entries of a map, oldest first: each name with the view of its node.
pub uninterp spec fn node_map_entries(m: NodeMap) -> Seq<(Seq<char>, LexiconDataView)>;

impl View for NodeMap {
    type V = Seq<(Seq<char>, LexiconDataView)>;

    open spec fn view(&self) -> Seq<(Seq<char>, LexiconDataView)> {
        node_map_entries(*self)
    }
}

/// Whether some entry has the name `key`.
pub open spec fn has_key(entries: Seq<(Seq<char>, LexiconDataView)>, key: Seq<char>) -> bool {
    exists|i: int| 0 <= i < entries.len() && (#[trigger] entries[i]).0 == key
}

/// The entries without those named `key`, the others in their order.
pub open spec fn without_key(
    entries: Seq<(Seq<char>, LexiconDataView)>,
    key: Seq<char>,
) -> Seq<(Seq<char>, LexiconDataView)>
    decreases entries.len(),
{
    if entries.len() == 0 {
        entries
    } else if entries.last().0 == key {
        without_key(entries.drop_last(), key)
    } else {
        without_key(entries.drop_last(), key).push(entries.last())
    }
}

/// The entries after `key` is given the node `node`: an earlier entry of
/// that name is gone, and the new entry is the last.
pub open spec fn with_entry(
    entries: Seq<(Seq<char>, LexiconDataView)>,
    key: Seq<char>,
    node: LexiconDataView,
) -> Seq<(Seq<char>, LexiconDataView)> {
    without_key(entries, key).push((key, node))
}

/// Whether no two entries have the same name.
pub open spec fn distinct_keys(entries: Seq<(Seq<char>, LexiconDataView)>) -> bool {
    forall|i: int, j: int|
        0 <= i < j < entries.len() ==> (#[trigger] entries[i]).0 != (#[trigger] entries[j]).0
}

/// Taking out a name that no entry has changes nothing.
pub proof fn lemma_without_absent_key(entries: Seq<(Seq<char>, LexiconDataView)>, key: Seq<char>)
    requires
        !has_key(entries, key),
    ensures
        without_key(entries, key) == entries,
    decreases entries.len(),
{
    if entries.len() > 0 {
        let front = entries.drop_last();
        assert(entries.last() == entries[entries.len() - 1]);
        assert forall|i: int| 0 <= i < front.len() implies (#[trigger] front[i]).0 != key by {
            assert(front[i] == entries[i]);
        }
        lemma_without_absent_key(front, key);
        assert(front.push(entries.last()) =~= entries);
    }
}

/// What is left when a name is taken out: entries of the old sequence, in
/// their old order, none of them of that name, and all those of other names.
pub proof fn lemma_without_key(entries: Seq<(Seq<char>, LexiconDataView)>, key: Seq<char>)
    ensures
        !has_key(without_key(entries, key), key),
        without_key(entries, key).len() <= entries.len(),
        distinct_keys(entries) ==> distinct_keys(without_key(entries, key)),
        forall|i: int|
            0 <= i < without_key(entries, key).len() ==> has_key(
                entries,
                (#[trigger] without_key(entries, key)[i]).0,
            ),
        forall|name: Seq<char>|
            name != key && has_key(entries, name) ==> #[trigger] has_key(
                without_key(entries, key),
                name,
            ),
    decreases entries.len(),
{
    let rest = without_key(entries, key);
    if entries.len() > 0 {
        let front = entries.drop_last();
        let last = entries.last();
        lemma_without_key(front, key);
        let before = without_key(front, key);
        assert forall|i: int| 0 <= i < front.len() implies #[trigger] front[i] == entries[i] by {}
        assert forall|i: int| 0 <= i < rest.len() implies has_key(entries, (#[trigger] rest[i]).0) by {
            if i < before.len() {
                assert(rest[i] == before[i]);
                let k = choose|k: int| 0 <= k < front.len() && (#[trigger] front[k]).0 == before[i].0;
                assert(entries[k].0 == rest[i].0);
            } else {
                assert(rest[i] == last);
                assert(entries[entries.len() - 1].0 == rest[i].0);
            }
        }
        assert forall|name: Seq<char>| name != key && has_key(entries, name) implies #[trigger] has_key(
            rest,
            name,
        ) by {
            let k = choose|k: int| 0 <= k < entries.len() && (#[trigger] entries[k]).0 == name;
            if k < front.len() {
                assert(front[k].0 == name);
                assert(has_key(before, name));
                let m = choose|m: int| 0 <= m < before.len() && (#[trigger] before[m]).0 == name;
                assert(rest[m].0 == name);
            } else {
                assert(last.0 == name);
                assert(rest[rest.len() - 1].0 == name);
            }
        }
        if has_key(rest, key) {
            let m = choose|m: int| 0 <= m < rest.len() && (#[trigger] rest[m]).0 == key;
            if m < before.len() {
                assert(before[m].0 == key);
            }
        }
        if distinct_keys(entries) {
            assert forall|i: int, j: int| 0 <= i < j < front.len() implies (#[trigger] front[i]).0
                != (#[trigger] front[j]).0 by {
                assert(front[i] == entries[i] && front[j] == entries[j]);
            }
            assert forall|i: int, j: int| 0 <= i < j < rest.len() implies (#[trigger] rest[i]).0 != (
            #[trigger] rest[j]).0 by {
                if j < before.len() {
                    assert(rest[i] == before[i] && rest[j] == before[j]);
                } else {
                    assert(rest[i] == before[i]);
                    let k = choose|k: int|
                        0 <= k < front.len() && (#[trigger] front[k]).0 == before[i].0;
                    assert(entries[k].0 != entries[entries.len() - 1].0);
                }
            }
        }
    }
}

/// Giving a name a node keeps the names distinct, makes the new entry the
/// last one, and keeps every other name.
pub proof fn lemma_with_entry(
    entries: Seq<(Seq<char>, LexiconDataView)>,
    key: Seq<char>,
    node: LexiconDataView,
)
    ensures
        with_entry(entries, key, node).last() == (key, node),
        distinct_keys(entries) ==> distinct_keys(with_entry(entries, key, node)),
        !has_key(entries, key) ==> with_entry(entries, key, node) == entries.push((key, node)),
        has_key(with_entry(entries, key, node), key),
        forall|name: Seq<char>|
            has_key(entries, name) ==> #[trigger] has_key(with_entry(entries, key, node), name),
{
    let rest = without_key(entries, key);
    let all = with_entry(entries, key, node);
    lemma_without_key(entries, key);
    if !has_key(entries, key) {
        lemma_without_absent_key(entries, key);
    }
    assert(all[all.len() - 1].0 == key);
    assert forall|name: Seq<char>| has_key(entries, name) implies #[trigger] has_key(
        all,
        name,
    ) by {
        if name != key {
            assert(has_key(rest, name));
            let m = choose|m: int| 0 <= m < rest.len() && (#[trigger] rest[m]).0 == name;
            assert(all[m].0 == name);
        }
    }
    if distinct_keys(entries) {
        assert forall|i: int, j: int| 0 <= i < j < all.len() implies (#[trigger] all[i]).0 != (
        #[trigger] all[j]).0 by {
            assert(all[i] == rest[i]);
            if j < rest.len() {
                assert(all[j] == rest[j]);
            } else {
                assert(rest[i].0 != key);
            }
        }
    }
}

impl NodeMap {
    /// An empty map.
    pub fn new() -> (m: NodeMap)
        ensures
            m@ == Seq::<(Seq<char>, LexiconDataView)>::empty(),
    {
        NodeMap::raw_new()
    }

    /// Gives `key` the node `node`, as the last entry, and hands back the
    /// node that `key` had before.
    pub fn insert(&mut self, key: String, node: LexiconData) -> (previous: Option<LexiconData>)
        ensures
            final(self)@ == with_entry(old(self)@, key@, node@),
            previous is Some <==> has_key(old(self)@, key@),
            forall|i: int|
                0 <= i < old(self)@.len() && (#[trigger] old(self)@[i]).0 == key@
                    ==> previous is Some && previous->Some_0@ == old(self)@[i].1,
    {
        self.raw_insert(key, node)
    }

    /// Whether some entry has the name `key`.
    pub fn contains_key(&self, key: &str) -> (found: bool)
        ensures
            found == has_key(self@, key@),
    {
        self.raw_contains_key(key)
    }

    /// The number of entries.
    pub fn len(&self) -> (n: usize)
        ensures
            n == self@.len(),
    {
        self.raw_len()
    }

    /// The entries in their order.
    pub fn entries(&self) -> (entries: Vec<(&String, &LexiconData)>)
        ensures
            entries@.len() == self@.len(),
            forall|i: int|
                0 <= i < entries@.len() ==> (#[trigger] entries@[i]).0@ == self@[i].0
                    && entries@[i].1@ == self@[i].1,
    {
        self.raw_entries()
    }

    /// `LinkedHashMap::new`: the new map holds nothing.
    #[verifier::external_body]
    fn raw_new() -> (m: NodeMap)
        ensures
            node_map_entries(m) == Seq::<(Seq<char>, LexiconDataView)>::empty(),
    {
        NodeMap { inner: LinkedHashMap::new() }
    }

    /// `LinkedHashMap::insert`. A key that the map did not hold becomes its
    /// last entry. A key that it held keeps no earlier place: its entry gets
    /// the new node and moves to the end, and the node it had is returned.
    #[verifier::external_body]
    fn raw_insert(&mut self, key: String, node: LexiconData) -> (previous: Option<LexiconData>)
        ensures
            node_map_entries(*final(self)) == with_entry(
                node_map_entries(*old(self)),
                key@,
                node@,
            ),
            previous is Some <==> has_key(node_map_entries(*old(self)), key@),
            forall|i: int|
                0 <= i < node_map_entries(*old(self)).len() && (#[trigger] node_map_entries(
                    *old(self),
                )[i]).0 == key@ ==> previous is Some && previous->Some_0@ == node_map_entries(
                    *old(self),
                )[i].1,
    {
        self.inner.insert(key, node)
    }

    /// `LinkedHashMap::contains_key`: whether the map holds the key.
    #[verifier::external_body]
    fn raw_contains_key(&self, key: &str) -> (found: bool)
        ensures
            found == has_key(node_map_entries(*self), key@),
    {
        self.inner.contains_key(key)
    }

    /// `LinkedHashMap::len`: the number of entries.
    #[verifier::external_body]
    fn raw_len(&self) -> (n: usize)
        ensures
            n == node_map_entries(*self).len(),
    {
        self.inner.len()
    }

    /// `LinkedHashMap::iter`, collected: every entry once, oldest first.
    #[verifier::external_body]
    fn raw_entries(&self) -> (entries: Vec<(&String, &LexiconData)>)
        ensures
            entries@.len() == node_map_entries(*self).len(),
            forall|i: int|
                0 <= i < entries@.len() ==> (#[trigger] entries@[i]).0@ == node_map_entries(
                    *self,
                )[i].0 && entries@[i].1@ == node_map_entries(*self)[i].1,
    {
        self.inner.iter().collect()
    }
}

} // verus!
