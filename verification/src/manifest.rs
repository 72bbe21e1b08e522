//! The scaffold manifest: for each managed control-plane file, the hash of
//! the default content it was last refreshed to.

use vstd::prelude::*;
use crate::text::{owned, str_eq};

verus! {

/// A map from file paths to content hashes.
#[derive(Debug)]
pub struct Manifest {
    entries: Vec<(String, String)>,
}

/// The map a list of (path, hash) pairs gives when they are inserted in
/// order (a later pair for a path replaces an earlier one).
pub open spec fn inserted(es: Seq<(String, String)>) -> Map<Seq<char>, Seq<char>>
    decreases es.len(),
{
    if es.len() == 0 {
        Map::empty()
    } else {
        inserted(es.drop_last()).insert(es.last().0@, es.last().1@)
    }
}

/// No path occurs twice.
pub open spec fn keys_distinct(es: Seq<(String, String)>) -> bool {
    forall|i: int, j: int| 0 <= i < j < es.len() ==> es[i].0@ != es[j].0@
}

/// With distinct paths, the map holds exactly the pairs of the list.
proof fn lemma_inserted_distinct(es: Seq<(String, String)>)
    requires
        keys_distinct(es),
    ensures
        forall|k: Seq<char>| #[trigger] inserted(es).dom().contains(k) <==> exists|i: int|
            0 <= i < es.len() && es[i].0@ == k,
        forall|i: int| 0 <= i < es.len() ==> #[trigger] inserted(es)[es[i].0@] == es[i].1@,
        inserted(es).dom().finite(),
    decreases es.len(),
{
    if es.len() > 0 {
        let pre = es.drop_last();
        assert(keys_distinct(pre));
        lemma_inserted_distinct(pre);
        assert forall|k: Seq<char>| #[trigger] inserted(es).dom().contains(k) <==> exists|i: int|
            0 <= i < es.len() && es[i].0@ == k by {
            if inserted(es).dom().contains(k) && k != es.last().0@ {
                let i = choose|i: int| 0 <= i < pre.len() && pre[i].0@ == k;
                assert(es[i] == pre[i]);
            }
            if exists|i: int| 0 <= i < es.len() && es[i].0@ == k {
                let i = choose|i: int| 0 <= i < es.len() && es[i].0@ == k;
                if i < pre.len() {
                    assert(es[i] == pre[i]);
                }
            }
        }
        assert forall|i: int| 0 <= i < es.len() implies #[trigger] inserted(es)[es[i].0@] == es[i].1@ by {
            if i < pre.len() {
                assert(es[i] == pre[i]);
                assert(inserted(pre)[pre[i].0@] == pre[i].1@);
            }
        }
    }
}

fn find_in(es: &Vec<(String, String)>, path: &str) -> (r: Option<usize>)
    ensures
        match r {
            Some(i) => i < es@.len() && es@[i as int].0@ == path@,
            None => forall|i: int| 0 <= i < es@.len() ==> es@[i].0@ != path@,
        },
{
    let mut k: usize = 0;
    while k < es.len()
        invariant
            k <= es.len(),
            forall|i: int| 0 <= i < k ==> es@[i].0@ != path@,
        decreases es.len() - k,
    {
        if str_eq(es[k].0.as_str(), path) {
            return Some(k);
        }
        k = k + 1;
    }
    None
}


fn insert_into(es: &mut Vec<(String, String)>, path: &str, hash: &str)
    requires
        keys_distinct(old(es)@),
    ensures
        keys_distinct(final(es)@),
        inserted(final(es)@) == inserted(old(es)@).insert(path@, hash@),
{
proof {
    lemma_inserted_distinct(es@);
}
    let ghost before = es@;
    match find_in(es, path) {
        Some(i) => {
            es.set(i, (owned(path), owned(hash)));
            proof {
                let after = es@;
                assert(keys_distinct(after)) by {
                    assert forall|a: int, b: int| 0 <= a < b < after.len() implies after[a].0@
                        != after[b].0@ by {
                        if a != i && b != i {
                            assert(after[a] == before[a] && after[b] == before[b]);
                        } else if a == i {
                            assert(after[b] == before[b]);
                        } else {
                            assert(after[a] == before[a]);
                        }
                    }
                }
                lemma_inserted_distinct(after);
                assert(inserted(after) =~= inserted(before).insert(path@, hash@)) by {
                    assert forall|k: Seq<char>| #[trigger] inserted(after).dom().contains(k) <==> inserted(
                        before,
                    ).insert(path@, hash@).dom().contains(k) by {
                        if inserted(after).dom().contains(k) {
                            let j = choose|j: int| 0 <= j < after.len() && after[j].0@ == k;
                            if j != i {
                                assert(after[j] == before[j]);
                            }
                        }
                        if inserted(before).dom().contains(k) && k != path@ {
                            let j = choose|j: int| 0 <= j < before.len() && before[j].0@ == k;
                            assert(j != i);
                            assert(after[j] == before[j]);
                        }
                        if k == path@ {
                            assert(after[i as int].0@ == path@);
                        }
                    }
                    assert forall|k: Seq<char>| #[trigger] inserted(after).dom().contains(k) implies inserted(
                        after,
                    )[k] == inserted(before).insert(path@, hash@)[k] by {
                        let j = choose|j: int| 0 <= j < after.len() && after[j].0@ == k;
                        if j != i {
                            assert(after[j] == before[j]);
                            assert(inserted(after)[after[j].0@] == after[j].1@);
                        }
                    }
                }
            }
        },
        None => {
            es.push((owned(path), owned(hash)));
            proof {
                let after = es@;
                assert(after.drop_last() =~= before);
                assert(keys_distinct(after)) by {
                    assert forall|a: int, b: int| 0 <= a < b < after.len() implies after[a].0@
                        != after[b].0@ by {
                        if b < before.len() {
                            assert(after[a] == before[a] && after[b] == before[b]);
                        } else {
                            assert(after[a] == before[a]);
                        }
                    }
                }
            }
        },
    }
}


fn remove_from(es: &mut Vec<(String, String)>, path: &str) -> (r: bool)
    requires
        keys_distinct(old(es)@),
    ensures
        keys_distinct(final(es)@),
        inserted(final(es)@) == inserted(old(es)@).remove(path@),
        r == inserted(old(es)@).dom().contains(path@),
{
proof {
    lemma_inserted_distinct(es@);
}
    let ghost before = es@;
    match find_in(es, path) {
        Some(i) => {
            es.remove(i);
            proof {
                let after = es@;
                assert(after =~= before.remove(i as int));
                assert(keys_distinct(after)) by {
                    assert forall|a: int, b: int| 0 <= a < b < after.len() implies after[a].0@
                        != after[b].0@ by {
                        let a0 = if a < i { a } else { a + 1 };
                        let b0 = if b < i { b } else { b + 1 };
                        assert(after[a] == before[a0] && after[b] == before[b0]);
                    }
                }
                lemma_inserted_distinct(after);
                assert(inserted(after) =~= inserted(before).remove(path@)) by {
                    assert forall|k: Seq<char>| #[trigger] inserted(after).dom().contains(k) <==> inserted(
                        before,
                    ).remove(path@).dom().contains(k) by {
                        if inserted(after).dom().contains(k) {
                            let j = choose|j: int| 0 <= j < after.len() && after[j].0@ == k;
                            let j0 = if j < i { j } else { j + 1 };
                            assert(after[j] == before[j0]);
                        }
                        if inserted(before).dom().contains(k) && k != path@ {
                            let j = choose|j: int| 0 <= j < before.len() && before[j].0@ == k;
                            assert(j != i);
                            let j1 = if j < i { j } else { j - 1 };
                            assert(after[j1] == before[j]);
                        }
                    }
                    assert forall|k: Seq<char>| #[trigger] inserted(after).dom().contains(k) implies inserted(
                        after,
                    )[k] == inserted(before).remove(path@)[k] by {
                        let j = choose|j: int| 0 <= j < after.len() && after[j].0@ == k;
                        let j0 = if j < i { j } else { j + 1 };
                        assert(after[j] == before[j0]);
                        assert(inserted(after)[after[j].0@] == after[j].1@);
                        assert(inserted(before)[before[j0].0@] == before[j0].1@);
                    }
                }
            }
            true
        },
        None => {
            assert(inserted(before).remove(path@) =~= inserted(before));
            false
        },
    }
}


impl Clone for Manifest {
    fn clone(&self) -> (r: Self)
        ensures
            r@ == self@,
    {
        Manifest { entries: self.entries() }
    }
}

impl View for Manifest {
    type V = Map<Seq<char>, Seq<char>>;

    closed spec fn view(&self) -> Map<Seq<char>, Seq<char>> {
        inserted(self.entries@)
    }
}

impl Manifest {
    /// No path occurs twice.
    #[verifier::type_invariant]
    closed spec fn paths_distinct(self) -> bool {
        keys_distinct(self.entries@)
    }

    /// The empty manifest.
    pub fn new() -> (r: Manifest)
        ensures
            r@ == Map::<Seq<char>, Seq<char>>::empty(),
    {
        Manifest { entries: Vec::new() }
    }

    /// The hash recorded for `path`.
    pub fn get(&self, path: &str) -> (r: Option<&str>)
        ensures
            match r {
                Some(h) => self@.dom().contains(path@) && self@[path@] == h@,
                None => !self@.dom().contains(path@),
            },
    {
        proof {
            use_type_invariant(self);
            lemma_inserted_distinct(self.entries@);
        }
        match find_in(&self.entries, path) {
            Some(i) => Some(self.entries[i].1.as_str()),
            None => None,
        }
    }

    /// Record `hash` for `path`.
    pub fn insert(&mut self, path: &str, hash: &str)
        ensures
            final(self)@ == old(self)@.insert(path@, hash@),
    {
        proof {
            use_type_invariant(&*self);
        }
        let mut es: Vec<(String, String)> = Vec::new();
        std::mem::swap(&mut es, &mut self.entries);
        insert_into(&mut es, path, hash);
        self.entries = es;
    }

    /// Stop recording `path`; says whether it was recorded.
    pub fn remove(&mut self, path: &str) -> (r: bool)
        ensures
            final(self)@ == old(self)@.remove(path@),
            r == old(self)@.dom().contains(path@),
    {
        proof {
            use_type_invariant(&*self);
        }
        let mut es: Vec<(String, String)> = Vec::new();
        std::mem::swap(&mut es, &mut self.entries);
        let r = remove_from(&mut es, path);
        self.entries = es;
        r
    }

    /// The recorded (path, hash) pairs, each path once.
    pub fn entries(&self) -> (r: Vec<(String, String)>)
        ensures
            keys_distinct(r@),
            inserted(r@) == self@,
    {
        proof {
            use_type_invariant(self);
        }
        let mut out: Vec<(String, String)> = Vec::new();
        let mut k: usize = 0;
        while k < self.entries.len()
            invariant
                k <= self.entries.len(),
                keys_distinct(self.entries@),
                out@.len() == k,
                forall|i: int| 0 <= i < k ==> out@[i].0@ == self.entries@[i].0@ && out@[i].1@
                    == self.entries@[i].1@,
            decreases self.entries.len() - k,
        {
            out.push((self.entries[k].0.clone(), self.entries[k].1.clone()));
            k = k + 1;
        }
        proof {
            lemma_inserted_distinct(out@);
            lemma_inserted_distinct(self.entries@);
            assert(inserted(out@) =~= inserted(self.entries@)) by {
                assert forall|key: Seq<char>| #[trigger] inserted(out@).dom().contains(key) <==> inserted(
                    self.entries@,
                ).dom().contains(key) by {
                    if inserted(out@).dom().contains(key) {
                        let j = choose|j: int| 0 <= j < out@.len() && out@[j].0@ == key;
                        assert(self.entries@[j].0@ == key);
                    }
                    if inserted(self.entries@).dom().contains(key) {
                        let j = choose|j: int| 0 <= j < self.entries@.len() && self.entries@[j].0@ == key;
                        assert(out@[j].0@ == key);
                    }
                }
                assert forall|key: Seq<char>| #[trigger] inserted(out@).dom().contains(key) implies inserted(
                    out@,
                )[key] == inserted(self.entries@)[key] by {
                    let j = choose|j: int| 0 <= j < out@.len() && out@[j].0@ == key;
                    assert(inserted(out@)[out@[j].0@] == out@[j].1@);
                    assert(inserted(self.entries@)[self.entries@[j].0@] == self.entries@[j].1@);
                }
            }
        }
        out
    }

    /// A manifest from (path, hash) pairs; a later pair for a path replaces
    /// an earlier one.
    pub fn from_entries(pairs: &Vec<(String, String)>) -> (r: Manifest)
        ensures
            r@ == inserted(pairs@),
    {
        let mut m = Manifest::new();
        let mut k: usize = 0;
        while k < pairs.len()
            invariant
                k <= pairs.len(),
                m@ == inserted(pairs@.subrange(0, k as int)),
            decreases pairs.len() - k,
        {
            m.insert(pairs[k].0.as_str(), pairs[k].1.as_str());
            assert(pairs@.subrange(0, k + 1).drop_last() =~= pairs@.subrange(0, k as int));
            k = k + 1;
        }
        assert(pairs@.subrange(0, pairs@.len() as int) =~= pairs@);
        m
    }
}

} // verus!
