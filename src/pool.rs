//! A registry of named, shared pipeline objects: each name is published at
//! most once, and a published object stays the same until it is removed.
//!
//! The registry is sequential; callers that share it between threads hold it
//! behind a lock.

use std::sync::Arc;

use vstd::prelude::*;

verus! {

/// Relies on `Arc::clone`: another handle to the same shared object.
#[verifier::external_body]
fn share<T>(a: &Arc<T>) -> (r: Arc<T>)
    ensures
        r == *a,
{
    Arc::clone(a)
}

/// The registry's contents after resolving `name` with a freshly built
/// `candidate`: an object already published under the name wins.
pub open spec fn resolved<T>(m: Map<Seq<char>, Arc<T>>, name: Seq<char>, candidate: Arc<T>) -> Map<
    Seq<char>,
    Arc<T>,
> {
    if m.contains_key(name) {
        m
    } else {
        m.insert(name, candidate)
    }
}

/// Named objects, each name at most once.
pub struct ObjectPool<T> {
    entries: Vec<(String, Arc<T>)>,
}

impl<T> ObjectPool<T> {
    /// No name is published twice.
    pub closed spec fn well_formed(self) -> bool {
        forall|a: int, b: int|
            0 <= a < b < self.entries@.len() ==> self.entries@[a].0@ != self.entries@[b].0@
    }

    /// The published objects by name.
    pub closed spec fn view(self) -> Map<Seq<char>, Arc<T>> {
        Map::new(
            |k: Seq<char>| exists|i: int| 0 <= i < self.entries@.len() && self.entries@[i].0@ == k,
            |k: Seq<char>|
                self.entries@[choose|i: int| 0 <= i < self.entries@.len() && self.entries@[i].0@ == k].1,
        )
    }

    proof fn lemma_view_at(self, i: int)
        requires
            self.well_formed(),
            0 <= i < self.entries@.len(),
        ensures
            self.view().contains_key(self.entries@[i].0@),
            self.view()[self.entries@[i].0@] == self.entries@[i].1,
    {
        let k = self.entries@[i].0@;
        assert(self.view().contains_key(k));
        let j = choose|j: int| 0 <= j < self.entries@.len() && self.entries@[j].0@ == k;
        assert(j == i);
    }

    /// An empty registry.
    pub fn new() -> (r: Self)
        ensures
            r.well_formed(),
            r.view() == Map::<Seq<char>, Arc<T>>::empty(),
    {
        let r = ObjectPool { entries: Vec::new() };
        assert(r.view() =~= Map::<Seq<char>, Arc<T>>::empty());
        r
    }

    /// The position of `name`, if it is published.
    fn find(&self, name: &str) -> (r: Option<usize>)
        requires
            self.well_formed(),
        ensures
            r matches Some(i) ==> i < self.entries@.len() && self.entries@[i as int].0@ == name@,
            r is None ==> !self.view().contains_key(name@),
    {
        let key = name.to_owned();
        let mut i: usize = 0;
        while i < self.entries.len()
            invariant
                i <= self.entries@.len(),
                key@ == name@,
                forall|j: int| 0 <= j < i ==> self.entries@[j].0@ != name@,
            decreases self.entries@.len() - i,
        {
            if self.entries[i].0 == key {
                return Some(i);
            }
            i = i + 1;
        }
        None
    }

    /// The object published under `name`.
    pub fn get(&self, name: &str) -> (r: Option<Arc<T>>)
        requires
            self.well_formed(),
        ensures
            r is Some <==> self.view().contains_key(name@),
            r matches Some(v) ==> v == self.view()[name@],
    {
        match self.find(name) {
            Some(i) => {
                proof {
                    self.lemma_view_at(i as int);
                }
                Some(share(&self.entries[i].1))
            },
            None => None,
        }
    }

    /// Publishes `candidate` under `name` unless an object is already
    /// published there, and returns the object that is published afterwards.
    pub fn get_or_insert(&mut self, name: &str, candidate: Arc<T>) -> (r: Arc<T>)
        requires
            old(self).well_formed(),
        ensures
            final(self).well_formed(),
            final(self).view() == resolved(old(self).view(), name@, candidate),
            r == final(self).view()[name@],
    {
        match self.find(name) {
            Some(i) => {
                proof {
                    self.lemma_view_at(i as int);
                }
                share(&self.entries[i].1)
            },
            None => {
                let r = share(&candidate);
                self.publish(name, candidate);
                r
            },
        }
    }

    fn publish(&mut self, name: &str, object: Arc<T>)
        requires
            old(self).well_formed(),
            !old(self).view().contains_key(name@),
        ensures
            final(self).well_formed(),
            final(self).view() == old(self).view().insert(name@, object),
    {
        let ghost before = self.entries@;
        let ghost old_view = self.view();
        let key = name.to_owned();
        self.entries.push((key, object));
        proof {
            assert forall|a: int, b: int| 0 <= a < b < self.entries@.len() implies self.entries@[a].0@
                != self.entries@[b].0@ by {
                if b == before.len() {
                    assert(!old_view.contains_key(name@));
                    if before[a].0@ == name@ {
                        assert(old_view.contains_key(before[a].0@));
                    }
                }
            }
            assert(self.well_formed());
            assert forall|k: Seq<char>| #[trigger] self.view().contains_key(k) == old_view.insert(name@, object).contains_key(k) by {
                if self.view().contains_key(k) && k != name@ {
                    let i = choose|i: int| 0 <= i < self.entries@.len() && self.entries@[i].0@ == k;
                    assert(before[i].0@ == k);
                }
                if old_view.contains_key(k) {
                    let i = choose|i: int| 0 <= i < before.len() && before[i].0@ == k;
                    assert(self.entries@[i].0@ == k);
                }
                if k == name@ {
                    assert(self.entries@[before.len() as int].0@ == k);
                }
            }
            assert forall|k: Seq<char>| #[trigger] self.view().contains_key(k) implies self.view()[k] == old_view.insert(name@, object)[k] by {
                let i = choose|i: int| 0 <= i < self.entries@.len() && self.entries@[i].0@ == k;
                self.lemma_view_at(i);
                if i < before.len() {
                    assert(k != name@);
                    assert(old_view.contains_key(k));
                    let j = choose|j: int| 0 <= j < before.len() && before[j].0@ == k;
                    assert(j == i);
                }
            }
            assert(self.view() =~= old_view.insert(name@, object));
        }
    }

    /// Publishes `object` under a name that is still free; returns `false`,
    /// changing nothing, when the name is taken.
    pub fn insert_new(&mut self, name: &str, object: Arc<T>) -> (r: bool)
        requires
            old(self).well_formed(),
        ensures
            final(self).well_formed(),
            r == !old(self).view().contains_key(name@),
            final(self).view() == if r {
                old(self).view().insert(name@, object)
            } else {
                old(self).view()
            },
    {
        match self.find(name) {
            Some(i) => {
                proof {
                    self.lemma_view_at(i as int);
                }
                false
            },
            None => {
                self.publish(name, object);
                true
            },
        }
    }

    /// Withdraws the object published under `name`, if any.
    pub fn remove(&mut self, name: &str)
        requires
            old(self).well_formed(),
        ensures
            final(self).well_formed(),
            final(self).view() == old(self).view().remove(name@),
    {
        match self.find(name) {
            Some(i) => {
                let ghost before = self.entries@;
                let ghost old_view = self.view();
                proof {
                    self.lemma_view_at(i as int);
                }
                self.entries.remove(i);
                proof {
                    assert(self.well_formed()) by {
                        assert forall|a: int, b: int| 0 <= a < b < self.entries@.len() implies self.entries@[a].0@ != self.entries@[b].0@ by {
                            let a0 = if a < i { a } else { a + 1 };
                            let b0 = if b < i { b } else { b + 1 };
                            assert(self.entries@[a] == before[a0]);
                            assert(self.entries@[b] == before[b0]);
                        }
                    }
                    assert forall|k: Seq<char>| #[trigger] self.view().contains_key(k) == old_view.remove(name@).contains_key(k) by {
                        if self.view().contains_key(k) {
                            let j = choose|j: int| 0 <= j < self.entries@.len() && self.entries@[j].0@ == k;
                            let j0 = if j < i { j } else { j + 1 };
                            assert(before[j0].0@ == k);
                            assert(j0 != i);
                            assert(old_view.contains_key(k));
                        }
                        if old_view.remove(name@).contains_key(k) {
                            let j = choose|j: int| 0 <= j < before.len() && before[j].0@ == k;
                            assert(j != i);
                            let j1 = if j < i { j } else { j - 1 };
                            assert(self.entries@[j1].0@ == k);
                        }
                    }
                    assert forall|k: Seq<char>| #[trigger] self.view().contains_key(k) implies self.view()[k] == old_view.remove(name@)[k] by {
                        let j = choose|j: int| 0 <= j < self.entries@.len() && self.entries@[j].0@ == k;
                        self.lemma_view_at(j);
                        let j0 = if j < i { j } else { j + 1 };
                        assert(before[j0] == self.entries@[j]);
                        let jj = choose|jj: int| 0 <= jj < before.len() && before[jj].0@ == k;
                        assert(jj == j0);
                    }
                    assert(self.view() =~= old_view.remove(name@));
                }
            },
            None => {
                assert(self.view() =~= self.view().remove(name@));
            },
        }
    }
}

/// Once a name is published, resolving it again returns the published object
/// whatever candidate the second caller built: every caller sees one object.
pub proof fn lemma_at_most_one_publication<T>(
    m: Map<Seq<char>, Arc<T>>,
    name: Seq<char>,
    first: Arc<T>,
    second: Arc<T>,
)
    ensures
        ({
            let after_first = resolved(m, name, first);
            let after_second = resolved(after_first, name, second);
            &&& after_second == after_first
            &&& after_second[name] == after_first[name]
            &&& !m.contains_key(name) ==> after_second[name] == first
        }),
{
}

} // verus!
