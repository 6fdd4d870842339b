//! The registry of active connections: which ids currently own a
//! supervisor.
//!
//! The caller keeps the runtime handles (task and cancellation signal)
//! beside this registry, keyed by the same ids; the registry is the
//! authority on which ids are active.  Its central invariant is that
//! an id is registered at most once — so at most one supervisor per
//! connection exists at any time, however often `connect` is repeated.

use vstd::prelude::*;

verus! {

/// How often `id` is registered.
pub open spec fn count_of(ids: Seq<Seq<char>>, id: Seq<char>) -> nat
    decreases ids.len(),
{
    if ids.len() == 0 {
        0
    } else {
        count_of(ids.drop_last(), id) + (if ids.last() == id {
            1nat
        } else {
            0nat
        })
    }
}

/// No id is registered twice.
pub open spec fn ids_unique(ids: Seq<Seq<char>>) -> bool {
    forall|i: int, j: int| 0 <= i < j < ids.len() ==> ids[i] != ids[j]
}

/// An id occurs exactly as often as it is counted.
pub proof fn lemma_count_contains(ids: Seq<Seq<char>>, id: Seq<char>)
    ensures
        count_of(ids, id) > 0 <==> ids.contains(id),
    decreases ids.len(),
{
    if ids.len() > 0 {
        lemma_count_contains(ids.drop_last(), id);
        if ids.last() == id {
            assert(ids[ids.len() - 1] == id);
        } else if count_of(ids.drop_last(), id) > 0 {
            let i = choose|i: int| 0 <= i < ids.drop_last().len() && ids.drop_last()[i] == id;
            assert(ids[i] == id);
        } else if ids.contains(id) {
            let i = choose|i: int| 0 <= i < ids.len() && ids[i] == id;
            assert(ids.drop_last()[i] == id);
        }
    }
}

/// In a registry without repeated ids, every id is registered at most
/// once: at most one supervisor handle per connection exists.
pub proof fn lemma_at_most_one_supervisor(ids: Seq<Seq<char>>, id: Seq<char>)
    requires
        ids_unique(ids),
    ensures
        count_of(ids, id) <= 1,
    decreases ids.len(),
{
    if ids.len() > 0 {
        assert(ids_unique(ids.drop_last())) by {
            assert(forall|i: int, j: int|
                0 <= i < j < ids.drop_last().len() ==> ids.drop_last()[i] != ids.drop_last()[j]);
        }
        lemma_at_most_one_supervisor(ids.drop_last(), id);
        if ids.last() == id && count_of(ids.drop_last(), id) > 0 {
            lemma_count_contains(ids.drop_last(), id);
            let i = choose|i: int| 0 <= i < ids.drop_last().len() && ids.drop_last()[i] == id;
            assert(ids[i] == id && ids[ids.len() - 1] == id);
        }
    }
}

/// Counting is blind to everything but the id counted.
pub proof fn lemma_count_push(ids: Seq<Seq<char>>, x: Seq<char>, id: Seq<char>)
    ensures
        count_of(ids.push(x), id) == count_of(ids, id) + (if x == id {
            1nat
        } else {
            0nat
        }),
{
    assert(ids.push(x).drop_last() =~= ids);
    assert(ids.push(x).last() == x);
}

/// The registry of active connection supervisors.
pub struct SshManager {
    ids: Vec<String>,
}

impl View for SshManager {
    type V = Seq<Seq<char>>;

    closed spec fn view(&self) -> Seq<Seq<char>> {
        self.ids.deep_view()
    }
}

impl SshManager {
    /// The registry keeps each id at most once.
    pub open spec fn wf(&self) -> bool {
        ids_unique(self@)
    }

    /// An empty registry: nothing is connected.
    pub fn new() -> (m: SshManager)
        ensures
            m@ == Seq::<Seq<char>>::empty(),
            m.wf(),
    {
        let m = SshManager { ids: Vec::new() };
        proof {
            assert(m@ =~= Seq::<Seq<char>>::empty());
        }
        m
    }

    /// The position of `id`, if it is registered.
    fn index_of(&self, id: &String) -> (r: Option<usize>)
        ensures
            match r {
                Some(i) => i < self@.len() && self@[i as int] == id@,
                None => !self@.contains(id@),
            },
    {
        let mut i: usize = 0;
        while i < self.ids.len()
            invariant
                i <= self@.len(),
                self@.len() == self.ids@.len(),
                forall|k: int| 0 <= k < i ==> self@[k] != id@,
            decreases self@.len() - i,
        {
            proof {
                assert(self@[i as int] == self.ids@[i as int]@);
            }
            if self.ids[i].eq(id) {
                return Some(i);
            }
            i = i + 1;
        }
        proof {
            assert forall|k: int| 0 <= k < self@.len() implies self@[k] != id@ by {}
        }
        None
    }

    /// Tears down any supervisor registered for `id`, then registers a
    /// fresh one: afterwards exactly one supervisor exists for `id`,
    /// whatever was there before, and every other id is untouched, in
    /// its old position.  Returns whether an old supervisor had to be
    /// torn down first.
    pub fn connect(&mut self, id: &String) -> (replaced: bool)
        requires
            old(self).wf(),
        ensures
            final(self).wf(),
            count_of(final(self)@, id@) == 1,
            final(self)@.contains(id@),
            forall|s: Seq<char>|
                s != id@ ==> (final(self)@.contains(s) <==> old(self)@.contains(s)),
            replaced <==> old(self)@.contains(id@),
            !old(self)@.contains(id@) ==> final(self)@ == old(self)@.push(id@),
            old(self)@.contains(id@) ==> exists|i: int|
                0 <= i < old(self)@.len() && old(self)@[i] == id@ && final(self)@ == old(
                    self,
                )@.remove(i).push(id@),
    {
        let ghost orig = self@;
        let replaced = self.disconnect(id);
        let ghost mid = self@;
        self.ids.push(id.clone());
        proof {
            assert(self@ =~= mid.push(id@));
            lemma_count_push(mid, id@, id@);
            lemma_count_contains(mid, id@);
            lemma_at_most_one_supervisor(mid, id@);
            assert(count_of(mid, id@) == 0);
            assert forall|i: int, j: int| 0 <= i < j < self@.len() implies self@[i] != self@[j] by {
                if j == self@.len() - 1 {
                    assert(mid[i] != id@) by {
                        if mid[i] == id@ {
                            assert(mid.contains(id@));
                        }
                    }
                }
            }
            assert(self@[self@.len() - 1] == id@);
            assert forall|s: Seq<char>|
                s != id@ implies (self@.contains(s) <==> mid.contains(s)) by {
                if self@.contains(s) {
                    let i = choose|i: int| 0 <= i < self@.len() && self@[i] == s;
                    assert(mid[i] == s);
                }
                if mid.contains(s) {
                    let i = choose|i: int| 0 <= i < mid.len() && mid[i] == s;
                    assert(self@[i] == s);
                }
            }
            if orig.contains(id@) {
                let i = choose|i: int|
                    0 <= i < orig.len() && orig[i] == id@ && mid == orig.remove(i);
                assert(orig[i] == id@ && self@ == orig.remove(i).push(id@));
            }
        }
        replaced
    }

    /// Signals teardown for `id`: afterwards no supervisor is
    /// registered for it; every other id is untouched, in its old
    /// position, and nothing at all changes when `id` was not
    /// registered.  Returns whether one was registered.
    pub fn disconnect(&mut self, id: &String) -> (was: bool)
        requires
            old(self).wf(),
        ensures
            final(self).wf(),
            !final(self)@.contains(id@),
            forall|s: Seq<char>|
                s != id@ ==> (final(self)@.contains(s) <==> old(self)@.contains(s)),
            was <==> old(self)@.contains(id@),
            !old(self)@.contains(id@) ==> final(self)@ == old(self)@,
            old(self)@.contains(id@) ==> exists|i: int|
                0 <= i < old(self)@.len() && old(self)@[i] == id@ && final(self)@ == old(
                    self,
                )@.remove(i),
    {
        let ghost pre = self@;
        match self.index_of(id) {
            None => false,
            Some(i) => {
                self.ids.remove(i);
                proof {
                    assert(self@ =~= pre.remove(i as int));
                    pre.remove_ensures(i as int);
                    assert(pre[i as int] == id@);
                    assert(pre.contains(id@));
                    assert forall|s: Seq<char>| self@.contains(s) implies pre.contains(s) by {
                        let k = choose|k: int| 0 <= k < self@.len() && self@[k] == s;
                        if k < i {
                            assert(pre[k] == s);
                        } else {
                            assert(pre[k + 1] == s);
                        }
                    }
                    assert(!self@.contains(id@)) by {
                        if self@.contains(id@) {
                            let k = choose|k: int| 0 <= k < self@.len() && self@[k] == id@;
                            if k < i {
                                assert(pre[k] == id@);
                            } else {
                                assert(pre[k + 1] == id@);
                            }
                        }
                    }
                    assert forall|s: Seq<char>|
                        s != id@ && pre.contains(s) implies self@.contains(s) by {
                        let k = choose|k: int| 0 <= k < pre.len() && pre[k] == s;
                        if k < i {
                            assert(self@[k] == s);
                        } else {
                            assert(k > i);
                            assert(self@[k - 1] == s);
                        }
                    }
                    assert forall|a: int, b: int|
                        0 <= a < b < self@.len() implies self@[a] != self@[b] by {
                        let pa = if a < i {
                            a
                        } else {
                            a + 1
                        };
                        let pb = if b < i {
                            b
                        } else {
                            b + 1
                        };
                        assert(self@[a] == pre[pa]);
                        assert(self@[b] == pre[pb]);
                    }
                    assert(0 <= i < pre.len() && pre[i as int] == id@ && self@ == pre.remove(
                        i as int,
                    ));
                }
                true
            },
        }
    }

    /// Signals teardown for every registered id and clears the
    /// registry; used at shutdown.
    pub fn disconnect_all(&mut self)
        ensures
            final(self)@ == Seq::<Seq<char>>::empty(),
            final(self).wf(),
    {
        self.ids.clear();
        proof {
            assert(self@ =~= Seq::<Seq<char>>::empty());
        }
    }

    /// Whether a supervisor is registered for `id`: "active" if so,
    /// "inactive" if not.
    pub fn get_status(&self, id: &String) -> (s: String)
        ensures
            self@.contains(id@) ==> s@ == "active"@,
            !self@.contains(id@) ==> s@ == "inactive"@,
    {
        match self.index_of(id) {
            Some(_) => "active".to_owned(),
            None => "inactive".to_owned(),
        }
    }
}

} // verus!
