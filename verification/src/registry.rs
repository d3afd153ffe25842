//! The host's registry: the table from plugin name to the pair of an
//! instance handle and a module handle. At most one live entry exists per
//! name; entries are never mutated in place, so a reload is an unload
//! followed by a load.

use vstd::prelude::*;

verus! {

/// One live registration: the plugin's name, its instance handle, and the
/// handle of the module the instance was created from. The instance must be
/// destroyed strictly before its module is released.
pub struct RegistryEntry {
    pub name: String,
    pub instance: u64,
    pub module: u64,
}

/// The name -> (instance handle, module handle) table the actor owns.
pub struct PluginManager {
    plugins: Vec<RegistryEntry>,
}

impl PluginManager {
    /// Whether some live entry carries the name.
    pub closed spec fn contains_name(self, n: Seq<char>) -> bool {
        exists|i: int| 0 <= i < self.plugins@.len() && self.plugins@[i].name@ == n
    }

    /// The registry as a map from name to (instance handle, module handle).
    pub closed spec fn as_map(self) -> Map<Seq<char>, (u64, u64)> {
        Map::new(
            |n: Seq<char>| self.contains_name(n),
            |n: Seq<char>|
                {
                    let i = choose|i: int|
                        0 <= i < self.plugins@.len() && self.plugins@[i].name@ == n;
                    (self.plugins@[i].instance, self.plugins@[i].module)
                },
        )
    }

    /// Well-formedness: no two live entries share a name.
    pub closed spec fn wf(self) -> bool {
        forall|i: int, j: int|
            #![trigger self.plugins@[i].name, self.plugins@[j].name]
            0 <= i < j < self.plugins@.len() ==> self.plugins@[i].name@ != self.plugins@[j].name@
    }

    pub fn new() -> (r: PluginManager)
        ensures
            r.wf(),
            r.as_map() =~= Map::<Seq<char>, (u64, u64)>::empty(),
    {
        PluginManager { plugins: Vec::new() }
    }

    /// Whether a live entry exists under the name.
    pub fn contains(&self, name: &String) -> (r: bool)
        ensures
            r == self.as_map().contains_key(name@),
    {
        let n = self.plugins.len();
        let mut i: usize = 0;
        while i < n
            invariant
                n == self.plugins@.len(),
                i <= n,
                forall|j: int| 0 <= j < i ==> #[trigger] self.plugins@[j].name@ != name@,
            decreases n - i,
        {
            if self.plugins[i].name == *name {
                return true;
            }
            i += 1;
        }
        proof {
            assert(!self.contains_name(name@));
        }
        false
    }

    /// The handles registered under the name, if any.
    pub fn lookup(&self, name: &String) -> (r: Option<(u64, u64)>)
        requires
            self.wf(),
        ensures
            match r {
                Some(e) => self.as_map().contains_key(name@) && self.as_map()[name@] == e,
                None => !self.as_map().contains_key(name@),
            },
    {
        let n = self.plugins.len();
        let mut i: usize = 0;
        while i < n
            invariant
                self.wf(),
                n == self.plugins@.len(),
                i <= n,
                forall|j: int| 0 <= j < i ==> #[trigger] self.plugins@[j].name@ != name@,
            decreases n - i,
        {
            if self.plugins[i].name == *name {
                proof {
                    let k = choose|k: int|
                        0 <= k < self.plugins@.len() && self.plugins@[k].name@ == name@;
                    assert(self.plugins@[k].name@ == self.plugins@[i as int].name@);
                    assert(k == i as int);
                }
                return Some((self.plugins[i].instance, self.plugins[i].module));
            }
            i += 1;
        }
        proof {
            assert(!self.contains_name(name@));
        }
        None
    }

    /// Removes the entry under the name, if any, and returns its handles.
    fn remove_entry(&mut self, name: &String) -> (r: Option<(u64, u64)>)
        requires
            old(self).wf(),
        ensures
            final(self).wf(),
            final(self).as_map() == old(self).as_map().remove(name@),
            match r {
                Some(e) => old(self).as_map().contains_key(name@) && old(self).as_map()[name@]
                    == e,
                None => !old(self).as_map().contains_key(name@),
            },
    {
        let n = self.plugins.len();
        let mut i: usize = 0;
        while i < n
            invariant
                old(self).wf(),
                *self == *old(self),
                n == self.plugins@.len(),
                i <= n,
                forall|j: int| 0 <= j < i ==> #[trigger] self.plugins@[j].name@ != name@,
            decreases n - i,
        {
            if self.plugins[i].name == *name {
                proof {
                    let k = choose|k: int|
                        0 <= k < self.plugins@.len() && self.plugins@[k].name@ == name@;
                    assert(self.plugins@[k].name@ == self.plugins@[i as int].name@);
                    assert(k == i as int);
                }
                let removed = self.plugins.remove(i);
                proof {
                    let s_old = old(self).plugins@;
                    let s_new = self.plugins@;
                    let k = i as int;
                    s_old.remove_ensures(k);
                    assert(s_new == s_old.remove(k));
                    assert(s_new.len() == s_old.len() - 1);
                    assert forall|p: int, q: int|
                        #![trigger s_new[p].name, s_new[q].name]
                        0 <= p < q < s_new.len() implies s_new[p].name@ != s_new[q].name@ by {
                        if p < k {
                            assert(s_old.remove(k)[p] == s_old[p]);
                        } else {
                            assert(s_old.remove(k)[p] == s_old[p + 1]);
                        }
                        if q < k {
                            assert(s_old.remove(k)[q] == s_old[q]);
                        } else {
                            assert(s_old.remove(k)[q] == s_old[q + 1]);
                        }
                    }
                    assert forall|m: Seq<char>| self.contains_name(m) implies old(self).contains_name(m) && m != name@ by {
                        let j = choose|j: int| 0 <= j < s_new.len() && s_new[j].name@ == m;
                        if j < k {
                            assert(s_old.remove(k)[j] == s_old[j]);
                            assert(s_old[j].name@ == m);
                            assert(s_old[j].name@ != s_old[k].name@);
                        } else {
                            assert(s_old.remove(k)[j] == s_old[j + 1]);
                            assert(s_old[j + 1].name@ == m);
                            assert(s_old[k].name@ != s_old[j + 1].name@);
                        }
                    }
                    assert forall|m: Seq<char>| old(self).contains_name(m) && m != name@ implies self.contains_name(m) by {
                        let j = choose|j: int| 0 <= j < s_old.len() && s_old[j].name@ == m;
                        assert(j != k);
                        if j < k {
                            assert(s_old.remove(k)[j] == s_old[j]);
                            assert(s_new[j].name@ == m);
                        } else {
                            assert(s_old.remove(k)[j - 1] == s_old[j]);
                            assert(s_new[j - 1].name@ == m);
                        }
                    }
                    assert forall|m: Seq<char>| self.contains_name(m) implies self.as_map()[m] == old(self).as_map()[m] by {
                        let j_new = choose|j: int| 0 <= j < s_new.len() && s_new[j].name@ == m;
                        let j_old: int = if j_new < k {
                            j_new
                        } else {
                            j_new + 1
                        };
                        if j_new < k {
                            assert(s_old.remove(k)[j_new] == s_old[j_new]);
                        } else {
                            assert(s_old.remove(k)[j_new] == s_old[j_new + 1]);
                        }
                        assert(s_old[j_old] == s_new[j_new]);
                        let j_c = choose|j: int| 0 <= j < s_old.len() && s_old[j].name@ == m;
                        assert(s_old[j_c].name@ == s_old[j_old].name@);
                        assert(j_c == j_old);
                    }
                    assert(self.as_map() =~= old(self).as_map().remove(name@));
                }
                return Some((removed.instance, removed.module));
            }
            i += 1;
        }
        proof {
            assert(!self.contains_name(name@));
            assert(self.as_map() =~= old(self).as_map().remove(name@));
        }
        None
    }

    /// Registers the handles under the name. If an entry already exists
    /// under that name, the new entry takes its place in the table and the
    /// displaced handles are returned; the displaced native instance is not
    /// destroyed here, so without an explicit prior unload it is left
    /// orphaned.
    pub fn register_plugin(&mut self, name: String, instance: u64, module: u64) -> (prev: Option<
        (u64, u64),
    >)
        requires
            old(self).wf(),
        ensures
            final(self).wf(),
            final(self).as_map() == old(self).as_map().insert(name@, (instance, module)),
            match prev {
                Some(e) => old(self).as_map().contains_key(name@) && old(self).as_map()[name@]
                    == e,
                None => !old(self).as_map().contains_key(name@),
            },
    {
        let prev = self.remove_entry(&name);
        let ghost mid = *self;
        self.plugins.push(RegistryEntry { name, instance, module });
        proof {
            let s_mid = mid.plugins@;
            let s_new = self.plugins@;
            let k = s_new.len() - 1;
            assert(s_new[k].name@ == name@);
            assert(mid.as_map() == old(self).as_map().remove(name@));
            assert(!mid.as_map().contains_key(name@));
            assert(!mid.contains_name(name@));
            assert forall|p: int, q: int|
                #![trigger s_new[p].name, s_new[q].name]
                0 <= p < q < s_new.len() implies s_new[p].name@ != s_new[q].name@ by {
                if q < k {
                    assert(s_mid[p].name@ != s_mid[q].name@);
                } else {
                    assert(s_mid[p] == s_new[p]);
                    assert(mid.contains_name(s_new[p].name@));
                    assert(!mid.contains_name(name@));
                }
            }
            assert forall|m: Seq<char>| self.contains_name(m) implies (mid.contains_name(m)
                || m == name@) by {
                let j = choose|j: int| 0 <= j < s_new.len() && s_new[j].name@ == m;
                if j < k {
                    assert(s_mid[j].name@ == m);
                }
            }
            assert forall|m: Seq<char>| mid.contains_name(m) implies self.contains_name(m) by {
                let j = choose|j: int| 0 <= j < s_mid.len() && s_mid[j].name@ == m;
                assert(s_new[j].name@ == m);
            }
            assert forall|m: Seq<char>| mid.contains_name(m) implies self.as_map()[m]
                == mid.as_map()[m] by {
                assert(m != name@);
                let j_new = choose|j: int| 0 <= j < s_new.len() && s_new[j].name@ == m;
                assert(j_new != k);
                assert(s_mid[j_new] == s_new[j_new]);
                let j_mid = choose|j: int| 0 <= j < s_mid.len() && s_mid[j].name@ == m;
                assert(s_mid[j_mid].name@ == s_mid[j_new].name@);
                assert(j_mid == j_new);
            }
            assert(self.contains_name(name@));
            assert forall|j: int| 0 <= j < s_new.len() && s_new[j].name@ == name@ implies j
                == k by {
                if j < k {
                    assert(s_mid[j].name@ == name@);
                    assert(!mid.contains_name(name@));
                }
            }
            assert(self.as_map()[name@] == (instance, module));
            let target = old(self).as_map().insert(name@, (instance, module));
            assert forall|m: Seq<char>| self.as_map().dom().contains(m) == target.dom().contains(
                m,
            ) by {
                if m != name@ {
                    assert(self.contains_name(m) == (mid.contains_name(m) || m == name@));
                    assert(mid.as_map().dom().contains(m) == old(self).as_map().remove(
                        name@,
                    ).dom().contains(m));
                }
            }
            assert forall|m: Seq<char>| self.as_map().dom().contains(m) implies self.as_map()[m]
                == target[m] by {
                if m != name@ {
                    assert(mid.contains_name(m));
                    assert(self.as_map()[m] == mid.as_map()[m]);
                    assert(mid.as_map()[m] == old(self).as_map().remove(name@)[m]);
                    assert(old(self).as_map().remove(name@)[m] == old(self).as_map()[m]);
                }
            }
            assert(self.as_map() =~= target);
        }
        prev
    }

    /// Removes the entry under the name and hands back its handles so the
    /// caller can destroy the instance strictly before releasing the
    /// module. On an unknown name nothing is removed and `None` reports the
    /// "not found" outcome; the caller still attempts directory cleanup, so
    /// a failed load's residue can be cleaned by an explicit unload.
    pub fn unload_plugin(&mut self, name: &String) -> (r: Option<(u64, u64)>)
        requires
            old(self).wf(),
        ensures
            final(self).wf(),
            final(self).as_map() == old(self).as_map().remove(name@),
            !final(self).as_map().contains_key(name@),
            match r {
                Some(e) => old(self).as_map().contains_key(name@) && old(self).as_map()[name@]
                    == e,
                None => !old(self).as_map().contains_key(name@),
            },
    {
        self.remove_entry(name)
    }

    /// How many plugins are live.
    pub fn plugin_count(&self) -> (r: usize)
        requires
            self.wf(),
        ensures
            r == self.as_map().dom().len(),
    {
        proof {
            let names = self.plugins@.map_values(|e: RegistryEntry| e.name@);
            assert(names.no_duplicates());
            names.unique_seq_to_set();
            assert forall|m: Seq<char>| self.as_map().dom().contains(m) implies
                names.to_set().contains(m) by {
                let j = choose|j: int|
                    0 <= j < self.plugins@.len() && self.plugins@[j].name@ == m;
                assert(names[j] == m);
            }
            assert forall|m: Seq<char>| names.to_set().contains(m) implies
                self.as_map().dom().contains(m) by {
                let j = choose|j: int| 0 <= j < names.len() && names[j] == m;
                assert(self.plugins@[j].name@ == m);
            }
            assert(self.as_map().dom() =~= names.to_set());
        }
        self.plugins.len()
    }
}

/// Idempotent unload: removing a name leaves a registry without it, so a
/// second unload of the same name finds nothing, reports "not found", and
/// removes nothing further.
pub proof fn lemma_unload_idempotent(m: Map<Seq<char>, (u64, u64)>, n: Seq<char>)
    ensures
        !m.remove(n).contains_key(n),
        m.remove(n).remove(n) == m.remove(n),
{
    assert(m.remove(n).remove(n) =~= m.remove(n));
}

/// In-order reload: the commands `Load(A)`, `Unload(A)`, `Load(A)` applied
/// to the registry in arrival order leave exactly the freshly created entry
/// under `A` — never a mixture of the stale and the fresh state — whatever
/// the registry held before.
pub proof fn lemma_fifo_reload(
    m: Map<Seq<char>, (u64, u64)>,
    a: Seq<char>,
    stale: (u64, u64),
    fresh: (u64, u64),
)
    ensures
        m.insert(a, stale).remove(a).insert(a, fresh) == m.insert(a, fresh),
        m.insert(a, stale).remove(a).insert(a, fresh)[a] == fresh,
{
    assert(m.insert(a, stale).remove(a).insert(a, fresh) =~= m.insert(a, fresh));
}

} // verus!
