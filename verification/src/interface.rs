//! The plugin boundary: the capability interface a plugin author implements,
//! the adapter that boxes it into one opaque instance, and the table of live
//! instances indexed by integer handles.
//!
//! Instance handles are integers into an arena of live instances; the null
//! handle is never live, so every boundary operation tolerates it as a no-op,
//! and destroying a handle twice finds nothing the second time.

use vstd::prelude::*;

verus! {

/// The capability interface a plugin author implements: a stable identifier
/// and a behavior to invoke. The host never sees the concrete type.
pub trait Plugin {
    fn name(&self) -> &'static str;

    fn execute(&self);
}

/// Boxes an arbitrary `Plugin` implementation into the single shape the
/// instance table stores, so authors never manage instances themselves.
pub struct PluginWrapper {
    plugin: Box<dyn Plugin>,
}

impl PluginWrapper {
    pub fn new(plugin: Box<dyn Plugin>) -> PluginWrapper {
        PluginWrapper { plugin }
    }

    /// The wrapped plugin's stable identifier.
    pub fn plugin_name(&self) -> &'static str {
        self.plugin.name()
    }

    /// Invokes the wrapped plugin's behavior.
    pub fn run(&self) {
        self.plugin.execute()
    }
}

/// The handle every boundary operation accepts when no instance is meant.
/// No live instance ever carries it.
pub const NULL_HANDLE: u64 = 0;

/// Arena of live plugin instances, indexed by nonzero integer handles.
/// `create` inserts, `execute`/`name` look up, `destroy` removes.
pub struct InstanceTable {
    next_id: u64,
    entries: Vec<(u64, PluginWrapper)>,
}

impl InstanceTable {
    /// The set of handles that refer to a live instance.
    pub closed spec fn live(self) -> Set<u64> {
        Set::new(|h: u64| exists|i: int| 0 <= i < self.entries@.len() && self.entries@[i].0 == h)
    }

    /// The handle the next successful creation will hand out.
    pub closed spec fn next_handle(self) -> u64 {
        self.next_id
    }

    /// Well-formedness: every live handle is nonzero, unique, and below the
    /// next handle to be handed out, so fresh handles never collide.
    pub closed spec fn wf(self) -> bool {
        &&& 1 <= self.next_id
        &&& forall|i: int| 0 <= i < self.entries@.len() ==> 0 < #[trigger] self.entries@[i].0
            < self.next_id
        &&& forall|i: int, j: int|
            #![trigger self.entries@[i].0, self.entries@[j].0]
            0 <= i < j < self.entries@.len() ==> self.entries@[i].0 != self.entries@[j].0
    }

    pub fn new() -> (t: InstanceTable)
        ensures
            t.wf(),
            t.live() =~= Set::<u64>::empty(),
            t.next_handle() == 1,
    {
        InstanceTable { next_id: 1, entries: Vec::new() }
    }
}

/// Allocates an instance for the given plugin and returns its fresh, nonzero
/// handle; ownership of the plugin transfers to the table.
pub fn create_plugin_instance(table: &mut InstanceTable, plugin: Box<dyn Plugin>) -> (h: u64)
    requires
        old(table).wf(),
        old(table).next_handle() < u64::MAX,
    ensures
        final(table).wf(),
        h == old(table).next_handle(),
        h != NULL_HANDLE,
        !old(table).live().contains(h),
        final(table).live() =~= old(table).live().insert(h),
        final(table).next_handle() == old(table).next_handle() + 1,
{
    let h = table.next_id;
    table.next_id = table.next_id + 1;
    table.entries.push((h, PluginWrapper::new(plugin)));
    proof {
        let s_old = old(table).entries@;
        let s_new = table.entries@;
        assert forall|g: u64| old(table).live().insert(h).contains(g) implies table.live().contains(
            g,
        ) by {
            if g == h {
                assert(s_new[s_new.len() - 1].0 == g);
            } else {
                let i = choose|i: int| 0 <= i < s_old.len() && s_old[i].0 == g;
                assert(s_new[i].0 == g);
            }
        }
        assert forall|g: u64| table.live().contains(g) implies old(table).live().insert(h).contains(
            g,
        ) by {
            let i = choose|i: int| 0 <= i < s_new.len() && s_new[i].0 == g;
            if i < s_new.len() - 1 {
                assert(s_old[i].0 == g);
            }
        }
        assert(table.live() =~= old(table).live().insert(h));
    }
    h
}

/// Releases the instance behind the handle, if any; on the null handle, an
/// unknown handle, or an already-destroyed one it finds nothing and is a safe
/// no-op.
pub fn destroy_plugin_instance(table: &mut InstanceTable, handle: u64)
    requires
        old(table).wf(),
    ensures
        final(table).wf(),
        final(table).live() =~= old(table).live().remove(handle),
        final(table).next_handle() == old(table).next_handle(),
{
    let n = table.entries.len();
    let mut i: usize = 0;
    while i < n
        invariant
            old(table).wf(),
            *table == *old(table),
            n == table.entries@.len(),
            i <= n,
            forall|j: int| 0 <= j < i ==> #[trigger] table.entries@[j].0 != handle,
        decreases n - i,
    {
        if table.entries[i].0 == handle {
            table.entries.remove(i);
            proof {
                let s_old = old(table).entries@;
                let s_new = table.entries@;
                let k = i as int;
                s_old.remove_ensures(k);
                assert(s_new == s_old.remove(k));
                assert(s_new.len() == s_old.len() - 1);
                assert(s_old[k].0 == handle);
                assert forall|g: u64| table.live().contains(g) implies old(table).live().remove(
                    handle,
                ).contains(g) by {
                    let j = choose|j: int| 0 <= j < s_new.len() && s_new[j].0 == g;
                    if j < k {
                        assert(s_old.remove(k)[j] == s_old[j]);
                        assert(s_old[j].0 == g);
                        assert(s_old[j].0 != s_old[k].0);
                    } else {
                        assert(s_old.remove(k)[j] == s_old[j + 1]);
                        assert(s_old[j + 1].0 == g);
                        assert(s_old[k].0 != s_old[j + 1].0);
                    }
                }
                assert forall|g: u64| old(table).live().remove(handle).contains(g) implies
                    table.live().contains(g) by {
                    let j = choose|j: int| 0 <= j < s_old.len() && s_old[j].0 == g;
                    assert(j != k);
                    if j < k {
                        assert(s_old.remove(k)[j] == s_old[j]);
                        assert(s_new[j].0 == g);
                    } else {
                        assert(s_old.remove(k)[j - 1] == s_old[j]);
                        assert(s_new[j - 1].0 == g);
                    }
                }
                assert(table.live() =~= old(table).live().remove(handle));
                assert forall|p: int, q: int|
                    #![trigger table.entries@[p].0, table.entries@[q].0]
                    0 <= p < q < s_new.len() implies table.entries@[p].0 != table.entries@[q].0 by {
                    let p_old: int = if p < k {
                        p
                    } else {
                        p + 1
                    };
                    let q_old: int = if q < k {
                        q
                    } else {
                        q + 1
                    };
                    if p < k {
                        assert(s_old.remove(k)[p] == s_old[p]);
                    } else {
                        assert(s_old.remove(k)[p] == s_old[p + 1]);
                    }
                    if q < k {
                        assert(s_old.remove(k)[q] == s_old[q]);
                    } else {
                        assert(s_old.remove(k)[q] == s_old[q + 1]);
                    }
                    assert(s_old[p_old].0 == s_new[p].0);
                    assert(s_old[q_old].0 == s_new[q].0);
                    assert(s_old[p_old].0 != s_old[q_old].0);
                }
            }
            return ;
        }
        i += 1;
    }
    proof {
        assert(!table.live().contains(handle));
        assert(table.live() =~= old(table).live().remove(handle));
    }
}

/// Looks up the stable identifier of the instance behind the handle; returns
/// `None`, rather than failing, on the null handle or any handle that is not
/// live.
pub fn plugin_name(table: &InstanceTable, handle: u64) -> (r: Option<&'static str>)
    ensures
        r is Some <==> table.live().contains(handle),
{
    let n = table.entries.len();
    let mut i: usize = 0;
    while i < n
        invariant
            n == table.entries@.len(),
            i <= n,
            forall|j: int| 0 <= j < i ==> #[trigger] table.entries@[j].0 != handle,
        decreases n - i,
    {
        if table.entries[i].0 == handle {
            return Some(table.entries[i].1.plugin_name());
        }
        i += 1;
    }
    proof {
        assert(!table.live().contains(handle));
    }
    None
}

/// Invokes the behavior of the instance behind the handle once; on the null
/// handle or any handle that is not live it finds nothing and is a safe
/// no-op. The table is only read: no instance is added or removed.
pub fn execute_plugin(table: &InstanceTable, handle: u64)
{
    let n = table.entries.len();
    let mut i: usize = 0;
    while i < n
        invariant
            n == table.entries@.len(),
            i <= n,
        decreases n - i,
    {
        if table.entries[i].0 == handle {
            table.entries[i].1.run();
            return ;
        }
        i += 1;
    }
}

/// Null-handle safety: a well-formed table never considers the null handle
/// live, so executing, naming or destroying the null handle finds no
/// instance and leaves the table unchanged.
pub proof fn lemma_null_handle_not_live(t: InstanceTable)
    requires
        t.wf(),
    ensures
        !t.live().contains(NULL_HANDLE),
{
    if t.live().contains(NULL_HANDLE) {
        let i = choose|i: int| 0 <= i < t.entries@.len() && t.entries@[i].0 == NULL_HANDLE;
        assert(0 < t.entries@[i].0);
    }
}

} // verus!
