//! The engine's extension table: which extensions are registered, which
//! are enabled, and which of them receive updates and get rendered.

use vstd::prelude::*;

verus! {

/// What every Ray extension tells the engine about itself.
pub trait RayExtension {
    /// Returns the display name of the extension.
    fn name(&self) -> &str;
}

/// One registered extension and whether it takes part in the frame loop.
pub struct ExtensionEntry<E> {
    pub instance: E,
    pub enabled: bool,
}

/// The registry of extensions and the index of the focused one among the enabled.
pub struct RayEngine<E> {
    /// The registered extensions, in registration order.
    pub extensions: Vec<ExtensionEntry<E>>,
    /// The name each extension gave when it was registered.
    pub names: Vec<String>,
    pub active_extension_idx: usize,
}

/// `entries` with the `enabled` flag of entry `i` flipped, when there is one.
pub open spec fn toggled<E>(entries: Seq<ExtensionEntry<E>>, i: int) -> Seq<ExtensionEntry<E>> {
    if 0 <= i < entries.len() {
        entries.update(i, ExtensionEntry { instance: entries[i].instance, enabled: !entries[i].enabled })
    } else {
        entries
    }
}

/// The number of enabled entries among the first `k`.
pub open spec fn enabled_before<E>(entries: Seq<ExtensionEntry<E>>, k: int) -> nat
    decreases k,
{
    if k <= 0 {
        0
    } else {
        enabled_before(entries, k - 1) + if entries[k - 1].enabled {
            1nat
        } else {
            0nat
        }
    }
}

/// The indices of the enabled entries among the first `k`, in order.
pub open spec fn enabled_positions<E>(entries: Seq<ExtensionEntry<E>>, k: int) -> Seq<usize>
    decreases k,
{
    if k <= 0 {
        Seq::empty()
    } else if entries[k - 1].enabled {
        enabled_positions(entries, k - 1).push((k - 1) as usize)
    } else {
        enabled_positions(entries, k - 1)
    }
}

/// Index `i` holds the `n`-th enabled entry (counting from zero).
pub open spec fn is_nth_enabled<E>(entries: Seq<ExtensionEntry<E>>, n: int, i: int) -> bool {
    0 <= i < entries.len() && entries[i].enabled && enabled_before(entries, i) == n
}

proof fn lemma_enabled_before_mono<E>(entries: Seq<ExtensionEntry<E>>, a: int, b: int)
    requires
        0 <= a <= b,
    ensures
        enabled_before(entries, a) <= enabled_before(entries, b),
    decreases b - a,
{
    if a < b {
        lemma_enabled_before_mono(entries, a, b - 1);
    }
}

proof fn lemma_positions_len<E>(entries: Seq<ExtensionEntry<E>>, k: int)
    requires
        0 <= k <= entries.len(),
        entries.len() <= usize::MAX,
    ensures
        enabled_positions(entries, k).len() == enabled_before(entries, k),
        forall|j: int|
            0 <= j < enabled_positions(entries, k).len() ==> is_nth_enabled(
                entries,
                j,
                #[trigger] enabled_positions(entries, k)[j] as int,
            ),
    decreases k,
{
    if k > 0 {
        lemma_positions_len(entries, k - 1);
        let prev = enabled_positions(entries, k - 1);
        let cur = enabled_positions(entries, k);
        if entries[k - 1].enabled {
            assert(cur == prev.push((k - 1) as usize));
        } else {
            assert(cur == prev);
        }
        assert forall|j: int| 0 <= j < cur.len() implies is_nth_enabled(
            entries,
            j,
            #[trigger] cur[j] as int,
        ) by {
            if j < prev.len() {
                assert(cur[j] == prev[j]);
                assert(is_nth_enabled(entries, j, prev[j] as int));
            } else {
                assert(cur[j] == (k - 1) as usize);
            }
        }
    }
}

impl<E> RayEngine<E> {
    /// The registered entries, in registration order.
    pub open spec fn entries(&self) -> Seq<ExtensionEntry<E>> {
        self.extensions@
    }

    /// The names the extensions gave when they were registered, in table order.
    pub open spec fn names(&self) -> Seq<Seq<char>> {
        self.names@.map_values(|s: String| s@)
    }

    /// There is one name per registered extension.
    pub open spec fn wf(&self) -> bool {
        self.names@.len() == self.extensions@.len()
    }

    /// An engine with no extension and the first one focused.
    pub fn new() -> (e: Self)
        ensures
            e.wf(),
            e.entries().len() == 0,
            e.names().len() == 0,
            e.active_extension_idx == 0,
    {
        let e = RayEngine { extensions: Vec::new(), names: Vec::new(), active_extension_idx: 0 };
        assert(e.names() =~= Seq::<Seq<char>>::empty());
        e
    }

    /// The number of registered extensions.
    pub fn extension_count(&self) -> (n: usize)
        ensures
            n == self.entries().len(),
    {
        self.extensions.len()
    }

    /// Flips whether extension `index` is enabled; does nothing when there is none.
    pub fn toggle_extension(&mut self, index: usize)
        ensures
            final(self).entries() == toggled(old(self).entries(), index as int),
            final(self).names() == old(self).names(),
            final(self).wf() == old(self).wf(),
            final(self).active_extension_idx == old(self).active_extension_idx,
    {
        if index < self.extensions.len() {
            let enabled = self.extensions[index].enabled;
            self.extensions[index].enabled = !enabled;
            assert(self.extensions@ =~= toggled(old(self).entries(), index as int));
        }
    }

    /// The indices of the enabled extensions, in table order: the ones that
    /// receive events and updates.
    pub fn enabled_indices(&self) -> (r: Vec<usize>)
        ensures
            r@ == enabled_positions(self.entries(), self.entries().len() as int),
    {
        let mut r: Vec<usize> = Vec::new();
        let mut i: usize = 0;
        while i < self.extensions.len()
            invariant
                i <= self.extensions.len(),
                r@ == enabled_positions(self.entries(), i as int),
            decreases self.extensions.len() - i,
        {
            if self.extensions[i].enabled {
                r.push(i);
            }
            i += 1;
        }
        r
    }

    /// The index of the extension to render: the `active_extension_idx`-th
    /// enabled one, or `None` when fewer are enabled.
    pub fn render_index(&self) -> (r: Option<usize>)
        ensures
            match r {
                Some(i) => is_nth_enabled(self.entries(), self.active_extension_idx as int, i as int),
                None => enabled_before(self.entries(), self.entries().len() as int)
                    <= self.active_extension_idx,
            },
    {
        let mut count: usize = 0;
        let mut i: usize = 0;
        while i < self.extensions.len()
            invariant
                i <= self.extensions.len(),
                count == enabled_before(self.entries(), i as int),
                count <= self.active_extension_idx,
            decreases self.extensions.len() - i,
        {
            if self.extensions[i].enabled {
                if count == self.active_extension_idx {
                    return Some(i);
                }
                count += 1;
            }
            i += 1;
        }
        None
    }

    /// The extension at `index`, for the frame loop to call into.
    pub fn instance_mut(&mut self, index: usize) -> (r: &mut E)
        requires
            index < old(self).entries().len(),
        ensures
            *r == old(self).entries()[index as int].instance,
            final(self).entries() == old(self).entries().update(
                index as int,
                ExtensionEntry { instance: *final(r), enabled: old(self).entries()[index as int].enabled },
            ),
            final(self).names() == old(self).names(),
            final(self).wf() == old(self).wf(),
            final(self).active_extension_idx == old(self).active_extension_idx,
    {
        &mut self.extensions[index].instance
    }
}

/// The names (from `names`) of the enabled entries among the first `k`, in order.
pub open spec fn enabled_names<E>(entries: Seq<ExtensionEntry<E>>, names: Seq<Seq<char>>, k: int) -> Seq<
    Seq<char>,
>
    decreases k,
{
    if k <= 0 {
        Seq::empty()
    } else if entries[k - 1].enabled {
        enabled_names(entries, names, k - 1).push(names[k - 1])
    } else {
        enabled_names(entries, names, k - 1)
    }
}

impl<E: RayExtension> RayEngine<E> {
    /// Adds an extension at the end of the table, enabled, under the name it gives.
    pub fn register(&mut self, extension: E)
        ensures
            final(self).entries() == old(self).entries().push(
                ExtensionEntry { instance: extension, enabled: true },
            ),
            final(self).names().len() == old(self).names().len() + 1,
            final(self).names().drop_last() == old(self).names(),
            final(self).wf() == old(self).wf(),
            final(self).active_extension_idx == old(self).active_extension_idx,
    {
        let name = extension.name().to_owned();
        let ghost before = self.names@;
        self.names.push(name);
        assert(self.names@.map_values(|s: String| s@).drop_last() =~= before.map_values(|s: String| s@));
        self.extensions.push(ExtensionEntry { instance: extension, enabled: true });
    }

    /// The name of extension `index` and whether it is enabled, or `None` when there is none.
    pub fn get_extension_info(&self, index: usize) -> (r: Option<(&str, bool)>)
        requires
            self.wf(),
        ensures
            index < self.entries().len() <==> r is Some,
            r matches Some((n, en)) ==> n@ == self.names()[index as int] && en
                == self.entries()[index as int].enabled,
    {
        if index < self.extensions.len() {
            let e = &self.extensions[index];
            Some((self.names[index].as_str(), e.enabled))
        } else {
            None
        }
    }

    /// The names of the enabled extensions, in table order.
    pub fn enabled_extension_names(&self) -> (r: Vec<String>)
        requires
            self.wf(),
        ensures
            r@.map_values(|s: String| s@) == enabled_names(
                self.entries(),
                self.names(),
                self.entries().len() as int,
            ),
    {
        let mut r: Vec<String> = Vec::new();
        let mut i: usize = 0;
        while i < self.extensions.len()
            invariant
                i <= self.extensions.len(),
                self.wf(),
                r@.map_values(|s: String| s@) == enabled_names(self.entries(), self.names(), i as int),
            decreases self.extensions.len() - i,
        {
            if self.extensions[i].enabled {
                let n = self.names[i].as_str();
                let ghost before = r@;
                assert(self.names()[i as int] == n@);
                r.push(n.to_owned());
                assert(r@.map_values(|s: String| s@) =~= before.map_values(|s: String| s@).push(
                    n@,
                ));
            }
            i += 1;
        }
        r
    }
}

impl<E: RayExtension> RayEngine<E> {
    /// Focuses the enabled extension called `name` (the first such, when
    /// several are) and returns whether there is one; otherwise the focus stays.
    pub fn select_extension(&mut self, name: &str) -> (found: bool)
        requires
            old(self).wf(),
        ensures
            found <==> enabled_names(old(self).entries(), old(self).names(), old(self).entries().len() as int).contains(
                name@,
            ),
            found ==> {
                let names = enabled_names(old(self).entries(), old(self).names(), old(self).entries().len() as int);
                &&& (final(self).active_extension_idx as int) < names.len()
                &&& names[final(self).active_extension_idx as int] == name@
                &&& forall|j: int| 0 <= j < final(self).active_extension_idx ==> names[j] != name@
            },
            !found ==> final(self).active_extension_idx == old(self).active_extension_idx,
            final(self).entries() == old(self).entries(),
            final(self).names() == old(self).names(),
            final(self).wf(),
    {
        let names = self.enabled_extension_names();
        let ghost all = enabled_names(self.entries(), self.names(), self.entries().len() as int);
        let wanted = name.to_owned();
        let mut k: usize = 0;
        while k < names.len()
            invariant
                k <= names@.len(),
                wanted@ == name@,
                names@.map_values(|s: String| s@) == all,
                all == enabled_names(old(self).entries(), old(self).names(), old(self).entries().len() as int),
                self.entries() == old(self).entries(),
                self.names() == old(self).names(),
                self.wf(),
                self.active_extension_idx == old(self).active_extension_idx,
                forall|j: int| 0 <= j < k ==> all[j] != name@,
            decreases names.len() - k,
        {
            assert(all[k as int] == names@[k as int]@);
            if names[k] == wanted {
                self.active_extension_idx = k;
                assert(all[k as int] == name@);
                return true;
            }
            k += 1;
        }
        assert(!all.contains(name@)) by {
            if all.contains(name@) {
                let w = choose|w: int| 0 <= w < all.len() && all[w] == name@;
                assert(all[w] != name@);
            }
        }
        false
    }
}

/// Toggling an extension twice leaves the table as it was.
pub proof fn law_toggle_twice<E>(entries: Seq<ExtensionEntry<E>>, i: int)
    ensures
        toggled(toggled(entries, i), i) == entries,
{
    if 0 <= i < entries.len() {
        assert(toggled(toggled(entries, i), i) =~= entries);
    }
}

/// At most one extension is the `n`-th enabled one, so exactly one gets rendered.
pub proof fn law_render_target_unique<E>(entries: Seq<ExtensionEntry<E>>, n: int, i: int, j: int)
    requires
        is_nth_enabled(entries, n, i),
        is_nth_enabled(entries, n, j),
    ensures
        i == j,
{
    if i < j {
        lemma_enabled_before_mono(entries, i + 1, j);
    }
    if j < i {
        lemma_enabled_before_mono(entries, j + 1, i);
    }
}

/// An extension receives updates exactly when it is enabled.
pub proof fn law_updates_reach_enabled<E>(entries: Seq<ExtensionEntry<E>>, i: int)
    requires
        0 <= i < entries.len(),
        entries.len() <= usize::MAX,
    ensures
        enabled_positions(entries, entries.len() as int).contains(i as usize) <==> entries[i].enabled,
{
    lemma_positions_contains(entries, entries.len() as int, i);
}

proof fn lemma_positions_contains<E>(entries: Seq<ExtensionEntry<E>>, k: int, i: int)
    requires
        0 <= i < entries.len(),
        0 <= k <= entries.len(),
        entries.len() <= usize::MAX,
    ensures
        enabled_positions(entries, k).contains(i as usize) <==> (i < k && entries[i].enabled),
    decreases k,
{
    if k > 0 {
        lemma_positions_contains(entries, k - 1, i);
        let prev = enabled_positions(entries, k - 1);
        if entries[k - 1].enabled {
            let cur = prev.push((k - 1) as usize);
            assert(enabled_positions(entries, k) == cur);
            if i == k - 1 {
                assert(cur[cur.len() - 1] == i as usize);
            } else if cur.contains(i as usize) {
                let w = choose|w: int| 0 <= w < cur.len() && cur[w] == i as usize;
                if w < prev.len() {
                    assert(prev[w] == cur[w]);
                }
            } else if prev.contains(i as usize) {
                let w = choose|w: int| 0 <= w < prev.len() && prev[w] == i as usize;
                assert(cur[w] == prev[w]);
            }
        }
    }
}

} // verus!
