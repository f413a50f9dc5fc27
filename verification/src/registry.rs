//! The hotkey registry: every hotkey the applets registered under
//! (applet, hotkey id), which of them clash on the same key combination, the
//! stored rebinds, and which hotkeys may fire for the focused applet.

use vstd::prelude::*;
use crate::api::{HotkeyDefinition, HotkeyModifiers, HotkeyScope};
use crate::hotkeys::in_conflict;

verus! {

/// The (applet, hotkey id) of a registered hotkey, as text.
pub open spec fn key_view(k: (String, String)) -> (Seq<char>, Seq<char>) {
    (k.0@, k.1@)
}

/// The (applet, hotkey id) of a registry entry, as text.
pub open spec fn entry_key(e: ((String, String), HotkeyDefinition)) -> (Seq<char>, Seq<char>) {
    key_view(e.0)
}

/// A pair of registry keys, as text.
pub open spec fn pair_view(p: ((String, String), (String, String))) -> (
    (Seq<char>, Seq<char>),
    (Seq<char>, Seq<char>),
) {
    (key_view(p.0), key_view(p.1))
}

/// A list of pairs of registry keys, as text.
pub open spec fn pairs_view(v: Seq<((String, String), (String, String))>) -> Seq<
    ((Seq<char>, Seq<char>), (Seq<char>, Seq<char>)),
> {
    v.map_values(|p: ((String, String), (String, String))| pair_view(p))
}

/// No (applet, hotkey id) is registered twice.
pub open spec fn keys_unique(s: Seq<((String, String), HotkeyDefinition)>) -> bool {
    forall|i: int, j: int| 0 <= i < j < s.len() ==> entry_key(s[i]) != entry_key(s[j])
}

/// Two hotkeys are bound to the same key with the same modifiers.
pub open spec fn same_combo(a: HotkeyDefinition, b: HotkeyDefinition) -> bool {
    a.key@ == b.key@ && a.modifiers == b.modifiers
}

/// The clashes of `x` with the entries `prev` registered before it, as
/// (earlier, `x`) pairs in registration order.
pub open spec fn clashes_with(
    prev: Seq<((String, String), HotkeyDefinition)>,
    x: ((String, String), HotkeyDefinition),
) -> Seq<((Seq<char>, Seq<char>), (Seq<char>, Seq<char>))>
    decreases prev.len(),
{
    if prev.len() == 0 {
        Seq::empty()
    } else {
        clashes_with(prev.drop_last(), x) + if same_combo(prev.last().1, x.1) {
            seq![(entry_key(prev.last()), entry_key(x))]
        } else {
            Seq::empty()
        }
    }
}

/// Every pair of entries bound to the same combination, earlier one first.
pub open spec fn conflicts_of(s: Seq<((String, String), HotkeyDefinition)>) -> Seq<
    ((Seq<char>, Seq<char>), (Seq<char>, Seq<char>)),
>
    decreases s.len(),
{
    if s.len() == 0 {
        Seq::empty()
    } else {
        conflicts_of(s.drop_last()) + clashes_with(s.drop_last(), s.last())
    }
}

/// The definition registered under `k`, if any.
pub open spec fn lookup(s: Seq<((String, String), HotkeyDefinition)>, k: (Seq<char>, Seq<char>)) -> Option<
    HotkeyDefinition,
>
    decreases s.len(),
{
    if s.len() == 0 {
        None
    } else if entry_key(s.last()) == k {
        Some(s.last().1)
    } else {
        lookup(s.drop_last(), k)
    }
}

/// A hotkey of `applet` with scope `scope` may fire while `active` has focus:
/// global and OS hotkeys always, local ones only for the focused applet.
pub open spec fn may_fire(scope: HotkeyScope, applet: Seq<char>, active: Seq<char>) -> bool {
    scope != HotkeyScope::Local || applet == active
}

/// The ids of the hotkeys among `s` that fire when those marked in
/// `pressed` were pressed while `active` has focus, in registration order.
pub open spec fn fired(s: Seq<((String, String), HotkeyDefinition)>, pressed: Seq<bool>, active: Seq<char>) -> Seq<
    Seq<char>,
>
    decreases s.len(),
{
    if s.len() == 0 {
        Seq::empty()
    } else {
        let e = s.last();
        fired(s.drop_last(), pressed, active) + if pressed[s.len() - 1] && may_fire(
            e.1.scope,
            e.0.0@,
            active,
        ) {
            seq![e.1.id@]
        } else {
            Seq::empty()
        }
    }
}

/// What the registry holds.
pub struct HotkeyRegistry {
    /// Each hotkey under (applet, hotkey id), in registration order.
    pub registered: Vec<((String, String), HotkeyDefinition)>,
    /// The pairs of hotkeys bound to the same combination.
    pub conflicts: Vec<((String, String), (String, String))>,
    /// The registry changed since the operating system was last told.
    pub dirty: bool,
}

/// `lookup` finds the entry at `i` when keys are unique.
proof fn lemma_lookup_at(s: Seq<((String, String), HotkeyDefinition)>, i: int)
    requires
        keys_unique(s),
        0 <= i < s.len(),
    ensures
        lookup(s, entry_key(s[i])) == Some(s[i].1),
    decreases s.len(),
{
    if i < s.len() - 1 {
        assert(entry_key(s.last()) != entry_key(s[i]));
        lemma_lookup_at(s.drop_last(), i);
    }
}

/// `lookup` finds nothing for a key no entry has.
proof fn lemma_lookup_none(s: Seq<((String, String), HotkeyDefinition)>, k: (Seq<char>, Seq<char>))
    requires
        forall|i: int| 0 <= i < s.len() ==> entry_key(#[trigger] s[i]) != k,
    ensures
        lookup(s, k) is None,
    decreases s.len(),
{
    if s.len() > 0 {
        assert(entry_key(s[s.len() - 1]) != k);
        lemma_lookup_none(s.drop_last(), k);
    }
}

/// Replacing the entry at `i` by one with the same key changes the lookup of
/// that key only.
proof fn lemma_lookup_update(
    s: Seq<((String, String), HotkeyDefinition)>,
    i: int,
    e: ((String, String), HotkeyDefinition),
    k: (Seq<char>, Seq<char>),
)
    requires
        keys_unique(s),
        0 <= i < s.len(),
        entry_key(e) == entry_key(s[i]),
    ensures
        keys_unique(s.update(i, e)),
        k == entry_key(e) ==> lookup(s.update(i, e), k) == Some(e.1),
        k != entry_key(e) ==> lookup(s.update(i, e), k) == lookup(s, k),
    decreases s.len(),
{
    let t = s.update(i, e);
    assert forall|a: int, b: int| 0 <= a < b < t.len() implies entry_key(t[a]) != entry_key(t[b]) by {
        assert(entry_key(t[a]) == entry_key(s[a]));
        assert(entry_key(t[b]) == entry_key(s[b]));
    }
    if k == entry_key(e) {
        lemma_lookup_at(t, i);
    } else if i == s.len() - 1 {
        assert(t.drop_last() =~= s.drop_last());
    } else {
        assert(t.drop_last() =~= s.drop_last().update(i, e));
        lemma_lookup_update(s.drop_last(), i, e, k);
    }
}

impl HotkeyRegistry {
    /// The registry is consistent: no key twice, and the conflict list is
    /// exactly the clashing pairs.
    pub open spec fn wf(&self) -> bool {
        &&& keys_unique(self.registered@)
        &&& pairs_view(self.conflicts@) == conflicts_of(self.registered@)
    }

    /// An empty registry.
    pub fn new() -> (r: Self)
        ensures
            r.wf(),
            r.registered@.len() == 0,
            r.conflicts@.len() == 0,
            !r.dirty,
    {
        let r = HotkeyRegistry { registered: Vec::new(), conflicts: Vec::new(), dirty: false };
        assert(pairs_view(r.conflicts@) =~= conflicts_of(r.registered@));
        r
    }

    /// The pairs of entries of `reg` bound to the same combination.
    fn conflicts_among(reg: &Vec<((String, String), HotkeyDefinition)>) -> (r: Vec<
        ((String, String), (String, String)),
    >)
        ensures
            pairs_view(r@) == conflicts_of(reg@),
    {
        let mut r: Vec<((String, String), (String, String))> = Vec::new();
        let mut j: usize = 0;
        assert(pairs_view(r@) =~= conflicts_of(reg@.take(0)));
        while j < reg.len()
            invariant
                j <= reg.len(),
                pairs_view(r@) == conflicts_of(reg@.take(j as int)),
            decreases reg.len() - j,
        {
            let mut i: usize = 0;
            assert(pairs_view(r@) =~= conflicts_of(reg@.take(j as int)) + clashes_with(
                reg@.take(0),
                reg@[j as int],
            ));
            while i < j
                invariant
                    i <= j < reg.len(),
                    pairs_view(r@) == conflicts_of(reg@.take(j as int)) + clashes_with(
                        reg@.take(i as int),
                        reg@[j as int],
                    ),
                decreases j - i,
            {
                let ghost before = pairs_view(r@);
                assert(reg@.take(i + 1).drop_last() =~= reg@.take(i as int));
                assert(reg@.take(i + 1).last() == reg@[i as int]);
                let a = &reg[i];
                let b = &reg[j];
                if a.1.key == b.1.key && a.1.modifiers == b.1.modifiers {
                    let p = ((a.0.0.clone(), a.0.1.clone()), (b.0.0.clone(), b.0.1.clone()));
                    r.push(p);
                    assert(pairs_view(r@) =~= before.push(pair_view(p)));
                } else {
                    assert(pairs_view(r@) =~= before);
                }
                assert(pairs_view(r@) =~= conflicts_of(reg@.take(j as int)) + clashes_with(
                    reg@.take(i + 1),
                    reg@[j as int],
                ));
                i += 1;
            }
            assert(reg@.take(j + 1).drop_last() =~= reg@.take(j as int));
            assert(reg@.take(j + 1).last() == reg@[j as int]);
            j += 1;
        }
        assert(reg@.take(reg.len() as int) =~= reg@);
        r
    }

    /// The index of the entry registered under (`applet`, `id`), if any.
    fn position(&self, applet: &String, id: &String) -> (r: Option<usize>)
        requires
            self.wf(),
        ensures
            match r {
                Some(i) => i < self.registered@.len() && entry_key(self.registered@[i as int]) == (
                    applet@,
                    id@,
                ),
                None => forall|i: int|
                    0 <= i < self.registered@.len() ==> entry_key(#[trigger] self.registered@[i]) != (
                        applet@,
                        id@,
                    ),
            },
    {
        let mut i: usize = 0;
        while i < self.registered.len()
            invariant
                i <= self.registered@.len(),
                forall|k: int|
                    0 <= k < i ==> entry_key(#[trigger] self.registered@[k]) != (applet@, id@),
            decreases self.registered.len() - i,
        {
            let e = &self.registered[i];
            if e.0.0 == *applet && e.0.1 == *id {
                return Some(i);
            }
            i += 1;
        }
        None
    }

    /// Registers `def` for `applet`: a hotkey with the same id from that
    /// applet is replaced, another is added; the conflicts are worked out
    /// again and the registry is marked changed.
    pub fn register(&mut self, applet: String, def: HotkeyDefinition)
        requires
            old(self).wf(),
        ensures
            final(self).wf(),
            final(self).dirty,
            lookup(final(self).registered@, (applet@, def.id@)) == Some(def),
            forall|k: (Seq<char>, Seq<char>)|
                k != (applet@, def.id@) ==> lookup(final(self).registered@, k) == lookup(
                    old(self).registered@,
                    k,
                ),
            final(self).registered@.len() == old(self).registered@.len() + if lookup(
                old(self).registered@,
                (applet@, def.id@),
            ) is Some {
                0int
            } else {
                1int
            },
    {
        let ghost old_reg = self.registered@;
        let ghost k0 = (applet@, def.id@);
        let id = def.id.clone();
        match self.position(&applet, &id) {
            Some(i) => {
                let e = ((applet, id), def);
                proof {
                    lemma_lookup_at(old_reg, i as int);
                    assert forall|k: (Seq<char>, Seq<char>)| true implies (k == entry_key(e) ==> lookup(
                        old_reg.update(i as int, e),
                        k,
                    ) == Some(e.1)) && (k != entry_key(e) ==> lookup(old_reg.update(i as int, e), k)
                        == lookup(old_reg, k)) by {
                        lemma_lookup_update(old_reg, i as int, e, k);
                    }
                    lemma_lookup_update(old_reg, i as int, e, k0);
                }
                self.registered[i] = e;
                assert(self.registered@ == old_reg.update(i as int, e));
            },
            None => {
                let e = ((applet, id), def);
                proof {
                    lemma_lookup_none(old_reg, k0);
                }
                self.registered.push(e);
                proof {
                    let t = self.registered@;
                    assert(t.drop_last() =~= old_reg);
                    assert forall|a: int, b: int| 0 <= a < b < t.len() implies entry_key(t[a]) != entry_key(
                        t[b],
                    ) by {
                        if b == t.len() - 1 {
                            assert(entry_key(old_reg[a]) != k0);
                        }
                    }
                }
            },
        }
        self.conflicts = Self::conflicts_among(&self.registered);
        self.dirty = true;
    }

    /// Applies a stored rebind: the hotkey under (`applet`, `id`), if there is
    /// one, now answers to `key` with `modifiers`; the conflicts are worked
    /// out again and the registry is marked changed. Without such a hotkey
    /// nothing changes.
    pub fn apply_override(&mut self, applet: &str, id: &str, key: String, modifiers: HotkeyModifiers)
        requires
            old(self).wf(),
        ensures
            final(self).wf(),
            lookup(old(self).registered@, (applet@, id@)) is None ==> final(self).registered@
                == old(self).registered@ && final(self).dirty == old(self).dirty,
            lookup(old(self).registered@, (applet@, id@)) matches Some(d) ==> {
                &&& lookup(final(self).registered@, (applet@, id@)) == Some(
                    HotkeyDefinition { key: key, modifiers: modifiers, ..d },
                )
                &&& final(self).dirty
            },
            forall|k: (Seq<char>, Seq<char>)|
                k != (applet@, id@) ==> lookup(final(self).registered@, k) == lookup(
                    old(self).registered@,
                    k,
                ),
            final(self).registered@.len() == old(self).registered@.len(),
    {
        let ghost old_reg = self.registered@;
        let ghost k0 = (applet@, id@);
        let a = applet.to_owned();
        let i_d = id.to_owned();
        match self.position(&a, &i_d) {
            Some(i) => {
                let old_def = &self.registered[i].1;
                let nd = HotkeyDefinition {
                    id: old_def.id.clone(),
                    key: key,
                    modifiers: modifiers,
                    scope: old_def.scope,
                    description: old_def.description.clone(),
                    internal_keycode: old_def.internal_keycode,
                };
                let e = ((a, i_d), nd);
                proof {
                    lemma_lookup_at(old_reg, i as int);
                    assert(nd == HotkeyDefinition { key: key, modifiers: modifiers, ..old_reg[i as int].1 });
                    assert forall|k: (Seq<char>, Seq<char>)| k != k0 implies lookup(
                        old_reg.update(i as int, e),
                        k,
                    ) == lookup(old_reg, k) by {
                        lemma_lookup_update(old_reg, i as int, e, k);
                    }
                    lemma_lookup_update(old_reg, i as int, e, k0);
                }
                self.registered[i] = e;
                assert(self.registered@ == old_reg.update(i as int, e));
                self.conflicts = Self::conflicts_among(&self.registered);
                self.dirty = true;
            },
            None => {
                proof {
                    lemma_lookup_none(old_reg, k0);
                }
            },
        }
    }

    /// The operating system was told about the current hotkeys.
    pub fn clear_dirty(&mut self)
        ensures
            !final(self).dirty,
            final(self).registered == old(self).registered,
            final(self).conflicts == old(self).conflicts,
    {
        self.dirty = false;
    }

    /// The ids of the hotkeys to report as triggered when those marked in
    /// `pressed` (one mark per registered hotkey) were pressed while the
    /// applet `active` has focus.
    pub fn hotkeys_to_fire(&self, pressed: &Vec<bool>, active: &str) -> (r: Vec<String>)
        requires
            pressed@.len() == self.registered@.len(),
        ensures
            r@.map_values(|s: String| s@) == fired(self.registered@, pressed@, active@),
    {
        let mut r: Vec<String> = Vec::new();
        let mut i: usize = 0;
        assert(self.registered@.take(0) =~= Seq::<((String, String), HotkeyDefinition)>::empty());
        assert(r@.map_values(|s: String| s@) =~= fired(self.registered@.take(0), pressed@, active@));
        while i < self.registered.len()
            invariant
                i <= self.registered@.len(),
                pressed@.len() == self.registered@.len(),
                r@.map_values(|s: String| s@) == fired(self.registered@.take(i as int), pressed@, active@),
            decreases self.registered.len() - i,
        {
            let ghost before = r@.map_values(|s: String| s@);
            let ghost t = self.registered@.take(i + 1);
            assert(t.drop_last() =~= self.registered@.take(i as int));
            assert(t.last() == self.registered@[i as int]);
            let e = &self.registered[i];
            if pressed[i] && Self::may_fire(e.0.0.as_str(), &e.1, active) {
                r.push(e.1.id.clone());
                assert(r@.map_values(|s: String| s@) =~= before.push(e.1.id@));
            } else {
                assert(r@.map_values(|s: String| s@) =~= before);
            }
            i += 1;
        }
        assert(self.registered@.take(self.registered.len() as int) =~= self.registered@);
        r
    }

    /// Whether a hotkey of `applet` with `def` may fire while `active` has focus.
    pub fn may_fire(applet: &str, def: &HotkeyDefinition, active: &str) -> (b: bool)
        ensures
            b == may_fire(def.scope, applet@, active@),
    {
        match def.scope {
            HotkeyScope::Local => applet.to_owned() == active.to_owned(),
            _ => true,
        }
    }
}

/// The clashes of `x` are the earlier entries bound to the same combination.
proof fn lemma_clashes(
    prev: Seq<((String, String), HotkeyDefinition)>,
    x: ((String, String), HotkeyDefinition),
    p: ((Seq<char>, Seq<char>), (Seq<char>, Seq<char>)),
)
    ensures
        clashes_with(prev, x).contains(p) <==> exists|i: int|
            0 <= i < prev.len() && entry_key(#[trigger] prev[i]) == p.0 && entry_key(x) == p.1
                && same_combo(prev[i].1, x.1),
    decreases prev.len(),
{
    if prev.len() > 0 {
        let init = prev.drop_last();
        lemma_clashes(init, x, p);
        let a = clashes_with(init, x);
        let tail = if same_combo(prev.last().1, x.1) {
            seq![(entry_key(prev.last()), entry_key(x))]
        } else {
            Seq::empty()
        };
        let all = clashes_with(prev, x);
        assert(all == a + tail);
        if all.contains(p) {
            let k = choose|k: int| 0 <= k < all.len() && all[k] == p;
            if k < a.len() {
                assert(a[k] == p);
                assert(a.contains(p));
                let i = choose|i: int|
                    0 <= i < init.len() && entry_key(#[trigger] init[i]) == p.0 && entry_key(x) == p.1
                        && same_combo(init[i].1, x.1);
                assert(prev[i] == init[i]);
            } else {
                assert(tail[k - a.len()] == p);
                assert(prev[prev.len() - 1] == prev.last());
            }
        }
        if exists|i: int|
            0 <= i < prev.len() && entry_key(#[trigger] prev[i]) == p.0 && entry_key(x) == p.1
                && same_combo(prev[i].1, x.1) {
            let i = choose|i: int|
                0 <= i < prev.len() && entry_key(#[trigger] prev[i]) == p.0 && entry_key(x) == p.1
                    && same_combo(prev[i].1, x.1);
            if i < prev.len() - 1 {
                assert(init[i] == prev[i]);
                assert(a.contains(p));
                let k = choose|k: int| 0 <= k < a.len() && a[k] == p;
                assert(all[k] == p);
            } else {
                assert(all[a.len() as int] == p);
            }
        }
    }
}

/// A registry reports two hotkeys as conflicting exactly when they are bound
/// to the same key text and the same modifiers: hotkeys whose keys differ
/// never conflict, whatever their modifiers, and hotkeys whose modifiers
/// differ never conflict, whatever their keys.
pub proof fn law_conflict_needs_same_key_and_modifiers(
    reg: HotkeyRegistry,
    p: ((Seq<char>, Seq<char>), (Seq<char>, Seq<char>)),
)
    requires
        reg.wf(),
    ensures
        pairs_view(reg.conflicts@).contains(p) <==> exists|i: int, j: int|
            0 <= i < j < reg.registered@.len() && (#[trigger] reg.registered@[i]).0.0@ == p.0.0
                && reg.registered@[i].0.1@ == p.0.1 && (#[trigger] reg.registered@[j]).0.0@ == p.1.0
                && reg.registered@[j].0.1@ == p.1.1 && reg.registered@[i].1.key@
                == reg.registered@[j].1.key@ && reg.registered@[i].1.modifiers
                == reg.registered@[j].1.modifiers,
{
    let s = reg.registered@;
    law_conflicts_exact(s, p);
    if pairs_view(reg.conflicts@).contains(p) {
        let (i, j) = choose|i: int, j: int|
            0 <= i < j < s.len() && entry_key(#[trigger] s[i]) == p.0 && entry_key(#[trigger] s[j])
                == p.1 && same_combo(s[i].1, s[j].1);
        assert(s[i].0.0@ == p.0.0 && s[i].0.1@ == p.0.1);
        assert(s[j].0.0@ == p.1.0 && s[j].0.1@ == p.1.1);
    }
    if exists|i: int, j: int|
        0 <= i < j < s.len() && (#[trigger] s[i]).0.0@ == p.0.0 && s[i].0.1@ == p.0.1 && (
        #[trigger] s[j]).0.0@ == p.1.0 && s[j].0.1@ == p.1.1 && s[i].1.key@ == s[j].1.key@
            && s[i].1.modifiers == s[j].1.modifiers {
        let (i, j) = choose|i: int, j: int|
            0 <= i < j < s.len() && (#[trigger] s[i]).0.0@ == p.0.0 && s[i].0.1@ == p.0.1 && (
            #[trigger] s[j]).0.0@ == p.1.0 && s[j].0.1@ == p.1.1 && s[i].1.key@ == s[j].1.key@
                && s[i].1.modifiers == s[j].1.modifiers;
        assert(entry_key(s[i]) == p.0 && entry_key(s[j]) == p.1 && same_combo(s[i].1, s[j].1));
    }
}

/// The conflict list holds a pair exactly when an earlier and a later
/// entry under those keys are bound to the same key and modifiers.
pub proof fn law_conflicts_exact(
    s: Seq<((String, String), HotkeyDefinition)>,
    p: ((Seq<char>, Seq<char>), (Seq<char>, Seq<char>)),
)
    ensures
        conflicts_of(s).contains(p) <==> exists|i: int, j: int|
            0 <= i < j < s.len() && entry_key(#[trigger] s[i]) == p.0 && entry_key(#[trigger] s[j])
                == p.1 && same_combo(s[i].1, s[j].1),
    decreases s.len(),
{
    if s.len() > 0 {
        let init = s.drop_last();
        let last = s.last();
        law_conflicts_exact(init, p);
        lemma_clashes(init, last, p);
        let a = conflicts_of(init);
        let b = clashes_with(init, last);
        let all = conflicts_of(s);
        assert(all == a + b);
        if all.contains(p) {
            let k = choose|k: int| 0 <= k < all.len() && all[k] == p;
            if k < a.len() {
                assert(a[k] == p);
                assert(a.contains(p));
                let (i, j) = choose|i: int, j: int|
                    0 <= i < j < init.len() && entry_key(#[trigger] init[i]) == p.0 && entry_key(
                        #[trigger] init[j],
                    ) == p.1 && same_combo(init[i].1, init[j].1);
                assert(s[i] == init[i] && s[j] == init[j]);
            } else {
                assert(b[k - a.len()] == p);
                assert(b.contains(p));
                let i = choose|i: int|
                    0 <= i < init.len() && entry_key(#[trigger] init[i]) == p.0 && entry_key(last)
                        == p.1 && same_combo(init[i].1, last.1);
                assert(s[i] == init[i]);
                assert(s[s.len() - 1] == last);
            }
        }
        if exists|i: int, j: int|
            0 <= i < j < s.len() && entry_key(#[trigger] s[i]) == p.0 && entry_key(#[trigger] s[j])
                == p.1 && same_combo(s[i].1, s[j].1) {
            let (i, j) = choose|i: int, j: int|
                0 <= i < j < s.len() && entry_key(#[trigger] s[i]) == p.0 && entry_key(#[trigger] s[j])
                    == p.1 && same_combo(s[i].1, s[j].1);
            if j < s.len() - 1 {
                assert(init[i] == s[i] && init[j] == s[j]);
                assert(a.contains(p));
                let k = choose|k: int| 0 <= k < a.len() && a[k] == p;
                assert(all[k] == p);
            } else {
                assert(init[i] == s[i]);
                assert(b.contains(p));
                let k = choose|k: int| 0 <= k < b.len() && b[k] == p;
                assert(all[a.len() + k] == p);
            }
        }
    }
}

/// The settings mark a registered hotkey as conflicting exactly when another
/// registered hotkey is bound to the same key and modifiers.
pub proof fn law_conflict_marked(reg: HotkeyRegistry, m: int)
    requires
        reg.wf(),
        0 <= m < reg.registered@.len(),
    ensures
        in_conflict(reg.conflicts@, reg.registered@[m].0.0@, reg.registered@[m].0.1@) <==> exists|n: int|
            0 <= n < reg.registered@.len() && n != m && same_combo(
                reg.registered@[m].1,
                #[trigger] reg.registered@[n].1,
            ),
{
    let s = reg.registered@;
    let c = reg.conflicts@;
    let km = entry_key(s[m]);
    assert(pairs_view(c).len() == c.len());
    if in_conflict(c, s[m].0.0@, s[m].0.1@) {
        let k = choose|k: int|
            0 <= k < c.len() && ((c[k].0.0@ == s[m].0.0@ && c[k].0.1@ == s[m].0.1@) || (c[k].1.0@
                == s[m].0.0@ && c[k].1.1@ == s[m].0.1@));
        let p = pairs_view(c)[k];
        assert(p == pair_view(c[k]));
        assert(conflicts_of(s).contains(p));
        law_conflicts_exact(s, p);
        let (i, j) = choose|i: int, j: int|
            0 <= i < j < s.len() && entry_key(#[trigger] s[i]) == p.0 && entry_key(#[trigger] s[j])
                == p.1 && same_combo(s[i].1, s[j].1);
        if c[k].0.0@ == s[m].0.0@ && c[k].0.1@ == s[m].0.1@ {
            assert(p.0 == km);
            if i != m {
                if i < m {
                    assert(entry_key(s[i]) != entry_key(s[m]));
                } else {
                    assert(entry_key(s[m]) != entry_key(s[i]));
                }
            }
            assert(same_combo(s[m].1, s[j].1));
        } else {
            assert(p.1 == km);
            if j != m {
                if j < m {
                    assert(entry_key(s[j]) != entry_key(s[m]));
                } else {
                    assert(entry_key(s[m]) != entry_key(s[j]));
                }
            }
            assert(same_combo(s[m].1, s[i].1));
        }
    }
    if exists|n: int| 0 <= n < s.len() && n != m && same_combo(s[m].1, #[trigger] s[n].1) {
        let n = choose|n: int| 0 <= n < s.len() && n != m && same_combo(s[m].1, #[trigger] s[n].1);
        let (i, j) = if m < n {
            (m, n)
        } else {
            (n, m)
        };
        let p = (entry_key(s[i]), entry_key(s[j]));
        law_conflicts_exact(s, p);
        assert(conflicts_of(s).contains(p));
        let k = choose|k: int| 0 <= k < conflicts_of(s).len() && conflicts_of(s)[k] == p;
        assert(pairs_view(c)[k] == pair_view(c[k]));
        assert(c[k].0.0@ == s[i].0.0@ && c[k].0.1@ == s[i].0.1@);
        assert(c[k].1.0@ == s[j].0.0@ && c[k].1.1@ == s[j].0.1@);
    }
}

/// A press reports a hotkey id exactly when a pressed hotkey with that id
/// is global or OS-wide, or is local to the applet that has focus.
pub proof fn law_fired_exact(
    s: Seq<((String, String), HotkeyDefinition)>,
    pressed: Seq<bool>,
    active: Seq<char>,
    id: Seq<char>,
)
    requires
        pressed.len() == s.len(),
    ensures
        fired(s, pressed, active).contains(id) <==> exists|i: int|
            0 <= i < s.len() && pressed[i] && (#[trigger] s[i]).1.id@ == id && (s[i].1.scope
                != HotkeyScope::Local || s[i].0.0@ == active),
    decreases s.len(),
{
    if s.len() > 0 {
        let init = s.drop_last();
        let e = s.last();
        law_fired_exact(init, pressed.drop_last(), active, id);
        let a = fired(init, pressed, active);
        assert(fired(init, pressed, active) == fired(init, pressed.drop_last(), active)) by {
            lemma_fired_prefix(init, pressed, pressed.drop_last(), active);
        }
        let all = fired(s, pressed, active);
        let tail = if pressed[s.len() - 1] && may_fire(e.1.scope, e.0.0@, active) {
            seq![e.1.id@]
        } else {
            Seq::empty()
        };
        assert(all == a + tail);
        if all.contains(id) {
            let k = choose|k: int| 0 <= k < all.len() && all[k] == id;
            if k < a.len() {
                assert(a[k] == id);
                assert(a.contains(id));
                let i = choose|i: int|
                    0 <= i < init.len() && pressed.drop_last()[i] && (#[trigger] init[i]).1.id@ == id && (
                    init[i].1.scope != HotkeyScope::Local || init[i].0.0@ == active);
                assert(s[i] == init[i]);
                assert(pressed[i] == pressed.drop_last()[i]);
            } else {
                assert(tail[k - a.len()] == id);
                assert(s[s.len() - 1] == e);
            }
        }
        if exists|i: int|
            0 <= i < s.len() && pressed[i] && (#[trigger] s[i]).1.id@ == id && (s[i].1.scope
                != HotkeyScope::Local || s[i].0.0@ == active) {
            let i = choose|i: int|
                0 <= i < s.len() && pressed[i] && (#[trigger] s[i]).1.id@ == id && (s[i].1.scope
                    != HotkeyScope::Local || s[i].0.0@ == active);
            if i < s.len() - 1 {
                assert(init[i] == s[i]);
                assert(pressed.drop_last()[i] == pressed[i]);
                assert(a.contains(id));
                let k = choose|k: int| 0 <= k < a.len() && a[k] == id;
                assert(all[k] == id);
            } else {
                assert(all[a.len() as int] == id);
            }
        }
    }
}

/// `fired` reads only the marks of the entries it is given.
proof fn lemma_fired_prefix(
    s: Seq<((String, String), HotkeyDefinition)>,
    p: Seq<bool>,
    q: Seq<bool>,
    active: Seq<char>,
)
    requires
        s.len() <= p.len(),
        s.len() <= q.len(),
        forall|i: int| 0 <= i < s.len() ==> p[i] == q[i],
    ensures
        fired(s, p, active) == fired(s, q, active),
    decreases s.len(),
{
    if s.len() > 0 {
        lemma_fired_prefix(s.drop_last(), p, q, active);
    }
}

} // verus!
