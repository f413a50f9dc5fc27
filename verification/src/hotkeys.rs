//! How registered hotkeys are shown in the settings, and which of them the
//! operating system is asked to watch.

use vstd::prelude::*;
use crate::api::{HotkeyDefinition, HotkeyModifiers, HotkeyScope};
use crate::text::{concat2, join, join_strings, push_str, views};
use global_hotkey::hotkey::{Code, Modifiers};
use std::str::FromStr;

verus! {

/// The names of the modifiers held in `m`, in the order Ctrl, Shift, Alt, Logo.
pub open spec fn modifier_names(m: HotkeyModifiers) -> Seq<Seq<char>> {
    (if m.spec_contains(HotkeyModifiers::ctrl_spec()) { seq!["Ctrl"@] } else { Seq::empty() })
        + (if m.spec_contains(HotkeyModifiers::shift_spec()) { seq!["Shift"@] } else { Seq::empty() })
        + (if m.spec_contains(HotkeyModifiers::alt_spec()) { seq!["Alt"@] } else { Seq::empty() })
        + (if m.spec_contains(HotkeyModifiers::logo_spec()) { seq!["Logo"@] } else { Seq::empty() })
}

/// How a key combination is written: `Ctrl+Shift+X`, or just the key.
pub open spec fn key_combo(m: HotkeyModifiers, key: Seq<char>) -> Seq<char> {
    if modifier_names(m).len() == 0 {
        key
    } else {
        join(modifier_names(m), "+"@) + "+"@ + key
    }
}

/// The name `{:?}` writes for a scope.
pub open spec fn scope_name(s: HotkeyScope) -> Seq<char> {
    match s {
        HotkeyScope::Global => "Global"@,
        HotkeyScope::OS => "OS"@,
        HotkeyScope::Local => "Local"@,
    }
}

/// The order the settings list scopes in: Global, then OS, then Local.
pub open spec fn scope_rank(s: HotkeyScope) -> nat {
    match s {
        HotkeyScope::Global => 0,
        HotkeyScope::OS => 1,
        HotkeyScope::Local => 2,
    }
}

/// The settings line of a hotkey.
pub open spec fn hotkey_line(id: Seq<char>, def: HotkeyDefinition, conflict: bool) -> Seq<char> {
    let label = id + ": "@ + def.description@ + " ("@ + key_combo(def.modifiers, def.key@) + ") ["@
        + scope_name(def.scope) + "]"@;
    if conflict {
        "!!! CONFLICT !!! "@ + label
    } else {
        label
    }
}

/// The key combination of a hotkey, as the settings show it.
pub fn key_combo_text(m: HotkeyModifiers, key: &str) -> (r: String)
    ensures
        r@ == key_combo(m, key@),
{
    let mut parts: Vec<String> = Vec::new();
    if m.contains(HotkeyModifiers::ctrl()) {
        push_str(&mut parts, "Ctrl");
    }
    if m.contains(HotkeyModifiers::shift()) {
        push_str(&mut parts, "Shift");
    }
    if m.contains(HotkeyModifiers::alt()) {
        push_str(&mut parts, "Alt");
    }
    if m.contains(HotkeyModifiers::logo()) {
        push_str(&mut parts, "Logo");
    }
    assert(views(parts@) =~= modifier_names(m));
    if parts.len() == 0 {
        key.to_owned()
    } else {
        let mut r = join_strings(&parts, "+");
        r.append("+");
        r.append(key);
        r
    }
}

/// The name `{:?}` writes for a scope.
pub fn scope_name_of(s: HotkeyScope) -> (r: &'static str)
    ensures
        r@ == scope_name(s),
{
    match s {
        HotkeyScope::Global => "Global",
        HotkeyScope::OS => "OS",
        HotkeyScope::Local => "Local",
    }
}

/// The settings line of a hotkey, marked when it conflicts with another.
pub fn hotkey_line_text(id: &str, def: &HotkeyDefinition, conflict: bool) -> (r: String)
    ensures
        r@ == hotkey_line(id@, *def, conflict),
{
    let mut label = concat2(id, ": ");
    label.append(def.description.as_str());
    label.append(" (");
    label.append(key_combo_text(def.modifiers, def.key.as_str()).as_str());
    label.append(") [");
    label.append(scope_name_of(def.scope));
    label.append("]");
    if conflict {
        concat2("!!! CONFLICT !!! ", label.as_str())
    } else {
        label
    }
}

/// Whether a registered hotkey (of `applet`, with `id`) takes part in a conflict.
pub open spec fn in_conflict(conflicts: Seq<((String, String), (String, String))>, applet: Seq<char>, id: Seq<char>) -> bool {
    exists|k: int|
        0 <= k < conflicts.len() && ((conflicts[k].0.0@ == applet && conflicts[k].0.1@ == id) || (
        conflicts[k].1.0@ == applet && conflicts[k].1.1@ == id))
}

/// Whether the hotkey `id` of `applet` appears on either side of a conflict.
pub fn is_conflict(conflicts: &Vec<((String, String), (String, String))>, applet: &str, id: &str) -> (b: bool)
    ensures
        b == in_conflict(conflicts@, applet@, id@),
{
    let a = applet.to_owned();
    let i = id.to_owned();
    let mut k: usize = 0;
    while k < conflicts.len()
        invariant
            k <= conflicts@.len(),
            a@ == applet@,
            i@ == id@,
            forall|j: int|
                0 <= j < k ==> !((conflicts@[j].0.0@ == applet@ && conflicts@[j].0.1@ == id@) || (
                conflicts@[j].1.0@ == applet@ && conflicts@[j].1.1@ == id@)),
        decreases conflicts.len() - k,
    {
        let c = &conflicts[k];
        if (c.0.0 == a && c.0.1 == i) || (c.1.0 == a && c.1.1 == i) {
            return true;
        }
        k += 1;
    }
    false
}

/// The hotkeys of scope rank `rank`, in their order.
pub open spec fn of_rank(s: Seq<(String, HotkeyDefinition)>, rank: nat) -> Seq<(String, HotkeyDefinition)> {
    s.filter(|e: (String, HotkeyDefinition)| scope_rank(e.1.scope) == rank)
}

/// Orders an applet's hotkeys by scope (Global, OS, Local), keeping the
/// order of hotkeys with the same scope.
pub fn sort_by_scope(hotkeys: Vec<(String, HotkeyDefinition)>) -> (r: Vec<(String, HotkeyDefinition)>)
    ensures
        r@ == of_rank(hotkeys@, 0) + of_rank(hotkeys@, 1) + of_rank(hotkeys@, 2),
{
    let ghost input_seq = hotkeys@;
    let mut buckets: (Vec<(String, HotkeyDefinition)>, Vec<(String, HotkeyDefinition)>, Vec<(String, HotkeyDefinition)>) = (
        Vec::new(),
        Vec::new(),
        Vec::new(),
    );
    let mut rest = hotkeys;
    let mut taken: usize = 0;
    let n = rest.len();
    proof {
        reveal(Seq::filter);
        assert(input_seq.take(0) =~= Seq::<(String, HotkeyDefinition)>::empty());
    }
    while rest.len() > 0
        invariant
            taken + rest@.len() == input_seq.len(),
            n == input_seq.len(),
            rest@ == input_seq.skip(taken as int),
            buckets.0@ == of_rank(input_seq.take(taken as int), 0),
            buckets.1@ == of_rank(input_seq.take(taken as int), 1),
            buckets.2@ == of_rank(input_seq.take(taken as int), 2),
        decreases rest.len(),
    {
        let e = rest.remove(0);
        assert(rest@ =~= input_seq.skip(taken + 1));
        assert(e == input_seq[taken as int]);
        assert(input_seq.take(taken + 1).drop_last() =~= input_seq.take(taken as int));
        assert(input_seq.take(taken + 1).last() == e);
        proof {
            reveal(Seq::filter);
        }
        match e.1.scope {
            HotkeyScope::Global => buckets.0.push(e),
            HotkeyScope::OS => buckets.1.push(e),
            HotkeyScope::Local => buckets.2.push(e),
        }
        taken += 1;
    }
    assert(input_seq.take(taken as int) =~= input_seq);
    let (mut a, mut b, mut c) = buckets;
    a.append(&mut b);
    a.append(&mut c);
    a
}

/// The keys of the registered hotkeys whose scope is Global, in order.
pub open spec fn global_keys(registered: Seq<((String, String), HotkeyDefinition)>) -> Seq<(Seq<char>, Seq<char>)> {
    registered.filter(|e: ((String, String), HotkeyDefinition)| e.1.scope == HotkeyScope::Global).map_values(
        |e: ((String, String), HotkeyDefinition)| (e.0.0@, e.0.1@),
    )
}

/// `k` is the key of a registered hotkey whose scope is Global.
pub open spec fn is_global_key(registered: Seq<((String, String), HotkeyDefinition)>, k: (Seq<char>, Seq<char>)) -> bool {
    exists|j: int|
        0 <= j < registered.len() && (#[trigger] registered[j]).1.scope == HotkeyScope::Global && (
        registered[j].0.0@, registered[j].0.1@) == k
}

/// The operating system watches exactly the Global hotkeys: every key of
/// the watch plan is the key of a registered hotkey whose scope is Global,
/// and every registered Global hotkey's key is in the plan; OS-scope and
/// local hotkeys are left to the window.
pub proof fn law_os_watches_only_global(registered: Seq<((String, String), HotkeyDefinition)>)
    ensures
        forall|i: int|
            0 <= i < global_keys(registered).len() ==> is_global_key(
                registered,
                #[trigger] global_keys(registered)[i],
            ),
        forall|j: int|
            0 <= j < registered.len() && (#[trigger] registered[j]).1.scope == HotkeyScope::Global
                ==> global_keys(registered).contains((registered[j].0.0@, registered[j].0.1@)),
{
    let pred = |e: ((String, String), HotkeyDefinition)| e.1.scope == HotkeyScope::Global;
    let conv = |e: ((String, String), HotkeyDefinition)| (e.0.0@, e.0.1@);
    let f = registered.filter(pred);
    assert(global_keys(registered) == f.map_values(conv));
    assert forall|i: int| 0 <= i < global_keys(registered).len() implies is_global_key(
        registered,
        #[trigger] global_keys(registered)[i],
    ) by {
        registered.lemma_filter_pred(pred, i);
        assert(f.contains(f[i]));
        registered.lemma_filter_contains_rev(pred, f[i]);
        let j = choose|j: int| 0 <= j < registered.len() && registered[j] == f[i];
        assert(global_keys(registered)[i] == conv(f[i]));
        assert(registered[j].1.scope == HotkeyScope::Global);
    }
    assert forall|j: int|
        0 <= j < registered.len() && (#[trigger] registered[j]).1.scope == HotkeyScope::Global
            implies global_keys(registered).contains((registered[j].0.0@, registered[j].0.1@)) by {
        registered.lemma_filter_contains(pred, j);
        let k = choose|k: int| 0 <= k < f.len() && f[k] == registered[j];
        assert(global_keys(registered)[k] == conv(f[k]));
    }
}

/// The (applet, id) keys of the registered hotkeys the operating system must
/// watch: those with Global scope.
pub fn os_watched_keys(registered: &Vec<((String, String), HotkeyDefinition)>) -> (r: Vec<(String, String)>)
    ensures
        r@.map_values(|k: (String, String)| (k.0@, k.1@)) == global_keys(registered@),
{
    let ghost pred = |e: ((String, String), HotkeyDefinition)| e.1.scope == HotkeyScope::Global;
    let ghost conv = |e: ((String, String), HotkeyDefinition)| (e.0.0@, e.0.1@);
    let mut r: Vec<(String, String)> = Vec::new();
    let mut i: usize = 0;
    proof {
        reveal(Seq::filter);
        assert(registered@.take(0) =~= Seq::<((String, String), HotkeyDefinition)>::empty());
    }
    while i < registered.len()
        invariant
            i <= registered@.len(),
            r@.map_values(|k: (String, String)| (k.0@, k.1@)) == registered@.take(i as int).filter(pred).map_values(conv),
            pred == (|e: ((String, String), HotkeyDefinition)| e.1.scope == HotkeyScope::Global),
            conv == (|e: ((String, String), HotkeyDefinition)| (e.0.0@, e.0.1@)),
        decreases registered.len() - i,
    {
        let e = &registered[i];
        assert(registered@.take(i + 1).drop_last() =~= registered@.take(i as int));
        assert(registered@.take(i + 1).last() == *e);
        proof {
            reveal(Seq::filter);
        }
        let ghost before = r@;
        if e.1.scope == HotkeyScope::Global {
            r.push((e.0.0.clone(), e.0.1.clone()));
            assert(r@.map_values(|k: (String, String)| (k.0@, k.1@)) =~= before.map_values(
                |k: (String, String)| (k.0@, k.1@),
            ).push(conv(*e)));
            assert(registered@.take(i + 1).filter(pred).map_values(conv) =~= registered@.take(i as int).filter(
                pred,
            ).map_values(conv).push(conv(*e)));
        }
        i += 1;
    }
    assert(registered@.take(i as int) =~= registered@);
    r
}

/// Whether `k` is among `keys`.
pub open spec fn has_key(keys: Seq<(String, String)>, k: (Seq<char>, Seq<char>)) -> bool {
    exists|j: int| 0 <= j < keys.len() && keys[j].0@ == k.0 && keys[j].1@ == k.1
}

/// Whether `(a, b)` is among `keys`.
pub fn contains_key(keys: &Vec<(String, String)>, a: &String, b: &String) -> (r: bool)
    ensures
        r == has_key(keys@, (a@, b@)),
{
    let mut j: usize = 0;
    while j < keys.len()
        invariant
            j <= keys@.len(),
            forall|m: int| 0 <= m < j ==> !(keys@[m].0@ == a@ && keys@[m].1@ == b@),
        decreases keys.len() - j,
    {
        if keys[j].0 == *a && keys[j].1 == *b {
            return true;
        }
        j += 1;
    }
    false
}

/// The keys of `from` that are not in `other`, in order.
pub open spec fn keys_missing(from: Seq<(String, String)>, other: Seq<(String, String)>) -> Seq<(Seq<char>, Seq<char>)> {
    from.filter(|k: (String, String)| !has_key(other, (k.0@, k.1@))).map_values(
        |k: (String, String)| (k.0@, k.1@),
    )
}

/// The keys of `from` that `other` has, in order.
pub open spec fn keys_shared(from: Seq<(String, String)>, other: Seq<(String, String)>) -> Seq<(Seq<char>, Seq<char>)> {
    from.filter(|k: (String, String)| has_key(other, (k.0@, k.1@))).map_values(
        |k: (String, String)| (k.0@, k.1@),
    )
}

/// What the operating system watches once a sync from `current` to `wanted`
/// has gone through with every registration accepted: the watched keys still
/// wanted, in their order, then the wanted keys that were not watched.
pub open spec fn keys_after_sync(current: Seq<(String, String)>, wanted: Seq<(String, String)>) -> Seq<(Seq<char>, Seq<char>)> {
    keys_shared(current, wanted) + keys_missing(wanted, current)
}

/// Every key of `after` is among `wanted`.
proof fn lemma_after_sync_wanted(
    current: Seq<(String, String)>,
    wanted: Seq<(String, String)>,
    after: Seq<(String, String)>,
    i: int,
)
    requires
        after.map_values(|k: (String, String)| (k.0@, k.1@)) == keys_after_sync(current, wanted),
        0 <= i < after.len(),
    ensures
        has_key(wanted, (after[i].0@, after[i].1@)),
{
    let conv = |k: (String, String)| (k.0@, k.1@);
    let p = |k: (String, String)| has_key(wanted, (k.0@, k.1@));
    let q = |k: (String, String)| !has_key(current, (k.0@, k.1@));
    let kept = current.filter(p);
    let fresh = wanted.filter(q);
    assert(keys_shared(current, wanted) == kept.map_values(conv));
    assert(keys_missing(wanted, current) == fresh.map_values(conv));
    assert(after.map_values(conv).len() == after.len());
    assert(after.len() == kept.len() + fresh.len());
    assert(after.map_values(conv)[i] == conv(after[i]));
    if i < kept.len() {
        assert(keys_after_sync(current, wanted)[i] == conv(kept[i]));
        current.lemma_filter_pred(p, i);
    } else {
        let j = i - kept.len();
        assert(keys_after_sync(current, wanted)[i] == conv(fresh[j]));
        assert(fresh.contains(fresh[j]));
        wanted.lemma_filter_contains_rev(q, fresh[j]);
        let m = choose|m: int| 0 <= m < wanted.len() && wanted[m] == fresh[j];
        assert(wanted[m].0@ == after[i].0@ && wanted[m].1@ == after[i].1@);
    }
}

/// Every key of `wanted` is among `after`.
proof fn lemma_after_sync_covers(
    current: Seq<(String, String)>,
    wanted: Seq<(String, String)>,
    after: Seq<(String, String)>,
    m: int,
)
    requires
        after.map_values(|k: (String, String)| (k.0@, k.1@)) == keys_after_sync(current, wanted),
        0 <= m < wanted.len(),
    ensures
        has_key(after, (wanted[m].0@, wanted[m].1@)),
{
    let conv = |k: (String, String)| (k.0@, k.1@);
    let p = |k: (String, String)| has_key(wanted, (k.0@, k.1@));
    let q = |k: (String, String)| !has_key(current, (k.0@, k.1@));
    let kept = current.filter(p);
    let fresh = wanted.filter(q);
    assert(keys_shared(current, wanted) == kept.map_values(conv));
    assert(keys_missing(wanted, current) == fresh.map_values(conv));
    assert(after.map_values(conv).len() == after.len());
    assert(after.len() == kept.len() + fresh.len());
    let y = wanted[m];
    if has_key(current, (y.0@, y.1@)) {
        let c = choose|c: int| 0 <= c < current.len() && current[c].0@ == y.0@ && current[c].1@ == y.1@;
        assert(p(current[c]));
        current.lemma_filter_contains(p, c);
        let t = choose|t: int| 0 <= t < kept.len() && kept[t] == current[c];
        assert(keys_after_sync(current, wanted)[t] == conv(kept[t]));
        assert(after.map_values(conv)[t] == conv(after[t]));
    } else {
        assert(q(y));
        wanted.lemma_filter_contains(q, m);
        let t = choose|t: int| 0 <= t < fresh.len() && fresh[t] == y;
        let i = kept.len() + t;
        assert(keys_after_sync(current, wanted)[i] == conv(fresh[t]));
        assert(after.map_values(conv)[i] == conv(after[i]));
    }
}

/// A second sync changes nothing: once the operating system watches the keys
/// it kept followed by the keys it was asked to start watching, there is no
/// key left to stop watching and none to start watching.
pub proof fn law_second_sync_idle(
    current: Seq<(String, String)>,
    wanted: Seq<(String, String)>,
    after: Seq<(String, String)>,
)
    requires
        after.map_values(|k: (String, String)| (k.0@, k.1@)) == keys_after_sync(current, wanted),
    ensures
        keys_missing(after, wanted).len() == 0,
        keys_missing(wanted, after).len() == 0,
{
    let q1 = |k: (String, String)| !has_key(wanted, (k.0@, k.1@));
    let q2 = |k: (String, String)| !has_key(after, (k.0@, k.1@));
    if after.filter(q1).len() > 0 {
        let x = after.filter(q1)[0];
        after.lemma_filter_pred(q1, 0);
        assert(after.filter(q1).contains(x));
        after.lemma_filter_contains_rev(q1, x);
        let i = choose|i: int| 0 <= i < after.len() && after[i] == x;
        lemma_after_sync_wanted(current, wanted, after, i);
    }
    if wanted.filter(q2).len() > 0 {
        let y = wanted.filter(q2)[0];
        wanted.lemma_filter_pred(q2, 0);
        assert(wanted.filter(q2).contains(y));
        wanted.lemma_filter_contains_rev(q2, y);
        let m = choose|m: int| 0 <= m < wanted.len() && wanted[m] == y;
        lemma_after_sync_covers(current, wanted, after, m);
    }
}

/// The keys of `from` that `other` lacks: with the keys the OS watches and
/// the ones it must watch, those to stop watching; the other way round,
/// those to start watching.
pub fn keys_not_in(from: &Vec<(String, String)>, other: &Vec<(String, String)>) -> (r: Vec<(String, String)>)
    ensures
        r@.map_values(|k: (String, String)| (k.0@, k.1@)) == keys_missing(from@, other@),
{
    let ghost pred = |k: (String, String)| !has_key(other@, (k.0@, k.1@));
    let ghost conv = |k: (String, String)| (k.0@, k.1@);
    let mut r: Vec<(String, String)> = Vec::new();
    let mut i: usize = 0;
    proof {
        reveal(Seq::filter);
        assert(from@.take(0) =~= Seq::<(String, String)>::empty());
    }
    while i < from.len()
        invariant
            i <= from@.len(),
            r@.map_values(|k: (String, String)| (k.0@, k.1@)) == from@.take(i as int).filter(pred).map_values(conv),
            pred == (|k: (String, String)| !has_key(other@, (k.0@, k.1@))),
            conv == (|k: (String, String)| (k.0@, k.1@)),
        decreases from.len() - i,
    {
        let k = &from[i];
        assert(from@.take(i + 1).drop_last() =~= from@.take(i as int));
        assert(from@.take(i + 1).last() == *k);
        proof {
            reveal(Seq::filter);
        }
        let ghost before = r@;
        if !contains_key(other, &k.0, &k.1) {
            r.push((k.0.clone(), k.1.clone()));
            assert(r@.map_values(|k: (String, String)| (k.0@, k.1@)) =~= before.map_values(
                |k: (String, String)| (k.0@, k.1@),
            ).push(conv(*k)));
            assert(from@.take(i + 1).filter(pred).map_values(conv) =~= from@.take(i as int).filter(
                pred,
            ).map_values(conv).push(conv(*k)));
        }
        i += 1;
    }
    assert(from@.take(i as int) =~= from@);
    r
}

/// The watched hotkey has OS id `event_id`.
pub open spec fn fires_on(event_id: u32) -> spec_fn(((String, String), u32)) -> bool {
    |w: ((String, String), u32)| w.1 == event_id
}

/// The ids of the watched hotkeys, ((applet, id), OS hotkey id), whose OS id is `event_id`.
pub open spec fn triggered(watched: Seq<((String, String), u32)>, event_id: u32) -> Seq<Seq<char>> {
    watched.filter(fires_on(event_id)).map_values(
        |w: ((String, String), u32)| w.0.1@,
    )
}

/// The hotkey ids to announce for an OS hotkey press with id `event_id`.
pub fn triggered_ids(watched: &Vec<((String, String), u32)>, event_id: u32) -> (r: Vec<String>)
    ensures
        views(r@) == triggered(watched@, event_id),
{
    let ghost pred = fires_on(event_id);
    let ghost conv = |w: ((String, String), u32)| w.0.1@;
    let mut r: Vec<String> = Vec::new();
    let mut i: usize = 0;
    proof {
        reveal(Seq::filter);
        assert(watched@.take(0) =~= Seq::<((String, String), u32)>::empty());
    }
    while i < watched.len()
        invariant
            i <= watched@.len(),
            views(r@) == watched@.take(i as int).filter(pred).map_values(conv),
            pred == fires_on(event_id),
            conv == (|w: ((String, String), u32)| w.0.1@),
        decreases watched.len() - i,
    {
        let w = &watched[i];
        assert(watched@.take(i + 1).drop_last() =~= watched@.take(i as int));
        assert(watched@.take(i + 1).last() == *w);
        proof {
            reveal(Seq::filter);
        }
        let ghost before = views(r@);
        if w.1 == event_id {
            r.push(w.0.1.clone());
            assert(views(r@) =~= before.push(conv(*w)));
            assert(watched@.take(i + 1).filter(pred).map_values(conv) =~= watched@.take(i as int).filter(
                pred,
            ).map_values(conv).push(conv(*w)));
        }
        i += 1;
    }
    assert(watched@.take(i as int) =~= watched@);
    r
}

/// Whether `name` names a key code, as `Code::from_str` of the
/// keyboard-types crate (re-exported by global-hotkey) recognises it.
pub uninterp spec fn is_key_code(name: Seq<char>) -> bool;

/// `Code::from_str(name).is_ok()`. The result is named by `is_key_code`;
/// which names are recognised is not stated here.
#[verifier::external_body]
fn parses_as_key_code(name: &str) -> (r: bool)
    ensures
        r == is_key_code(name@),
{
    Code::from_str(name).is_ok()
}

/// The name of the OS key code a hotkey's key stands for: `Key<key>` when
/// that names a key code (letters), otherwise the key itself when it does.
pub open spec fn os_key_name(key: Seq<char>) -> Option<Seq<char>> {
    if is_key_code("Key"@ + key) {
        Some("Key"@ + key)
    } else if is_key_code(key) {
        Some(key)
    } else {
        None
    }
}

/// The name of the OS key code a hotkey's key stands for, if any.
pub fn ray_to_global_code(key: &str) -> (r: Option<String>)
    ensures
        match os_key_name(key@) {
            Some(n) => r matches Some(s) && s@ == n,
            None => r is None,
        },
{
    let prefixed = concat2("Key", key);
    if parses_as_key_code(prefixed.as_str()) {
        Some(prefixed)
    } else if parses_as_key_code(key) {
        Some(key.to_owned())
    } else {
        None
    }
}

/// `Modifiers::SHIFT.bits()`: 0x200 in the keyboard-types source.
#[verifier::external_body]
fn global_shift_bits() -> (b: u32)
    ensures
        b == 0x200,
{
    Modifiers::SHIFT.bits()
}

/// `Modifiers::CONTROL.bits()`: 0x8 in the keyboard-types source.
#[verifier::external_body]
fn global_control_bits() -> (b: u32)
    ensures
        b == 0x8,
{
    Modifiers::CONTROL.bits()
}

/// `Modifiers::ALT.bits()`: 0x1 in the keyboard-types source.
#[verifier::external_body]
fn global_alt_bits() -> (b: u32)
    ensures
        b == 0x1,
{
    Modifiers::ALT.bits()
}

/// `Modifiers::SUPER.bits()`: 0x2000 in the keyboard-types source.
#[verifier::external_body]
fn global_super_bits() -> (b: u32)
    ensures
        b == 0x2000,
{
    Modifiers::SUPER.bits()
}

/// The OS modifier bits of a hotkey's modifiers: Shift, Control, Alt and
/// Super for Shift, Ctrl, Alt and Logo.
pub open spec fn os_modifier_bits(m: HotkeyModifiers) -> u32 {
    (if m.spec_contains(HotkeyModifiers::shift_spec()) { 0x200u32 } else { 0u32 })
        | (if m.spec_contains(HotkeyModifiers::ctrl_spec()) { 0x8u32 } else { 0u32 })
        | (if m.spec_contains(HotkeyModifiers::alt_spec()) { 0x1u32 } else { 0u32 })
        | (if m.spec_contains(HotkeyModifiers::logo_spec()) { 0x2000u32 } else { 0u32 })
}

/// The OS modifier bits of a hotkey's modifiers.
pub fn ray_to_global_modifiers(m: HotkeyModifiers) -> (r: u32)
    ensures
        r == os_modifier_bits(m),
{
    let shift: u32 = if m.contains(HotkeyModifiers::shift()) {
        global_shift_bits()
    } else {
        0
    };
    let control: u32 = if m.contains(HotkeyModifiers::ctrl()) {
        global_control_bits()
    } else {
        0
    };
    let alt: u32 = if m.contains(HotkeyModifiers::alt()) {
        global_alt_bits()
    } else {
        0
    };
    let sup: u32 = if m.contains(HotkeyModifiers::logo()) {
        global_super_bits()
    } else {
        0
    };
    shift | control | alt | sup
}

} // verus!
