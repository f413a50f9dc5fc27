//! Text order and a stable insertion sort by text keys.

use vstd::prelude::*;

verus! {

/// `a` sorts before or with `b`: character by character by code point, a
/// prefix first. On UTF-8 text this is the byte order `String::cmp` uses.
pub open spec fn text_le(a: Seq<char>, b: Seq<char>) -> bool
    decreases a.len(),
{
    if a.len() == 0 {
        true
    } else if b.len() == 0 {
        false
    } else if (a[0] as u32) < (b[0] as u32) {
        true
    } else if (a[0] as u32) > (b[0] as u32) {
        false
    } else {
        text_le(a.drop_first(), b.drop_first())
    }
}

pub proof fn lemma_text_le_total(a: Seq<char>, b: Seq<char>)
    ensures
        text_le(a, b) || text_le(b, a),
    decreases a.len(),
{
    if a.len() > 0 && b.len() > 0 && (a[0] as u32) == (b[0] as u32) {
        lemma_text_le_total(a.drop_first(), b.drop_first());
    }
}

pub proof fn lemma_text_le_trans(a: Seq<char>, b: Seq<char>, c: Seq<char>)
    requires
        text_le(a, b),
        text_le(b, c),
    ensures
        text_le(a, c),
    decreases a.len(),
{
    if a.len() > 0 && b.len() > 0 && c.len() > 0 && (a[0] as u32) == (b[0] as u32) && (b[0] as u32)
        == (c[0] as u32) {
        lemma_text_le_trans(a.drop_first(), b.drop_first(), c.drop_first());
    }
}

pub proof fn lemma_text_le_refl(a: Seq<char>)
    ensures
        text_le(a, a),
    decreases a.len(),
{
    if a.len() > 0 {
        lemma_text_le_refl(a.drop_first());
    }
}

/// Whether `a` sorts before or with `b`.
pub fn text_le_exec(a: &Vec<char>, b: &Vec<char>) -> (r: bool)
    ensures
        r == text_le(a@, b@),
{
    let mut i: usize = 0;
    assert(a@.skip(0) =~= a@);
    assert(b@.skip(0) =~= b@);
    while i < a.len() && i < b.len() && a[i] == b[i]
        invariant
            i <= a.len(),
            i <= b.len(),
            text_le(a@, b@) == text_le(a@.skip(i as int), b@.skip(i as int)),
        decreases a.len() - i,
    {
        assert(a@.skip(i as int).drop_first() =~= a@.skip(i + 1));
        assert(b@.skip(i as int).drop_first() =~= b@.skip(i + 1));
        i += 1;
    }
    if i == a.len() {
        assert(a@.skip(i as int).len() == 0);
        true
    } else if i == b.len() {
        assert(a@.skip(i as int).len() > 0);
        assert(b@.skip(i as int).len() == 0);
        false
    } else {
        assert(a@.skip(i as int).len() > 0);
        assert(b@.skip(i as int).len() > 0);
        assert(a@[i as int] != b@[i as int]);
        proof {
            let ua = a@[i as int] as u32;
            let ub = b@[i as int] as u32;
            vstd::utf8::char_u32_cast(a@[i as int], ua);
            vstd::utf8::char_u32_cast(b@[i as int], ub);
        }
        assert((a@[i as int] as u32) != (b@[i as int] as u32));
        assert(a@.skip(i as int)[0] == a@[i as int]);
        assert(b@.skip(i as int)[0] == b@[i as int]);
        (a[i] as u32) < (b[i] as u32)
    }
}

/// The elements of `s` are in order of their keys.
pub open spec fn sorted_by_key<T>(s: Seq<T>, key: spec_fn(T) -> Seq<char>) -> bool {
    forall|i: int, j: int| 0 <= i < j < s.len() ==> text_le(key(#[trigger] s[i]), key(#[trigger] s[j]))
}

/// The element's key is `k`.
pub open spec fn keyed<T>(key: spec_fn(T) -> Seq<char>, k: Seq<char>) -> spec_fn(T) -> bool {
    |t: T| key(t) == k
}

/// Filtering keeps nothing when no element passes.
proof fn lemma_filter_none<T>(s: Seq<T>, f: spec_fn(T) -> bool)
    requires
        forall|i: int| 0 <= i < s.len() ==> !f(#[trigger] s[i]),
    ensures
        s.filter(f) == Seq::<T>::empty(),
    decreases s.len(),
{
    reveal(Seq::filter);
    if s.len() > 0 {
        lemma_filter_none(s.drop_last(), f);
        assert(!f(s[s.len() - 1]));
    }
}

/// Sorts `items` by the text `key_of` computes for each (whose value is
/// `key`); items with equal keys keep their order.
pub(crate) fn sort_by_text_key<T, F: Fn(&T) -> Vec<char>>(
    items: Vec<T>,
    key_of: F,
    Ghost(key): Ghost<spec_fn(T) -> Seq<char>>,
) -> (r: Vec<T>)
    requires
        forall|t: &T| #[trigger] key_of.requires((t,)),
        forall|t: &T, k: Vec<char>| #[trigger] key_of.ensures((t,), k) ==> k@ == key(*t),
    ensures
        sorted_by_key(r@, key),
        r@.to_multiset() == items@.to_multiset(),
        forall|k: Seq<char>| #[trigger] r@.filter(keyed(key, k)) == items@.filter(keyed(key, k)),
{
    broadcast use vstd::seq_lib::group_to_multiset_ensures;

    let mut r: Vec<T> = Vec::new();
    let n = items.len();
    let mut rest = items;
    let ghost input_seq = rest@;
    let mut taken: usize = 0;
    proof {
        assert(input_seq.subrange(0, 0) =~= Seq::<T>::empty());
        assert(r@ =~= Seq::<T>::empty());
        reveal(Seq::filter);
    }
    while rest.len() > 0
        invariant
            forall|t: &T| #[trigger] key_of.requires((t,)),
            forall|t: &T, k: Vec<char>| #[trigger] key_of.ensures((t,), k) ==> k@ == key(*t),
            sorted_by_key(r@, key),
            taken + rest@.len() == input_seq.len(),
            input_seq.len() == n,
            rest@ == input_seq.skip(taken as int),
            r@.to_multiset() == input_seq.subrange(0, taken as int).to_multiset(),
            forall|k: Seq<char>| #[trigger] r@.filter(keyed(key, k)) == input_seq.subrange(
                0,
                taken as int,
            ).filter(keyed(key, k)),
        decreases rest.len(),
    {
        let item = rest.remove(0);
        assert(rest@ =~= input_seq.skip(taken + 1));
        proof {
            assert(item == input_seq[taken as int]);
        }
        let item_key = key_of(&item);
        let mut p: usize = 0;
        while p < r.len() && text_le_exec(&key_of(&r[p]), &item_key)
            invariant
                forall|t: &T| #[trigger] key_of.requires((t,)),
                forall|t: &T, k: Vec<char>| #[trigger] key_of.ensures((t,), k) ==> k@ == key(*t),
                item_key@ == key(item),
                p <= r@.len(),
                forall|q: int| 0 <= q < p ==> text_le(key(#[trigger] r@[q]), key(item)),
            decreases r.len() - p,
        {
            p += 1;
        }
        proof {
            if p < r@.len() {
                assert(!text_le(key(r@[p as int]), key(item)));
                assert forall|q: int| p <= q < r@.len() implies !text_le(key(#[trigger] r@[q]), key(item)) by {
                    if text_le(key(r@[q]), key(item)) && q > p {
                        lemma_text_le_trans(key(r@[p as int]), key(r@[q]), key(item));
                    }
                }
            }
        }
        let ghost before = r@;
        r.insert(p, item);
        proof {
            assert(r@ == before.insert(p as int, item));
            vstd::seq_lib::to_multiset_insert(before, p as int, item);
            assert forall|i: int, j: int| 0 <= i < j < r@.len() implies text_le(
                key(#[trigger] r@[i]),
                key(#[trigger] r@[j]),
            ) by {
                if i == p {
                    assert(!text_le(key(before[j - 1]), key(item)));
                    lemma_text_le_total(key(before[j - 1]), key(item));
                } else if j == p {
                    assert(text_le(key(before[i]), key(item)));
                } else {
                    let bi = if i < p { i } else { i - 1 };
                    let bj = if j < p { j } else { j - 1 };
                    assert(r@[i] == before[bi] && r@[j] == before[bj]);
                }
            }
            assert(input_seq.subrange(0, taken + 1) =~= input_seq.subrange(0, taken as int).push(
                input_seq[taken as int],
            ));
            vstd::seq_lib::to_multiset_build(input_seq.subrange(0, taken as int), input_seq[taken as int]);
            let front = before.take(p as int);
            let back = before.skip(p as int);
            assert(r@ =~= front + seq![item] + back);
            assert(before =~= front + back);
            let done = input_seq.subrange(0, taken as int);
            assert forall|k: Seq<char>| #[trigger] r@.filter(keyed(key, k)) == input_seq.subrange(
                0,
                taken + 1,
            ).filter(keyed(key, k)) by {
                let f = keyed(key, k);
                Seq::filter_distributes_over_add(front + seq![item], back, f);
                Seq::filter_distributes_over_add(front, seq![item], f);
                Seq::filter_distributes_over_add(front, back, f);
                reveal_with_fuel(Seq::filter, 2);
                assert(input_seq.subrange(0, taken + 1).drop_last() =~= done);
                if key(item) == k {
                    assert forall|i: int| 0 <= i < back.len() implies !f(#[trigger] back[i]) by {
                        assert(back[i] == before[p + i]);
                        assert(!text_le(key(before[p + i]), key(item)));
                        lemma_text_le_refl(key(item));
                    }
                    lemma_filter_none(back, f);
                    assert(seq![item].filter(f) =~= seq![item]);
                    assert(r@.filter(f) =~= front.filter(f).push(item));
                    assert(before.filter(f) =~= front.filter(f));
                } else {
                    assert(seq![item].filter(f) =~= Seq::<T>::empty());
                    assert(r@.filter(f) =~= before.filter(f));
                }
            }
        }
        taken += 1;
    }
    proof {
        assert(input_seq.subrange(0, taken as int) =~= input_seq);
    }
    r
}

proof fn lemma_text_le_antisym(a: Seq<char>, b: Seq<char>)
    requires
        text_le(a, b),
        text_le(b, a),
    ensures
        a == b,
    decreases a.len(),
{
    if a.len() > 0 && b.len() > 0 {
        lemma_text_le_antisym(a.drop_first(), b.drop_first());
        vstd::utf8::char_u32_cast(a[0], a[0] as u32);
        vstd::utf8::char_u32_cast(b[0], b[0] as u32);
        assert(a =~= seq![a[0]] + a.drop_first());
        assert(b =~= seq![b[0]] + b.drop_first());
    }
}

/// Some element of `s` has key `k` when filtering by `k` keeps something.
proof fn lemma_filter_witness<T>(s: Seq<T>, key: spec_fn(T) -> Seq<char>, k: Seq<char>) -> (i: int)
    requires
        s.filter(keyed(key, k)).len() > 0,
    ensures
        0 <= i < s.len(),
        key(s[i]) == k,
    decreases s.len(),
{
    reveal(Seq::filter);
    if s.len() == 0 {
        0
    } else if key(s.last()) == k {
        s.len() - 1
    } else {
        lemma_filter_witness(s.drop_last(), key, k)
    }
}

/// Sorting by key and keeping the order of equal keys leaves one result:
/// two sequences sorted by key, holding the same elements of each key in
/// the same order, are equal.
pub proof fn law_stable_order_unique<T>(a: Seq<T>, b: Seq<T>, key: spec_fn(T) -> Seq<char>)
    requires
        sorted_by_key(a, key),
        sorted_by_key(b, key),
        forall|k: Seq<char>| #[trigger] a.filter(keyed(key, k)) == b.filter(keyed(key, k)),
    ensures
        a == b,
    decreases a.len() + b.len(),
{
    reveal(Seq::filter);
    if a.len() == 0 && b.len() == 0 {
        assert(a =~= b);
    } else if a.len() == 0 {
        let k = key(b.last());
        assert(b.filter(keyed(key, k)).len() > 0);
        assert(a.filter(keyed(key, k)).len() == 0);
    } else if b.len() == 0 {
        let k = key(a.last());
        assert(a.filter(keyed(key, k)).len() > 0);
        assert(b.filter(keyed(key, k)).len() == 0);
    } else {
        let ka = key(a.last());
        let kb = key(b.last());
        assert(a.filter(keyed(key, ka)).len() > 0);
        let i = lemma_filter_witness(b, key, ka);
        if i < b.len() - 1 {
            assert(text_le(key(b[i]), key(b[b.len() - 1])));
        } else {
            lemma_text_le_refl(kb);
        }
        assert(b.filter(keyed(key, kb)).len() > 0);
        let j = lemma_filter_witness(a, key, kb);
        if j < a.len() - 1 {
            assert(text_le(key(a[j]), key(a[a.len() - 1])));
        } else {
            lemma_text_le_refl(ka);
        }
        lemma_text_le_antisym(ka, kb);
        let fa = a.filter(keyed(key, ka));
        let fb = b.filter(keyed(key, ka));
        assert(fa == a.drop_last().filter(keyed(key, ka)).push(a.last()));
        assert(fb == b.drop_last().filter(keyed(key, ka)).push(b.last()));
        assert(fa.last() == a.last());
        assert(fb.last() == b.last());
        let a1 = a.drop_last();
        let b1 = b.drop_last();
        assert forall|k: Seq<char>| #[trigger] a1.filter(keyed(key, k)) == b1.filter(keyed(key, k)) by {
            if k == ka {
                assert(a1.filter(keyed(key, k)) =~= fa.drop_last());
                assert(b1.filter(keyed(key, k)) =~= fb.drop_last());
            } else {
                assert(a.filter(keyed(key, k)) == a1.filter(keyed(key, k)));
                assert(b.filter(keyed(key, k)) == b1.filter(keyed(key, k)));
            }
        }
        assert(sorted_by_key(a1, key)) by {
            assert forall|x: int, y: int| 0 <= x < y < a1.len() implies text_le(
                key(#[trigger] a1[x]),
                key(#[trigger] a1[y]),
            ) by {
                assert(a1[x] == a[x] && a1[y] == a[y]);
            }
        }
        assert(sorted_by_key(b1, key)) by {
            assert forall|x: int, y: int| 0 <= x < y < b1.len() implies text_le(
                key(#[trigger] b1[x]),
                key(#[trigger] b1[y]),
            ) by {
                assert(b1[x] == b[x] && b1[y] == b[y]);
            }
        }
        law_stable_order_unique(a1, b1, key);
        assert(a =~= a1.push(a.last()));
        assert(b =~= b1.push(b.last()));
    }
}

} // verus!
