//! Character-level text utilities with exact specifications.

use vstd::prelude::*;

verus! {

/// Appends one character to a string (`String::push`).
#[verifier::external_body]
pub(crate) fn push_char(s: &mut String, c: char)
    ensures
        final(s)@ == old(s)@.push(c),
{
    s.push(c);
}

/// The characters of `s`, in order.
pub fn chars_of(s: &str) -> (v: Vec<char>)
    ensures
        v@ == s@,
{
    let mut v: Vec<char> = Vec::new();
    for c in it: s.chars()
        invariant
            v@ == it.seq().take(it.index() as int),
            it.seq() == s@,
    {
        v.push(c);
    }
    v
}

/// A string holding exactly the characters of `cs`.
pub fn string_of(cs: &Vec<char>) -> (s: String)
    ensures
        s@ == cs@,
{
    let mut s = String::new();
    let mut i: usize = 0;
    while i < cs.len()
        invariant
            i <= cs.len(),
            s@ == cs@.take(i as int),
        decreases cs.len() - i,
    {
        push_char(&mut s, cs[i]);
        assert(cs@.take(i as int).push(cs@[i as int]) =~= cs@.take(i + 1));
        i += 1;
    }
    assert(cs@.take(cs.len() as int) =~= cs@);
    s
}

} // verus!

verus! {

/// Unicode `White_Space` characters, the set that `char::is_whitespace`
/// and `str::trim` use.
pub open spec fn is_ws(c: char) -> bool {
    let u = c as u32;
    ||| 0x09 <= u <= 0x0D
    ||| u == 0x20
    ||| u == 0x85
    ||| u == 0xA0
    ||| u == 0x1680
    ||| 0x2000 <= u <= 0x200A
    ||| u == 0x2028
    ||| u == 0x2029
    ||| u == 0x202F
    ||| u == 0x205F
    ||| u == 0x3000
}

/// `s` with leading white space removed.
pub open spec fn trim_start(s: Seq<char>) -> Seq<char>
    decreases s.len(),
{
    if s.len() > 0 && is_ws(s[0]) {
        trim_start(s.drop_first())
    } else {
        s
    }
}

/// `s` with trailing white space removed.
pub open spec fn trim_end(s: Seq<char>) -> Seq<char>
    decreases s.len(),
{
    if s.len() > 0 && is_ws(s.last()) {
        trim_end(s.drop_last())
    } else {
        s
    }
}

/// `s` with white space removed at both ends, as `str::trim` does.
pub open spec fn trim(s: Seq<char>) -> Seq<char> {
    trim_end(trim_start(s))
}

/// Every character of `s` is white space.
pub open spec fn all_ws(s: Seq<char>) -> bool {
    forall|i: int| 0 <= i < s.len() ==> is_ws(#[trigger] s[i])
}

pub fn is_ws_char(c: char) -> (b: bool)
    ensures
        b == is_ws(c),
{
    let u = c as u32;
    (0x09 <= u && u <= 0x0D) || u == 0x20 || u == 0x85 || u == 0xA0 || u == 0x1680 || (0x2000
        <= u && u <= 0x200A) || u == 0x2028 || u == 0x2029 || u == 0x202F || u == 0x205F || u
        == 0x3000
}

/// `trim_start` removes exactly the white-space prefix up to the first other character.
pub proof fn lemma_trim_start_index(s: Seq<char>, i: int)
    requires
        0 <= i <= s.len(),
        forall|k: int| 0 <= k < i ==> is_ws(#[trigger] s[k]),
        i == s.len() || !is_ws(s[i]),
    ensures
        trim_start(s) == s.subrange(i, s.len() as int),
    decreases i,
{
    if i == 0 {
        assert(s.subrange(0, s.len() as int) =~= s);
    } else {
        assert(is_ws(s[0]));
        let t = s.drop_first();
        assert forall|k: int| 0 <= k < i - 1 implies is_ws(#[trigger] t[k]) by {
            assert(t[k] == s[k + 1]);
        }
        if i - 1 < t.len() {
            assert(t[i - 1] == s[i]);
        }
        lemma_trim_start_index(t, i - 1);
        assert(t.subrange(i - 1, t.len() as int) =~= s.subrange(i, s.len() as int));
    }
}

/// `trim_end` removes exactly the white-space suffix after the last other character.
pub proof fn lemma_trim_end_index(s: Seq<char>, j: int)
    requires
        0 <= j <= s.len(),
        forall|k: int| j <= k < s.len() ==> is_ws(#[trigger] s[k]),
        j == 0 || !is_ws(s[j - 1]),
    ensures
        trim_end(s) == s.subrange(0, j),
    decreases s.len() - j,
{
    if j == s.len() {
        assert(s.subrange(0, j) =~= s);
    } else {
        assert(is_ws(s.last()));
        let t = s.drop_last();
        assert forall|k: int| j <= k < t.len() implies is_ws(#[trigger] t[k]) by {
            assert(t[k] == s[k]);
        }
        if j > 0 {
            assert(t[j - 1] == s[j - 1]);
        }
        lemma_trim_end_index(t, j);
        assert(t.subrange(0, j) =~= s.subrange(0, j));
    }
}

/// A string trims to nothing exactly when it is all white space.
pub proof fn lemma_trim_empty_iff_all_ws(s: Seq<char>)
    ensures
        trim(s).len() == 0 <==> all_ws(s),
    decreases s.len(),
{
    if s.len() > 0 && is_ws(s[0]) {
        lemma_trim_empty_iff_all_ws(s.drop_first());
        if all_ws(s.drop_first()) {
            assert forall|i: int| 0 <= i < s.len() implies is_ws(#[trigger] s[i]) by {
                if i > 0 {
                    assert(s[i] == s.drop_first()[i - 1]);
                }
            }
        }
        if all_ws(s) {
            assert forall|i: int| 0 <= i < s.drop_first().len() implies is_ws(
                #[trigger] s.drop_first()[i],
            ) by {
                assert(s.drop_first()[i] == s[i + 1]);
            }
        }
    } else if s.len() > 0 {
        // first character is not white space, so trim_start(s) == s and it survives trim_end
        assert(trim_start(s) == s);
        lemma_trim_end_nonempty(s);
    }
}

/// A string whose first character is not white space keeps it under `trim_end`.
proof fn lemma_trim_end_nonempty(s: Seq<char>)
    requires
        s.len() > 0,
        !is_ws(s[0]),
    ensures
        trim_end(s).len() > 0,
    decreases s.len(),
{
    if is_ws(s.last()) {
        assert(s.len() > 1);
        assert(s.drop_last()[0] == s[0]);
        lemma_trim_end_nonempty(s.drop_last());
    }
}

/// `s` with white space removed at both ends (`str::trim`).
pub fn trim_chars(s: &Vec<char>) -> (r: Vec<char>)
    ensures
        r@ == trim(s@),
{
    let n = s.len();
    let mut i: usize = 0;
    while i < n && is_ws_char(s[i])
        invariant
            i <= n == s.len(),
            forall|k: int| 0 <= k < i ==> is_ws(#[trigger] s@[k]),
        decreases n - i,
    {
        i += 1;
    }
    proof {
        lemma_trim_start_index(s@, i as int);
    }
    let mut j: usize = n;
    while j > i && is_ws_char(s[j - 1])
        invariant
            i <= j <= n == s.len(),
            forall|k: int| j <= k < n ==> is_ws(#[trigger] s@[k]),
        decreases j,
    {
        j -= 1;
    }
    let ghost t = s@.subrange(i as int, n as int);
    proof {
        assert forall|k: int| j - i <= k < t.len() implies is_ws(#[trigger] t[k]) by {
            assert(t[k] == s@[k + i]);
        }
        if j > i {
            assert(t[j - i - 1] == s@[j - 1]);
        }
        lemma_trim_end_index(t, j - i);
        assert(t.subrange(0, j - i) =~= s@.subrange(i as int, j as int));
    }
    let mut r: Vec<char> = Vec::new();
    let mut k: usize = i;
    while k < j
        invariant
            i <= k <= j <= n == s.len(),
            r@ == s@.subrange(i as int, k as int),
        decreases j - k,
    {
        r.push(s[k]);
        assert(s@.subrange(i as int, k as int).push(s@[k as int]) =~= s@.subrange(
            i as int,
            k + 1,
        ));
        k += 1;
    }
    r
}

/// Whether `s` trims to nothing (`s.trim().is_empty()`).
pub fn is_blank(s: &Vec<char>) -> (b: bool)
    ensures
        b == (trim(s@).len() == 0),
        b == all_ws(s@),
{
    proof {
        lemma_trim_empty_iff_all_ws(s@);
    }
    let mut i: usize = 0;
    while i < s.len()
        invariant
            i <= s.len(),
            forall|k: int| 0 <= k < i ==> is_ws(#[trigger] s@[k]),
        decreases s.len() - i,
    {
        if !is_ws_char(s[i]) {
            assert(!is_ws(s@[i as int]));
            proof {
                lemma_trim_empty_iff_all_ws(s@);
            }
            return false;
        }
        i += 1;
    }
    true
}

} // verus!

verus! {

/// `s` begins with `p`.
pub open spec fn has_prefix(s: Seq<char>, p: Seq<char>) -> bool {
    p.len() <= s.len() && s.subrange(0, p.len() as int) == p
}

/// `p` occurs in `s` starting at index `i`.
pub open spec fn occurs_at(s: Seq<char>, p: Seq<char>, i: int) -> bool {
    0 <= i && i + p.len() <= s.len() && s.subrange(i, i + p.len()) == p
}

/// `p` occurs somewhere in `s` (`str::contains`).
pub open spec fn contains_seq(s: Seq<char>, p: Seq<char>) -> bool {
    exists|i: int| occurs_at(s, p, i)
}

/// The index of the first occurrence of `p` in `s` (`str::find`, counted in characters).
pub open spec fn first_occurrence(s: Seq<char>, p: Seq<char>) -> Option<int> {
    if contains_seq(s, p) {
        Some(choose|i: int| occurs_at(s, p, i) && forall|j: int| 0 <= j < i ==> !occurs_at(s, p, j))
    } else {
        None
    }
}

/// Whether `s` begins with `p` (`str::starts_with`).
pub fn starts_with(s: &Vec<char>, p: &Vec<char>) -> (b: bool)
    ensures
        b == has_prefix(s@, p@),
{
    if p.len() > s.len() {
        return false;
    }
    let mut i: usize = 0;
    while i < p.len()
        invariant
            i <= p.len() <= s.len(),
            forall|k: int| 0 <= k < i ==> s@[k] == p@[k],
        decreases p.len() - i,
    {
        if s[i] != p[i] {
            assert(s@.subrange(0, p.len() as int)[i as int] != p@[i as int]);
            return false;
        }
        i += 1;
    }
    assert(s@.subrange(0, p.len() as int) =~= p@);
    true
}

/// Whether `p` occurs in `s` at index `i`.
pub fn matches_at(s: &Vec<char>, p: &Vec<char>, i: usize) -> (b: bool)
    ensures
        b == occurs_at(s@, p@, i as int),
{
    if i > s.len() || p.len() > s.len() - i {
        return false;
    }
    let mut k: usize = 0;
    while k < p.len()
        invariant
            k <= p.len(),
            i + p.len() <= s.len(),
            forall|m: int| 0 <= m < k ==> s@[i + m] == p@[m],
        decreases p.len() - k,
    {
        if s[i + k] != p[k] {
            assert(s@.subrange(i as int, i + p.len())[k as int] != p@[k as int]);
            return false;
        }
        k += 1;
    }
    assert(s@.subrange(i as int, i + p.len()) =~= p@);
    true
}

/// The first index at which `p` occurs in `s` (`str::find`, counted in characters).
pub fn find(s: &Vec<char>, p: &Vec<char>) -> (r: Option<usize>)
    ensures
        match r {
            Some(i) => occurs_at(s@, p@, i as int) && forall|j: int|
                0 <= j < i ==> !occurs_at(s@, p@, j),
            None => !contains_seq(s@, p@),
        },
{
    let mut i: usize = 0;
    while i < s.len()
        invariant
            i <= s.len(),
            forall|j: int| 0 <= j < i ==> !occurs_at(s@, p@, j),
        decreases s.len() - i,
    {
        if matches_at(s, p, i) {
            return Some(i);
        }
        i += 1;
    }
    if matches_at(s, p, i) {
        return Some(i);
    }
    assert forall|j: int| !occurs_at(s@, p@, j) by {
        if 0 <= j && j + p@.len() <= s@.len() && j > i {
            assert(j + p@.len() > s@.len());
        }
    }
    None
}

/// The first occurrence is the index that occurs with none before it.
pub proof fn lemma_first_occurrence_unique(s: Seq<char>, p: Seq<char>, i: int)
    requires
        occurs_at(s, p, i),
        forall|j: int| 0 <= j < i ==> !occurs_at(s, p, j),
    ensures
        first_occurrence(s, p) == Some(i),
{
    assert(contains_seq(s, p));
    let c = choose|c: int| occurs_at(s, p, c) && forall|j: int| 0 <= j < c ==> !occurs_at(s, p, j);
    assert(occurs_at(s, p, c) && forall|j: int| 0 <= j < c ==> !occurs_at(s, p, j));
    if c < i {
        assert(!occurs_at(s, p, c));
    }
    if i < c {
        assert(!occurs_at(s, p, i));
    }
}

/// Some occurrence at or before `k` has none before it.
proof fn lemma_earliest_occurrence(s: Seq<char>, p: Seq<char>, k: int)
    requires
        occurs_at(s, p, k),
    ensures
        exists|i: int| occurs_at(s, p, i) && forall|j: int| 0 <= j < i ==> !occurs_at(s, p, j),
    decreases k,
{
    if exists|j: int| 0 <= j < k && occurs_at(s, p, j) {
        let j = choose|j: int| 0 <= j < k && occurs_at(s, p, j);
        lemma_earliest_occurrence(s, p, j);
    }
}

/// When `p` occurs in `s`, `first_occurrence` is an occurrence with none
/// before it.
pub proof fn lemma_first_occurrence_found(s: Seq<char>, p: Seq<char>)
    requires
        contains_seq(s, p),
    ensures
        first_occurrence(s, p) matches Some(i) && occurs_at(s, p, i) && forall|j: int|
            0 <= j < i ==> !occurs_at(s, p, j),
{
    let k = choose|k: int| occurs_at(s, p, k);
    lemma_earliest_occurrence(s, p, k);
}

/// Whether `p` occurs in `s` (`str::contains`).
pub fn contains(s: &Vec<char>, p: &Vec<char>) -> (b: bool)
    ensures
        b == contains_seq(s@, p@),
{
    find(s, p).is_some()
}

/// The elements of `list` separated by `sep` (`[String]::join`).
pub open spec fn join(list: Seq<Seq<char>>, sep: Seq<char>) -> Seq<char>
    decreases list.len(),
{
    if list.len() == 0 {
        Seq::empty()
    } else if list.len() == 1 {
        list[0]
    } else {
        join(list.drop_last(), sep) + sep + list.last()
    }
}

/// The strings of `list` separated by `sep`.
pub fn join_strings(list: &Vec<String>, sep: &str) -> (r: String)
    ensures
        r@ == join(list@.map_values(|s: String| s@), sep@),
{
    let ghost views = list@.map_values(|s: String| s@);
    let mut r = String::new();
    let mut i: usize = 0;
    while i < list.len()
        invariant
            i <= list.len(),
            views == list@.map_values(|s: String| s@),
            r@ == join(views.take(i as int), sep@),
        decreases list.len() - i,
    {
        assert(views.take(i + 1).drop_last() =~= views.take(i as int));
        if i != 0 {
            r.append(sep);
        }
        r.append(list[i].as_str());
        i += 1;
    }
    assert(views.take(list.len() as int) =~= views);
    r
}

} // verus!

verus! {

/// The texts of a list of strings.
pub open spec fn views(v: Seq<String>) -> Seq<Seq<char>> {
    v.map_values(|s: String| s@)
}

/// Appends a copy of `s` to the list `v`.
pub fn push_str(v: &mut Vec<String>, s: &str)
    ensures
        views(final(v)@) == views(old(v)@).push(s@),
{
    let ghost before = v@;
    v.push(s.to_owned());
    assert(views(v@) =~= views(before).push(s@));
}

/// Appends the string `s` to the list `v`.
pub fn push_string(v: &mut Vec<String>, s: String)
    ensures
        views(final(v)@) == views(old(v)@).push(s@),
{
    let ghost before = v@;
    let ghost sv = s@;
    v.push(s);
    assert(views(v@) =~= views(before).push(sv));
}

/// The concatenation of `a` and `b`.
pub fn concat2(a: &str, b: &str) -> (r: String)
    ensures
        r@ == a@ + b@,
{
    let mut r = a.to_owned();
    r.append(b);
    r
}

} // verus!

verus! {

/// `s` ends with `p`.
pub open spec fn has_suffix(s: Seq<char>, p: Seq<char>) -> bool {
    p.len() <= s.len() && s.subrange(s.len() - p.len(), s.len() as int) == p
}

/// Whether `s` ends with `p` (`str::ends_with`).
pub fn ends_with(s: &str, p: &str) -> (b: bool)
    ensures
        b == has_suffix(s@, p@),
{
    let sv = chars_of(s);
    let pv = chars_of(p);
    if pv.len() > sv.len() {
        return false;
    }
    let off = sv.len() - pv.len();
    let r = matches_at(&sv, &pv, off);
    assert(occurs_at(sv@, pv@, off as int) == has_suffix(s@, p@));
    r
}

/// The first line of `s` as `str::lines` gives it: the text before the first
/// `\n` (without a `\r` just before it), the whole text when there is no
/// `\n`, and nothing for an empty text.
pub open spec fn first_line(s: Seq<char>) -> Option<Seq<char>> {
    if s.len() == 0 {
        None
    } else if s.contains('\n') {
        let i = choose|i: int| 0 <= i < s.len() && s[i] == '\n' && forall|j: int| 0 <= j < i ==> s[j] != '\n';
        if i > 0 && s[i - 1] == '\r' {
            Some(s.subrange(0, i - 1))
        } else {
            Some(s.subrange(0, i))
        }
    } else {
        Some(s)
    }
}

/// The first line of `s` (`s.lines().next()`).
pub fn first_line_of(s: &Vec<char>) -> (r: Option<Vec<char>>)
    ensures
        r is Some <==> first_line(s@) is Some,
        r matches Some(l) ==> first_line(s@) == Some(l@),
{
    if s.len() == 0 {
        return None;
    }
    let mut i: usize = 0;
    while i < s.len() && s[i] != '\n'
        invariant
            i <= s.len(),
            forall|j: int| 0 <= j < i ==> s@[j] != '\n',
        decreases s.len() - i,
    {
        i += 1;
    }
    let end = if i < s.len() && i > 0 && s[i - 1] == '\r' {
        i - 1
    } else {
        i
    };
    let mut l: Vec<char> = Vec::new();
    let mut k: usize = 0;
    while k < end
        invariant
            end <= i <= s.len(),
            k <= end,
            l@ == s@.subrange(0, k as int),
        decreases end - k,
    {
        l.push(s[k]);
        assert(s@.subrange(0, k + 1) =~= s@.subrange(0, k as int).push(s@[k as int]));
        k += 1;
    }
    proof {
        if i < s.len() {
            assert(s@.contains('\n')) by {
                assert(s@[i as int] == '\n');
            }
            let c = choose|c: int| 0 <= c < s@.len() && s@[c] == '\n' && forall|j: int| 0 <= j < c ==> s@[j] != '\n';
            if c < i {
                assert(s@[c] != '\n');
            }
            if i < c {
                assert(s@[i as int] != '\n');
            }
        } else {
            assert forall|j: int| 0 <= j < s@.len() implies s@[j] != '\n' by {}
            assert(!s@.contains('\n'));
            assert(s@.subrange(0, end as int) =~= s@);
        }
    }
    Some(l)
}

/// `s` with every occurrence of `from` replaced by `to`, scanning from the
/// left without overlaps (`str::replace` with a non-empty pattern).
pub open spec fn replace_all(s: Seq<char>, from: Seq<char>, to: Seq<char>) -> Seq<char>
    decreases s.len(),
{
    if from.len() == 0 || s.len() < from.len() {
        s
    } else if s.subrange(0, from.len() as int) == from {
        to + replace_all(s.skip(from.len() as int), from, to)
    } else {
        seq![s[0]] + replace_all(s.drop_first(), from, to)
    }
}

/// `s` with every occurrence of a non-empty `from` replaced by `to` (`str::replace`).
pub fn replace(s: &str, from: &str, to: &str) -> (r: String)
    requires
        from@.len() > 0,
    ensures
        r@ == replace_all(s@, from@, to@),
{
    let sv = chars_of(s);
    let fv = chars_of(from);
    let tv = chars_of(to);
    let mut out: Vec<char> = Vec::new();
    let mut i: usize = 0;
    assert(sv@.skip(0) =~= sv@);
    assert(out@ + sv@ =~= sv@);
    assert(out@ + replace_all(sv@, fv@, tv@) =~= replace_all(sv@, fv@, tv@));
    while i < sv.len()
        invariant
            fv@ == from@,
            tv@ == to@,
            sv@ == s@,
            fv@.len() > 0,
            i <= sv.len(),
            out@ + replace_all(sv@.skip(i as int), fv@, tv@) == replace_all(sv@, fv@, tv@),
        decreases sv.len() - i,
    {
        let ghost rest = sv@.skip(i as int);
        if matches_at(&sv, &fv, i) {
            assert(rest.subrange(0, fv@.len() as int) =~= sv@.subrange(i as int, i + fv@.len()));
            assert(rest.skip(fv@.len() as int) =~= sv@.skip(i + fv@.len()));
            let mut k: usize = 0;
            let ghost out0 = out@;
            while k < tv.len()
                invariant
                    k <= tv@.len(),
                    out@ == out0 + tv@.subrange(0, k as int),
                decreases tv.len() - k,
            {
                out.push(tv[k]);
                assert(tv@.subrange(0, k + 1) =~= tv@.subrange(0, k as int).push(tv@[k as int]));
                k += 1;
            }
            assert(tv@.subrange(0, tv@.len() as int) =~= tv@);
            assert(out@ + replace_all(sv@.skip(i + fv@.len()), fv@, tv@) =~= out0 + replace_all(rest, fv@, tv@));
            i += fv.len();
        } else {
            proof {
                if rest.len() >= fv@.len() {
                    assert(rest.subrange(0, fv@.len() as int) =~= sv@.subrange(i as int, i + fv@.len()));
                }
            }
            assert(rest.drop_first() =~= sv@.skip(i + 1));
            let ghost out0 = out@;
            out.push(sv[i]);
            assert(rest[0] == sv@[i as int]);
            assert(out@ + replace_all(sv@.skip(i + 1), fv@, tv@) =~= out0 + replace_all(rest, fv@, tv@));
            i += 1;
        }
    }
    assert(sv@.skip(i as int) =~= Seq::<char>::empty());
    assert(out@ + Seq::<char>::empty() =~= out@);
    string_of(&out)
}

} // verus!

verus! {

/// The display lines of `s` at `max` characters per line: `s` itself when it
/// fits, otherwise successive chunks of `max` characters.
pub open spec fn wrapped(s: Seq<char>, max: nat) -> Seq<Seq<char>>
    decreases s.len(),
{
    if s.len() <= max || max == 0 {
        seq![s]
    } else {
        seq![s.take(max as int)] + wrapped(s.skip(max as int), max)
    }
}

/// Splits a line for display at `max` characters per line.
pub fn wrap_line(s: &str, max: usize) -> (r: Vec<String>)
    requires
        max > 0,
    ensures
        views(r@) == wrapped(s@, max as nat),
{
    let cs = chars_of(s);
    let mut r: Vec<String> = Vec::new();
    if cs.len() <= max {
        push_str(&mut r, s);
        assert(views(r@) =~= wrapped(s@, max as nat));
        return r;
    }
    let mut start: usize = 0;
    assert(cs@.skip(0) =~= cs@);
    assert(views(r@) + wrapped(cs@, max as nat) =~= wrapped(cs@, max as nat));
    while start < cs.len()
        invariant
            cs@ == s@,
            max > 0,
            start <= cs.len(),
            start < cs.len() ==> views(r@) + wrapped(cs@.skip(start as int), max as nat) == wrapped(cs@, max as nat),
            start == cs.len() ==> views(r@) == wrapped(cs@, max as nat),
            start < cs.len() ==> cs.len() - start > max || start > 0,
        decreases cs.len() - start,
    {
        let end = if cs.len() - start > max { start + max } else { cs.len() };
        let mut chunk: Vec<char> = Vec::new();
        let mut k: usize = start;
        while k < end
            invariant
                start <= k <= end <= cs.len(),
                chunk@ == cs@.subrange(start as int, k as int),
            decreases end - k,
        {
            chunk.push(cs[k]);
            assert(cs@.subrange(start as int, k + 1) =~= cs@.subrange(start as int, k as int).push(cs@[k as int]));
            k += 1;
        }
        let ghost rest = cs@.skip(start as int);
        let ghost before = views(r@);
        push_string(&mut r, string_of(&chunk));
        proof {
            if rest.len() <= max {
                assert(chunk@ =~= rest);
                assert(wrapped(rest, max as nat) == seq![rest]);
                assert(views(r@) =~= before + wrapped(rest, max as nat));
            } else {
                assert(chunk@ =~= rest.take(max as int));
                assert(rest.skip(max as int) =~= cs@.skip(end as int));
                assert(wrapped(rest, max as nat) == seq![rest.take(max as int)] + wrapped(rest.skip(max as int), max as nat));
                assert(views(r@) + wrapped(cs@.skip(end as int), max as nat) =~= before + wrapped(rest, max as nat));
            }
        }
        start = end;
    }
    r
}

} // verus!

verus! {

/// The index of the first `\n` in `s`, or its length when there is none.
pub open spec fn newline_at(s: Seq<char>) -> nat
    decreases s.len(),
{
    if s.len() == 0 {
        0
    } else if s[0] == '\n' {
        0
    } else {
        1 + newline_at(s.drop_first())
    }
}

/// `s` without one trailing `\r`.
pub open spec fn strip_cr(s: Seq<char>) -> Seq<char> {
    if s.len() > 0 && s.last() == '\r' {
        s.drop_last()
    } else {
        s
    }
}

/// The lines of `s` as `str::lines` gives them: split at each `\n`, a `\r`
/// just before it dropped, the last line ending optional (a bare `\r` at the
/// very end stays), and no line at all for an empty text.
pub open spec fn lines(s: Seq<char>) -> Seq<Seq<char>>
    decreases s.len(),
{
    if s.len() == 0 {
        seq![]
    } else {
        let i = newline_at(s);
        if i < s.len() {
            seq![strip_cr(s.take(i as int))] + lines(s.skip(i as int + 1))
        } else {
            seq![s]
        }
    }
}

/// `newline_at` finds the first `\n`.
proof fn lemma_newline_at(s: Seq<char>, k: int)
    requires
        0 <= k <= s.len(),
        forall|j: int| 0 <= j < k ==> s[j] != '\n',
        k == s.len() || s[k] == '\n',
    ensures
        newline_at(s) == k,
    decreases k,
{
    if k > 0 {
        lemma_newline_at(s.drop_first(), k - 1);
    }
}

/// The lines of `s` (`str::lines`).
pub fn lines_of(s: &str) -> (r: Vec<String>)
    ensures
        views(r@) == lines(s@),
{
    let cs = chars_of(s);
    let n = cs.len();
    let mut r: Vec<String> = Vec::new();
    let mut start: usize = 0;
    assert(cs@.skip(0) =~= cs@);
    while start < n
        invariant
            n == cs.len(),
            cs@ == s@,
            start <= n,
            views(r@) + lines(cs@.skip(start as int)) == lines(cs@),
        decreases n - start,
    {
        let mut i: usize = start;
        while i < n && cs[i] != '\n'
            invariant
                start <= i <= n,
                n == cs.len(),
                forall|j: int| start <= j < i ==> cs@[j] != '\n',
            decreases n - i,
        {
            i += 1;
        }
        let ghost rest = cs@.skip(start as int);
        proof {
            lemma_newline_at(rest, i - start);
        }
        let end = if i < n && i > start && cs[i - 1] == '\r' {
            i - 1
        } else {
            i
        };
        let mut line: Vec<char> = Vec::new();
        let mut k: usize = start;
        while k < end
            invariant
                start <= k <= end <= i <= n,
                n == cs.len(),
                line@ == cs@.subrange(start as int, k as int),
            decreases end - k,
        {
            line.push(cs[k]);
            assert(cs@.subrange(start as int, k + 1) =~= cs@.subrange(start as int, k as int).push(
                cs@[k as int],
            ));
            k += 1;
        }
        let ghost before = views(r@);
        r.push(string_of(&line));
        proof {
            assert(views(r@) =~= before.push(line@));
            if i < n {
                assert(rest.take(i - start) =~= cs@.subrange(start as int, i as int));
                assert(rest.skip(i - start + 1) =~= cs@.skip(i + 1));
                assert(line@ =~= strip_cr(rest.take(i - start)));
                assert(lines(rest) == seq![line@] + lines(cs@.skip(i + 1)));
                assert(views(r@) + lines(cs@.skip(i + 1)) =~= before + lines(rest));
            } else {
                assert(line@ =~= rest);
                assert(cs@.skip(n as int) =~= Seq::<char>::empty());
                assert(views(r@) + lines(cs@.skip(n as int)) =~= before + lines(rest));
            }
        }
        start = if i < n {
            i + 1
        } else {
            n
        };
    }
    assert(cs@.skip(n as int) =~= Seq::<char>::empty());
    assert(views(r@) + lines(cs@.skip(n as int)) =~= views(r@));
    r
}

} // verus!

verus! {

/// Cutting a line into rows loses and adds nothing: the rows put back
/// together give the line, and no row is longer than `max`.
pub proof fn law_wrap_keeps_text(s: Seq<char>, max: nat)
    requires
        max > 0,
    ensures
        wrapped(s, max).flatten() == s,
        forall|i: int| 0 <= i < wrapped(s, max).len() ==> (#[trigger] wrapped(s, max)[i]).len() <= max,
    decreases s.len(),
{
    let w = wrapped(s, max);
    if s.len() <= max {
        assert(w == seq![s]);
        assert(w.drop_first() =~= Seq::<Seq<char>>::empty());
        assert(w.drop_first().flatten() == Seq::<char>::empty());
        assert(w.flatten() =~= s);
    } else {
        let rest = wrapped(s.skip(max as int), max);
        law_wrap_keeps_text(s.skip(max as int), max);
        assert(w == seq![s.take(max as int)] + rest);
        assert(w.first() == s.take(max as int));
        assert(w.drop_first() =~= rest);
        assert(s.take(max as int) + s.skip(max as int) =~= s);
        assert(w.flatten() =~= s);
        assert forall|i: int| 0 <= i < w.len() implies (#[trigger] w[i]).len() <= max by {
            if i > 0 {
                assert(w[i] == rest[i - 1]);
            }
        }
    }
}

} // verus!
