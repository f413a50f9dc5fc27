//! The dictionary app's own state: search results and the definitions shown
//! for the selected segment, the Anki queue entries made from them, the
//! language, the font list and the settings it stores.

use vstd::prelude::*;
use crate::numbers::{digits, fmt_u64, parse_usize, parse_usize_spec};
use crate::nodes::{debug_path, path_debug};
use crate::router::Router;
use crate::sorting::{keyed, sort_by_text_key, sorted_by_key};
use crate::text::{
    all_ws, chars_of, concat2, contains_seq, find, first_occurrence, is_blank, join, join_strings, occurs_at, push_str, string_of,
    trim, trim_chars, views,
};

verus! {

/// `s` in lower case, as `str::to_lowercase` writes it (Unicode case mapping).
pub uninterp spec fn lowercase(s: Seq<char>) -> Seq<char>;

/// `str::to_lowercase`: the Unicode lower-case mapping of every character.
/// Its result is named by `lowercase`; no more is stated of it.
#[verifier::external_body]
fn to_lowercase(s: &str) -> (r: String)
    ensures
        r@ == lowercase(s@),
{
    s.to_lowercase()
}

/// A headword of a dictionary entry.
#[derive(Debug, Clone)]
pub struct Headword {
    pub term: String,
    pub reading: String,
}

/// A dictionary entry: its headwords, and for each definition the plain text
/// of its glosses.
#[derive(Debug, Clone)]
pub struct DictEntry {
    pub headwords: Vec<Headword>,
    pub definitions: Vec<Vec<String>>,
}

/// A segment of the searched text and the entries found for it.
#[derive(Debug, Clone)]
pub struct Segment {
    pub text: String,
    pub entries: Vec<DictEntry>,
}

/// What a dictionary search returns: the query split into segments.
#[derive(Debug, Clone)]
pub struct SearchResult {
    pub segments: Vec<Segment>,
}

/// A dictionary entry as the search tab shows it.
#[derive(Debug, Clone)]
pub struct CachedEntry {
    /// `  term (reading)` for each headword, separated by `, `.
    pub headword: String,
    /// `   gloss` for each gloss of each definition.
    pub definitions: Vec<String>,
    /// The query the entry was found for.
    pub sentence: String,
    /// The entry's position in its segment.
    pub entry_index: usize,
}

/// The line shown for one headword.
pub open spec fn headword_line(h: Headword) -> Seq<char> {
    "  "@ + h.term@ + " ("@ + h.reading@ + ")"@
}

/// The headword line of an entry: its headwords' lines separated by `, `.
pub open spec fn headword_text(e: DictEntry) -> Seq<char> {
    join(e.headwords@.map_values(|h: Headword| headword_line(h)), ", "@)
}

/// The gloss lines of one definition.
pub open spec fn gloss_lines(d: Vec<String>) -> Seq<Seq<char>> {
    d@.map_values(|g: String| "   "@ + g@)
}

/// The gloss lines of the first `k` definitions, in order.
pub open spec fn definition_lines(defs: Seq<Vec<String>>, k: int) -> Seq<Seq<char>>
    decreases k,
{
    if k <= 0 {
        Seq::empty()
    } else {
        definition_lines(defs, k - 1) + gloss_lines(defs[k - 1])
    }
}

/// Whether a cached entry shows entry `e` (number `i` of its segment) found for `query`.
pub open spec fn shows(c: CachedEntry, e: DictEntry, i: int, query: Seq<char>) -> bool {
    &&& c.headword@ == headword_text(e)
    &&& views(c.definitions@) == definition_lines(e.definitions@, e.definitions@.len() as int)
    &&& c.sentence@ == query
    &&& c.entry_index == i
}

/// The cache shows the entries of segment `seg`, one for one, in order.
pub open spec fn cache_of(cache: Seq<CachedEntry>, seg: Segment, query: Seq<char>) -> bool {
    cache.len() == seg.entries@.len() && forall|i: int|
        0 <= i < cache.len() ==> shows(#[trigger] cache[i], seg.entries@[i], i, query)
}

/// The index of the first segment whose text is not blank, or 0.
pub open spec fn first_nonblank(segs: Seq<Segment>) -> int {
    if exists|i: int| 0 <= i < segs.len() && !all_ws(segs[i].text@) {
        choose|i: int|
            0 <= i < segs.len() && !all_ws(segs[i].text@) && forall|j: int| 0 <= j < i ==> all_ws(segs[j].text@)
    } else {
        0
    }
}

/// The language code of a language index: Japanese first, Spanish otherwise.
pub open spec fn language_code(index: usize) -> Seq<char> {
    if index == 0 {
        "ja"@
    } else {
        "es"@
    }
}

/// The term and reading written into an Anki card from a headword line:
/// the trimmed line split at its first ` (` and the first `)`, or the
/// whole trimmed line and no reading when it has no ` (`.
pub open spec fn card_term_reading(headword: Seq<char>) -> (Seq<char>, Seq<char>) {
    let t = trim(headword);
    match first_occurrence(t, " ("@) {
        Some(i) => {
            let end = match first_occurrence(t, ")"@) {
                Some(j) => j,
                None => t.len() as int,
            };
            (t.subrange(0, i), t.subrange(i + 2, end))
        },
        None => (t, Seq::empty()),
    }
}

/// The headword line can be split without cutting backwards: a `)` first
/// found before the reading would make the reading's range empty-reversed.
pub open spec fn card_splittable(headword: Seq<char>) -> bool {
    let t = trim(headword);
    match first_occurrence(t, " ("@) {
        Some(i) => match first_occurrence(t, ")"@) {
            Some(j) => j >= i + 2,
            None => true,
        },
        None => true,
    }
}

/// How a card splits its headword line `h` (trimmed to `t`): the reading
/// never holds a `)`. When `t` holds ` (`, `t` is the term, ` (`, the
/// reading, and then either nothing or a `)`, with no ` (` inside the term;
/// so the reading ends at the first `)` after the first ` (`. Otherwise the
/// term is all of `t` and the reading is empty.
pub proof fn law_card_reading_ends_at_first_paren(h: Seq<char>)
    requires
        card_splittable(h),
    ensures
        ({
            let (term, reading) = card_term_reading(h);
            let t = trim(h);
            let open = seq![' ', '('];
            let m = term.len() as int;
            let n = m + 2 + reading.len();
            &&& forall|k: int| 0 <= k < reading.len() ==> reading[k] != ')'
            &&& contains_seq(t, open) ==> {
                &&& n <= t.len()
                &&& t.subrange(0, m) == term
                &&& t.subrange(m, m + 2) == open
                &&& t.subrange(m + 2, n) == reading
                &&& (n == t.len() || t[n] == ')')
                &&& !contains_seq(term, open)
            }
            &&& !contains_seq(t, open) ==> term == t && reading.len() == 0
        }),
{
    reveal_strlit(" (");
    reveal_strlit(")");
    let t = trim(h);
    let open = seq![' ', '('];
    let close = seq![')'];
    assert(" ("@ =~= open);
    assert(")"@ =~= close);
    let (term, reading) = card_term_reading(h);
    if contains_seq(t, open) {
        crate::text::lemma_first_occurrence_found(t, open);
        let i = first_occurrence(t, open).unwrap();
        assert(t.subrange(i, i + 2) == open);
        assert forall|k: int| occurs_at(term, open, k) implies false by {
            assert(term.subrange(k, k + 2) =~= t.subrange(k, k + 2));
            assert(occurs_at(t, open, k));
        }
        if contains_seq(t, close) {
            crate::text::lemma_first_occurrence_found(t, close);
            let j = first_occurrence(t, close).unwrap();
            assert(j >= i + 2);
            assert(t.subrange(j, j + 1) == close);
            assert(t[j] == t.subrange(j, j + 1)[0]);
            assert forall|k: int| 0 <= k < reading.len() implies reading[k] != ')' by {
                assert(reading[k] == t[i + 2 + k]);
                if t[i + 2 + k] == ')' {
                    assert(t.subrange(i + 2 + k, i + 3 + k) =~= close);
                    assert(occurs_at(t, close, i + 2 + k));
                }
            }
        } else {
            assert forall|k: int| 0 <= k < reading.len() implies reading[k] != ')' by {
                assert(reading[k] == t[i + 2 + k]);
                if t[i + 2 + k] == ')' {
                    assert(t.subrange(i + 2 + k, i + 3 + k) =~= close);
                    assert(occurs_at(t, close, i + 2 + k));
                }
            }
        }
    }
}

/// The fields of an Anki card made from a cached entry.
#[derive(Debug, Clone)]
pub struct CardFields {
    pub term: String,
    pub reading: String,
    pub definition: String,
    pub sentence: String,
}

/// The substring of `s` from `from` to `to`.
fn slice_chars(s: &Vec<char>, from: usize, to: usize) -> (r: String)
    requires
        from <= to <= s@.len(),
    ensures
        r@ == s@.subrange(from as int, to as int),
{
    let mut v: Vec<char> = Vec::new();
    let mut k: usize = from;
    while k < to
        invariant
            from <= k <= to <= s@.len(),
            v@ == s@.subrange(from as int, k as int),
        decreases to - k,
    {
        v.push(s[k]);
        assert(s@.subrange(from as int, k + 1) =~= s@.subrange(from as int, k as int).push(s@[k as int]));
        k += 1;
    }
    string_of(&v)
}

impl CachedEntry {
    /// The fields of the Anki card the `[+]` button queues for this entry:
    /// term and reading split from the headword line, the gloss lines joined
    /// by newlines, and the sentence.
    pub fn card_fields(&self) -> (c: CardFields)
        requires
            card_splittable(self.headword@),
        ensures
            (c.term@, c.reading@) == card_term_reading(self.headword@),
            c.definition@ == join(views(self.definitions@), "\n"@),
            c.sentence@ == self.sentence@,
    {
        let hw = chars_of(self.headword.as_str());
        let t = trim_chars(&hw);
        let open = chars_of(" (");
        let close = chars_of(")");
        proof {
            reveal_strlit(" (");
            reveal_strlit(")");
        }
        let (term, reading) = match find(&t, &open) {
            Some(i) => {
                proof {
                    crate::text::lemma_first_occurrence_unique(t@, open@, i as int);
                }
                let end = match find(&t, &close) {
                    Some(j) => {
                        proof {
                            crate::text::lemma_first_occurrence_unique(t@, close@, j as int);
                        }
                        j
                    },
                    None => {
                        proof {
                            assert(first_occurrence(t@, close@) is None);
                        }
                        t.len()
                    },
                };
                (slice_chars(&t, 0, i), slice_chars(&t, i + 2, end))
            },
            None => {
                proof {
                    assert(first_occurrence(t@, open@) is None);
                }
                (string_of(&t), String::new())
            },
        };
        let definition = join_strings(&self.definitions, "\n");
        CardFields { term, reading, definition, sentence: self.sentence.clone() }
    }
}

/// The headword line of an entry.
pub fn headword_text_of(e: &DictEntry) -> (r: String)
    ensures
        r@ == headword_text(*e),
{
    let mut lines: Vec<String> = Vec::new();
    let mut i: usize = 0;
    while i < e.headwords.len()
        invariant
            i <= e.headwords@.len(),
            views(lines@) == e.headwords@.take(i as int).map_values(|h: Headword| headword_line(h)),
        decreases e.headwords.len() - i,
    {
        let h = &e.headwords[i];
        let mut line = "  ".to_owned();
        line.append(h.term.as_str());
        line.append(" (");
        line.append(h.reading.as_str());
        line.append(")");
        let ghost before = views(lines@);
        lines.push(line);
        assert(views(lines@) =~= before.push(headword_line(e.headwords@[i as int])));
        assert(e.headwords@.take(i + 1).map_values(|h: Headword| headword_line(h)) =~= e.headwords@.take(
            i as int,
        ).map_values(|h: Headword| headword_line(h)).push(headword_line(e.headwords@[i as int])));
        i += 1;
    }
    assert(e.headwords@.take(i as int) =~= e.headwords@);
    join_strings(&lines, ", ")
}

/// The gloss lines of an entry, definition by definition.
pub fn definition_lines_of(e: &DictEntry) -> (r: Vec<String>)
    ensures
        views(r@) == definition_lines(e.definitions@, e.definitions@.len() as int),
{
    let mut r: Vec<String> = Vec::new();
    let mut d: usize = 0;
    while d < e.definitions.len()
        invariant
            d <= e.definitions@.len(),
            views(r@) == definition_lines(e.definitions@, d as int),
        decreases e.definitions.len() - d,
    {
        let glosses = &e.definitions[d];
        let ghost base = views(r@);
        let mut g: usize = 0;
        while g < glosses.len()
            invariant
                g <= glosses@.len(),
                glosses == e.definitions@[d as int],
                views(r@) == base + gloss_lines(*glosses).take(g as int),
            decreases glosses.len() - g,
        {
            let mut line = "   ".to_owned();
            line.append(glosses[g].as_str());
            let ghost before = views(r@);
            r.push(line);
            assert(views(r@) =~= before.push("   "@ + glosses@[g as int]@));
            assert(gloss_lines(*glosses).take(g + 1) =~= gloss_lines(*glosses).take(g as int).push(
                "   "@ + glosses@[g as int]@,
            ));
            g += 1;
        }
        assert(gloss_lines(*glosses).take(g as int) =~= gloss_lines(*glosses));
        d += 1;
    }
    r
}

/// The dictionary app's own state.
pub struct YomichanApp {
    pub router: Router,
    pub search_query: String,
    pub search_results: Option<SearchResult>,
    /// The segment whose entries are shown.
    pub selected_segment: usize,
    /// What the search tab shows for the selected segment.
    pub cached_entries: Vec<CachedEntry>,
    pub import_status: String,
    /// 0 for Japanese, otherwise Spanish.
    pub language_index: usize,
    pub show_ui: bool,
    /// (name, path) of each font offered, in name order.
    pub discovered_fonts: Vec<(String, String)>,
    pub selected_font_path: String,
    /// A font to load at the start of the next frame.
    pub pending_font_update: Option<String>,
    pub anki_deck_idx: usize,
    pub anki_model_idx: usize,
    pub anki_field_term_idx: usize,
    pub anki_field_reading_idx: usize,
    pub anki_field_def_idx: usize,
    pub anki_field_sentence_idx: usize,
}

impl YomichanApp {
    /// The app as it starts: search tab, nothing searched, Japanese, UI shown.
    pub fn new() -> (a: Self)
        ensures
            a.router.c_route == crate::router::Route::Search,
            a.search_query@ == Seq::<char>::empty(),
            a.search_results is None,
            a.selected_segment == 0,
            a.cached_entries@.len() == 0,
            a.language_index == 0,
            a.show_ui,
            a.discovered_fonts@.len() == 0,
            a.selected_font_path@ == Seq::<char>::empty(),
            a.pending_font_update is None,
            a.anki_deck_idx == 0 && a.anki_model_idx == 0 && a.anki_field_term_idx == 0
                && a.anki_field_reading_idx == 0 && a.anki_field_def_idx == 0
                && a.anki_field_sentence_idx == 0,
    {
        YomichanApp {
            router: Router::default(),
            search_query: String::new(),
            search_results: None,
            selected_segment: 0,
            cached_entries: Vec::new(),
            import_status: String::new(),
            language_index: 0,
            show_ui: true,
            discovered_fonts: Vec::new(),
            selected_font_path: String::new(),
            pending_font_update: None,
            anki_deck_idx: 0,
            anki_model_idx: 0,
            anki_field_term_idx: 0,
            anki_field_reading_idx: 0,
            anki_field_def_idx: 0,
            anki_field_sentence_idx: 0,
        }
    }

    /// Rebuilds what the search tab shows: the entries of the selected
    /// segment, or nothing when there are no results or no such segment.
    pub fn refresh_cache(&mut self)
        ensures
            match old(self).search_results {
                Some(res) => if old(self).selected_segment < res.segments@.len() {
                    cache_of(
                        final(self).cached_entries@,
                        res.segments@[old(self).selected_segment as int],
                        old(self).search_query@,
                    )
                } else {
                    final(self).cached_entries@.len() == 0
                },
                None => final(self).cached_entries@.len() == 0,
            },
            final(self).search_results == old(self).search_results,
            final(self).selected_segment == old(self).selected_segment,
            final(self).search_query == old(self).search_query,
    {
        self.cached_entries = Vec::new();
        let res = match &self.search_results {
            Some(r) => r,
            None => {
                return;
            },
        };
        if self.selected_segment >= res.segments.len() {
            return;
        }
        let segment = &res.segments[self.selected_segment];
        let mut cache: Vec<CachedEntry> = Vec::new();
        let mut i: usize = 0;
        while i < segment.entries.len()
            invariant
                i <= segment.entries@.len(),
                cache@.len() == i,
                forall|k: int| 0 <= k < i ==> shows(#[trigger] cache@[k], segment.entries@[k], k, self.search_query@),
            decreases segment.entries.len() - i,
        {
            let e = &segment.entries[i];
            let headword = headword_text_of(e);
            let definitions = definition_lines_of(e);
            cache.push(CachedEntry { headword, definitions, sentence: self.search_query.clone(), entry_index: i });
            i += 1;
        }
        self.cached_entries = cache;
    }
}

/// The index of the first segment whose text is not blank, or 0.
pub fn first_nonblank_segment(res: &SearchResult) -> (r: usize)
    ensures
        r as int == first_nonblank(res.segments@),
{
    let mut i: usize = 0;
    while i < res.segments.len()
        invariant
            i <= res.segments@.len(),
            forall|j: int| 0 <= j < i ==> all_ws(#[trigger] res.segments@[j].text@),
        decreases res.segments.len() - i,
    {
        let text = chars_of(res.segments[i].text.as_str());
        if !is_blank(&text) {
            proof {
                let segs = res.segments@;
                assert(exists|k: int| 0 <= k < segs.len() && !all_ws(segs[k].text@));
                let c = choose|c: int|
                    0 <= c < segs.len() && !all_ws(segs[c].text@) && forall|j: int| 0 <= j < c ==> all_ws(segs[j].text@);
                if c < i {
                    assert(all_ws(segs[c].text@));
                }
                if i < c {
                    assert(all_ws(segs[i as int].text@));
                }
            }
            return i;
        }
        i += 1;
    }
    proof {
        let segs = res.segments@;
        if exists|k: int| 0 <= k < segs.len() && !all_ws(segs[k].text@) {
            let k = choose|k: int| 0 <= k < segs.len() && !all_ws(segs[k].text@);
            assert(all_ws(segs[k].text@));
        }
    }
    0
}

/// The language code of a language index (`ja` for 0, `es` otherwise).
pub fn language_code_of(index: usize) -> (r: &'static str)
    ensures
        r@ == language_code(index),
{
    if index == 0 {
        "ja"
    } else {
        "es"
    }
}

impl YomichanApp {
    /// A search runs when the button was clicked or Enter pressed and the query is not empty.
    pub fn search_requested(&self, clicked: bool, enter: bool) -> (b: bool)
        ensures
            b == ((clicked || enter) && self.search_query@.len() > 0),
    {
        (clicked || enter) && !self.search_query.as_str().is_empty()
    }

    /// Takes the outcome of a search: on results, the first non-blank segment
    /// is selected and its entries shown; on failure everything is cleared.
    pub fn search_finished(&mut self, result: Option<SearchResult>)
        ensures
            match result {
                Some(res) => {
                    &&& final(self).search_results == Some(res)
                    &&& final(self).selected_segment as int == first_nonblank(res.segments@)
                    &&& if (final(self).selected_segment as int) < res.segments@.len() {
                        cache_of(
                            final(self).cached_entries@,
                            res.segments@[final(self).selected_segment as int],
                            old(self).search_query@,
                        )
                    } else {
                        final(self).cached_entries@.len() == 0
                    }
                },
                None => final(self).search_results is None && final(self).cached_entries@.len() == 0
                    && final(self).selected_segment == old(self).selected_segment,
            },
            final(self).search_query == old(self).search_query,
    {
        match result {
            Some(res) => {
                self.selected_segment = first_nonblank_segment(&res);
                self.search_results = Some(res);
                self.refresh_cache();
            },
            None => {
                self.search_results = None;
                self.cached_entries = Vec::new();
            },
        }
    }

    /// Shows the entries of segment `i`.
    pub fn select_segment(&mut self, i: usize)
        ensures
            final(self).selected_segment == i,
            final(self).search_results == old(self).search_results,
            match old(self).search_results {
                Some(res) => if i < res.segments@.len() {
                    cache_of(final(self).cached_entries@, res.segments@[i as int], old(self).search_query@)
                } else {
                    final(self).cached_entries@.len() == 0
                },
                None => final(self).cached_entries@.len() == 0,
            },
    {
        self.selected_segment = i;
        self.refresh_cache();
    }

    /// The indices of the segments shown as buttons: those with non-blank text.
    pub fn visible_segments(&self) -> (r: Vec<usize>)
        ensures
            self.search_results is None ==> r@.len() == 0,
            self.search_results matches Some(res) ==> (forall|k: int|
                0 <= k < r@.len() ==> (r@[k] as int) < res.segments@.len() && !all_ws(
                    res.segments@[r@[k] as int].text@,
                )) && (forall|i: int|
                0 <= i < res.segments@.len() && !all_ws(res.segments@[i].text@) ==> r@.contains(
                    i as usize,
                )) && (forall|a: int, b: int| 0 <= a < b < r@.len() ==> r@[a] < r@[b]),
    {
        let mut r: Vec<usize> = Vec::new();
        match &self.search_results {
            Some(res) => {
                let mut i: usize = 0;
                while i < res.segments.len()
                    invariant
                        i <= res.segments@.len(),
                        forall|k: int|
                            0 <= k < r@.len() ==> (r@[k] as int) < i && !all_ws(
                                res.segments@[r@[k] as int].text@,
                            ),
                        forall|j: int| 0 <= j < i && !all_ws(res.segments@[j].text@) ==> r@.contains(j as usize),
                        forall|a: int, b: int| 0 <= a < b < r@.len() ==> r@[a] < r@[b],
                    decreases res.segments.len() - i,
                {
                    let text = chars_of(res.segments[i].text.as_str());
                    if !is_blank(&text) {
                        let ghost before = r@;
                        r.push(i);
                        proof {
                            assert forall|j: int| 0 <= j < i + 1 && !all_ws(res.segments@[j].text@) implies r@.contains(j as usize) by {
                                if j < i {
                                    let w = choose|w: int| 0 <= w < before.len() && before[w] == j as usize;
                                    assert(r@[w] == j as usize);
                                } else {
                                    assert(r@[r@.len() - 1] == i);
                                }
                            }
                        }
                    }
                    i += 1;
                }
            },
            None => {},
        }
        r
    }

    /// The language was switched: results and shown entries are dropped.
    pub fn language_switched(&mut self)
        ensures
            final(self).search_results is None,
            final(self).cached_entries@.len() == 0,
            final(self).language_index == old(self).language_index,
    {
        self.search_results = None;
        self.cached_entries = Vec::new();
    }

    /// Progress messages of the importer arrived, oldest first: the status
    /// shows the newest one; with none it stays.
    pub fn progress_received(&mut self, messages: Vec<String>)
        ensures
            messages@.len() == 0 ==> final(self).import_status == old(self).import_status,
            messages@.len() > 0 ==> final(self).import_status == messages@.last(),
    {
        let mut messages = messages;
        match messages.pop() {
            Some(m) => {
                self.import_status = m;
            },
            None => {},
        }
    }

    /// A dictionary file was picked for import: the status names it.
    pub fn import_selected(&mut self, path: &str)
        ensures
            final(self).import_status@ == "Selected: "@ + path_debug(path@),
    {
        let shown = debug_path(path);
        self.import_status = concat2("Selected: ", shown.as_str());
    }

    /// Shows or hides the whole UI (Shift+H).
    pub fn toggle_ui(&mut self)
        ensures
            final(self).show_ui == !old(self).show_ui,
    {
        self.show_ui = !self.show_ui;
    }
}

/// The Anki choices the app stores: deck, note model, and the fields that
/// receive the term, reading, definition and sentence.
pub type AnkiChoices = (usize, usize, usize, usize, usize, usize);

/// The choices after the stored row `(key, value)` is read back: a known key
/// with a readable number sets that choice; anything else changes nothing.
pub open spec fn with_anki_setting(c: AnkiChoices, key: Seq<char>, value: Seq<char>) -> AnkiChoices {
    match parse_usize_spec(value) {
        Some(v) => if key == "anki_deck_idx"@ {
            (v, c.1, c.2, c.3, c.4, c.5)
        } else if key == "anki_model_idx"@ {
            (c.0, v, c.2, c.3, c.4, c.5)
        } else if key == "anki_field_term_idx"@ {
            (c.0, c.1, v, c.3, c.4, c.5)
        } else if key == "anki_field_reading_idx"@ {
            (c.0, c.1, c.2, v, c.4, c.5)
        } else if key == "anki_field_def_idx"@ {
            (c.0, c.1, c.2, c.3, v, c.5)
        } else if key == "anki_field_sentence_idx"@ {
            (c.0, c.1, c.2, c.3, c.4, v)
        } else {
            c
        },
        None => c,
    }
}

/// The choices after every stored row is read back, in order.
pub open spec fn with_anki_settings(c: AnkiChoices, rows: Seq<(Seq<char>, Seq<char>)>) -> AnkiChoices
    decreases rows.len(),
{
    if rows.len() == 0 {
        c
    } else {
        with_anki_settings(with_anki_setting(c, rows[0].0, rows[0].1), rows.drop_first())
    }
}

/// The rows the Anki choices are stored as, in write order.
pub open spec fn anki_rows_spec(c: AnkiChoices) -> Seq<(Seq<char>, Seq<char>)> {
    seq![
        ("anki_deck_idx"@, digits(c.0 as nat)),
        ("anki_model_idx"@, digits(c.1 as nat)),
        ("anki_field_term_idx"@, digits(c.2 as nat)),
        ("anki_field_reading_idx"@, digits(c.3 as nat)),
        ("anki_field_def_idx"@, digits(c.4 as nat)),
        ("anki_field_sentence_idx"@, digits(c.5 as nat)),
    ]
}

/// A listed file is offered as a font: its extension, in lower case, is
/// `ttf`, `otf` or `ttc`.
pub open spec fn is_font_file(f: (String, String, Option<String>)) -> bool {
    is_font_extension(f.2)
}

/// An extension, in lower case, is `ttf`, `otf` or `ttc`.
pub open spec fn is_font_extension(ext: Option<String>) -> bool {
    match ext {
        Some(ext) => lowercase(ext@) == "ttf"@ || lowercase(ext@) == "otf"@ || lowercase(ext@) == "ttc"@,
        None => false,
    }
}

/// The (name, path) texts of an offered font file.
pub open spec fn font_entry(f: (String, String, Option<String>)) -> (Seq<char>, Seq<char>) {
    (f.0@, f.1@)
}

/// The (name, path) texts of a font list.
pub open spec fn font_views(s: Seq<(String, String)>) -> Seq<(Seq<char>, Seq<char>)> {
    s.map_values(|e: (String, String)| (e.0@, e.1@))
}

/// The fonts offered before sorting: the built-in default, the bundled
/// DotGothic16 when present, then the font files in listing order.
pub open spec fn offered_fonts(local_font: bool, files: Seq<(String, String, Option<String>)>) -> Seq<
    (Seq<char>, Seq<char>),
> {
    seq![("Default (Internal)"@, ""@)] + (if local_font {
        seq![("DotGothic16 (Local)"@, "DotGothic16-Regular.ttf"@)]
    } else {
        Seq::empty()
    }) + files.filter(|f: (String, String, Option<String>)| is_font_file(f)).map_values(
        |f: (String, String, Option<String>)| font_entry(f),
    )
}

/// A font's sort key: its name in lower case.
pub open spec fn font_key(e: (String, String)) -> Seq<char> {
    lowercase(e.0@)
}

/// The order fonts are listed in: by lower-case name.
pub open spec fn font_order() -> spec_fn((String, String)) -> Seq<char> {
    |e: (String, String)| font_key(e)
}

fn font_sort_key(e: &(String, String)) -> (k: Vec<char>)
    ensures
        k@ == font_key(*e),
{
    let l = to_lowercase(e.0.as_str());
    chars_of(l.as_str())
}

fn is_font_ext(ext: &Option<String>) -> (b: bool)
    ensures
        b == is_font_extension(*ext),
{
    match ext {
        Some(x) => {
            let l = to_lowercase(x.as_str());
            let lv = chars_of(l.as_str());
            let ttf = chars_of("ttf");
            let otf = chars_of("otf");
            let ttc = chars_of("ttc");
            seq_eq(&lv, &ttf) || seq_eq(&lv, &otf) || seq_eq(&lv, &ttc)
        },
        None => false,
    }
}

/// Whether two character vectors hold the same characters.
fn seq_eq(a: &Vec<char>, b: &Vec<char>) -> (r: bool)
    ensures
        r == (a@ == b@),
{
    if a.len() != b.len() {
        return false;
    }
    let mut i: usize = 0;
    while i < a.len()
        invariant
            a@.len() == b@.len(),
            i <= a@.len(),
            forall|k: int| 0 <= k < i ==> a@[k] == b@[k],
        decreases a.len() - i,
    {
        if a[i] != b[i] {
            return false;
        }
        i += 1;
    }
    assert(a@ =~= b@);
    true
}

impl YomichanApp {
    /// The stored Anki choices.
    pub open spec fn anki_choices(&self) -> AnkiChoices {
        (
            self.anki_deck_idx,
            self.anki_model_idx,
            self.anki_field_term_idx,
            self.anki_field_reading_idx,
            self.anki_field_def_idx,
            self.anki_field_sentence_idx,
        )
    }

    /// The rows the Anki choices are stored as: `(key, value)` in write order.
    pub fn anki_setting_rows(&self) -> (r: Vec<(String, String)>)
        ensures
            r@.map_values(|p: (String, String)| (p.0@, p.1@)) == anki_rows_spec(self.anki_choices()),
    {
        let mut r: Vec<(String, String)> = Vec::new();
        r.push(("anki_deck_idx".to_owned(), fmt_u64(self.anki_deck_idx as u64)));
        r.push(("anki_model_idx".to_owned(), fmt_u64(self.anki_model_idx as u64)));
        r.push(("anki_field_term_idx".to_owned(), fmt_u64(self.anki_field_term_idx as u64)));
        r.push(("anki_field_reading_idx".to_owned(), fmt_u64(self.anki_field_reading_idx as u64)));
        r.push(("anki_field_def_idx".to_owned(), fmt_u64(self.anki_field_def_idx as u64)));
        r.push(("anki_field_sentence_idx".to_owned(), fmt_u64(self.anki_field_sentence_idx as u64)));
        assert(r@.map_values(|p: (String, String)| (p.0@, p.1@)) =~= anki_rows_spec(self.anki_choices()));
        r
    }

    /// Reads back one stored Anki row; unknown keys and unreadable numbers
    /// change nothing.
    pub fn apply_anki_setting(&mut self, key: &str, value: &str)
        ensures
            final(self).anki_choices() == with_anki_setting(old(self).anki_choices(), key@, value@),
            final(self).language_index == old(self).language_index,
            final(self).selected_font_path == old(self).selected_font_path,
    {
        let v = match parse_usize(value) {
            Some(v) => v,
            None => {
                return;
            },
        };
        let k = key.to_owned();
        if k == "anki_deck_idx".to_owned() {
            self.anki_deck_idx = v;
        } else if k == "anki_model_idx".to_owned() {
            self.anki_model_idx = v;
        } else if k == "anki_field_term_idx".to_owned() {
            self.anki_field_term_idx = v;
        } else if k == "anki_field_reading_idx".to_owned() {
            self.anki_field_reading_idx = v;
        } else if k == "anki_field_def_idx".to_owned() {
            self.anki_field_def_idx = v;
        } else if k == "anki_field_sentence_idx".to_owned() {
            self.anki_field_sentence_idx = v;
        }
    }

    /// The row the language is stored as.
    pub fn language_setting_row(&self) -> (r: (String, String))
        ensures
            r.0@ == "language_index"@,
            r.1@ == digits(self.language_index as nat),
    {
        ("language_index".to_owned(), fmt_u64(self.language_index as u64))
    }

    /// The row the font is stored as.
    pub fn font_setting_row(&self) -> (r: (String, String))
        ensures
            r.0@ == "selected_font_path"@,
            r.1@ == self.selected_font_path@,
    {
        ("selected_font_path".to_owned(), self.selected_font_path.clone())
    }

    /// Reads back the stored language, if a row was found (`None` when the
    /// settings table or the row is missing). Returns the language to switch
    /// the dictionary to: the stored one when readable, Japanese when nothing
    /// was stored, none when the stored value is unreadable. Nothing but the
    /// language index changes.
    pub fn apply_language_setting(&mut self, stored: Option<&str>) -> (r: Option<&'static str>)
        ensures
            match stored {
                Some(v) => match parse_usize_spec(v@) {
                    Some(i) => final(self).language_index == i && (r matches Some(code) && code@
                        == language_code(i)),
                    None => final(self).language_index == old(self).language_index && r is None,
                },
                None => final(self).language_index == old(self).language_index && (r matches Some(
                    code,
                ) && code@ == "ja"@),
            },
            final(self).anki_choices() == old(self).anki_choices(),
            final(self).selected_font_path == old(self).selected_font_path,
            *final(self) == (YomichanApp { language_index: final(self).language_index, ..*old(self) }),
    {
        match stored {
            Some(v) => match parse_usize(v) {
                Some(i) => {
                    self.language_index = i;
                    Some(language_code_of(i))
                },
                None => None,
            },
            None => Some("ja"),
        }
    }

    /// Replaces the font list: the built-in default, the bundled DotGothic16
    /// when `local_font` is present, and the listed files (name, path,
    /// extension) that are fonts, sorted by lower-case name.
    pub fn set_font_list(&mut self, local_font: bool, files: Vec<(String, String, Option<String>)>)
        ensures
            sorted_by_key(final(self).discovered_fonts@, font_order()),
            exists|before: Seq<(String, String)>|
                font_views(before) == offered_fonts(local_font, files@)
                    && final(self).discovered_fonts@.to_multiset() == before.to_multiset() && forall|
                    k: Seq<char>,
                | #[trigger] final(self).discovered_fonts@.filter(
                    keyed(font_order(), k),
                ) == before.filter(keyed(font_order(), k)),
            final(self).selected_font_path == old(self).selected_font_path,
    {
        let ghost pred = |f: (String, String, Option<String>)| is_font_file(f);
        let ghost conv = |f: (String, String, Option<String>)| font_entry(f);
        let mut list: Vec<(String, String)> = Vec::new();
        list.push(("Default (Internal)".to_owned(), "".to_owned()));
        if local_font {
            list.push(("DotGothic16 (Local)".to_owned(), "DotGothic16-Regular.ttf".to_owned()));
        }
        let ghost base = font_views(list@);
        assert(base =~= seq![("Default (Internal)"@, ""@)] + (if local_font {
            seq![("DotGothic16 (Local)"@, "DotGothic16-Regular.ttf"@)]
        } else {
            Seq::empty()
        }));
        let mut rest = files;
        let ghost input_seq = rest@;
        let mut taken: usize = 0;
        let n = rest.len();
        assert(input_seq.take(0).filter(pred) =~= Seq::<(String, String, Option<String>)>::empty()) by {
            reveal(Seq::filter);
        }
        assert(font_views(list@) =~= base + input_seq.take(0).filter(pred).map_values(conv));
        while rest.len() > 0
            invariant
                taken + rest@.len() == input_seq.len(),
                n == input_seq.len(),
                rest@ == input_seq.skip(taken as int),
                font_views(list@) == base + input_seq.take(taken as int).filter(pred).map_values(conv),
                pred == (|f: (String, String, Option<String>)| is_font_file(f)),
                conv == (|f: (String, String, Option<String>)| font_entry(f)),
            decreases rest.len(),
        {
            let f = rest.remove(0);
            assert(rest@ =~= input_seq.skip(taken + 1));
            assert(f == input_seq[taken as int]);
            assert(input_seq.take(taken + 1).drop_last() =~= input_seq.take(taken as int));
            assert(input_seq.take(taken + 1).last() == f);
            proof {
                reveal(Seq::filter);
            }
            let keep = is_font_ext(&f.2);
            assert(keep == pred(f));
            let ghost before = font_views(list@);
            if keep {
                let (name, path, _) = f;
                list.push((name, path));
                assert(font_views(list@) =~= before.push(conv(f)));
                assert(input_seq.take(taken + 1).filter(pred) == input_seq.take(taken as int).filter(pred).push(f));
                assert(input_seq.take(taken + 1).filter(pred).map_values(conv) =~= input_seq.take(
                    taken as int,
                ).filter(pred).map_values(conv).push(conv(f)));
            } else {
                assert(input_seq.take(taken + 1).filter(pred) == input_seq.take(taken as int).filter(pred));
            }
            taken += 1;
        }
        assert(input_seq.take(taken as int) =~= input_seq);
        let ghost unsorted = list@;
        assert(font_views(unsorted) == offered_fonts(local_font, input_seq));
        self.discovered_fonts = sort_by_text_key(list, font_sort_key, Ghost(font_order()));
    }

    /// A font was picked in the list (an empty path is the built-in font):
    /// it is loaded at the start of the next frame.
    pub fn pick_font(&mut self, path: String)
        ensures
            final(self).pending_font_update == Some(path),
            final(self).selected_font_path == old(self).selected_font_path,
    {
        self.pending_font_update = Some(path);
    }

    /// The font to load this frame, if one was picked; it is taken.
    pub fn take_pending_font(&mut self) -> (r: Option<String>)
        ensures
            r == old(self).pending_font_update,
            final(self).pending_font_update is None,
            final(self).selected_font_path == old(self).selected_font_path,
    {
        self.pending_font_update.take()
    }

    /// The font at `path` is now the one in use.
    pub fn font_loaded(&mut self, path: String)
        ensures
            final(self).selected_font_path == path,
            final(self).pending_font_update == old(self).pending_font_update,
    {
        self.selected_font_path = path;
    }
}

/// Storing the Anki choices and reading the rows back restores them,
/// whatever the choices were before.
pub proof fn law_anki_settings_round_trip(saved: AnkiChoices, before: AnkiChoices)
    ensures
        with_anki_settings(before, anki_rows_spec(saved)) == saved,
{
    reveal_strlit("anki_deck_idx");
    reveal_strlit("anki_model_idx");
    reveal_strlit("anki_field_term_idx");
    reveal_strlit("anki_field_reading_idx");
    reveal_strlit("anki_field_def_idx");
    reveal_strlit("anki_field_sentence_idx");
    crate::numbers::law_usize_text_round_trip(saved.0);
    crate::numbers::law_usize_text_round_trip(saved.1);
    crate::numbers::law_usize_text_round_trip(saved.2);
    crate::numbers::law_usize_text_round_trip(saved.3);
    crate::numbers::law_usize_text_round_trip(saved.4);
    crate::numbers::law_usize_text_round_trip(saved.5);
    assert("anki_deck_idx"@[5] != "anki_model_idx"@[5]);
    assert("anki_deck_idx"@.len() != "anki_field_term_idx"@.len());
    assert("anki_deck_idx"@.len() != "anki_field_reading_idx"@.len());
    assert("anki_deck_idx"@.len() != "anki_field_def_idx"@.len());
    assert("anki_deck_idx"@.len() != "anki_field_sentence_idx"@.len());
    assert("anki_model_idx"@.len() != "anki_field_term_idx"@.len());
    assert("anki_model_idx"@.len() != "anki_field_reading_idx"@.len());
    assert("anki_model_idx"@.len() != "anki_field_def_idx"@.len());
    assert("anki_model_idx"@.len() != "anki_field_sentence_idx"@.len());
    assert("anki_field_term_idx"@[11] != "anki_field_reading_idx"@[11]);
    assert("anki_field_term_idx"@[11] != "anki_field_def_idx"@[11]);
    assert("anki_field_term_idx"@[11] != "anki_field_sentence_idx"@[11]);
    assert("anki_field_reading_idx"@[11] != "anki_field_def_idx"@[11]);
    assert("anki_field_reading_idx"@[11] != "anki_field_sentence_idx"@[11]);
    assert("anki_field_def_idx"@[11] != "anki_field_sentence_idx"@[11]);
    let rows = anki_rows_spec(saved);
    let c1 = with_anki_setting(before, rows[0].0, rows[0].1);
    let c2 = with_anki_setting(c1, rows[1].0, rows[1].1);
    let c3 = with_anki_setting(c2, rows[2].0, rows[2].1);
    let c4 = with_anki_setting(c3, rows[3].0, rows[3].1);
    let c5 = with_anki_setting(c4, rows[4].0, rows[4].1);
    let c6 = with_anki_setting(c5, rows[5].0, rows[5].1);
    assert(c6 == saved);
    let r1 = rows.drop_first();
    let r2 = r1.drop_first();
    let r3 = r2.drop_first();
    let r4 = r3.drop_first();
    let r5 = r4.drop_first();
    let r6 = r5.drop_first();
    assert(r6 =~= Seq::<(Seq<char>, Seq<char>)>::empty());
    assert(with_anki_settings(c6, r6) == c6);
    assert(with_anki_settings(c5, r5) == with_anki_settings(c6, r6));
    assert(with_anki_settings(c4, r4) == with_anki_settings(c5, r5));
    assert(with_anki_settings(c3, r3) == with_anki_settings(c4, r4));
    assert(with_anki_settings(c2, r2) == with_anki_settings(c3, r3));
    assert(with_anki_settings(c1, r1) == with_anki_settings(c2, r2));
    assert(with_anki_settings(before, rows) == with_anki_settings(c1, r1));
}

/// Storing the language and reading it back selects the same language.
pub proof fn law_language_round_trip(index: usize)
    ensures
        parse_usize_spec(digits(index as nat)) == Some(index),
{
    crate::numbers::law_usize_text_round_trip(index);
}

} // verus!
