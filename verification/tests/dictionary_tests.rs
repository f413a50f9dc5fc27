use ray::anki::{note_plan, FieldMapping, QueuedCard};
use ray::dictionary::{
    definition_lines_of, first_nonblank_segment, headword_text_of, language_code_of, CachedEntry, DictEntry, Headword,
    SearchResult, Segment, YomichanApp,
};
use ray::router::{Route, Router};

fn entry(words: &[(&str, &str)], defs: &[&[&str]]) -> DictEntry {
    DictEntry {
        headwords: words.iter().map(|(t, r)| Headword { term: t.to_string(), reading: r.to_string() }).collect(),
        definitions: defs.iter().map(|d| d.iter().map(|g| g.to_string()).collect()).collect(),
    }
}

fn segment(text: &str, entries: Vec<DictEntry>) -> Segment {
    Segment { text: text.to_string(), entries }
}

fn sample_result() -> SearchResult {
    SearchResult {
        segments: vec![
            segment("  ", vec![]),
            segment("食べる", vec![entry(&[("食べる", "たべる")], &[&["to eat"], &["to live on", "to make a living"]])]),
            segment("。", vec![]),
        ],
    }
}

fn card(id: i64) -> QueuedCard {
    QueuedCard {
        id,
        headword: "猫".to_string(),
        reading: "ねこ".to_string(),
        definition: "cat".to_string(),
        sentence: "猫がいる".to_string(),
        added_at: 1_700_000_000,
    }
}

#[test]
fn entry_display_lines() {
    let e = entry(&[("食べる", "たべる"), ("喰べる", "たべる")], &[&["to eat"], &["to live on", "to make a living"]]);
    assert_eq!(headword_text_of(&e), "  食べる (たべる),   喰べる (たべる)");
    assert_eq!(definition_lines_of(&e), vec!["   to eat", "   to live on", "   to make a living"]);
    assert_eq!(headword_text_of(&entry(&[], &[])), "");
}

#[test]
fn search_flow() {
    let mut app = YomichanApp::new();
    assert_eq!(app.router.c_route, Route::Search);
    assert!(!app.search_requested(true, false));
    app.search_query = "食べる".to_string();
    assert!(app.search_requested(true, false));
    assert!(app.search_requested(false, true));
    assert!(!app.search_requested(false, false));
    app.search_finished(Some(sample_result()));
    assert_eq!(app.selected_segment, 1);
    assert_eq!(app.cached_entries.len(), 1);
    let c = &app.cached_entries[0];
    assert_eq!(c.headword, "  食べる (たべる)");
    assert_eq!(c.definitions, vec!["   to eat", "   to live on", "   to make a living"]);
    assert_eq!(c.sentence, "食べる");
    assert_eq!(c.entry_index, 0);
    assert_eq!(app.visible_segments(), vec![1, 2]);
    app.select_segment(2);
    assert!(app.cached_entries.is_empty());
    app.select_segment(7);
    assert!(app.cached_entries.is_empty());
    app.search_finished(None);
    assert!(app.search_results.is_none());
    assert!(app.visible_segments().is_empty());
}

#[test]
fn first_nonblank() {
    assert_eq!(first_nonblank_segment(&sample_result()), 1);
    assert_eq!(first_nonblank_segment(&SearchResult { segments: vec![segment(" ", vec![])] }), 0);
    assert_eq!(first_nonblank_segment(&SearchResult { segments: vec![] }), 0);
}

#[test]
fn card_fields_from_cached_entry() {
    let c = CachedEntry {
        headword: "  食べる (たべる)".to_string(),
        definitions: vec!["   to eat".to_string(), "   to live on".to_string()],
        sentence: "ご飯を食べる".to_string(),
        entry_index: 0,
    };
    let f = c.card_fields();
    assert_eq!(f.term, "食べる");
    assert_eq!(f.reading, "たべる");
    assert_eq!(f.definition, "   to eat\n   to live on");
    assert_eq!(f.sentence, "ご飯を食べる");
    let plain = CachedEntry { headword: " word ".to_string(), definitions: vec![], sentence: String::new(), entry_index: 0 };
    let f = plain.card_fields();
    assert_eq!((f.term.as_str(), f.reading.as_str()), ("word", ""));
}

#[test]
fn language_and_ui() {
    assert_eq!(language_code_of(0), "ja");
    assert_eq!(language_code_of(1), "es");
    let mut app = YomichanApp::new();
    assert_eq!(app.apply_language_setting(Some("1")), Some("es"));
    assert_eq!(app.language_index, 1);
    let (k, v) = app.language_setting_row();
    assert_eq!((k.as_str(), v.as_str()), ("language_index", "1"));
    assert_eq!(app.apply_language_setting(Some("x")), None);
    assert_eq!(app.language_index, 1);
    app.selected_font_path = "fonts/a.ttf".to_string();
    app.anki_deck_idx = 2;
    assert_eq!(app.apply_language_setting(None), Some("ja"));
    assert_eq!(app.language_index, 1);
    assert_eq!(app.selected_font_path, "fonts/a.ttf");
    assert_eq!(app.anki_deck_idx, 2);
    app.search_finished(Some(sample_result()));
    app.language_switched();
    assert!(app.search_results.is_none() && app.cached_entries.is_empty());
    assert!(app.show_ui);
    app.toggle_ui();
    assert!(!app.show_ui);
}

#[test]
fn anki_choices_round_trip() {
    let mut a = YomichanApp::new();
    a.anki_deck_idx = 2;
    a.anki_model_idx = 1;
    a.anki_field_term_idx = 0;
    a.anki_field_reading_idx = 3;
    a.anki_field_def_idx = 4;
    a.anki_field_sentence_idx = 5;
    let rows = a.anki_setting_rows();
    assert_eq!(rows[0], ("anki_deck_idx".to_string(), "2".to_string()));
    assert_eq!(rows.len(), 6);
    let mut b = YomichanApp::new();
    for (k, v) in &rows {
        b.apply_anki_setting(k, v);
    }
    assert_eq!(
        (b.anki_deck_idx, b.anki_model_idx, b.anki_field_term_idx, b.anki_field_reading_idx, b.anki_field_def_idx, b.anki_field_sentence_idx),
        (2, 1, 0, 3, 4, 5)
    );
    b.apply_anki_setting("anki_deck_idx", "oops");
    b.apply_anki_setting("other", "9");
    assert_eq!(b.anki_deck_idx, 2);
}

#[test]
fn fonts() {
    let mut app = YomichanApp::new();
    let files = vec![
        ("zeta".to_string(), "/f/zeta.TTF".to_string(), Some("TTF".to_string())),
        ("Alpha".to_string(), "/f/alpha.otf".to_string(), Some("otf".to_string())),
        ("notes".to_string(), "/f/notes.txt".to_string(), Some("txt".to_string())),
        ("bare".to_string(), "/f/bare".to_string(), None),
    ];
    app.set_font_list(true, files);
    let names: Vec<&str> = app.discovered_fonts.iter().map(|(n, _)| n.as_str()).collect();
    assert_eq!(names, vec!["Alpha", "Default (Internal)", "DotGothic16 (Local)", "zeta"]);
    app.set_font_list(false, vec![]);
    assert_eq!(app.discovered_fonts, vec![("Default (Internal)".to_string(), String::new())]);
    app.pick_font("/f/alpha.otf".to_string());
    assert_eq!(app.take_pending_font(), Some("/f/alpha.otf".to_string()));
    assert_eq!(app.take_pending_font(), None);
    app.font_loaded("/f/alpha.otf".to_string());
    let (k, v) = app.font_setting_row();
    assert_eq!((k.as_str(), v.as_str()), ("selected_font_path", "/f/alpha.otf"));
}

#[test]
fn import_status() {
    let mut app = YomichanApp::new();
    app.progress_received(vec!["Starting import...".to_string(), "Import complete!".to_string()]);
    assert_eq!(app.import_status, "Import complete!");
    app.progress_received(vec![]);
    assert_eq!(app.import_status, "Import complete!");
    app.import_selected("/tmp/jmdict.zip");
    assert_eq!(app.import_status, format!("Selected: {:?}", std::path::Path::new("/tmp/jmdict.zip")));
}

#[test]
fn router_routes() {
    let mut r = Router::default();
    assert_eq!(r.c_route, Route::Search);
    r.set(Route::Anki);
    assert_eq!(r.c_route, Route::Anki);
    assert_eq!(Route::default(), Route::Search);
}

#[test]
fn anki_queue_labels() {
    let c = card(42);
    assert_eq!(c.queue_label(), "猫 [ねこ]");
    assert_eq!(c.delete_label(), "Delete##42");
    assert_eq!(card(-7).delete_label(), "Delete##-7");
}

#[test]
fn anki_note_plans() {
    let maps = vec![
        FieldMapping::Term("Front".to_string()),
        FieldMapping::Other,
        FieldMapping::Reading("Reading".to_string()),
        FieldMapping::Definition("Back".to_string()),
        FieldMapping::Sentence("Context".to_string()),
    ];
    let plan = note_plan(&card(1), "Basic", "Japanese", &maps).expect("configured");
    assert_eq!(plan.model, "Basic");
    assert_eq!(plan.deck, "Japanese");
    assert_eq!(
        plan.fields,
        vec![
            ("Front".to_string(), "猫".to_string()),
            ("Reading".to_string(), "ねこ".to_string()),
            ("Back".to_string(), "cat".to_string()),
            ("Context".to_string(), "猫がいる".to_string()),
        ]
    );
    assert!(note_plan(&card(1), "", "Japanese", &maps).is_none());
    assert!(note_plan(&card(1), "Basic", "", &maps).is_none());
}

#[test]
fn fonts_with_equal_names_keep_listing_order() {
    let mut app = YomichanApp::new();
    let files = vec![
        ("mono.ttf".to_string(), "/b/mono.ttf".to_string(), Some("ttf".to_string())),
        ("Mono.ttf".to_string(), "/a/Mono.ttf".to_string(), Some("ttf".to_string())),
        ("MONO.ttf".to_string(), "/c/MONO.ttf".to_string(), Some("ttf".to_string())),
    ];
    app.set_font_list(false, files);
    let paths: Vec<&str> = app.discovered_fonts.iter().map(|(_, p)| p.as_str()).collect();
    assert_eq!(paths, vec!["", "/b/mono.ttf", "/a/Mono.ttf", "/c/MONO.ttf"]);
}
