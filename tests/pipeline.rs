use job_organizer::catalog::{classify_file, scan, Catalog, SourceFile, Work};
use job_organizer::classify::{classify, contains_bytes, LanguageTag, QualityTag};
use job_organizer::cli::{CliArgs, Commands};
use job_organizer::placement::{
    destination_path, plan_copies, relative_path, with_separator, PlacementError,
};
use job_organizer::ranking::{score_of, sort_by_score, ScoredOpportunity, WorkDetails};
use job_organizer::report::{build_report, file_name, render_report, score_work};
use job_organizer::viewer::{JobListing, MyApp, ViewerAction, ViewerEvent};

fn work(file: &str, java: bool, national: bool, good: bool, len: usize) -> Work {
    Work {
        file: file.to_string(),
        language: if java { LanguageTag::Java } else { LanguageTag::Other },
        quality: if good { QualityTag::Good } else { QualityTag::Low },
        national,
        content_length: len,
    }
}

fn entry(name: &str, score: u64) -> ScoredOpportunity {
    ScoredOpportunity {
        filename: name.to_string(),
        score,
        details: WorkDetails {
            is_java: false,
            is_uruguayan: false,
            is_high_quality: false,
            content_length: 0,
        },
    }
}

fn source(path: &str, content: &str) -> SourceFile {
    SourceFile { path: path.to_string(), content: content.to_string() }
}

#[test]
fn classifier_word_boundary() {
    assert_eq!(classify("javascript developer").language, LanguageTag::Other);
    assert_eq!(classify("Java developer").language, LanguageTag::Java);
    assert_eq!(classify("senior JAVA, remote").language, LanguageTag::Java);
}

#[test]
fn classifier_regional_is_case_sensitive_substring() {
    assert!(classify("Based in Uruguay.").national);
    assert!(classify("Uruguayan company").national);
    assert!(!classify("based in uruguay").national);
}

#[test]
fn classifier_quality_threshold_is_strict() {
    let at = "a".repeat(1000);
    let above = "a".repeat(1001);
    assert_eq!(classify(&at).quality, QualityTag::Low);
    assert_eq!(classify(&above).quality, QualityTag::Good);
    assert_eq!(classify(&above).content_length, 1001);
}

#[test]
fn classifier_empty_content() {
    let c = classify("");
    assert_eq!(c.language, LanguageTag::Other);
    assert_eq!(c.quality, QualityTag::Low);
    assert!(!c.national);
    assert_eq!(c.content_length, 0);
}

#[test]
fn classifier_counts_bytes() {
    assert_eq!(classify("añb").content_length, 4);
}

#[test]
fn byte_search_edges() {
    assert!(contains_bytes(b"abc", b""));
    assert!(contains_bytes(b"abc", b"abc"));
    assert!(contains_bytes(b"xxabc", b"abc"));
    assert!(!contains_bytes(b"ab", b"abc"));
    assert!(!contains_bytes(b"abxc", b"abc"));
}

#[test]
fn score_formula_full() {
    let d = WorkDetails {
        is_java: true,
        is_uruguayan: true,
        is_high_quality: true,
        content_length: 10000,
    };
    assert_eq!(score_of(&d), 35000);
    let mut e = ScoredOpportunity { filename: "a.txt".to_string(), score: 0, details: d };
    e.calculate_score();
    assert_eq!(e.score, 35000);
    let text = render_report(&vec![e], "now");
    assert!(text.contains("### 1. a.txt (Score: 7.00)\n"));
}

#[test]
fn score_formula_length_only() {
    let d = WorkDetails {
        is_java: false,
        is_uruguayan: false,
        is_high_quality: false,
        content_length: 2500,
    };
    assert_eq!(score_of(&d), 2500);
    let text = render_report(&vec![entry("b.txt", score_of(&d))], "now");
    assert!(text.contains("(Score: 0.50)"));
}

#[test]
fn score_length_bonus_caps_at_one_point() {
    let d = WorkDetails {
        is_java: true,
        is_uruguayan: false,
        is_high_quality: false,
        content_length: 5000,
    };
    assert_eq!(score_of(&d), 20000);
}

#[test]
fn ranking_orders_by_score() {
    let ranked = sort_by_score(vec![entry("a", 35000), entry("b", 2500), entry("c", 15000)]);
    let scores: Vec<u64> = ranked.iter().map(|e| e.score).collect();
    assert_eq!(scores, vec![35000, 15000, 2500]);
    let text = render_report(&ranked, "now");
    let first = text.find("### 1. a (Score: 7.00)").unwrap();
    let second = text.find("### 2. c (Score: 3.00)").unwrap();
    let third = text.find("### 3. b (Score: 0.50)").unwrap();
    assert!(first < second && second < third);
}

#[test]
fn empty_store_report() {
    let text = build_report(&Vec::new(), "2024-01-01 00:00:00");
    assert!(text.contains("No opportunities found.\n"));
    assert!(!text.contains("### "));
    assert!(text.ends_with("Generated on: 2024-01-01 00:00:00\n"));
}

#[test]
fn report_lists_criteria() {
    let works = vec![work("/src/jobs/a.txt", true, false, true, 1200)];
    let text = build_report(&works, "t");
    let expected = "### 1. a.txt (Score: 4.24)\n**Criteria met:**\n- Java position\n- High quality description\n- Content length: 1200 characters\n\n";
    assert!(text.contains(expected));
    assert!(!text.contains("- Uruguayan company"));
    assert!(text.starts_with("# Top Job Opportunities\n\n"));
}

#[test]
fn score_rounds_half_up() {
    let text = render_report(&vec![entry("x", 25)], "t");
    assert!(text.contains("(Score: 0.01)"));
    let text = render_report(&vec![entry("y", 24)], "t");
    assert!(text.contains("(Score: 0.00)"));
}

#[test]
fn base_names() {
    assert_eq!(file_name("/a/b/c.txt"), "c.txt");
    assert_eq!(file_name("c.txt"), "c.txt");
    assert_eq!(file_name("/a/b/"), "unknown");
    assert_eq!(file_name(""), "unknown");
}

#[test]
fn scored_record() {
    let s = score_work(&work("/r/x/offer.md", false, true, false, 10));
    assert_eq!(s.filename, "offer.md");
    assert_eq!(s.score, 10010);
    assert!(s.details.is_uruguayan);
}

#[test]
fn scan_keeps_one_record_per_path() {
    let files = vec![
        source("/src/a.txt", "Java"),
        source("/src/b.txt", "nothing"),
        source("/src/a.txt", "in Uruguay"),
    ];
    let catalog = scan(&files);
    let records = catalog.records();
    assert_eq!(records.len(), 2);
    let a = records.iter().find(|w| w.file == "/src/a.txt").unwrap();
    assert_eq!(a.language, LanguageTag::Other);
    assert!(a.national);
    assert!(records.iter().any(|w| w.file == "/src/b.txt"));
}

#[test]
fn rescan_is_identical() {
    let files = vec![source("/s/a", "java"), source("/s/b", &"x".repeat(2000))];
    let first = scan(&files);
    let second = scan(&files);
    let describe = |c: &Catalog| -> Vec<(String, bool, bool, bool, usize)> {
        c.records()
            .iter()
            .map(|w| {
                (
                    w.file.clone(),
                    w.language == LanguageTag::Java,
                    w.quality == QualityTag::Good,
                    w.national,
                    w.content_length,
                )
            })
            .collect()
    };
    assert_eq!(describe(&first), describe(&second));
}

#[test]
fn catalog_put_and_clear() {
    let mut c = Catalog::new();
    c.put(classify_file("/s/a".to_string(), "java"));
    c.put(classify_file("/s/a".to_string(), "python"));
    assert_eq!(c.records().len(), 1);
    assert_eq!(c.records()[0].language, LanguageTag::Other);
    c.record_file("/s/b".to_string(), "x");
    assert_eq!(c.records().len(), 2);
    c.clear();
    assert!(c.records().is_empty());
}

#[test]
fn relative_paths() {
    assert_eq!(relative_path("/src", "/src/a/b.txt"), Some("a/b.txt".to_string()));
    assert_eq!(relative_path("/src/", "/src/a/b.txt"), Some("a/b.txt".to_string()));
    assert_eq!(relative_path("/src", "/srcx/b.txt"), None);
    assert_eq!(relative_path("/src", "/src"), None);
    assert_eq!(with_separator("/dest"), "/dest/");
    assert_eq!(with_separator("/dest/"), "/dest/");
}

#[test]
fn placement_rule() {
    let java_regional = work("/src/d/a.txt", true, true, true, 5);
    assert_eq!(
        destination_path("/src", "/dst", &java_regional),
        Some("/dst/Works in java language/National (uruguayan) works/d/a.txt".to_string())
    );
    let other_good = work("/src/b.txt", false, false, true, 5);
    assert_eq!(
        destination_path("/src", "/dst", &other_good),
        Some("/dst/Works in other languages/Good quality works/b.txt".to_string())
    );
    let other_low = work("/src/c.txt", false, false, false, 5);
    assert_eq!(
        destination_path("/src", "/dst/", &other_low),
        Some("/dst/Works in other languages/Low quality works/c.txt".to_string())
    );
}

#[test]
fn plan_copies_in_record_order() {
    let works = vec![work("/src/a.txt", true, false, false, 1), work("/src/x/b.txt", false, false, true, 1)];
    let steps = plan_copies("/src", "/dst", &works).unwrap();
    assert_eq!(steps.len(), 2);
    assert_eq!(steps[0].from, "/src/a.txt");
    assert_eq!(steps[0].to, "/dst/Works in java language/Low quality works/a.txt");
    assert_eq!(steps[1].to, "/dst/Works in other languages/Good quality works/x/b.txt");
}

#[test]
fn plan_copies_rejects_outside_file() {
    let works = vec![work("/src/a.txt", true, false, false, 1), work("/other/b.txt", false, false, true, 1)];
    match plan_copies("/src", "/dst", &works) {
        Err(PlacementError::OutsideSourceRoot { file }) => assert_eq!(file, "/other/b.txt"),
        Ok(_) => panic!("expected an error"),
    }
}

#[test]
fn plan_is_repeatable() {
    let works = vec![work("/src/a.txt", true, true, false, 1)];
    let first = plan_copies("/src", "/dst", &works).unwrap();
    let second = plan_copies("/src", "/dst", &works).unwrap();
    assert_eq!(first[0].to, second[0].to);
}

fn job(id: &str) -> JobListing {
    JobListing {
        id: id.to_string(),
        title: format!("title {}", id),
        company: "ACME".to_string(),
        description: "d".to_string(),
        is_applied: false,
    }
}

#[test]
fn viewer_selection_and_flag() {
    let mut app = MyApp::new(vec![job("1"), job("2")], "db".to_string());
    assert_eq!(app.selected_index(), None);
    assert!(!app.show_about_window());
    match app.handle(ViewerEvent::SetApplied { applied: true }) {
        ViewerAction::Nothing => {}
        other => panic!("unexpected {:?}", other),
    }
    app.handle(ViewerEvent::Select { id: "2".to_string() });
    assert_eq!(app.selected_index(), Some(1));
    assert!(app.is_selected(1));
    assert!(!app.is_selected(0));
    match app.handle(ViewerEvent::SetApplied { applied: true }) {
        ViewerAction::PersistApplied { id, applied } => {
            assert_eq!(id, "2");
            assert!(applied);
        }
        other => panic!("unexpected {:?}", other),
    }
    assert!(app.jobs()[1].is_applied);
    assert!(!app.jobs()[0].is_applied);
    assert_eq!(app.db_path(), "db");
}

#[test]
fn viewer_about_dialog() {
    let mut app = MyApp::new(Vec::new(), "db".to_string());
    app.handle(ViewerEvent::ShowAbout);
    assert!(app.show_about_window());
    app.handle(ViewerEvent::CloseAbout);
    assert!(!app.show_about_window());
}

#[test]
fn cli_paths_need_all_three() {
    let args = CliArgs {
        command: Some(Commands::Ui),
        src: Some("s".to_string()),
        dest: Some("d".to_string()),
        db: Some("b".to_string()),
        linkedin_api_key: None,
    };
    let p = args.explicit_paths().unwrap();
    assert_eq!((p.source_dir.as_str(), p.destination_dir.as_str(), p.db_path.as_str()), ("s", "d", "b"));
    let partial = CliArgs { command: None, src: Some("s".to_string()), dest: None, db: Some("b".to_string()), linkedin_api_key: None };
    assert!(partial.explicit_paths().is_none());
}
