use review_tool::decimal::u64_to_decimal;
use review_tool::fetch::{ChangedFile, PullRequestSummary};
use review_tool::paths::filter_source_files;
use review_tool::report::{build_report, LocalStatus, SourceFileEntry};

fn present(path: &str, source: &str) -> SourceFileEntry {
    SourceFileEntry {
        path: path.to_string(),
        status: LocalStatus::Present { source: source.to_string() },
    }
}

fn absent(path: &str) -> SourceFileEntry {
    SourceFileEntry { path: path.to_string(), status: LocalStatus::Absent }
}

#[test]
fn decimal_exact_values() {
    assert_eq!(u64_to_decimal(0), "0".to_string());
    assert_eq!(u64_to_decimal(7), "7".to_string());
    assert_eq!(u64_to_decimal(42), "42".to_string());
    assert_eq!(u64_to_decimal(1000), "1000".to_string());
    assert_eq!(u64_to_decimal(u64::MAX), "18446744073709551615".to_string());
}

#[test]
fn end_to_end_pull_request_42() {
    let pr = PullRequestSummary { number: 42, title: "Add utilities".to_string() };
    let all_changed = vec![
        ChangedFile { path: "src/lib.rs".to_string() },
        ChangedFile { path: "README.md".to_string() },
        ChangedFile { path: "src/util.rs".to_string() },
    ];
    let sources = filter_source_files(&all_changed);
    assert_eq!(sources.len(), 2);
    let entries = vec![
        present(&sources[0].path, "fn foo() {}\nfn bar() {}\n"),
        absent(&sources[1].path),
    ];
    let lines = build_report(&pr, &entries).expect("both sources are well formed");
    assert_eq!(
        lines,
        vec![
            "# PR 42: Add utilities".to_string(),
            "changed files:".to_string(),
            "- src/lib.rs".to_string(),
            "- src/util.rs".to_string(),
            "## functions (src/lib.rs)".to_string(),
            "- foo".to_string(),
            "- bar".to_string(),
            "(notice: file not present locally: src/util.rs)".to_string(),
        ]
    );
}

#[test]
fn absent_file_noticed_and_rest_processed() {
    let pr = PullRequestSummary { number: 7, title: "Fix".to_string() };
    let entries = vec![absent("src/missing.rs"), present("src/here.rs", "fn here() {}\n")];
    let lines = build_report(&pr, &entries).expect("the present source is well formed");
    assert_eq!(
        lines,
        vec![
            "# PR 7: Fix".to_string(),
            "changed files:".to_string(),
            "- src/missing.rs".to_string(),
            "- src/here.rs".to_string(),
            "(notice: file not present locally: src/missing.rs)".to_string(),
            "## functions (src/here.rs)".to_string(),
            "- here".to_string(),
        ]
    );
}

#[test]
fn file_with_no_functions_gets_empty_section() {
    let pr = PullRequestSummary { number: 1, title: "Types only".to_string() };
    let entries = vec![present("src/types.rs", "struct OnlyAType;\n")];
    let lines = build_report(&pr, &entries).expect("the source is well formed");
    assert_eq!(
        lines,
        vec![
            "# PR 1: Types only".to_string(),
            "changed files:".to_string(),
            "- src/types.rs".to_string(),
            "## functions (src/types.rs)".to_string(),
        ]
    );
}

#[test]
fn malformed_present_file_aborts_the_run() {
    let pr = PullRequestSummary { number: 3, title: "Broken".to_string() };
    let entries = vec![
        present("src/fine.rs", "fn fine() {}\n"),
        present("src/broken.rs", "fn broken( {"),
        present("src/later.rs", "fn later() {}\n"),
    ];
    let err = build_report(&pr, &entries).err().expect("the malformed file must abort the run");
    assert_eq!(err.path, "src/broken.rs".to_string());
}
