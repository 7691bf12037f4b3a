use review_tool::fetch::{concat_pages, ChangedFile};
use review_tool::paths::{filter_source_files, has_source_extension};

fn changed(paths: &[&str]) -> Vec<ChangedFile> {
    paths.iter().map(|p| ChangedFile { path: p.to_string() }).collect()
}

fn paths_of(files: &[ChangedFile]) -> Vec<String> {
    files.iter().map(|f| f.path.clone()).collect()
}

#[test]
fn pages_join_in_order_and_complete() {
    let pages = vec![
        changed(&["src/a.rs", "src/b.rs"]),
        changed(&["docs/c.md"]),
        changed(&["src/d.rs"]),
    ];
    let all = concat_pages(&pages);
    assert_eq!(
        paths_of(&all),
        vec![
            "src/a.rs".to_string(),
            "src/b.rs".to_string(),
            "docs/c.md".to_string(),
            "src/d.rs".to_string(),
        ]
    );
}

#[test]
fn single_page_joins_to_itself() {
    let pages = vec![changed(&["x.rs", "y.rs", "z.md"])];
    let all = concat_pages(&pages);
    assert_eq!(paths_of(&all), vec!["x.rs".to_string(), "y.rs".to_string(), "z.md".to_string()]);
}

#[test]
fn no_pages_no_files() {
    let all = concat_pages(&Vec::new());
    assert_eq!(all.len(), 0);
}

#[test]
fn extension_check_edges() {
    assert!(has_source_extension(&String::from("src/lib.rs")));
    assert!(has_source_extension(&String::from(".rs")));
    assert!(has_source_extension(&String::from("a.rs")));
    assert!(!has_source_extension(&String::from("rs")));
    assert!(!has_source_extension(&String::from("")));
    assert!(!has_source_extension(&String::from("README.md")));
    assert!(!has_source_extension(&String::from("lib.Rs")));
    assert!(!has_source_extension(&String::from("lib.rs.bak")));
}

#[test]
fn non_source_files_excluded_regardless_of_presence() {
    let files = changed(&["src/lib.rs", "README.md", "src/util.rs", "Cargo.toml"]);
    let kept = filter_source_files(&files);
    assert_eq!(paths_of(&kept), vec!["src/lib.rs".to_string(), "src/util.rs".to_string()]);
}
