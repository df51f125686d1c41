use nishiogi::gitignore::{
    find_gitignore_patterns, find_refused_patterns, find_repo_root, parse_gitignore,
    refused_patterns, Ancestor, GitignoreFile,
};
use nishiogi::show_file::FileReadError;

fn bare() -> Ancestor {
    Ancestor { has_git_dir: false, gitignore: GitignoreFile::Absent }
}

fn with_git() -> Ancestor {
    Ancestor { has_git_dir: true, gitignore: GitignoreFile::Absent }
}

fn with_gitignore(content: &str) -> Ancestor {
    Ancestor { has_git_dir: false, gitignore: GitignoreFile::Content(content.to_string()) }
}

#[test]
fn test_find_repo_root() {
    // Initially there is no repository root: neither the directory nor
    // anything above it holds a marker.
    let base_without_marker = vec![bare(), bare(), bare()];
    assert!(find_repo_root(&base_without_marker).is_none());

    // With a .git directory the directory itself is the root.
    let base = vec![with_git(), bare(), bare()];
    let repo_root = find_repo_root(&base);
    assert!(repo_root.is_some());
    assert_eq!(repo_root.unwrap(), 0);

    // From a subdirectory the root is found one level up.
    let from_subdir = vec![bare(), with_git(), bare(), bare()];
    let repo_root_from_subdir = find_repo_root(&from_subdir);
    assert!(repo_root_from_subdir.is_some());
    assert_eq!(repo_root_from_subdir.unwrap(), 1);
}

#[test]
fn test_parse_gitignore() {
    let content = "# Comment line\n\nnode_modules/\n*.log\n!important.log\n.DS_Store\n";
    let patterns = parse_gitignore(content);

    assert_eq!(patterns.len(), 4);

    let node_modules_pattern = &patterns[0];
    assert!(node_modules_pattern.is_match("node_modules"));

    let log_pattern = &patterns[1];
    assert!(log_pattern.is_match("debug.log"));
    assert!(log_pattern.is_match("error.log"));
    assert!(!log_pattern.is_match("debug.txt"));

    let ds_store_pattern = &patterns[3];
    assert!(ds_store_pattern.is_match(".DS_Store"));
    assert!(!ds_store_pattern.is_match("DS_Store"));
}

#[test]
fn parsed_rules_are_the_translated_lines_in_file_order() {
    let rules = parse_gitignore("  target/  \n\t# indented comment\n?.tmp\r\n\n!keep.me\n");
    let sources: Vec<&str> = rules.iter().map(|r| r.as_str()).collect();
    assert_eq!(sources, vec!["^target$", "^.\\.tmp$", "^keep\\.me$"]);
}

#[test]
fn empty_gitignore_has_no_rules() {
    assert_eq!(parse_gitignore("").len(), 0);
    assert_eq!(parse_gitignore("\n\n   \n# only comments\n").len(), 0);
}

#[test]
fn negated_pattern_is_an_ordinary_rule() {
    let rules = parse_gitignore("!important.log\n");
    assert_eq!(rules.len(), 1);
    assert!(rules[0].is_match("important.log"));
    assert!(!rules[0].is_match("!important.log"));
}

#[test]
fn nearest_marker_wins() {
    let ancestors = vec![bare(), with_gitignore("a\n"), with_git()];
    assert_eq!(find_repo_root(&ancestors), Some(1));
    assert_eq!(find_repo_root(&vec![]), None);
    assert_eq!(find_repo_root(&vec![with_gitignore("")]), Some(0));
}

#[test]
fn unreadable_gitignore_marks_a_root() {
    let ancestors = vec![
        bare(),
        Ancestor { has_git_dir: false, gitignore: GitignoreFile::Unreadable("x".to_string()) },
    ];
    assert_eq!(find_repo_root(&ancestors), Some(1));
}

#[test]
fn no_ancestor_with_a_marker_gives_no_rules() {
    let rules = find_gitignore_patterns(&vec![bare(), bare(), bare()]).expect("no error");
    assert!(rules.is_empty());
    let rules = find_gitignore_patterns(&vec![]).expect("no error");
    assert!(rules.is_empty());
}

#[test]
fn rules_come_from_the_root_gitignore_only() {
    let ancestors = vec![bare(), with_gitignore("*.o\nbuild/\n"), with_gitignore("*.never\n")];
    let rules = find_gitignore_patterns(&ancestors).expect("no error");
    let sources: Vec<&str> = rules.iter().map(|r| r.as_str()).collect();
    assert_eq!(sources, vec!["^.*\\.o$", "^build$"]);
}

#[test]
fn root_without_gitignore_gives_no_rules() {
    let ancestors = vec![bare(), with_git(), with_gitignore("*.never\n")];
    let rules = find_gitignore_patterns(&ancestors).expect("no error");
    assert!(rules.is_empty());
}

#[test]
fn unreadable_root_gitignore_is_an_io_error() {
    let ancestors = vec![Ancestor {
        has_git_dir: true,
        gitignore: GitignoreFile::Unreadable("permission denied".to_string()),
    }];
    match find_gitignore_patterns(&ancestors) {
        Err(FileReadError::Io(cause)) => assert_eq!(cause, "permission denied"),
        other => panic!("unexpected outcome: {:?}", other.map(|r| r.len())),
    }
}

#[test]
fn refused_patterns_are_the_lines_that_do_not_compile() {
    let huge = "?".repeat(3_000_000);
    let content = format!("*.log\n  {huge}  \n# comment\n\nbuild/\n");
    assert_eq!(refused_patterns(&content), vec![huge.clone()]);
    let rules = parse_gitignore(&content);
    let sources: Vec<&str> = rules.iter().map(|r| r.as_str()).collect();
    assert_eq!(sources, vec!["^.*\\.log$", "^build$"]);
    assert!(refused_patterns("*.log\nbuild/\n!x\n").is_empty());
    assert!(refused_patterns("").is_empty());
}

#[test]
fn refused_patterns_are_those_of_the_root() {
    let huge = "?".repeat(3_000_000);
    let ancestors = vec![bare(), with_gitignore(&format!("{huge}\nok\n")), with_gitignore(&huge)];
    assert_eq!(find_refused_patterns(&ancestors), vec![huge.clone()]);
    assert!(find_refused_patterns(&vec![bare(), with_git(), with_gitignore(&huge)]).is_empty());
    assert!(find_refused_patterns(&vec![bare()]).is_empty());
}

#[test]
fn a_marker_makes_a_root() {
    assert!(!bare().is_root());
    assert!(with_git().is_root());
    assert!(with_gitignore("").is_root());
    assert!(Ancestor { has_git_dir: false, gitignore: GitignoreFile::Unreadable("x".to_string()) }
        .is_root());
}

#[test]
fn directories_above_the_root_do_not_count() {
    let whole = vec![bare(), with_gitignore("*.o\n"), with_gitignore("*.never\n"), with_git()];
    let up_to_root = vec![bare(), with_gitignore("*.o\n")];
    assert_eq!(find_repo_root(&whole), find_repo_root(&up_to_root));
    let a: Vec<String> =
        find_gitignore_patterns(&whole).expect("no error").iter().map(|r| r.as_str().to_string()).collect();
    let b: Vec<String> = find_gitignore_patterns(&up_to_root)
        .expect("no error")
        .iter()
        .map(|r| r.as_str().to_string())
        .collect();
    assert_eq!(a, b);
}
