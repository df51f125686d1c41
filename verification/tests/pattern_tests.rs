use nishiogi::pattern::{glob_to_regex, is_ignored, IgnoreRule};

fn glob(pattern: &str) -> IgnoreRule {
    IgnoreRule::compile(pattern).expect("the glob compiles")
}

#[test]
fn log_glob_matches_log_files_only() {
    let rule = glob("*.log");
    assert!(rule.is_match("debug.log"));
    assert!(rule.is_match("error.log"));
    assert!(!rule.is_match("debug.txt"));
}

#[test]
fn glob_translation_exact_values() {
    assert_eq!(glob_to_regex("*.log"), "^.*\\.log$");
    assert_eq!(glob_to_regex("node_modules/"), "^node_modules$");
    assert_eq!(glob_to_regex("!important.log"), "^important\\.log$");
    assert_eq!(glob_to_regex("?.tmp"), "^.\\.tmp$");
    assert_eq!(glob_to_regex(""), "^$");
    assert_eq!(glob_to_regex("!"), "^$");
    assert_eq!(glob_to_regex("/"), "^$");
    assert_eq!(glob_to_regex("!/"), "^$");
    assert_eq!(glob_to_regex("a/b"), "^a/b$");
    assert_eq!(glob_to_regex("a//"), "^a/$");
    assert_eq!(glob_to_regex("!!x"), "^!x$");
}

#[test]
fn glob_translation_escapes_metacharacters() {
    assert_eq!(
        glob_to_regex(".+()|[]{}^$\\"),
        "^\\.\\+\\(\\)\\|\\[\\]\\{\\}\\^\\$\\\\$"
    );
    assert_eq!(glob_to_regex("a-b_c d"), "^a-b_c d$");
}

#[test]
fn matching_is_anchored() {
    let rule = glob("dist");
    assert!(rule.is_match("dist"));
    assert!(!rule.is_match("dist2"));
    assert!(!rule.is_match("mydist"));
    assert!(!rule.is_match("a/dist"));
}

#[test]
fn star_matches_any_run_and_question_mark_one_character() {
    let star = glob("a*z");
    assert!(star.is_match("az"));
    assert!(star.is_match("abcz"));
    assert!(!star.is_match("abc"));
    let one = glob("a?z");
    assert!(one.is_match("abz"));
    assert!(!one.is_match("az"));
    assert!(!one.is_match("abbz"));
}

#[test]
fn metacharacters_match_literally() {
    let rule = glob("a+b(1).[x]");
    assert!(rule.is_match("a+b(1).[x]"));
    assert!(!rule.is_match("aab1.x"));
    let back = glob("a\\b");
    assert!(back.is_match("a\\b"));
    assert!(!back.is_match("ab"));
}

#[test]
fn directory_rule_matches_files_too() {
    let rule = glob("build/");
    assert!(rule.is_match("build"));
    assert_eq!(rule.as_str(), "^build$");
}

#[test]
fn rule_excludes_by_name_or_by_path() {
    let rule = glob("docs/api");
    assert!(rule.excludes("api", "docs/api"));
    assert!(!rule.excludes("api", "src/api"));
    let by_name = glob("api");
    assert!(by_name.excludes("api", "src/api"));
}

#[test]
fn is_ignored_asks_every_rule() {
    let rules = vec![glob("*.o"), glob("target")];
    assert!(is_ignored(&rules, "main.o", "src/main.o"));
    assert!(is_ignored(&rules, "target", "target"));
    assert!(!is_ignored(&rules, "main.rs", "src/main.rs"));
    assert!(!is_ignored(&vec![], "main.o", "main.o"));
}

#[test]
fn regular_expression_that_does_not_compile_is_refused() {
    let error = IgnoreRule::from_regex("foo(bar").expect_err("an open group does not compile");
    assert_eq!(error.pattern, "foo(bar");
    assert!(IgnoreRule::from_regex(r"\w{1000}").is_err());
}

#[test]
fn rule_from_regular_expression_keeps_its_text() {
    let rule = IgnoreRule::from_regex(r"^\..*").expect("the expression compiles");
    assert_eq!(rule.as_str(), r"^\..*");
    assert!(rule.is_match(".hidden"));
    assert!(!rule.is_match("shown"));
    assert!(rule.duplicate().is_match(".hidden"));
}

#[test]
fn oversized_glob_is_refused_with_the_glob() {
    let huge = "?".repeat(3_000_000);
    match IgnoreRule::compile(&huge) {
        Err(error) => assert_eq!(error.pattern.len(), huge.len()),
        Ok(_) => panic!("a pattern beyond the size limit compiled"),
    }
}
