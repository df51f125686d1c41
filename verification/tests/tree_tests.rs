use nishiogi::gitignore::{Ancestor, GitignoreFile};
use nishiogi::pattern::IgnoreRule;
use nishiogi::show_file::FileReadError;
use nishiogi::tree::{
    generate_tree, generate_tree_with_patterns, hidden_entries, listing_order, name_le_chars,
    order_entries, DirEntry, Snapshot,
};

fn tree(
    root: &Snapshot,
    prefix: &str,
    ignore: Option<&Vec<IgnoreRule>>,
    depth: Option<usize>,
) -> String {
    generate_tree(root, prefix, ignore, depth).expect("the rules can be read")
}

fn file(name: &str) -> DirEntry {
    DirEntry::file(name)
}

fn dir(name: &str, children: Vec<DirEntry>) -> DirEntry {
    DirEntry::dir(name, children)
}

fn plain(entries: Vec<DirEntry>) -> Snapshot {
    Snapshot { entries, ancestors: vec![] }
}

fn rule(source: &str) -> IgnoreRule {
    IgnoreRule::from_regex(source).expect("the expression compiles")
}

fn project() -> Vec<DirEntry> {
    vec![
        dir(
            "src",
            vec![
                dir(
                    "components",
                    vec![
                        dir("common", vec![file("Button.tsx"), file("Input.tsx")]),
                        file("App.tsx"),
                        file("Hello World.tsx"),
                    ],
                ),
                dir("utils", vec![file("helpers.ts")]),
                file("index.ts"),
                file("types.d.ts"),
            ],
        ),
        dir("docs", vec![dir("api", vec![file("v1.md"), file("v2.md")])]),
        dir("tests", vec![dir("unit", vec![file("helpers.test.ts")])]),
        dir("empty_dir", vec![]),
        file("README.md"),
        file(".gitignore"),
        file("package.json"),
    ]
}

#[test]
fn test_generate_tree() {
    let root = Snapshot {
        entries: project(),
        ancestors: vec![Ancestor {
            has_git_dir: false,
            gitignore: GitignoreFile::Content(String::new()),
        }],
    };
    let expected = "\
├── .gitignore
├── README.md
├── docs
│   └── api
│       ├── v1.md
│       └── v2.md
├── empty_dir
├── package.json
├── src
│   ├── components
│   │   ├── App.tsx
│   │   ├── Hello World.tsx
│   │   └── common
│   │       ├── Button.tsx
│   │       └── Input.tsx
│   ├── index.ts
│   ├── types.d.ts
│   └── utils
│       └── helpers.ts
└── tests
    └── unit
        └── helpers.test.ts
";
    let result = generate_tree(&root, "", None, None).expect("Failed to generate tree");
    assert_eq!(result, expected);
}

#[test]
fn test_generate_tree_ignore() {
    let root = plain(vec![file("a.txt"), file(".hidden"), file("b.txt")]);
    let expected = "\
├── a.txt
└── b.txt
";
    let ignore = vec![rule(r"^\..*")];
    let result = generate_tree(&root, "", Some(&ignore), None).expect("Failed to generate tree");
    assert_eq!(result, expected);
}

#[test]
fn test_generate_tree_depth_limited() {
    let root = plain(vec![file("a.txt"), dir("subdir", vec![file("b.txt")])]);

    let expected_depth1 = "\
├── a.txt
└── subdir
";
    let result_depth1 = generate_tree(&root, "", None, Some(1)).expect("Failed to generate tree");
    assert_eq!(result_depth1, expected_depth1);

    let expected_depth2 = "\
├── a.txt
└── subdir
    └── b.txt
";
    let result_depth2 = generate_tree(&root, "", None, Some(2)).expect("Failed to generate tree");
    assert_eq!(result_depth2, expected_depth2);
}

#[test]
fn test_gitignore_integration() {
    let root = Snapshot {
        entries: vec![
            dir(".git", vec![]),
            file(".gitignore"),
            dir("src", vec![file("index.js"), file("app.log")]),
            dir("node_modules", vec![dir("example", vec![file("package.json")])]),
            dir("dist", vec![]),
            file("README.md"),
            file("package.json"),
            file("npm-debug.log"),
            file(".DS_Store"),
        ],
        ancestors: vec![Ancestor {
            has_git_dir: true,
            gitignore: GitignoreFile::Content(
                "# Node modules\nnode_modules/\n*.log\n.DS_Store\ndist\n".to_string(),
            ),
        }],
    };
    let expected = "\
├── .git
├── .gitignore
├── README.md
├── package.json
└── src
    └── index.js
";
    let result = generate_tree(&root, "", None, None).expect("Failed to generate tree");
    assert_eq!(result, expected);
}

#[test]
fn depth_zero_is_empty_for_any_tree_and_rules() {
    let rules = vec![rule("^a$")];
    assert_eq!(tree(&plain(project()), "", None, Some(0)), "");
    assert_eq!(tree(&plain(project()), "", Some(&rules), Some(0)), "");
    assert_eq!(tree(&plain(vec![]), "", None, Some(0)), "");
    assert_eq!(generate_tree_with_patterns(&project(), "> ", "x/", &rules, Some(0)), "");
}

#[test]
fn depth_one_lists_direct_children_only() {
    let expected = "\
├── .gitignore
├── README.md
├── docs
├── empty_dir
├── package.json
├── src
└── tests
";
    assert_eq!(tree(&plain(project()), "", None, Some(1)), expected);
}

#[test]
fn empty_directory_renders_nothing() {
    assert_eq!(tree(&plain(vec![]), "", None, None), "");
}

#[test]
fn single_entry_gets_the_corner() {
    assert_eq!(tree(&plain(vec![file("only")]), "", None, None), "└── only\n");
}

#[test]
fn prefix_starts_every_line() {
    let root = plain(vec![dir("d", vec![file("x"), file("y")]), file("z")]);
    let expected = "\
# ├── d
# │   ├── x
# │   └── y
# └── z
";
    assert_eq!(tree(&root, "# ", None, None), expected);
}

#[test]
fn nested_last_entries_indent_with_blanks() {
    let root = plain(vec![dir("a", vec![dir("b", vec![dir("c", vec![file("d")])])])]);
    let expected = "\
└── a
    └── b
        └── c
            └── d
";
    assert_eq!(tree(&root, "", None, None), expected);
}

#[test]
fn entries_are_sorted_by_code_point() {
    let root = plain(vec![file("b"), file("a"), file("B"), file("_"), file("10"), file("9"), file("é")]);
    let expected = "\
├── 10
├── 9
├── B
├── _
├── a
├── b
└── é
";
    assert_eq!(tree(&root, "", None, None), expected);
}

#[test]
fn a_name_sorts_before_its_extensions() {
    let root = plain(vec![file("ab"), file("a"), file("abc")]);
    assert_eq!(tree(&root, "", None, None), "├── a\n├── ab\n└── abc\n");
}

#[test]
fn listing_order_gives_indices_by_name() {
    let entries = vec![file("c"), file("a"), file("skip.log"), file("b")];
    let rules = vec![IgnoreRule::compile("*.log").expect("the glob compiles")];
    assert_eq!(listing_order(&entries, "", &rules), vec![1, 3, 0]);
}

#[test]
fn ignored_directory_hides_its_whole_subtree() {
    let rules = vec![IgnoreRule::compile("target").expect("the glob compiles")];
    let with_content = plain(vec![
        file("Cargo.toml"),
        dir("target", vec![dir("debug", vec![file("app")]), file("CACHEDIR.TAG")]),
    ]);
    let emptied = plain(vec![file("Cargo.toml"), dir("target", vec![])]);
    let as_file = plain(vec![file("Cargo.toml"), file("target")]);
    let expected = "└── Cargo.toml\n";
    assert_eq!(tree(&with_content, "", Some(&rules), None), expected);
    assert_eq!(tree(&emptied, "", Some(&rules), None), expected);
    assert_eq!(tree(&as_file, "", Some(&rules), None), expected);
}

#[test]
fn rule_applies_at_every_level() {
    let rules = vec![IgnoreRule::compile("*.log").expect("the glob compiles")];
    let root = plain(vec![
        file("a.log"),
        dir("logs", vec![file("b.log"), file("keep.txt")]),
    ]);
    assert_eq!(tree(&root, "", Some(&rules), None), "└── logs\n    └── keep.txt\n");
}

#[test]
fn rule_can_match_the_path_from_the_root() {
    let rules = vec![IgnoreRule::compile("docs/api").expect("the glob compiles")];
    let root = plain(vec![
        dir("api", vec![file("kept")]),
        dir("docs", vec![dir("api", vec![file("hidden")]), file("index.md")]),
    ]);
    let expected = "\
├── api
│   └── kept
└── docs
    └── index.md
";
    assert_eq!(tree(&root, "", Some(&rules), None), expected);
}

#[test]
fn any_matching_rule_hides_an_entry() {
    let rules = vec![rule("^zzz$"), rule("^b$"), rule("^a$")];
    let root = plain(vec![file("a"), file("b"), file("c")]);
    assert_eq!(tree(&root, "", Some(&rules), None), "└── c\n");
}

#[test]
fn explicit_rules_replace_discovered_ones() {
    let root = Snapshot {
        entries: vec![file("a.log"), file("b.txt")],
        ancestors: vec![Ancestor {
            has_git_dir: true,
            gitignore: GitignoreFile::Content("*.log\n".to_string()),
        }],
    };
    let none: Vec<IgnoreRule> = vec![];
    assert_eq!(tree(&root, "", None, None), "└── b.txt\n");
    assert_eq!(tree(&root, "", Some(&none), None), "├── a.log\n└── b.txt\n");
}

#[test]
fn unreadable_gitignore_is_an_io_error() {
    let root = Snapshot {
        entries: vec![file("a.log")],
        ancestors: vec![Ancestor {
            has_git_dir: true,
            gitignore: GitignoreFile::Unreadable("permission denied".to_string()),
        }],
    };
    for depth in [None, Some(0), Some(1)] {
        match generate_tree(&root, "", None, depth) {
            Err(FileReadError::Io(cause)) => assert_eq!(cause, "permission denied"),
            other => panic!("unexpected outcome: {:?}", other),
        }
    }
    // Rules that are given are used, and nothing is looked for.
    let none: Vec<IgnoreRule> = vec![];
    assert_eq!(tree(&root, "", Some(&none), None), "└── a.log\n");
}

#[test]
fn files_do_not_show_children() {
    let odd = DirEntry { name: "f".to_string(), is_dir: false, children: vec![file("ghost")] };
    assert_eq!(tree(&plain(vec![odd]), "", None, None), "└── f\n");
}

#[test]
fn entries_with_the_same_name_keep_their_order() {
    let root = plain(vec![
        dir("x", vec![file("first")]),
        file("a"),
        dir("x", vec![file("second")]),
    ]);
    let expected = "\
├── a
├── x
│   └── first
└── x
    └── second
";
    assert_eq!(tree(&root, "", None, None), expected);
}

#[test]
fn hidden_entries_asks_the_rules_about_name_and_path() {
    let entries = vec![file("api"), file("a.log"), file("b")];
    let rules = vec![
        IgnoreRule::compile("*.log").expect("the glob compiles"),
        IgnoreRule::compile("docs/api").expect("the glob compiles"),
    ];
    assert_eq!(hidden_entries(&entries, "", &rules), vec![false, true, false]);
    assert_eq!(hidden_entries(&entries, "docs/", &rules), vec![true, true, false]);
    assert_eq!(hidden_entries(&entries, "docs/", &vec![]), vec![false, false, false]);
    assert_eq!(hidden_entries(&vec![], "", &rules), Vec::<bool>::new());
}

#[test]
fn order_entries_sorts_what_is_not_marked() {
    let entries = vec![file("d"), file("b"), file("c"), file("a")];
    assert_eq!(order_entries(&entries, &vec![false, false, false, false]), vec![3, 1, 2, 0]);
    assert_eq!(order_entries(&entries, &vec![false, true, false, true]), vec![2, 0]);
    assert_eq!(order_entries(&entries, &vec![true, true, true, true]), Vec::<usize>::new());
    // Flags that do not reach an entry leave it shown.
    assert_eq!(order_entries(&entries, &vec![true]), vec![3, 1, 2]);
    assert_eq!(order_entries(&entries, &vec![]), vec![3, 1, 2, 0]);
}

#[test]
fn names_compare_by_code_point() {
    let le = |a: &str, b: &str| name_le_chars(&a.chars().collect(), &b.chars().collect());
    assert!(le("", ""));
    assert!(le("", "a"));
    assert!(!le("a", ""));
    assert!(le("a", "a"));
    assert!(le("a", "ab"));
    assert!(!le("ab", "a"));
    assert!(le("B", "a"));
    assert!(!le("a", "B"));
    assert!(le("z", "é"));
    for (a, b) in [("x", "y"), ("10", "9"), ("a/b", "a0"), ("é", "ée"), ("Z", "_")] {
        assert_eq!(le(a, b), a <= b);
        assert_eq!(le(b, a), b <= a);
    }
}
