use xcontext::config::Config;
use xcontext::error::AppError;
use xcontext::filter::{decide_inclusion, should_include};
use xcontext::gather::{
    build_filters, classify_path, classify_walked, finish_gather, is_git_path, read_warning_lines,
    walk_settings, walk_step, FileInfo, WalkStep, WalkedPath,
};
use xcontext::glob::{build_glob_set_from_vec, dir_probe_path, glob_set_selects, process_pattern};
use xcontext::output_formats::BuiltinIgnores;
use xcontext::reader::{collect_read_results, decode_file, ReadOutcome};

fn strings(items: &[&str]) -> Vec<String> {
    items.iter().map(|s| s.to_string()).collect()
}

fn set(patterns: &[&str]) -> globset::GlobSet {
    build_glob_set_from_vec(&strings(patterns)).unwrap()
}

fn no_builtin() -> BuiltinIgnores {
    BuiltinIgnores { common: vec![], tree: vec![], source: vec![], docs: vec![] }
}

fn builtin() -> BuiltinIgnores {
    BuiltinIgnores {
        common: strings(&["*.lock", "target/"]),
        tree: strings(&["*.bin"]),
        source: strings(&["*.min.js"]),
        docs: strings(&["CHANGELOG.md"]),
    }
}

fn walked(relative: &str, is_dir: bool) -> WalkedPath {
    WalkedPath {
        path: format!("/project/{}", relative),
        relative_path: relative.to_string(),
        is_dir,
    }
}

#[test]
fn patterns_are_trimmed_and_directories_made_recursive() {
    assert_eq!(process_pattern("  *.rs \n"), "*.rs");
    assert_eq!(process_pattern("docs/"), "docs/**");
    assert_eq!(process_pattern(" docs/ "), "docs/**");
    assert_eq!(process_pattern("/"), "/**");
    assert_eq!(process_pattern("a"), "a");
    assert_eq!(process_pattern(""), "");
    assert_eq!(process_pattern("a/b"), "a/b");
    assert_eq!(process_pattern("é/"), "é/**");
}

#[test]
fn compiled_set_matches_as_globs_do() {
    let s = set(&["*.rs", "docs/", " src/lib.rs "]);
    assert_eq!(s.len(), 3);
    assert!(s.is_match("main.rs"));
    assert!(s.is_match("deep/down/main.rs"));
    assert!(s.is_match("docs/a.md"));
    assert!(s.is_match("docs/a/b.md"));
    assert!(!s.is_match("docs"));
    assert!(s.is_match("src/lib.rs"));
    assert!(!s.is_match("Cargo.toml"));
    assert!(set(&[]).is_empty());
}

#[test]
fn one_bad_pattern_fails_the_whole_list() {
    let outcome = build_glob_set_from_vec(&strings(&["*.rs", " a[ ", "{b", "ok"]));
    match outcome {
        Err(AppError::Glob(m)) => {
            let detail = globset::Glob::new("a[").unwrap_err().to_string();
            assert_eq!(m, format!("Invalid glob pattern \" a[ \" (processed as \"a[\"): {}", detail));
        }
        other => panic!("expected a glob error, got {:?}", other.map(|s| s.len())),
    }
    let outcome = build_glob_set_from_vec(&strings(&["x/{a,b"]));
    assert!(matches!(outcome, Err(AppError::Glob(ref m)) if m.starts_with("Invalid glob pattern \"x/{a,b\" (processed as \"x/{a,b\"): ")));
    assert_eq!(
        build_glob_set_from_vec(&strings(&["a["])).unwrap_err().exit_code(),
        2
    );
}

#[test]
fn a_directory_is_tested_by_a_path_inside_it() {
    assert_eq!(dir_probe_path("docs"), "docs/dummy_file_for_dir_match");
    assert_eq!(dir_probe_path("docs/"), "docs/dummy_file_for_dir_match");
    assert_eq!(dir_probe_path(""), "dummy_file_for_dir_match");
    assert_eq!(
        dir_probe_path("a/b"),
        std::path::Path::new("a/b").join("dummy_file_for_dir_match").to_string_lossy()
    );
    let s = set(&["docs/"]);
    assert!(glob_set_selects(&s, "docs", true));
    assert!(!glob_set_selects(&s, "docs", false));
    assert!(glob_set_selects(&s, "docs/a.md", false));
    assert!(!glob_set_selects(&s, "src", true));
    assert!(!glob_set_selects(&set(&[]), "anything", true));
}

#[test]
fn decision_follows_the_precedence() {
    for has_includes in [false, true] {
        for included in [false, true] {
            for use_builtin in [false, true] {
                for common in [false, true] {
                    for section in [false, true] {
                        assert!(!decide_inclusion(true, has_includes, included, use_builtin, common, section));
                        let expected = (!has_includes || included)
                            && !(use_builtin && (common || section));
                        assert_eq!(
                            decide_inclusion(false, has_includes, included, use_builtin, common, section),
                            expected
                        );
                    }
                }
            }
        }
    }
}

#[test]
fn exclude_takes_precedence_over_include() {
    let wanted = set(&["*.log", "**/*"]);
    let unwanted = set(&["*.log"]);
    let none = set(&[]);
    assert!(!should_include("app.log", false, &wanted, true, &unwanted, true, "/p", true, &none, &none));
    assert!(should_include("app.txt", false, &wanted, true, &unwanted, true, "/p", true, &none, &none));
}

#[test]
fn include_patterns_restrict_only_when_present() {
    let wanted = set(&["src/"]);
    let none = set(&[]);
    assert!(should_include("src/a.rs", false, &wanted, true, &none, false, "/p", false, &none, &none));
    assert!(!should_include("other/a.rs", false, &wanted, true, &none, false, "/p", false, &none, &none));
    assert!(should_include("src", true, &wanted, true, &none, false, "/p", false, &none, &none));
    assert!(!should_include("src", false, &wanted, true, &none, false, "/p", false, &none, &none));
    // without wanted patterns nothing is rejected by them
    assert!(should_include("other/a.rs", false, &none, false, &none, false, "/p", false, &none, &none));
    assert!(should_include("other/a.rs", false, &wanted, false, &none, false, "/p", false, &none, &none));
}

#[test]
fn builtin_ignores_count_only_when_switched_on() {
    let none = set(&[]);
    let common = set(&["*.lock"]);
    let section = set(&["target/"]);
    assert!(!should_include("Cargo.lock", false, &none, false, &none, true, "/p", true, &common, &section));
    assert!(!should_include("target", true, &none, false, &none, true, "/p", true, &common, &section));
    assert!(!should_include("target/debug/x", false, &none, false, &none, true, "/p", true, &common, &section));
    assert!(should_include("Cargo.lock", false, &none, false, &none, true, "/p", false, &common, &section));
    assert!(should_include("target", true, &none, false, &none, true, "/p", false, &common, &section));
    assert!(should_include("src/a.rs", false, &none, false, &none, true, "/p", true, &common, &section));
}

#[test]
fn excluded_log_file_is_in_no_section() {
    let mut config = Config::default();
    config.common_filters.exclude_patterns = strings(&["*.log"]);
    config.common_filters.include_patterns = strings(&["**/*", "*.log"]);
    config.tree.include_patterns = None;
    config.tree.exclude_patterns = None;
    config.source.include_patterns = None;
    config.source.exclude_patterns = None;
    config.docs.include_patterns = None;
    config.docs.exclude_patterns = None;
    let filters = build_filters(&config, &no_builtin()).unwrap();
    let class = classify_path(&config, &filters, "/project", "app.log", false);
    assert!(!class.in_tree && !class.in_source && !class.in_docs);
    let class = classify_path(&config, &filters, "/project", "logs/deep/app.log", false);
    assert!(!class.in_tree && !class.in_source && !class.in_docs);
    let class = classify_path(&config, &filters, "/project", "app.txt", false);
    assert!(class.in_tree && class.in_docs && !class.in_source);
}

#[test]
fn explicit_empty_list_is_taken_as_it_is() {
    let mut config = Config::default();
    config.docs.enabled = false;
    config.common_filters.include_patterns = strings(&["*.rs"]);
    // present and empty: no wanted filter, the common list plays no part
    config.source.include_patterns = Some(vec![]);
    // absent: the common list is used
    config.tree.include_patterns = None;
    assert!(config.get_effective_include(&config.source.include_patterns).is_empty());
    assert_eq!(config.get_effective_include(&config.tree.include_patterns), &strings(&["*.rs"]));
    let filters = build_filters(&config, &no_builtin()).unwrap();
    assert!(!filters.source.has_includes);
    assert!(filters.tree.has_includes);
    let class = classify_path(&config, &filters, "/project", "notes.txt", false);
    assert!(class.in_source);
    assert!(!class.in_tree);
    let class = classify_path(&config, &filters, "/project", "main.rs", false);
    assert!(class.in_source && class.in_tree);
}

#[test]
fn docs_take_priority_over_source() {
    let mut config = Config::default();
    config.docs.include_patterns = Some(strings(&["*.md"]));
    let filters = build_filters(&config, &no_builtin()).unwrap();
    let md = classify_path(&config, &filters, "/project", "README.md", false);
    assert!(md.in_docs && !md.in_source && md.in_tree);
    let rs = classify_path(&config, &filters, "/project", "main.rs", false);
    assert!(!rs.in_docs && rs.in_source && rs.in_tree);
    let dir = classify_path(&config, &filters, "/project", "docs", true);
    assert!(!dir.in_docs && !dir.in_source && dir.in_tree);
    // with docs switched off the file goes to source
    config.docs.enabled = false;
    let filters = build_filters(&config, &no_builtin()).unwrap();
    assert!(filters.docs.include_set.is_empty());
    assert!(!filters.docs.has_includes);
    let md = classify_path(&config, &filters, "/project", "README.md", false);
    assert!(!md.in_docs && md.in_source);
}

#[test]
fn sections_that_are_off_take_nothing() {
    let mut config = Config::default();
    config.tree.enabled = false;
    config.source.enabled = false;
    config.docs.enabled = false;
    let filters = build_filters(&config, &builtin()).unwrap();
    let class = classify_path(&config, &filters, "/project", "a.rs", false);
    assert!(!class.in_tree && !class.in_source && !class.in_docs);
}

#[test]
fn builtin_toggle_off_includes_what_only_builtin_patterns_ignore() {
    let mut config = Config::default();
    config.docs.enabled = false;
    let filters = build_filters(&config, &builtin()).unwrap();
    let lock = classify_path(&config, &filters, "/project", "Cargo.lock", false);
    assert!(!lock.in_tree && !lock.in_source);
    let bin = classify_path(&config, &filters, "/project", "a.bin", false);
    assert!(!bin.in_tree && bin.in_source);
    let min = classify_path(&config, &filters, "/project", "x.min.js", false);
    assert!(min.in_tree && !min.in_source);
    let target = classify_path(&config, &filters, "/project", "target", true);
    assert!(!target.in_tree);
    config.general.enable_builtin_ignore = false;
    for path in ["Cargo.lock", "a.bin", "x.min.js"] {
        let class = classify_path(&config, &filters, "/project", path, false);
        assert!(class.in_tree && class.in_source);
    }
    assert!(classify_path(&config, &filters, "/project", "target", true).in_tree);
}

#[test]
fn bad_pattern_fails_before_anything_is_classified() {
    let mut config = Config::default();
    config.source.exclude_patterns = Some(strings(&["ok", "b[ad"]));
    config.tree.include_patterns = Some(strings(&["fine/"]));
    match build_filters(&config, &no_builtin()) {
        Err(AppError::Glob(m)) => assert!(m.starts_with("Invalid glob pattern \"b[ad\" (processed as \"b[ad\"): ")),
        _ => panic!("expected a glob error"),
    }
    // the first failing list decides
    config.tree.exclude_patterns = Some(strings(&["{x"]));
    match build_filters(&config, &no_builtin()) {
        Err(AppError::Glob(m)) => assert!(m.starts_with("Invalid glob pattern \"{x\"")),
        _ => panic!("expected a glob error"),
    }
    // the patterns of a docs section that is off are not compiled
    let mut config = Config::default();
    config.docs.include_patterns = Some(strings(&["[bad"]));
    assert!(build_filters(&config, &no_builtin()).is_err());
    config.docs.enabled = false;
    assert!(build_filters(&config, &no_builtin()).is_ok());
    // built-in patterns are compiled too
    let mut bad = no_builtin();
    bad.docs = strings(&["[bad"]);
    assert!(build_filters(&config, &bad).is_err());
}

#[test]
fn git_directory_is_never_taken() {
    assert!(is_git_path(".git"));
    assert!(is_git_path(".git/config"));
    assert!(is_git_path(".git/"));
    assert!(!is_git_path(".gitignore"));
    assert!(!is_git_path("a/.git"));
    assert!(!is_git_path("./.git"));
    assert!(!is_git_path("/.git"));
    assert!(!is_git_path(""));
    assert!(!is_git_path(".gi"));
    for path in [".git", ".git/config", ".gitignore", "a/.git", "./.git", "", ".git/"] {
        let expected = std::path::Path::new(path).components().next()
            == Some(std::path::Component::Normal(".git".as_ref()));
        assert_eq!(is_git_path(path), expected);
    }
    let config = Config::default();
    let filters = build_filters(&config, &no_builtin()).unwrap();
    let class = classify_path(&config, &filters, "/project", ".git/HEAD", false);
    assert!(!class.in_tree && !class.in_source && !class.in_docs);
}

#[test]
fn walk_passes_the_root_and_skips_the_cache() {
    assert_eq!(walk_step(0, ""), WalkStep::Pass);
    assert_eq!(walk_step(0, ".xtools/xcontext/cache"), WalkStep::Pass);
    assert_eq!(walk_step(3, ".xtools/xcontext/cache"), WalkStep::SkipTree);
    assert_eq!(walk_step(4, ".xtools/xcontext/cache/out.json"), WalkStep::SkipTree);
    assert_eq!(walk_step(2, ".xtools/xcontext"), WalkStep::Emit);
    assert_eq!(walk_step(3, ".xtools/xcontext/cachet"), WalkStep::Emit);
    assert_eq!(walk_step(1, "src"), WalkStep::Emit);
    assert_eq!(walk_step(1, ".git"), WalkStep::SkipTree);
    assert_eq!(walk_step(2, ".git/HEAD"), WalkStep::SkipTree);
    assert_eq!(walk_step(1, ".gitignore"), WalkStep::Emit);
    assert_eq!(walk_step(2, "sub/.git"), WalkStep::Emit);
}

#[test]
fn walk_uses_at_most_twelve_threads_and_one_ignore_switch() {
    let mut config = Config::default();
    let s = walk_settings(&config, 4);
    assert_eq!(s.threads, 4);
    assert!(!s.skip_hidden && !s.require_git);
    assert!(s.ignore_files && s.git_ignore && s.git_exclude);
    assert_eq!(walk_settings(&config, 12).threads, 12);
    assert_eq!(walk_settings(&config, 64).threads, 12);
    assert_eq!(walk_settings(&config, 0).threads, 0);
    config.general.use_gitignore = false;
    let s = walk_settings(&config, 1);
    assert!(!s.ignore_files && !s.git_ignore && !s.git_exclude && !s.require_git);
}

#[test]
fn walked_paths_are_sorted_into_sections() {
    let mut config = Config::default();
    config.docs.include_patterns = Some(strings(&["*.md"]));
    config.tree.exclude_patterns = Some(strings(&["secret/"]));
    let filters = build_filters(&config, &no_builtin()).unwrap();
    let paths = vec![
        walked("src", true),
        walked("src/main.rs", false),
        walked("README.md", false),
        walked(".git", true),
        walked(".git/HEAD", false),
        walked("secret", true),
        walked("secret/key.txt", false),
    ];
    let plan = classify_walked(&config, &filters, "/project", &paths);
    assert_eq!(
        plan.tree_candidates,
        vec![
            ("src".to_string(), true),
            ("src/main.rs".to_string(), false),
            ("README.md".to_string(), false),
        ]
    );
    assert_eq!(plan.docs_file_paths, strings(&["/project/README.md"]));
    assert_eq!(
        plan.source_file_paths,
        strings(&["/project/src/main.rs", "/project/secret/key.txt"])
    );
    for doc in &plan.docs_file_paths {
        assert!(!plan.source_file_paths.contains(doc));
    }
}

#[test]
fn bytes_that_are_not_utf8_are_not_text() {
    match decode_file("/p/a.txt".to_string(), "héllo".as_bytes().to_vec()) {
        ReadOutcome::Text(file) => {
            assert_eq!(file.path, "/p/a.txt");
            assert_eq!(file.content, "héllo");
            assert_eq!(file.size, 6);
        }
        _ => panic!("expected text"),
    }
    assert!(matches!(
        decode_file("/p/a.bin".to_string(), vec![0xff, 0xfe, 0x00]),
        ReadOutcome::NotText { ref path } if path == "/p/a.bin"
    ));
    assert!(matches!(decode_file("/p/empty".to_string(), vec![]), ReadOutcome::Text(ref f) if f.size == 0 && f.content.is_empty()));
}

fn text(path: &str, content: &str) -> ReadOutcome {
    decode_file(path.to_string(), content.as_bytes().to_vec())
}

#[test]
fn failures_and_binary_files_do_not_stop_the_others() {
    let outcomes = vec![
        text("/p/b.rs", "b"),
        ReadOutcome::Failed { path: "/p/locked".to_string(), error: "permission denied".to_string() },
        decode_file("/p/image.png".to_string(), vec![0x89, 0x50, 0xff]),
        text("/p/a.rs", "a"),
    ];
    let (files, errors) = collect_read_results(outcomes);
    let paths: Vec<&str> = files.iter().map(|f| f.path.as_str()).collect();
    assert_eq!(paths, vec!["/p/b.rs", "/p/a.rs"]);
    assert_eq!(errors.len(), 1);
    assert!(matches!(
        &errors[0],
        AppError::FileRead { path, source } if path == "/p/locked" && source == "permission denied"
    ));
    assert_eq!(
        errors[0].message(),
        "File Read Error: Path '/p/locked', Error: permission denied"
    );
    for e in &errors {
        assert!(!e.message().contains("image.png"));
    }
}

#[test]
fn results_come_out_sorted_by_path() {
    let tree = vec![
        ("src/z.rs".to_string(), false),
        ("a".to_string(), true),
        ("src".to_string(), true),
        ("B".to_string(), false),
    ];
    let source = vec![
        text("/p/src/z.rs", "z"),
        ReadOutcome::Failed { path: "/p/gone".to_string(), error: "not found".to_string() },
        text("/p/a.rs", "a"),
        decode_file("/p/blob".to_string(), vec![0xc0]),
        text("/p/m.rs", "m"),
    ];
    let docs = vec![
        text("/p/docs/b.md", "b"),
        ReadOutcome::Failed { path: "/p/docs/x".to_string(), error: "io".to_string() },
        text("/p/docs/a.md", "a"),
    ];
    let result = finish_gather(tree, source, docs);
    let source_paths: Vec<&str> = result.source_files.iter().map(|f| f.path.as_str()).collect();
    assert_eq!(source_paths, vec!["/p/a.rs", "/p/m.rs", "/p/src/z.rs"]);
    let contents: Vec<&str> = result.source_files.iter().map(|f| f.content.as_str()).collect();
    assert_eq!(contents, vec!["a", "m", "z"]);
    let docs_paths: Vec<&str> = result.docs_files.iter().map(|f| f.path.as_str()).collect();
    assert_eq!(docs_paths, vec!["/p/docs/a.md", "/p/docs/b.md"]);
    assert_eq!(
        result.tree_entries,
        vec![
            ("B".to_string(), false),
            ("a".to_string(), true),
            ("src".to_string(), true),
            ("src/z.rs".to_string(), false),
        ]
    );
    let failed: Vec<String> = result.read_errors.iter().map(|e| e.message()).collect();
    assert_eq!(
        failed,
        vec![
            "File Read Error: Path '/p/gone', Error: not found".to_string(),
            "File Read Error: Path '/p/docs/x', Error: io".to_string(),
        ]
    );
}

#[test]
fn warnings_are_worded_unless_quiet() {
    let errors = vec![
        AppError::FileRead { path: "/p/x".to_string(), source: "denied".to_string() },
        AppError::FileRead { path: "/p/y".to_string(), source: "gone".to_string() },
    ];
    assert_eq!(
        read_warning_lines(&errors, false),
        strings(&[
            "",
            "⚠️ Warning: Errors encountered during file reading:",
            " - File Read Error: Path '/p/x', Error: denied",
            " - File Read Error: Path '/p/y', Error: gone",
            "---",
        ])
    );
    assert!(read_warning_lines(&errors, true).is_empty());
    assert!(read_warning_lines(&[].to_vec(), false).is_empty());
}

#[test]
fn file_info_is_plain_data() {
    let f = FileInfo { path: "/p/a".to_string(), content: "x".to_string(), size: 1 };
    let g = f.clone();
    assert_eq!(g.path, "/p/a");
    assert_eq!(g.size, 1);
}
