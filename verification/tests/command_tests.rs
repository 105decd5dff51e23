use xcontext::commands::{
    chunk_is_pretty, chunked_output, confirms_overwrite, ChunkedOutput, completion_file_name, completion_shell, config_file_changed,
    import_candidates, needs_final_newline, output_kind, prompt_key, quick_pattern,
    rule_key_candidates, trim_trailing_separators, watch_step, ChangedPath, OutputKind,
    QuickReading, ShellKind, WatchAction, WatchEvent,
};
use xcontext::config::Config;
use xcontext::metrics::{calculate_metrics, line_count, MeasuredFile};

fn strings(items: &[&str]) -> Vec<String> {
    items.iter().map(|s| s.to_string()).collect()
}

fn pair(k: &str, v: &str) -> (String, String) {
    (k.to_string(), v.to_string())
}

#[test]
fn output_kinds() {
    assert_eq!(output_kind("yaml"), OutputKind::Yaml);
    assert_eq!(output_kind("yml"), OutputKind::Yaml);
    assert_eq!(output_kind("xml"), OutputKind::Xml);
    assert_eq!(output_kind("json"), OutputKind::Json);
    assert_eq!(output_kind("anything"), OutputKind::Json);
    assert_eq!(output_kind("YAML"), OutputKind::Json);
    assert!(needs_final_newline("abc"));
    assert!(needs_final_newline(""));
    assert!(!needs_final_newline("abc\n"));
    assert!(chunk_is_pretty(false, false));
    assert!(!chunk_is_pretty(false, true));
    assert!(chunk_is_pretty(true, true));
}

#[test]
fn main_output_after_chunking() {
    assert_eq!(chunked_output(true, false, false), ChunkedOutput::File);
    assert_eq!(chunked_output(true, true, true), ChunkedOutput::File);
    assert_eq!(chunked_output(false, true, true), ChunkedOutput::Stdout);
    assert_eq!(chunked_output(false, false, false), ChunkedOutput::Announce);
    assert_eq!(chunked_output(false, false, true), ChunkedOutput::Silent);
}

#[test]
fn overwrite_needs_a_yes() {
    for answer in ["y", "Y", " y\n", "\tY \r\n"] {
        assert!(confirms_overwrite(answer));
    }
    for answer in ["", "n", "yes", "yy", "N", "\n", "y e"] {
        assert!(!confirms_overwrite(answer));
    }
    for answer in ["y", "Y", " y\n", "", "n", "yes", "yy", "\n"] {
        assert_eq!(confirms_overwrite(answer), answer.trim().eq_ignore_ascii_case("y"));
    }
}

#[test]
fn quick_patterns() {
    assert_eq!(quick_pattern("src", true), ("src**/*".to_string(), QuickReading::Directory));
    assert_eq!(quick_pattern("src/", true), ("src**/*".to_string(), QuickReading::Directory));
    assert_eq!(quick_pattern("gone//", false), ("gone".to_string(), QuickReading::NoSuchDirectory));
    assert_eq!(quick_pattern("a\\", false), ("a".to_string(), QuickReading::NoSuchDirectory));
    assert_eq!(quick_pattern("src/**/*.rs", false), ("src/**/*.rs".to_string(), QuickReading::AsGiven));
    assert_eq!(trim_trailing_separators("a/b/\\/"), "a/b");
    assert_eq!(trim_trailing_separators("///"), "");
    for text in ["a/b/\\/", "///", "", "x", "x/"] {
        assert_eq!(trim_trailing_separators(text), text.trim_end_matches(['/', '\\']));
    }
}

#[test]
fn completion_names() {
    assert_eq!(completion_shell("fish"), Some(ShellKind::Fish));
    assert_eq!(completion_shell("bash"), Some(ShellKind::Bash));
    assert_eq!(completion_shell("zsh"), Some(ShellKind::Zsh));
    assert_eq!(completion_shell("powershell"), None);
    assert_eq!(completion_file_name(ShellKind::Fish, "xcontext"), "xcontext.fish");
    assert_eq!(completion_file_name(ShellKind::Bash, "xcontext"), "xcontext.bash");
    assert_eq!(completion_file_name(ShellKind::Zsh, "xcontext"), "_xcontext");
}

#[test]
fn prompt_and_rule_keys() {
    let prompts = vec![pair("static:review", "r"), pair("custom:mine", "m"), pair("imported:team", "t"), pair("custom:review", "c")];
    assert_eq!(prompt_key(&prompts, "review"), "static:review");
    assert_eq!(prompt_key(&prompts, "mine"), "custom:mine");
    assert_eq!(prompt_key(&prompts, "team"), "imported:team");
    assert_eq!(prompt_key(&prompts, "nope"), "nope");
    assert_eq!(prompt_key(&prompts, "custom:review"), "custom:review");
    assert_eq!(prompt_key(&prompts, "x:y"), "x:y");
    assert_eq!(
        rule_key_candidates("rust"),
        strings(&["rust", "static:rust", "imported:rust", "custom:rust"])
    );
    assert_eq!(
        rule_key_candidates("custom:team"),
        strings(&["custom:team", "static:team", "imported:team", "custom:team"])
    );
    assert_eq!(rule_key_candidates("a:b:"), strings(&["a:b:", "static:", "imported:", "custom:"]));
}

#[test]
fn imports_are_looked_for_in_two_places() {
    assert_eq!(
        import_candidates("/p", "rules/x.org"),
        ("/p/rules/x.org".to_string(), "/p/.xtools/xcontext/rules/x.org".to_string())
    );
    assert_eq!(
        import_candidates("/p", "/abs/x.org"),
        ("/abs/x.org".to_string(), "/abs/x.org".to_string())
    );
}

#[test]
fn watching() {
    let changes = vec![
        ChangedPath { path: "/p/src/a.rs".to_string(), canonical: Some("/p/src/a.rs".to_string()) },
        ChangedPath { path: "/p/link.toml".to_string(), canonical: Some("/p/real.toml".to_string()) },
        ChangedPath { path: "/p/gone.toml".to_string(), canonical: None },
    ];
    assert!(config_file_changed("/p/conf.toml", &Some("/p/real.toml".to_string()), &changes));
    assert!(!config_file_changed("/p/link.toml", &Some("/p/other.toml".to_string()), &changes[..2].to_vec()));
    assert!(config_file_changed("/p/gone.toml", &Some("/p/other.toml".to_string()), &changes));
    assert!(config_file_changed("/p/link.toml", &None, &changes));
    assert!(!config_file_changed("/p/conf.toml", &None, &changes));
    assert!(!config_file_changed("/p/conf.toml", &None, &vec![]));
    assert_eq!(watch_step(WatchEvent::Changes { count: 0, config_changed: true }), WatchAction::Wait);
    assert_eq!(
        watch_step(WatchEvent::Changes { count: 2, config_changed: false }),
        WatchAction::Regenerate { reload_config: false }
    );
    assert_eq!(
        watch_step(WatchEvent::Changes { count: 1, config_changed: true }),
        WatchAction::Regenerate { reload_config: true }
    );
    assert_eq!(watch_step(WatchEvent::Failure), WatchAction::Report);
    assert_eq!(watch_step(WatchEvent::Closed), WatchAction::Stop);
}

#[test]
fn lines_are_counted_as_the_standard_library_counts_them() {
    for text in ["", "a", "a\n", "a\nb", "a\r\nb\r\n", "\n", "\n\n", "a\n\nb", "a\r"] {
        assert_eq!(line_count(text), text.lines().count());
    }
    assert_eq!(line_count("one\ntwo\nthree"), 3);
}

fn measured(path: &str, content: &str, tokens: usize) -> MeasuredFile {
    MeasuredFile { path: path.to_string(), content: content.to_string(), size: content.len(), tokens }
}

#[test]
fn project_figures() {
    let files = vec![
        measured("/p/src/b.rs", "fn b() {}\n", 5),
        measured("/p/empty.rs", "", 0),
        measured("/p/a.md", "# A\n\ntext", 4),
    ];
    let m = calculate_metrics(&files, "/p");
    assert_eq!(m.total_files, 2);
    assert_eq!(m.total_lines, 4);
    assert_eq!(m.total_bytes, 19);
    assert_eq!(m.estimated_tokens, 9);
    assert_eq!(m.total_bytes_readable, "19 B");
    let details: Vec<(&str, usize, usize, &str, usize)> = m
        .files_details
        .iter()
        .map(|f| (f.path.as_str(), f.lines, f.bytes, f.bytes_readable.as_str(), f.estimated_tokens))
        .collect();
    assert_eq!(details, vec![("a.md", 3, 9, "9 B", 4), ("src/b.rs", 1, 10, "10 B", 5)]);
    let big = vec![MeasuredFile { path: "/p/x".to_string(), content: "x".to_string(), size: 2048, tokens: 1 }];
    assert_eq!(calculate_metrics(&big, "/p").total_bytes_readable, "2 KiB");
    let none = calculate_metrics(&vec![], "/p");
    assert_eq!((none.total_files, none.total_bytes), (0, 0));
    assert!(none.files_details.is_empty());
}

#[test]
fn watch_delay_with_exponent() {
    let mut c = Config::default();
    c.watch.delay = "1e3s".to_string();
    assert_eq!(c.get_watch_delay().unwrap(), 1_000_000_000_000);
    c.watch.delay = "1e99999s".to_string();
    assert_eq!(
        c.get_watch_delay().unwrap_err().message(),
        "Invalid Argument: Invalid watch delay duration '1e99999s': exponent has more than four digits. Use format like '500ms', '2s'."
    );
    c.watch.delay = "2E-12345 s".to_string();
    assert!(c.get_watch_delay().is_err());
    c.watch.delay = "5 seconds".to_string();
    assert_eq!(c.get_watch_delay().unwrap(), 5_000_000_000);
}
