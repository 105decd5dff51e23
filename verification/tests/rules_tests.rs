use xcontext::config::{Config, PromptsConfig, RulesConfig};
use xcontext::context::{join_texts, ProjectContext};
use xcontext::error::AppError;
use xcontext::gather::FileInfo;
use xcontext::output_formats::{
    get_ai_readme_text, get_builtin_ignore_patterns, get_predefined_prompts, get_predefined_text,
    AiReadmeText, BuiltinIgnores, SourceRepresentation, StaticData, TextType,
};
use xcontext::pairs::{clone_pairs, find_pair, get_pair, set_pair};
use xcontext::resolve::{resolve_prompts, resolve_rules, ImportedText, ResolvedRules};
use xcontext::rules::mapping::{get_default_rule_stems, map_characteristic_to_rule_stem};
use xcontext::rules::{
    detect_project_characteristics, get_static_rule_content, note_file_traits, FileNameParts,
};
use xcontext::system::{system_info_from, SystemInfo};
use xcontext::tree::build_tree_from_paths;

fn strings(items: &[&str]) -> Vec<String> {
    items.iter().map(|s| s.to_string()).collect()
}

fn pair(k: &str, v: &str) -> (String, String) {
    (k.to_string(), v.to_string())
}

fn readme() -> AiReadmeText {
    AiReadmeText {
        intro: "INTRO".to_string(),
        key_sections_header: "HEADER".to_string(),
        project_name_desc: "name".to_string(),
        project_root_desc: "root".to_string(),
        system_info_desc: "system".to_string(),
        meta_desc: "meta".to_string(),
        docs_desc: "docs".to_string(),
        tree_desc: "tree".to_string(),
        source_files_desc: "files".to_string(),
        source_chunks_desc: "chunks".to_string(),
        source_missing_desc: "no-source".to_string(),
        rules_desc: "rules".to_string(),
        rules_missing_desc: "no-rules".to_string(),
        timestamp_desc: "time".to_string(),
    }
}

fn data() -> StaticData {
    StaticData {
        prompts: vec![pair("review", "Review this."), pair("explain", "Explain this.")],
        ai_readme: readme(),
        builtin_ignores: BuiltinIgnores {
            common: strings(&["*.lock"]),
            tree: vec![],
            source: vec![],
            docs: vec![],
        },
        rule_files: vec![
            ("rules/general.org".to_string(), b"* General\n  be kind \n\n".to_vec()),
            ("rules/guidelines.org".to_string(), b"one\r\ntwo\r\n".to_vec()),
            ("rules/rust.org".to_string(), b"use clippy".to_vec()),
            ("rules/ruby.org".to_string(), b"use rubocop".to_vec()),
            ("rules/broken.org".to_string(), vec![0x66, 0xff]),
            ("rules/extra.org".to_string(), b"extra rule".to_vec()),
        ],
    }
}

fn rule_sets(resolved: &ResolvedRules) -> Vec<(String, Vec<String>)> {
    resolved.rulesets.iter().map(|(k, v)| (k.clone(), v.clone())).collect()
}

#[test]
fn traits_map_to_rule_stems() {
    let cases = [
        ("rs", Some("rust")),
        ("rb", Some("ruby")),
        ("c", Some("c")),
        ("h", Some("c")),
        ("cpp", Some("cpp")),
        ("hpp", Some("cpp")),
        ("go", Some("go")),
        ("js", Some("javascript")),
        ("cjs", Some("javascript")),
        ("mjs", Some("javascript")),
        ("jsx", Some("javascript")),
        ("ts", Some("typescript")),
        ("tsx", Some("typescript")),
        ("php", Some("php")),
        ("org", Some("documentation")),
        ("md", Some("documentation")),
        ("json", Some("config_file")),
        ("yaml", Some("config_file")),
        ("yml", Some("config_file")),
        ("toml", Some("config_file")),
        ("xml", Some("config_file")),
        ("rake", Some("rakefile")),
        ("Rakefile", Some("rakefile")),
        ("Gemfile", Some("ruby")),
        ("RS", None),
        ("rakefile", None),
        ("Cargo.toml", None),
        ("", None),
    ];
    for (characteristic, stem) in cases {
        assert_eq!(map_characteristic_to_rule_stem(characteristic), stem);
    }
    assert_eq!(get_default_rule_stems(), strings(&["general", "guidelines", "documentation"]));
}

#[test]
fn static_rule_files_are_looked_up_by_stem() {
    let d = data();
    assert_eq!(get_static_rule_content(&d, "rust").unwrap(), "use clippy");
    assert!(matches!(
        get_static_rule_content(&d, "missing"),
        Err(AppError::RuleLoading(ref m)) if m == "Static rule file not found in embed: rules/missing.org"
    ));
    match get_static_rule_content(&d, "broken") {
        Err(AppError::RuleLoading(m)) => {
            let detail = String::from_utf8(vec![0x66, 0xff]).unwrap_err().to_string();
            assert_eq!(m, format!("UTF-8 error in embedded rule rules/broken.org: {}", detail));
        }
        _ => panic!("expected a rule loading error"),
    }
}

#[test]
fn project_traits_come_from_file_names() {
    let files = vec![
        FileNameParts { file_name: Some("main.RS".to_string()), extension: Some("RS".to_string()) },
        FileNameParts { file_name: Some("Cargo.toml".to_string()), extension: Some("toml".to_string()) },
        FileNameParts { file_name: Some("Rakefile".to_string()), extension: None },
        FileNameParts { file_name: Some("lib.rs".to_string()), extension: Some("rs".to_string()) },
        FileNameParts { file_name: Some("tasks.rake".to_string()), extension: Some("rake".to_string()) },
        FileNameParts { file_name: None, extension: None },
        FileNameParts { file_name: Some("notes".to_string()), extension: None },
    ];
    assert_eq!(
        detect_project_characteristics(&files),
        strings(&["rs", "Cargo.toml", "toml", "Rakefile", "rake"])
    );
    let mut traits = strings(&["md"]);
    note_file_traits(
        &mut traits,
        &FileNameParts { file_name: Some("Makefile".to_string()), extension: Some("MD".to_string()) },
    );
    assert_eq!(traits, strings(&["md", "Makefile"]));
}

#[test]
fn rules_off_resolve_to_nothing() {
    let mut config = RulesConfig::default();
    config.enabled = false;
    config.include_stems = strings(&["rust"]);
    let resolved = resolve_rules(&config, &strings(&["rs"]), &data(), &vec![]).unwrap();
    assert!(resolved.rulesets.is_empty());
    assert!(resolved.origins.is_empty());
}

#[test]
fn rules_are_resolved_in_order_with_origins() {
    let mut config = RulesConfig::default();
    config.exclude_stems = strings(&["guidelines"]);
    config.include_stems = strings(&["extra", "general", "missing"]);
    config.custom.insert("team".to_string(), strings(&[" no force push ", "", "  ", "review twice"]));
    config.custom.insert("empty".to_string(), vec![]);
    config.custom.insert("blank".to_string(), strings(&["  "]));
    let imported = vec![
        ImportedText { stem: "house".to_string(), content: "\n tidy up \n".to_string() },
    ];
    let traits = strings(&["RS", "Gemfile", "unknown", "rs"]);
    let resolved = resolve_rules(&config, &traits, &data(), &imported).unwrap();
    assert_eq!(
        rule_sets(&resolved),
        vec![
            ("static:general".to_string(), strings(&["* General", "be kind"])),
            ("static:rust".to_string(), strings(&["use clippy"])),
            ("static:ruby".to_string(), strings(&["use rubocop"])),
            ("static:extra".to_string(), strings(&["extra rule"])),
            ("imported:house".to_string(), strings(&["tidy up"])),
            ("custom:team".to_string(), strings(&["no force push", "review twice"])),
            ("custom:blank".to_string(), vec![]),
        ]
    );
    assert_eq!(
        resolved.origins,
        vec![
            pair("static:general", "default+include"),
            pair("static:rust", "dynamic"),
            pair("static:ruby", "dynamic"),
            pair("static:extra", "include"),
            pair("imported:house", "import"),
            pair("custom:team", "custom"),
            pair("custom:blank", "custom"),
        ]
    );
    let copy = resolved.duplicate();
    assert_eq!(rule_sets(&copy), rule_sets(&resolved));
    assert_eq!(copy.origins, resolved.origins);
}

#[test]
fn default_rules_without_traits() {
    let resolved = resolve_rules(&RulesConfig::default(), &vec![], &data(), &vec![]).unwrap();
    assert_eq!(
        rule_sets(&resolved),
        vec![
            ("static:general".to_string(), strings(&["* General", "be kind"])),
            ("static:guidelines".to_string(), strings(&["one", "two"])),
        ]
    );
    assert_eq!(
        resolved.origins,
        vec![pair("static:general", "default"), pair("static:guidelines", "default")]
    );
}

#[test]
fn later_rule_set_replaces_earlier_under_the_same_key() {
    let mut config = RulesConfig::default();
    config.exclude_stems = strings(&["general", "guidelines", "documentation"]);
    let imported = vec![
        ImportedText { stem: "a".to_string(), content: "first".to_string() },
        ImportedText { stem: "b".to_string(), content: "other".to_string() },
        ImportedText { stem: "a".to_string(), content: "second".to_string() },
    ];
    let resolved = resolve_rules(&config, &vec![], &data(), &imported).unwrap();
    assert_eq!(
        rule_sets(&resolved),
        vec![
            ("imported:a".to_string(), strings(&["second"])),
            ("imported:b".to_string(), strings(&["other"])),
        ]
    );
}

#[test]
fn prompts_are_resolved() {
    let mut config = PromptsConfig::default();
    config.custom = vec![pair("mine", "Do it."), pair("blank", "  \n"), pair("mine", "Do it again.")];
    let imported = vec![
        ImportedText { stem: "team".to_string(), content: "Team prompt".to_string() },
        ImportedText { stem: "void".to_string(), content: " ".to_string() },
    ];
    let resolved = resolve_prompts(&config, &data(), &imported).unwrap();
    assert_eq!(
        resolved,
        vec![
            pair("static:review", "Review this."),
            pair("static:explain", "Explain this."),
            pair("imported:team", "Team prompt"),
            pair("custom:mine", "Do it again."),
        ]
    );
}

#[test]
fn predefined_texts() {
    let d = data();
    assert_eq!(get_predefined_prompts(&d), &d.prompts);
    assert_eq!(get_ai_readme_text(&d).intro, "INTRO");
    assert_eq!(get_builtin_ignore_patterns(&d).common, strings(&["*.lock"]));
    assert_eq!(get_predefined_text(&d, "review", TextType::Prompt).unwrap(), "Review this.");
    assert!(matches!(
        get_predefined_text(&d, "nope", TextType::Prompt),
        Err(AppError::Config(ref m)) if m == "Predefined prompt name \\\"nope\\\" specified in config not found."
    ));
}

#[test]
fn pairs_behave_as_a_map() {
    let mut pairs = vec![pair("a", "1"), pair("b", "2")];
    assert_eq!(find_pair(&pairs, "b"), Some(1));
    assert_eq!(find_pair(&pairs, "c"), None);
    assert_eq!(get_pair(&pairs, "a"), Some(&"1".to_string()));
    set_pair(&mut pairs, "a".to_string(), "3".to_string());
    set_pair(&mut pairs, "c".to_string(), "4".to_string());
    assert_eq!(pairs, vec![pair("a", "3"), pair("b", "2"), pair("c", "4")]);
    assert_eq!(clone_pairs(&pairs), pairs);
}

#[test]
fn system_info_notes_when_nothing_is_known() {
    let info = system_info_from(
        Some("/bin/sh".to_string()),
        None,
        Some("Linux".to_string()),
        None,
        Some("6.1".to_string()),
        None,
    )
    .unwrap();
    assert_eq!(info.shell.as_deref(), Some("/bin/sh"));
    assert_eq!(info.os_name.as_deref(), Some("Linux"));
    assert_eq!(info.kernel_version.as_deref(), Some("6.1"));
    assert!(info.term.is_none() && info.os_version.is_none() && info.hostname.is_none());
    assert!(info.error.is_none());
    let info = system_info_from(None, None, None, Some("1".to_string()), None, None).unwrap();
    assert_eq!(info.error.as_deref(), Some("Failed to retrieve OS name and hostname."));
    let info = system_info_from(None, None, None, None, None, Some("host".to_string())).unwrap();
    assert!(info.error.is_none());
    assert!(SystemInfo::default().error.is_none());
}

#[test]
fn texts_are_joined() {
    assert_eq!(join_texts(&vec!["a", "b", "c"], ", "), "a, b, c");
    assert_eq!(join_texts(&vec!["a"], ", "), "a");
    assert_eq!(join_texts(&vec![], ", "), "");
    assert_eq!(join_texts(&vec!["", ""], "-"), "-");
}

fn resolved_with_one_rule() -> ResolvedRules {
    let mut config = RulesConfig::default();
    config.exclude_stems = strings(&["guidelines", "documentation"]);
    resolve_rules(&config, &vec![], &data(), &vec![]).unwrap()
}

fn no_rules() -> ResolvedRules {
    let mut config = RulesConfig::default();
    config.enabled = false;
    resolve_rules(&config, &vec![], &data(), &vec![]).unwrap()
}

#[test]
fn context_is_put_together_from_its_parts() {
    let config = Config::default();
    let tree = build_tree_from_paths(&[("a".to_string(), false)]).unwrap();
    let ctx = ProjectContext::build(
        "/work/demo",
        &config,
        Some(tree),
        resolved_with_one_rule(),
        vec![pair("static:review", "Review this.")],
        Some(SystemInfo::default()),
        Some("2024-01-01T00:00:00Z".to_string()),
        &readme(),
    )
    .unwrap();
    assert_eq!(ctx.project_name.as_deref(), Some("demo"));
    assert_eq!(ctx.project_root.as_deref(), Some("/work/demo"));
    assert!(ctx.system_info.is_some());
    assert_eq!(ctx.meta, Some(vec![pair("author", "json")]));
    assert!(ctx.docs.is_none() && ctx.source.is_none());
    assert_eq!(ctx.tree.as_ref().map(|t| t.len()), Some(1));
    assert_eq!(ctx.rules.len(), 1);
    assert_eq!(ctx.prompts, Some(vec![pair("static:review", "Review this.")]));
    assert_eq!(ctx.generation_timestamp.as_deref(), Some("2024-01-01T00:00:00Z"));
    assert_eq!(ctx.resolved_rules_debug.as_ref().map(|r| r.origins.clone()), Some(vec![pair("static:general", "default")]));
    // the parts are joined by a backslash and the letter n
    assert_eq!(
        ctx.ai_readme.as_deref(),
        Some("INTRO\\nHEADER\\nname\\nroot\\nsystem\\nmeta\\ntree\\nno-source\\nrules\\ntime")
    );
}

#[test]
fn context_leaves_out_what_is_switched_off() {
    let mut config = Config::default();
    config.output.include_project_name = false;
    config.output.include_project_root = false;
    config.output.include_system_info = false;
    config.output.include_timestamp = false;
    config.meta.enabled = false;
    config.tree.enabled = false;
    config.source.enabled = false;
    config.rules.enabled = false;
    let tree = build_tree_from_paths(&[("a".to_string(), false)]).unwrap();
    let ctx = ProjectContext::build(
        "/work/demo",
        &config,
        Some(tree),
        no_rules(),
        vec![],
        Some(SystemInfo::default()),
        Some("now".to_string()),
        &readme(),
    )
    .unwrap();
    assert!(ctx.project_name.is_none() && ctx.project_root.is_none());
    assert!(ctx.system_info.is_none() && ctx.meta.is_none() && ctx.tree.is_none());
    assert!(ctx.prompts.is_none() && ctx.generation_timestamp.is_none());
    assert!(ctx.rules.is_empty());
    assert_eq!(ctx.ai_readme.as_deref(), Some("INTRO"));
    // rules switched on but none resolved
    config.rules.enabled = true;
    let mut ctx = ctx;
    ctx.populate_ai_readme(&config, &readme());
    assert_eq!(ctx.ai_readme.as_deref(), Some("INTRO\\nHEADER\\nno-rules"));
    config.meta.enabled = true;
    config.meta.custom_meta = vec![];
    let ctx = ProjectContext::build("/", &config, None, no_rules(), vec![], None, None, &readme()).unwrap();
    assert!(ctx.meta.is_none());
}

fn bare_context(config: &Config) -> ProjectContext {
    ProjectContext::build("/p", config, None, no_rules(), vec![], None, None, &readme()).unwrap()
}

fn quiet_config() -> Config {
    let mut config = Config::default();
    config.output.include_project_name = false;
    config.output.include_project_root = false;
    config.meta.enabled = false;
    config.rules.enabled = false;
    config
}

#[test]
fn files_docs_and_chunks_are_added() {
    let config = quiet_config();
    let files = vec![FileInfo { path: "/p/src/a.rs".to_string(), content: "a".to_string(), size: 1 }];
    let ctx = bare_context(&config).add_files(files.clone(), "/p", &config, &readme());
    let source = ctx.source.as_ref().unwrap();
    assert!(source.chunks.is_none());
    let shown: Vec<(&str, &str)> = source
        .files
        .as_ref()
        .unwrap()
        .iter()
        .map(|f| (f.path.as_str(), f.content.as_str()))
        .collect();
    assert_eq!(shown, vec![("src/a.rs", "a")]);
    assert_eq!(ctx.ai_readme.as_deref(), Some("INTRO\\nHEADER\\nfiles"));

    let ctx = ctx.add_docs(files.clone(), "/p", &config, &readme());
    assert_eq!(ctx.docs.as_ref().unwrap()[0].path, "src/a.rs");
    assert!(ctx.source.is_some());
    assert_eq!(ctx.ai_readme.as_deref(), Some("INTRO\\nHEADER\\ndocs\\nfiles"));

    let ctx = ctx.add_chunk_paths(
        strings(&["/p/out/demo_chunk_1.json", "/other/demo_chunk_2.json"]),
        "/p/out",
        &config,
        &readme(),
    );
    let source = ctx.source.as_ref().unwrap();
    assert!(source.files.is_none());
    assert_eq!(
        source.chunks,
        Some(strings(&["demo_chunk_1.json", "../../other/demo_chunk_2.json"]))
    );
    assert_eq!(ctx.ai_readme.as_deref(), Some("INTRO\\nHEADER\\ndocs\\nchunks"));

    // nothing to add: the section stays empty, and the guide says so
    let ctx = ctx.add_files(vec![], "/p", &config, &readme());
    assert!(ctx.source.is_none());
    assert_eq!(ctx.ai_readme.as_deref(), Some("INTRO\\nHEADER\\ndocs\\nno-source"));
    let ctx = ctx.add_docs(vec![], "/p", &config, &readme());
    assert!(ctx.docs.is_none());
    let ctx = ctx.add_chunk_paths(vec![], "/p", &config, &readme());
    assert!(ctx.source.is_none());
}

#[test]
fn sections_that_are_off_get_nothing_added() {
    let mut config = quiet_config();
    config.source.enabled = false;
    config.docs.enabled = false;
    let files = vec![FileInfo { path: "/p/a".to_string(), content: "a".to_string(), size: 1 }];
    let ctx = bare_context(&config).add_files(files.clone(), "/p", &config, &readme());
    assert!(ctx.source.is_none());
    let ctx = ctx.add_docs(files, "/p", &config, &readme());
    assert!(ctx.docs.is_none());
    let ctx = ctx.add_chunk_paths(strings(&["/p/c.json"]), "/p", &config, &readme());
    assert!(ctx.source.is_none());
    assert_eq!(ctx.ai_readme.as_deref(), Some("INTRO"));
    let mut ctx = ctx;
    ctx.source = Some(SourceRepresentation::default());
    ctx.populate_ai_readme(&config, &readme());
    assert_eq!(ctx.ai_readme.as_deref(), Some("INTRO\\nHEADER\\nno-source"));
}
