use xcontext::cli::{
    apply_command_overrides, check_generation_args, extension_for_format,
    get_save_details_from_args, log_level, merge_config_with_cli_overrides, output_target_path,
    prepare_config, should_print_error, validate_args_for_generation, LogLevel, OutputTargetArgs,
};
use xcontext::cli_args::{
    ExclusionGroup, FilterGroup, FormatOutputOpts, GenerateArgs, IgnoreTogglesGroup,
    MetaOverrideGroup, ProjectConfigOpts, SectionTogglesGroup, WatchArgs, parse_key_val,
};
use xcontext::config::{
    default_false, default_format, default_save_dir_config, default_true,
    default_watch_delay_string, Config, IgnoreSetting, DEFAULT_CACHE_DIR, DEFAULT_CONFIG_DIR,
    DEFAULT_CONFIG_FILENAME, DEFAULT_WATCH_DELAY,
};
use xcontext::error::AppError;

fn strings(items: &[&str]) -> Vec<String> {
    items.iter().map(|s| s.to_string()).collect()
}

fn pair(k: &str, v: &str) -> (String, String) {
    (k.to_string(), v.to_string())
}

fn no_project_opts() -> ProjectConfigOpts {
    ProjectConfigOpts {
        project_root: None,
        context_file: None,
        disable_context_file: false,
        project_name: None,
    }
}

fn no_format() -> FormatOutputOpts {
    FormatOutputOpts {
        format: None,
        enable_json_minify: false,
        disable_json_minify: false,
        enable_xml_pretty: false,
        disable_xml_pretty: false,
    }
}

fn plain_generate() -> GenerateArgs {
    GenerateArgs {
        project_config: no_project_opts(),
        format_output: no_format(),
        stdout: false,
        save: None,
        chunks: None,
        exclusion: ExclusionGroup {
            exclude_project_name: false,
            exclude_project_root: false,
            exclude_timestamp: false,
            exclude_system_info: false,
        },
        section_toggles: SectionTogglesGroup {
            enable_tree: false,
            disable_tree: false,
            enable_source: false,
            disable_source: false,
            enable_meta: false,
            disable_meta: false,
            enable_rules: false,
            disable_rules: false,
            enable_docs: false,
            disable_docs: false,
        },
        ignore_toggles: IgnoreTogglesGroup {
            enable_gitignore: false,
            disable_gitignore: false,
            enable_builtin_ignore: false,
            disable_builtin_ignore: false,
        },
        filters: FilterGroup {
            tree_include: vec![],
            tree_exclude: vec![],
            source_include: vec![],
            source_exclude: vec![],
            docs_include: vec![],
            docs_exclude: vec![],
        },
        meta_override: MetaOverrideGroup { add_meta: vec![] },
    }
}

#[test]
fn defaults() {
    assert!(default_true());
    assert!(!default_false());
    assert_eq!(default_format(), "json");
    assert_eq!(default_save_dir_config(), ".xtools/xcontext/cache");
    assert_eq!(default_watch_delay_string(), "300ms");
    assert_eq!(DEFAULT_CONFIG_DIR, ".xtools/xcontext");
    assert_eq!(DEFAULT_CONFIG_FILENAME, "xcontext.toml");
    assert_eq!(DEFAULT_CACHE_DIR, ".xtools/xcontext/cache");
    assert_eq!(DEFAULT_WATCH_DELAY, "300ms");
    assert_eq!(IgnoreSetting::default(), IgnoreSetting::Inherit);
    let c = Config::default();
    assert!(c.general.project_name.is_none());
    assert!(c.general.use_gitignore && c.general.enable_builtin_ignore);
    assert!(c.common_filters.include_patterns.is_empty());
    assert!(c.common_filters.exclude_patterns.is_empty());
    assert!(c.meta.enabled);
    assert_eq!(c.meta.custom_meta, vec![pair("author", "json")]);
    for (enabled, setting, inc, exc) in [
        (c.docs.enabled, c.docs.use_gitignore, &c.docs.include_patterns, &c.docs.exclude_patterns),
        (c.tree.enabled, c.tree.use_gitignore, &c.tree.include_patterns, &c.tree.exclude_patterns),
        (
            c.source.enabled,
            c.source.use_gitignore,
            &c.source.include_patterns,
            &c.source.exclude_patterns,
        ),
    ] {
        assert!(enabled);
        assert_eq!(setting, IgnoreSetting::Inherit);
        assert_eq!(inc, &Some(vec![]));
        assert_eq!(exc, &Some(vec![]));
    }
    assert!(c.rules.enabled);
    assert!(c.rules.include_stems.is_empty() && c.rules.exclude_stems.is_empty());
    assert!(c.rules.import.is_empty() && c.rules.custom.is_empty());
    assert!(c.prompts.import.is_empty() && c.prompts.custom.is_empty());
    assert_eq!(c.output.format, "json");
    assert!(c.output.json_minify && !c.output.xml_pretty_print);
    assert!(c.output.include_project_name && c.output.include_project_root);
    assert!(c.output.include_system_info && c.output.include_timestamp);
    assert_eq!(c.save.output_dir, ".xtools/xcontext/cache");
    assert!(c.save.filename_base.is_none() && c.save.extension.is_none());
    assert_eq!(c.watch.delay, "300ms");
}

#[test]
fn effective_lists_fall_back_only_when_absent() {
    let mut c = Config::default();
    c.common_filters.include_patterns = strings(&["*.rs"]);
    c.common_filters.exclude_patterns = strings(&["*.tmp"]);
    assert_eq!(c.get_effective_include(&None), &strings(&["*.rs"]));
    assert_eq!(c.get_effective_exclude(&None), &strings(&["*.tmp"]));
    assert_eq!(c.get_effective_include(&Some(vec![])), &Vec::<String>::new());
    assert_eq!(c.get_effective_exclude(&Some(vec![])), &Vec::<String>::new());
    let own = Some(strings(&["a", "b"]));
    assert_eq!(c.get_effective_include(&own), &strings(&["a", "b"]));
    assert_eq!(c.get_effective_exclude(&own), &strings(&["a", "b"]));
}

#[test]
fn effective_switches() {
    let mut c = Config::default();
    assert!(c.get_effective_gitignore(&IgnoreSetting::Inherit));
    assert!(c.get_effective_gitignore(&IgnoreSetting::True));
    assert!(!c.get_effective_gitignore(&IgnoreSetting::False));
    c.general.use_gitignore = false;
    assert!(!c.get_effective_gitignore(&IgnoreSetting::Inherit));
    assert!(c.get_effective_gitignore(&IgnoreSetting::True));
    assert!(c.get_effective_builtin_ignore());
    c.general.enable_builtin_ignore = false;
    assert!(!c.get_effective_builtin_ignore());
    assert!(c.is_docs_section_active());
    c.docs.enabled = false;
    assert!(!c.is_docs_section_active());
}

#[test]
fn project_name_falls_back_to_directory() {
    let mut c = Config::default();
    assert_eq!(c.get_effective_project_name("/home/me/my-project"), "my-project");
    assert_eq!(c.get_effective_project_name("/home/me/my-project/"), "my-project");
    assert_eq!(c.get_effective_project_name("/"), "UnknownProject");
    assert_eq!(c.get_effective_project_name(""), "UnknownProject");
    assert_eq!(c.get_effective_project_name("/a/.."), "UnknownProject");
    c.general.project_name = Some("Named".to_string());
    assert_eq!(c.get_effective_project_name("/home/me/my-project"), "Named");
}

#[test]
fn watch_delay_is_parsed() {
    let mut c = Config::default();
    assert_eq!(c.get_watch_delay().unwrap(), 300_000_000);
    c.watch.delay = "2s".to_string();
    assert_eq!(c.get_watch_delay().unwrap(), 2_000_000_000);
    c.watch.delay = "1h 30m".to_string();
    assert_eq!(c.get_watch_delay().unwrap(), 5_400_000_000_000);
    c.watch.delay = "soon".to_string();
    match c.get_watch_delay() {
        Err(AppError::InvalidArgument(m)) => {
            let detail = parse_duration::parse("soon").unwrap_err().to_string();
            assert_eq!(
                m,
                format!(
                    "Invalid watch delay duration 'soon': {}. Use format like '500ms', '2s'.",
                    detail
                )
            );
        }
        _ => panic!("expected an invalid argument"),
    }
}

#[test]
fn key_value_arguments() {
    assert_eq!(parse_key_val("a=b"), Ok(pair("a", "b")));
    assert_eq!(parse_key_val("  key = some value  "), Ok(pair("key", "some value")));
    assert_eq!(parse_key_val("k=v=w"), Ok(pair("k", "v=w")));
    assert_eq!(parse_key_val("k="), Ok(pair("k", "")));
    assert_eq!(parse_key_val("=v"), Err("Metadata key cannot be empty".to_string()));
    assert_eq!(parse_key_val("  =v"), Err("Metadata key cannot be empty".to_string()));
    assert_eq!(parse_key_val("kv"), Err("Invalid KEY=VALUE format for --add-meta".to_string()));
    assert_eq!(parse_key_val(""), Err("Invalid KEY=VALUE format for --add-meta".to_string()));
}

#[test]
fn generate_without_arguments_changes_little() {
    let mut config = Config::default();
    config.output.json_minify = false;
    config.output.xml_pretty_print = true;
    let merged = merge_config_with_cli_overrides(config.clone(), &plain_generate());
    // the two format switches are always worked out anew
    assert!(merged.output.json_minify);
    assert!(!merged.output.xml_pretty_print);
    assert_eq!(merged.output.format, "json");
    assert!(merged.tree.enabled && merged.source.enabled && merged.docs.enabled);
    assert_eq!(merged.meta.custom_meta, config.meta.custom_meta);
    assert_eq!(merged.tree.include_patterns, Some(vec![]));
    assert!(merged.general.project_name.is_none());
}

#[test]
fn generate_arguments_override_the_configuration() {
    let mut config = Config::default();
    config.tree.enabled = false;
    config.meta.enabled = false;
    config.general.use_gitignore = false;
    config.source.exclude_patterns = Some(strings(&["keep"]));
    let mut args = plain_generate();
    args.project_config.project_name = Some("cli-name".to_string());
    args.format_output.format = Some("xml".to_string());
    args.format_output.enable_xml_pretty = true;
    args.format_output.disable_json_minify = true;
    args.exclusion.exclude_timestamp = true;
    args.exclusion.exclude_project_root = true;
    args.section_toggles.enable_tree = true;
    args.section_toggles.disable_tree = true;
    args.section_toggles.disable_source = true;
    args.section_toggles.disable_docs = true;
    args.section_toggles.enable_docs = true;
    args.section_toggles.disable_rules = true;
    args.ignore_toggles.enable_gitignore = true;
    args.ignore_toggles.disable_builtin_ignore = true;
    args.filters.tree_include = strings(&["src/"]);
    args.filters.docs_exclude = strings(&["*.tmp", "x"]);
    args.meta_override.add_meta = vec![pair("author", "me"), pair("team", "a"), pair("team", "b")];
    let merged = merge_config_with_cli_overrides(config, &args);
    assert_eq!(merged.general.project_name.as_deref(), Some("cli-name"));
    assert_eq!(merged.output.format, "xml");
    assert!(merged.output.xml_pretty_print);
    assert!(merged.output.json_minify);
    assert!(!merged.output.include_timestamp && !merged.output.include_project_root);
    assert!(merged.output.include_project_name && merged.output.include_system_info);
    assert!(merged.tree.enabled);
    assert!(!merged.source.enabled);
    assert!(merged.docs.enabled);
    assert!(!merged.rules.enabled);
    assert!(merged.meta.enabled);
    assert!(merged.general.use_gitignore);
    assert!(!merged.general.enable_builtin_ignore);
    assert_eq!(merged.tree.include_patterns, Some(strings(&["src/"])));
    assert_eq!(merged.tree.exclude_patterns, Some(vec![]));
    assert_eq!(merged.docs.exclude_patterns, Some(strings(&["*.tmp", "x"])));
    assert_eq!(merged.source.exclude_patterns, Some(strings(&["keep"])));
    assert_eq!(merged.meta.custom_meta, vec![pair("author", "me"), pair("team", "b")]);
}

#[test]
fn json_switches_follow_the_format() {
    let mut args = plain_generate();
    args.format_output.disable_json_minify = true;
    let merged = merge_config_with_cli_overrides(Config::default(), &args);
    assert!(!merged.output.json_minify);
    args.format_output.format = Some("yaml".to_string());
    args.format_output.enable_xml_pretty = true;
    let merged = merge_config_with_cli_overrides(Config::default(), &args);
    assert!(merged.output.json_minify);
    assert!(!merged.output.xml_pretty_print);
}

#[test]
fn other_commands_override_name_format_and_delay() {
    let mut opts = no_project_opts();
    opts.project_name = Some("n".to_string());
    let mut fmt = no_format();
    fmt.format = Some("yaml".to_string());
    let watch = WatchArgs {
        project_config: no_project_opts(),
        format_output: no_format(),
        watch_delay: Some("1s".to_string()),
        save: None,
    };
    let c = apply_command_overrides(Config::default(), &opts, Some(&watch), Some(&fmt));
    assert_eq!(c.general.project_name.as_deref(), Some("n"));
    assert_eq!(c.output.format, "yaml");
    assert_eq!(c.watch.delay, "1s");
    let mut before = Config::default();
    before.output.json_minify = false;
    let c = apply_command_overrides(before, &no_project_opts(), None, None);
    assert!(!c.output.json_minify);
    assert_eq!(c.watch.delay, "300ms");
    assert!(c.general.project_name.is_none());
}

#[test]
fn prepared_configuration_always_has_a_name() {
    let c = prepare_config(Config::default(), "/work/demo", &no_project_opts(), None, None, None);
    assert_eq!(c.general.project_name.as_deref(), Some("demo"));
    let mut args = plain_generate();
    args.project_config.project_name = Some("given".to_string());
    args.section_toggles.disable_tree = true;
    let c = prepare_config(Config::default(), "/work/demo", &no_project_opts(), Some(&args), None, None);
    assert_eq!(c.general.project_name.as_deref(), Some("given"));
    assert!(!c.tree.enabled);
}

#[test]
fn logging_levels_and_error_printing() {
    assert_eq!(log_level(true, 3), LogLevel::Off);
    assert_eq!(log_level(false, 0), LogLevel::Warn);
    assert_eq!(log_level(false, 1), LogLevel::Info);
    assert_eq!(log_level(false, 2), LogLevel::Debug);
    assert_eq!(log_level(false, 3), LogLevel::Trace);
    assert_eq!(log_level(false, 200), LogLevel::Trace);
    assert!(should_print_error(false, 2));
    assert!(!should_print_error(true, 2));
    assert!(should_print_error(true, 1));
    assert!(should_print_error(true, 5));
}

#[test]
fn chunking_needs_source_json_and_a_place() {
    assert!(check_generation_args(false, false, "xml", true, false).is_ok());
    assert!(check_generation_args(true, true, "json", false, false).is_ok());
    assert!(check_generation_args(true, true, "json", true, true).is_ok());
    assert!(matches!(
        check_generation_args(true, false, "xml", true, false),
        Err(AppError::InvalidArgument(ref m)) if m == "Chunking (-c) cannot be used when source file inclusion ([source].enabled=false) is disabled"
    ));
    assert!(matches!(
        check_generation_args(true, true, "yaml", true, false),
        Err(AppError::Chunking(ref m)) if m == "Chunking requires the output format to be 'json'. Use '-f json'."
    ));
    assert!(matches!(
        check_generation_args(true, true, "json", true, false),
        Err(AppError::InvalidArgument(ref m)) if m == "--stdout cannot be used with --chunks unless --save is also specified to define the main context output location."
    ));
}

#[test]
fn generation_arguments_are_checked_with_the_format_in_lower_case() {
    let config = Config::default();
    let mut fmt = no_format();
    fmt.format = Some("JSON".to_string());
    let chunks = Some("1MB".to_string());
    let save = Some(None);
    let args = OutputTargetArgs { save: &save, chunks: &chunks, stdout: false, format_output: &fmt };
    assert!(validate_args_for_generation(&config, &args).is_ok());
    fmt.format = Some("Yaml".to_string());
    let args = OutputTargetArgs { save: &save, chunks: &chunks, stdout: false, format_output: &fmt };
    assert!(matches!(validate_args_for_generation(&config, &args), Err(AppError::Chunking(_))));
    let none = None;
    let args = OutputTargetArgs { save: &save, chunks: &none, stdout: true, format_output: &fmt };
    assert!(validate_args_for_generation(&config, &args).is_ok());
}

#[test]
fn save_details() {
    assert_eq!(extension_for_format("yaml"), "yaml");
    assert_eq!(extension_for_format("yml"), "yaml");
    assert_eq!(extension_for_format("xml"), "xml");
    assert_eq!(extension_for_format("json"), "json");
    assert_eq!(extension_for_format("toml"), "json");
    let mut config = Config::default();
    let details = get_save_details_from_args(&config, None, "/work/demo");
    assert_eq!(
        details,
        ("/work/demo/.xtools/xcontext/cache".to_string(), "demo".to_string(), "json".to_string())
    );
    let details = get_save_details_from_args(&config, Some(&None), "/work/demo");
    assert_eq!(details.0, "/work/demo/.xtools/xcontext/cache");
    let details = get_save_details_from_args(&config, Some(&Some("out".to_string())), "/work/demo");
    assert_eq!(details.0, "/work/demo/out");
    let details = get_save_details_from_args(&config, Some(&Some("/abs/out".to_string())), "/work/demo");
    assert_eq!(details.0, "/abs/out");
    config.general.project_name = Some("proj".to_string());
    config.output.format = "YML".to_string();
    let details = get_save_details_from_args(&config, None, "/work/demo");
    assert_eq!((details.1.as_str(), details.2.as_str()), ("proj", "yaml"));
    config.save.filename_base = Some("base".to_string());
    config.save.extension = Some("txt".to_string());
    let details = get_save_details_from_args(&config, None, "/");
    assert_eq!((details.1.as_str(), details.2.as_str()), ("base", "txt"));
    let details = get_save_details_from_args(&Config::default(), None, "/");
    assert_eq!(details.1, "context");
}

#[test]
fn output_goes_to_a_file_only_when_saved() {
    let config = Config::default();
    let fmt = no_format();
    let chunks = None;
    let save = None;
    let args = OutputTargetArgs { save: &save, chunks: &chunks, stdout: false, format_output: &fmt };
    assert_eq!(output_target_path(&config, &args, "/work/demo"), None);
    let save = Some(Some("out".to_string()));
    let args = OutputTargetArgs { save: &save, chunks: &chunks, stdout: false, format_output: &fmt };
    assert_eq!(
        output_target_path(&config, &args, "/work/demo"),
        Some("/work/demo/out/demo.json".to_string())
    );
}

#[test]
fn every_error_has_its_text_and_exit_code() {
    let s = |t: &str| t.to_string();
    let cases: Vec<(AppError, &str, i32)> = vec![
        (AppError::Config(s("x")), "Configuration Error: x", 1),
        (AppError::TomlParse(s("x")), "TOML Parsing Error: x", 1),
        (AppError::TomlSerialize(s("x")), "TOML Serialization Error: x", 1),
        (AppError::JsonSerialize(s("x")), "JSON Serialization Error: x", 6),
        (AppError::YamlError(s("x")), "YAML Parsing/Serialization Error: x", 6),
        (AppError::XmlSerialize(s("x")), "XML Serialization/Deserialization Error: x", 6),
        (AppError::Io(s("x")), "Filesystem Error: x", 2),
        (
            AppError::FileRead { path: s("/p"), source: s("e") },
            "File Read Error: Path '/p', Error: e",
            2,
        ),
        (
            AppError::FileWrite { path: s("/p"), source: s("e") },
            "File Write Error: Path '/p', Error: e",
            2,
        ),
        (
            AppError::DirCreation { path: s("/p"), source: s("e") },
            "Directory Creation Error: Path '/p', Error: e",
            2,
        ),
        (AppError::WalkDir(s("x")), "WalkDir Error: x", 2),
        (AppError::Ignore(s("x")), "Ignore Error: x", 2),
        (AppError::Glob(s("x")), "Glob Pattern Error: x", 2),
        (AppError::Chunking(s("x")), "Chunking Error: x", 3),
        (AppError::SystemInfo(s("x")), "System Info Error: x", 4),
        (AppError::InvalidArgument(s("x")), "Invalid Argument: x", 5),
        (AppError::TikToken(s("x")), "TikToken Error: x", 8),
        (AppError::RuleLoading(s("x")), "Rule Loading Error: x", 2),
        (AppError::DataLoading(s("x")), "Data Loading Error: x", 1),
        (AppError::DurationParse(s("x")), "Duration Parsing Error: x", 5),
    ];
    for (error, text, code) in cases {
        assert_eq!(error.message(), text);
        assert_eq!(error.exit_code(), code);
    }
}
