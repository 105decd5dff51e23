//! How the command line overrides the configuration, and what the command
//! line asks to be written where.

use vstd::prelude::*;
use vstd::string::StringExecFns;
use crate::cli_args::{FormatOutputOpts, GenerateArgs, ProjectConfigOpts, WatchArgs};
use crate::config::{Config, OutputConfig};
use crate::error::AppError;
use crate::pairs::{pairs_model, pairs_with, set_pair, PairModel};
use crate::paths::{file_name_of, file_name_spec, join_paths, join_spec};
use crate::text::{clone_strings, concat3, lowercase_of, opt_text, str_eq, texts_of, to_lowercase};

verus! {

/// How much is logged.
#[derive(Debug, Clone, Copy, PartialEq, Eq, Structural)]
pub enum LogLevel {
    Off,
    Warn,
    Info,
    Debug,
    Trace,
}

/// How much is logged: nothing when quiet, else warnings, and more with
/// each `-v`.
pub fn log_level(quiet: bool, verbose: u8) -> (r: LogLevel)
    ensures
        r == if quiet {
            LogLevel::Off
        } else if verbose == 0 {
            LogLevel::Warn
        } else if verbose == 1 {
            LogLevel::Info
        } else if verbose == 2 {
            LogLevel::Debug
        } else {
            LogLevel::Trace
        },
{
    if quiet {
        LogLevel::Off
    } else if verbose == 0 {
        LogLevel::Warn
    } else if verbose == 1 {
        LogLevel::Info
    } else if verbose == 2 {
        LogLevel::Debug
    } else {
        LogLevel::Trace
    }
}

/// Whether a failure is printed: always unless quiet, and even then when it
/// is a matter of configuration or of arguments.
pub fn should_print_error(quiet: bool, exit_code: i32) -> (r: bool)
    ensures
        r == (!quiet || exit_code == 1 || exit_code == 5),
{
    !quiet || exit_code == 1 || exit_code == 5
}

/// A switch after its two flags: on if enabled, else off if disabled, else
/// as it was.
pub open spec fn toggled(current: bool, enable: bool, disable: bool) -> bool {
    if enable {
        true
    } else if disable {
        false
    } else {
        current
    }
}

/// A switch that a flag can only turn off.
pub open spec fn unless(current: bool, exclude: bool) -> bool {
    current && !exclude
}

/// The output settings after the format options have been applied: a given
/// format replaces the configured one; JSON is minified unless asked
/// otherwise, XML is compact unless asked otherwise, and for any other
/// format the two settings are at their defaults.
pub open spec fn format_applied(r: OutputConfig, c: OutputConfig, fmt: FormatOutputOpts) -> bool {
    &&& r.format@ == match fmt.format {
        Some(f) => f@,
        None => c.format@,
    }
    &&& r.json_minify == if r.format@ == "json"@ {
        !fmt.disable_json_minify
    } else {
        true
    }
    &&& r.xml_pretty_print == if r.format@ == "xml"@ {
        fmt.enable_xml_pretty
    } else {
        false
    }
}

/// A pattern list after the command line: replaced by the list given there
/// if that is not empty, else as it was.
pub open spec fn list_overridden(
    r: Option<Vec<String>>,
    c: Option<Vec<String>>,
    given: Vec<String>,
) -> bool {
    if given@.len() > 0 {
        r matches Some(list) && texts_of(list@) == texts_of(given@)
    } else {
        r == c
    }
}

/// The pairs after all the given pairs have been set, one after the other.
pub open spec fn pairs_with_all(pairs: Seq<PairModel>, given: Seq<PairModel>) -> Seq<PairModel>
    decreases given.len(),
{
    if given.len() == 0 {
        pairs
    } else {
        let earlier = pairs_with_all(pairs, given.drop_last());
        pairs_with(earlier, given.last().0, given.last().1)
    }
}

/// Works out a switch from its two flags.
fn toggle(current: bool, enable: bool, disable: bool) -> (r: bool)
    ensures
        r == toggled(current, enable, disable),
{
    if enable {
        true
    } else if disable {
        false
    } else {
        current
    }
}

/// Replaces a name by the one given on the command line, if one was given.
fn override_name(target: &mut Option<String>, given: &Option<String>)
    ensures
        opt_text(*final(target)) == match *given {
            Some(name) => Some(name@),
            None => opt_text(*old(target)),
        },
{
    match given {
        Some(name) => {
            *target = Some(name.clone());
        },
        None => {},
    }
}

/// Applies the format options to the output settings.
fn apply_format(output: &mut OutputConfig, fmt: &FormatOutputOpts)
    ensures
        format_applied(*final(output), *old(output), *fmt),
        final(output).include_project_name == old(output).include_project_name,
        final(output).include_project_root == old(output).include_project_root,
        final(output).include_system_info == old(output).include_system_info,
        final(output).include_timestamp == old(output).include_timestamp,
{
    match &fmt.format {
        Some(format) => {
            output.format = format.clone();
        },
        None => {},
    }
    output.json_minify = if str_eq(output.format.as_str(), "json") {
        !fmt.disable_json_minify
    } else {
        true
    };
    output.xml_pretty_print = if str_eq(output.format.as_str(), "xml") {
        fmt.enable_xml_pretty
    } else {
        false
    };
}

/// Replaces a pattern list by the one given on the command line, if one was
/// given.
fn override_list(target: &mut Option<Vec<String>>, given: &Vec<String>)
    ensures
        list_overridden(*final(target), *old(target), *given),
{
    if given.len() > 0 {
        *target = Some(clone_strings(given));
    }
}

/// Sets all the given pairs, one after the other.
fn set_all_pairs(pairs: &mut Vec<(String, String)>, given: &Vec<(String, String)>)
    ensures
        pairs_model(final(pairs)@) == pairs_with_all(pairs_model(old(pairs)@), pairs_model(given@)),
{
    let ghost wanted = pairs_model(given@);
    let ghost start = pairs_model(pairs@);
    let mut i: usize = 0;
    proof {
        assert(wanted.take(0) =~= Seq::<PairModel>::empty());
    }
    while i < given.len()
        invariant
            0 <= i <= given.len(),
            wanted == pairs_model(given@),
            pairs_model(pairs@) == pairs_with_all(start, wanted.take(i as int)),
        decreases given.len() - i,
    {
        proof {
            let upto = wanted.take(i + 1);
            assert(upto.drop_last() =~= wanted.take(i as int));
            assert(upto.last() == wanted[i as int]);
        }
        set_pair(pairs, given[i].0.clone(), given[i].1.clone());
        i = i + 1;
    }
    proof {
        assert(wanted.take(i as int) =~= wanted);
    }
}

/// The configuration after the arguments of `generate` have been applied.
pub open spec fn generate_overrides_applied(r: Config, c: Config, args: GenerateArgs) -> bool {
    let ex = args.exclusion;
    let st = args.section_toggles;
    let it = args.ignore_toggles;
    let f = args.filters;
    &&& opt_text(r.general.project_name) == match args.project_config.project_name {
        Some(name) => Some(name@),
        None => opt_text(c.general.project_name),
    }
    &&& format_applied(r.output, c.output, args.format_output)
    &&& r.output.include_project_name == unless(
        c.output.include_project_name,
        ex.exclude_project_name,
    )
    &&& r.output.include_project_root == unless(
        c.output.include_project_root,
        ex.exclude_project_root,
    )
    &&& r.output.include_timestamp == unless(c.output.include_timestamp, ex.exclude_timestamp)
    &&& r.output.include_system_info == unless(
        c.output.include_system_info,
        ex.exclude_system_info,
    )
    &&& r.tree.enabled == toggled(c.tree.enabled, st.enable_tree, st.disable_tree)
    &&& r.source.enabled == toggled(c.source.enabled, st.enable_source, st.disable_source)
    &&& r.rules.enabled == toggled(c.rules.enabled, st.enable_rules, st.disable_rules)
    &&& r.docs.enabled == toggled(c.docs.enabled, st.enable_docs, st.disable_docs)
    &&& r.meta.enabled == (args.meta_override.add_meta@.len() > 0 || toggled(
        c.meta.enabled,
        st.enable_meta,
        st.disable_meta,
    ))
    &&& pairs_model(r.meta.custom_meta@) == pairs_with_all(
        pairs_model(c.meta.custom_meta@),
        pairs_model(args.meta_override.add_meta@),
    )
    &&& r.general.use_gitignore == toggled(
        c.general.use_gitignore,
        it.enable_gitignore,
        it.disable_gitignore,
    )
    &&& r.general.enable_builtin_ignore == toggled(
        c.general.enable_builtin_ignore,
        it.enable_builtin_ignore,
        it.disable_builtin_ignore,
    )
    &&& list_overridden(r.tree.include_patterns, c.tree.include_patterns, f.tree_include)
    &&& list_overridden(r.tree.exclude_patterns, c.tree.exclude_patterns, f.tree_exclude)
    &&& list_overridden(r.source.include_patterns, c.source.include_patterns, f.source_include)
    &&& list_overridden(r.source.exclude_patterns, c.source.exclude_patterns, f.source_exclude)
    &&& list_overridden(r.docs.include_patterns, c.docs.include_patterns, f.docs_include)
    &&& list_overridden(r.docs.exclude_patterns, c.docs.exclude_patterns, f.docs_exclude)
    &&& r.tree.use_gitignore == c.tree.use_gitignore
    &&& r.source.use_gitignore == c.source.use_gitignore
    &&& r.docs.use_gitignore == c.docs.use_gitignore
    &&& r.common_filters == c.common_filters
    &&& r.rules.include_stems == c.rules.include_stems
    &&& r.rules.exclude_stems == c.rules.exclude_stems
    &&& r.rules.import == c.rules.import
    &&& r.rules.custom == c.rules.custom
    &&& r.prompts == c.prompts
    &&& r.save == c.save
    &&& r.watch == c.watch
}

/// Applies the arguments of `generate` to the configuration.
pub fn merge_config_with_cli_overrides(config: Config, args: &GenerateArgs) -> (r: Config)
    ensures
        generate_overrides_applied(r, config, *args),
{
    let mut config = config;
    let st = &args.section_toggles;
    let it = &args.ignore_toggles;
    let ex = &args.exclusion;

    override_name(&mut config.general.project_name, &args.project_config.project_name);
    apply_format(&mut config.output, &args.format_output);

    config.output.include_project_name = config.output.include_project_name
        && !ex.exclude_project_name;
    config.output.include_project_root = config.output.include_project_root
        && !ex.exclude_project_root;
    config.output.include_timestamp = config.output.include_timestamp && !ex.exclude_timestamp;
    config.output.include_system_info = config.output.include_system_info
        && !ex.exclude_system_info;

    config.tree.enabled = toggle(config.tree.enabled, st.enable_tree, st.disable_tree);
    config.source.enabled = toggle(config.source.enabled, st.enable_source, st.disable_source);
    config.meta.enabled = toggle(config.meta.enabled, st.enable_meta, st.disable_meta);
    config.rules.enabled = toggle(config.rules.enabled, st.enable_rules, st.disable_rules);
    config.docs.enabled = toggle(config.docs.enabled, st.enable_docs, st.disable_docs);

    config.general.use_gitignore = toggle(
        config.general.use_gitignore,
        it.enable_gitignore,
        it.disable_gitignore,
    );
    config.general.enable_builtin_ignore = toggle(
        config.general.enable_builtin_ignore,
        it.enable_builtin_ignore,
        it.disable_builtin_ignore,
    );

    override_list(&mut config.tree.include_patterns, &args.filters.tree_include);
    override_list(&mut config.tree.exclude_patterns, &args.filters.tree_exclude);
    override_list(&mut config.source.include_patterns, &args.filters.source_include);
    override_list(&mut config.source.exclude_patterns, &args.filters.source_exclude);
    override_list(&mut config.docs.include_patterns, &args.filters.docs_include);
    override_list(&mut config.docs.exclude_patterns, &args.filters.docs_exclude);

    config.meta.enabled = config.meta.enabled || args.meta_override.add_meta.len() > 0;
    set_all_pairs(&mut config.meta.custom_meta, &args.meta_override.add_meta);
    config
}

/// The configuration after the options of any other command have been
/// applied: a given project name and a given watch delay replace the
/// configured ones, and the format options are applied if there are any.
pub open spec fn command_overrides_applied(
    r: Config,
    c: Config,
    project_opts: ProjectConfigOpts,
    watch_args: Option<WatchArgs>,
    format_override: Option<FormatOutputOpts>,
) -> bool {
    &&& opt_text(r.general.project_name) == match project_opts.project_name {
        Some(name) => Some(name@),
        None => opt_text(c.general.project_name),
    }
    &&& match format_override {
        Some(fmt) => format_applied(r.output, c.output, fmt),
        None => r.output.format == c.output.format && r.output.json_minify == c.output.json_minify
            && r.output.xml_pretty_print == c.output.xml_pretty_print,
    }
    &&& r.output.include_project_name == c.output.include_project_name
    &&& r.output.include_project_root == c.output.include_project_root
    &&& r.output.include_system_info == c.output.include_system_info
    &&& r.output.include_timestamp == c.output.include_timestamp
    &&& r.watch.delay@ == match watch_args {
        Some(w) => match w.watch_delay {
            Some(delay) => delay@,
            None => c.watch.delay@,
        },
        None => c.watch.delay@,
    }
    &&& r.general.use_gitignore == c.general.use_gitignore
    &&& r.general.enable_builtin_ignore == c.general.enable_builtin_ignore
    &&& r.common_filters == c.common_filters
    &&& r.meta == c.meta
    &&& r.docs == c.docs
    &&& r.tree == c.tree
    &&& r.source == c.source
    &&& r.rules == c.rules
    &&& r.prompts == c.prompts
    &&& r.save == c.save
}

/// Applies the options of a command other than `generate` to the
/// configuration.
pub fn apply_command_overrides(
    config: Config,
    project_opts: &ProjectConfigOpts,
    watch_args: Option<&WatchArgs>,
    format_override: Option<&FormatOutputOpts>,
) -> (r: Config)
    ensures
        command_overrides_applied(
            r,
            config,
            *project_opts,
            match watch_args {
                Some(w) => Some(*w),
                None => None,
            },
            match format_override {
                Some(f) => Some(*f),
                None => None,
            },
        ),
{
    let mut config = config;
    override_name(&mut config.general.project_name, &project_opts.project_name);
    match format_override {
        Some(fmt_opts) => {
            apply_format(&mut config.output, fmt_opts);
        },
        None => {},
    }
    match watch_args {
        Some(w_args) => match &w_args.watch_delay {
            Some(delay) => {
                config.watch.delay = delay.clone();
            },
            None => {},
        },
        None => {},
    }
    config
}

/// Applies the command line to a loaded configuration: the arguments of
/// `generate` if there are any, else the options of the command at hand.
/// Afterwards the project always has a name.
pub fn prepare_config(
    config: Config,
    project_root: &str,
    project_opts: &ProjectConfigOpts,
    generate_args: Option<&GenerateArgs>,
    watch_args: Option<&WatchArgs>,
    format_override: Option<&FormatOutputOpts>,
) -> (r: Config)
    ensures
        r.general.project_name matches Some(name) && ({
            ||| generate_args matches Some(g) && exists|mid: Config|
                #![auto]
                generate_overrides_applied(mid, config, *g) && name@
                    == mid.effective_project_name(project_root@) && same_but_name(r, mid)
            ||| generate_args is None && exists|mid: Config|
                #![auto]
                command_overrides_applied(
                    mid,
                    config,
                    *project_opts,
                    match watch_args {
                        Some(w) => Some(*w),
                        None => None,
                    },
                    match format_override {
                        Some(f) => Some(*f),
                        None => None,
                    },
                ) && name@ == mid.effective_project_name(project_root@) && same_but_name(r, mid)
        }),
{
    let mut config = match generate_args {
        Some(gen_args) => merge_config_with_cli_overrides(config, gen_args),
        None => apply_command_overrides(config, project_opts, watch_args, format_override),
    };
    let ghost mid = config;
    let name = config.get_effective_project_name(project_root);
    config.general.project_name = Some(name);
    assert(same_but_name(config, mid));
    config
}

/// Two configurations differ at most in the project name.
pub open spec fn same_but_name(a: Config, b: Config) -> bool {
    &&& a.general.use_gitignore == b.general.use_gitignore
    &&& a.general.enable_builtin_ignore == b.general.enable_builtin_ignore
    &&& a.common_filters == b.common_filters
    &&& a.meta == b.meta
    &&& a.docs == b.docs
    &&& a.tree == b.tree
    &&& a.source == b.source
    &&& a.rules == b.rules
    &&& a.prompts == b.prompts
    &&& a.output == b.output
    &&& a.save == b.save
    &&& a.watch == b.watch
}

/// What the command line asks to be written where.
pub struct OutputTargetArgs<'a> {
    pub save: &'a Option<Option<String>>,
    pub chunks: &'a Option<String>,
    pub stdout: bool,
    pub format_output: &'a FormatOutputOpts,
}

/// Why chunking is refused, if it is: chunking needs the source section,
/// needs JSON, and cannot go to standard output unless the main output is
/// saved. `format_lower` is the format in lower case.
pub open spec fn generation_args_error(
    chunks_given: bool,
    source_enabled: bool,
    format_lower: Seq<char>,
    stdout: bool,
    save_given: bool,
) -> Option<AppErrorModel> {
    if !chunks_given {
        None
    } else if !source_enabled {
        Some(
            AppErrorModel::InvalidArgument(
                "Chunking (-c) cannot be used when source file inclusion ([source].enabled=false) is disabled"@,
            ),
        )
    } else if format_lower != "json"@ {
        Some(
            AppErrorModel::Chunking(
                "Chunking requires the output format to be 'json'. Use '-f json'."@,
            ),
        )
    } else if stdout && !save_given {
        Some(
            AppErrorModel::InvalidArgument(
                "--stdout cannot be used with --chunks unless --save is also specified to define the main context output location."@,
            ),
        )
    } else {
        None
    }
}

/// The kinds of error that checking the arguments can give, with their
/// texts.
pub ghost enum AppErrorModel {
    InvalidArgument(Seq<char>),
    Chunking(Seq<char>),
}

/// `e` is the error that `model` describes.
pub open spec fn error_is(e: AppError, model: AppErrorModel) -> bool {
    match model {
        AppErrorModel::InvalidArgument(text) => e matches AppError::InvalidArgument(m) && m@
            == text,
        AppErrorModel::Chunking(text) => e matches AppError::Chunking(m) && m@ == text,
    }
}

/// Checks that what the command line asks for can be done, given the format
/// in lower case.
pub fn check_generation_args(
    chunks_given: bool,
    source_enabled: bool,
    format_lower: &str,
    stdout: bool,
    save_given: bool,
) -> (r: Result<(), AppError>)
    ensures
        match r {
            Ok(_) => generation_args_error(
                chunks_given,
                source_enabled,
                format_lower@,
                stdout,
                save_given,
            ) is None,
            Err(e) => generation_args_error(
                chunks_given,
                source_enabled,
                format_lower@,
                stdout,
                save_given,
            ) matches Some(model) && error_is(e, model),
        },
{
    if chunks_given {
        if !source_enabled {
            return Err(
                AppError::InvalidArgument(
                    String::from_str(
                        "Chunking (-c) cannot be used when source file inclusion ([source].enabled=false) is disabled",
                    ),
                ),
            );
        }
        if !str_eq(format_lower, "json") {
            return Err(
                AppError::Chunking(
                    String::from_str(
                        "Chunking requires the output format to be 'json'. Use '-f json'.",
                    ),
                ),
            );
        }
        if stdout && !save_given {
            return Err(
                AppError::InvalidArgument(
                    String::from_str(
                        "--stdout cannot be used with --chunks unless --save is also specified to define the main context output location.",
                    ),
                ),
            );
        }
    }
    Ok(())
}

/// The format that the output is written in: the one given on the command
/// line, else the configured one.
pub open spec fn chosen_format(config: Config, fmt: FormatOutputOpts) -> Seq<char> {
    match fmt.format {
        Some(f) => f@,
        None => config.output.format@,
    }
}

/// Checks that what the command line asks for can be done.
pub fn validate_args_for_generation(config: &Config, args: &OutputTargetArgs) -> (r: Result<
    (),
    AppError,
>)
    ensures
        match r {
            Ok(_) => generation_args_error(
                *args.chunks is Some,
                config.source.enabled,
                lowercase_of(chosen_format(*config, *args.format_output)),
                args.stdout,
                *args.save is Some,
            ) is None,
            Err(e) => generation_args_error(
                *args.chunks is Some,
                config.source.enabled,
                lowercase_of(chosen_format(*config, *args.format_output)),
                args.stdout,
                *args.save is Some,
            ) matches Some(model) && error_is(e, model),
        },
{
    let format = match &args.format_output.format {
        Some(f) => f.as_str(),
        None => config.output.format.as_str(),
    };
    let format_lower = to_lowercase(format);
    check_generation_args(
        args.chunks.is_some(),
        config.source.enabled,
        format_lower.as_str(),
        args.stdout,
        args.save.is_some(),
    )
}

/// The file extension that goes with a format, given in lower case: `yaml`
/// for YAML, `xml` for XML, and `json` for everything else.
pub open spec fn extension_for_format_spec(format_lower: Seq<char>) -> Seq<char> {
    if format_lower == "yaml"@ || format_lower == "yml"@ {
        "yaml"@
    } else if format_lower == "xml"@ {
        "xml"@
    } else {
        "json"@
    }
}

/// The file extension that goes with a format, given in lower case.
pub fn extension_for_format(format_lower: &str) -> (r: &'static str)
    ensures
        r@ == extension_for_format_spec(format_lower@),
{
    if str_eq(format_lower, "yaml") || str_eq(format_lower, "yml") {
        "yaml"
    } else if str_eq(format_lower, "xml") {
        "xml"
    } else {
        "json"
    }
}

/// The directory that output is saved in: the one given with `--save` if one
/// was given, else the configured one; below the project root unless it is
/// absolute.
pub open spec fn save_dir_spec(
    config: Config,
    cli_save_opt: Option<Option<String>>,
    project_root: Seq<char>,
) -> Seq<char> {
    let base = match cli_save_opt {
        Some(Some(dir)) => dir@,
        _ => config.save.output_dir@,
    };
    join_spec(project_root, base)
}

/// The name, without extension, of the file that output is saved in: the
/// configured base name, else the project's name, else the name of the
/// project's directory, else `context`.
pub open spec fn filename_base_spec(config: Config, project_root: Seq<char>) -> Seq<char> {
    match config.save.filename_base {
        Some(base) => base@,
        None => match config.general.project_name {
            Some(name) => name@,
            None => match file_name_spec(project_root) {
                Some(name) => name,
                None => "context"@,
            },
        },
    }
}

/// The extension of the file that output is saved in: the configured one,
/// else the one that goes with the configured format.
pub open spec fn save_extension_spec(config: Config) -> Seq<char> {
    match config.save.extension {
        Some(ext) => ext@,
        None => extension_for_format_spec(lowercase_of(config.output.format@)),
    }
}

/// Where output is saved: the directory, the file's base name, and its
/// extension.
pub fn get_save_details_from_args(
    config: &Config,
    cli_save_opt: Option<&Option<String>>,
    project_root: &str,
) -> (r: (String, String, String))
    ensures
        r.0@ == save_dir_spec(
            *config,
            match cli_save_opt {
                Some(o) => Some(*o),
                None => None,
            },
            project_root@,
        ),
        r.1@ == filename_base_spec(*config, project_root@),
        r.2@ == save_extension_spec(*config),
{
    let save_dir_base: &str = match cli_save_opt {
        Some(Some(cli_path)) => cli_path.as_str(),
        _ => config.save.output_dir.as_str(),
    };
    let save_dir = join_paths(project_root, save_dir_base);

    let filename_base = match &config.save.filename_base {
        Some(base) => base.clone(),
        None => match &config.general.project_name {
            Some(name) => name.clone(),
            None => match file_name_of(project_root) {
                Some(name) => name,
                None => String::from_str("context"),
            },
        },
    };

    let extension = match &config.save.extension {
        Some(ext) => ext.clone(),
        None => {
            let lower = to_lowercase(config.output.format.as_str());
            String::from_str(extension_for_format(lower.as_str()))
        },
    };

    (save_dir, filename_base, extension)
}

/// The file that the main output goes to, if it is saved: `base.extension`
/// in the save directory. Without `--save` the output goes to standard
/// output.
pub fn output_target_path(config: &Config, args: &OutputTargetArgs, project_root: &str) -> (r:
    Option<String>)
    ensures
        match r {
            Some(path) => *args.save is Some && path@ == join_spec(
                save_dir_spec(*config, *args.save, project_root@),
                filename_base_spec(*config, project_root@) + "."@ + save_extension_spec(*config),
            ),
            None => *args.save is None,
        },
{
    match args.save {
        Some(given) => {
            let (save_dir, filename_base, extension) = get_save_details_from_args(
                config,
                Some(given),
                project_root,
            );
            let main_filename = concat3(filename_base.as_str(), ".", extension.as_str());
            Some(join_paths(save_dir.as_str(), main_filename.as_str()))
        },
        None => None,
    }
}

} // verus!
