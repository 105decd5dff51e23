//! The arguments of the command line, as plain values.

use vstd::prelude::*;
use vstd::string::{StrSliceExecFns, StringExecFns};
use crate::text::{chars_of, find_char, index_of_char, trim_spec, trim_str};

verus! {

/// Where the project is and which configuration file is read.
#[derive(Debug, Clone)]
pub struct ProjectConfigOpts {
    pub project_root: Option<String>,
    pub context_file: Option<String>,
    pub disable_context_file: bool,
    pub project_name: Option<String>,
}

/// How the output is formatted.
#[derive(Debug, Clone)]
pub struct FormatOutputOpts {
    pub format: Option<String>,
    pub enable_json_minify: bool,
    pub disable_json_minify: bool,
    pub enable_xml_pretty: bool,
    pub disable_xml_pretty: bool,
}

/// The whole command line.
#[derive(Debug, Clone)]
pub struct Cli {
    pub command: Option<Commands>,
    pub verbose: u8,
    pub quiet: bool,
}

/// The commands.
#[derive(Debug, Clone)]
pub enum Commands {
    Generate(GenerateArgs),
    Watch(WatchArgs),
    Show(ShowArgs),
    Metrics(MetricsArgs),
    Debug(DebugArgs),
    Quick(QuickArgs),
    Completion(CompletionArgs),
    Config(ConfigArgs),
    Cl,
    Mcp(McpArgs),
}

/// The arguments of `generate`. `save` is absent when nothing is saved,
/// present without a directory when the configured directory is used, and
/// present with a directory otherwise.
#[derive(Debug, Clone)]
pub struct GenerateArgs {
    pub project_config: ProjectConfigOpts,
    pub format_output: FormatOutputOpts,
    pub stdout: bool,
    pub save: Option<Option<String>>,
    pub chunks: Option<String>,
    pub exclusion: ExclusionGroup,
    pub section_toggles: SectionTogglesGroup,
    pub ignore_toggles: IgnoreTogglesGroup,
    pub filters: FilterGroup,
    pub meta_override: MetaOverrideGroup,
}

/// The arguments of `watch`.
#[derive(Debug, Clone)]
pub struct WatchArgs {
    pub project_config: ProjectConfigOpts,
    pub format_output: FormatOutputOpts,
    pub watch_delay: Option<String>,
    pub save: Option<Option<String>>,
}

/// The arguments of `show`.
#[derive(Debug, Clone)]
pub struct ShowArgs {
    pub project_config: ProjectConfigOpts,
    pub format_output: FormatOutputOpts,
    pub item: ShowItem,
}

/// What `show` shows: one item by key or name, or all of a kind.
#[derive(Debug, Clone)]
pub enum ShowItem {
    Meta { key: Option<String> },
    Metas {  },
    Prompt { name: Option<String> },
    Prompts {  },
    Rule { name: Option<String> },
    Rules {  },
}

/// The arguments of `metrics`.
#[derive(Debug, Clone)]
pub struct MetricsArgs {
    pub project_config: ProjectConfigOpts,
    pub format_output: FormatOutputOpts,
}

/// The arguments of `debug`.
#[derive(Debug, Clone)]
pub struct DebugArgs {
    pub project_config: ProjectConfigOpts,
    pub format_output: FormatOutputOpts,
}

/// The arguments of `quick`.
#[derive(Debug, Clone)]
pub struct QuickArgs {
    pub project_config: ProjectConfigOpts,
    pub format_output: FormatOutputOpts,
    pub pattern: String,
}

/// The arguments of `completion`.
#[derive(Debug, Clone)]
pub struct CompletionArgs {
    pub shell: Option<String>,
    pub save: bool,
}

/// The arguments of `config`.
#[derive(Debug, Clone)]
pub struct ConfigArgs {
    pub save: bool,
}

/// The arguments of `mcp`: none.
#[derive(Debug, Clone)]
pub struct McpArgs {  }

/// Fields that are left out of the output.
#[derive(Debug, Clone, Copy)]
pub struct ExclusionGroup {
    pub exclude_project_name: bool,
    pub exclude_project_root: bool,
    pub exclude_timestamp: bool,
    pub exclude_system_info: bool,
}

/// Switches for the sections. Where both switches of a section are given,
/// the enabling one counts.
#[derive(Debug, Clone, Copy)]
pub struct SectionTogglesGroup {
    pub enable_tree: bool,
    pub disable_tree: bool,
    pub enable_source: bool,
    pub disable_source: bool,
    pub enable_meta: bool,
    pub disable_meta: bool,
    pub enable_rules: bool,
    pub disable_rules: bool,
    pub enable_docs: bool,
    pub disable_docs: bool,
}

/// Switches for the ignore rules. Where both switches of a rule are given,
/// the enabling one counts.
#[derive(Debug, Clone, Copy)]
pub struct IgnoreTogglesGroup {
    pub enable_gitignore: bool,
    pub disable_gitignore: bool,
    pub enable_builtin_ignore: bool,
    pub disable_builtin_ignore: bool,
}

/// Pattern lists given on the command line. A list that is not empty
/// replaces the section's list.
#[derive(Debug, Clone)]
pub struct FilterGroup {
    pub tree_include: Vec<String>,
    pub tree_exclude: Vec<String>,
    pub source_include: Vec<String>,
    pub source_exclude: Vec<String>,
    pub docs_include: Vec<String>,
    pub docs_exclude: Vec<String>,
}

/// `key=value` pairs that are added to the metadata.
#[derive(Debug, Clone)]
pub struct MetaOverrideGroup {
    pub add_meta: Vec<(String, String)>,
}

/// What parsing a `key=value` argument gives: the trimmed key and value, or
/// the reason why the argument is refused. The argument is cut at its first
/// `=`.
pub open spec fn key_val_spec(s: Seq<char>) -> Result<(Seq<char>, Seq<char>), Seq<char>> {
    let idx = index_of_char(s, '=');
    if 0 <= idx < s.len() {
        let key = trim_spec(s.take(idx));
        let value = trim_spec(s.skip(idx + 1));
        if key.len() == 0 {
            Err("Metadata key cannot be empty"@)
        } else {
            Ok((key, value))
        }
    } else {
        Err("Invalid KEY=VALUE format for --add-meta"@)
    }
}

/// Parses a `key=value` argument.
pub fn parse_key_val(s: &str) -> (r: Result<(String, String), String>)
    ensures
        match r {
            Ok(pair) => key_val_spec(s@) == Ok::<(Seq<char>, Seq<char>), Seq<char>>(
                (pair.0@, pair.1@),
            ),
            Err(msg) => key_val_spec(s@) == Err::<(Seq<char>, Seq<char>), Seq<char>>(msg@),
        },
{
    let chars = chars_of(s);
    match find_char(&chars, '=') {
        Some(idx) => {
            let n = chars.len();
            let before = s.substring_char(0, idx);
            let after = s.substring_char(idx + 1, n);
            assert(before@ =~= s@.take(idx as int));
            assert(after@ =~= s@.skip(idx + 1));
            let key = trim_str(before);
            let value = trim_str(after);
            if key.unicode_len() == 0 {
                Err(String::from_str("Metadata key cannot be empty"))
            } else {
                Ok((String::from_str(key), String::from_str(value)))
            }
        },
        None => Err(String::from_str("Invalid KEY=VALUE format for --add-meta")),
    }
}

} // verus!
