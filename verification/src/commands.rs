//! The decisions that the commands take, apart from what they read and
//! print.

use vstd::prelude::*;
use vstd::string::StringExecFns;
use crate::config::DEFAULT_CONFIG_DIR;
use crate::pairs::{find_pair, pair_index, pairs_model, PairModel};
use crate::paths::{join_paths, join_spec};
use crate::text::{
    chars_of, concat2, index_of_char, last_char, pieces, split_on, str_eq, texts_of, trim_spec,
    trim_str,
};

verus! {

/// The formats in which output is written.
#[derive(Debug, Clone, Copy, PartialEq, Eq, Structural)]
pub enum OutputKind {
    Json,
    Yaml,
    Xml,
}

/// The format that goes with a format name in lower case: YAML for `yaml`
/// and `yml`, XML for `xml`, JSON for everything else.
pub fn output_kind(format_lower: &str) -> (r: OutputKind)
    ensures
        r == if format_lower@ == "yaml"@ || format_lower@ == "yml"@ {
            OutputKind::Yaml
        } else if format_lower@ == "xml"@ {
            OutputKind::Xml
        } else {
            OutputKind::Json
        },
{
    if str_eq(format_lower, "yaml") || str_eq(format_lower, "yml") {
        OutputKind::Yaml
    } else if str_eq(format_lower, "xml") {
        OutputKind::Xml
    } else {
        OutputKind::Json
    }
}

/// Whether a line break has to follow what is written to standard output:
/// unless it ends in one already.
pub fn needs_final_newline(content: &str) -> (r: bool)
    ensures
        r == !(content@.len() > 0 && content@.last() == '\n'),
{
    match last_char(content) {
        Some(c) => c != '\n',
        None => true,
    }
}

/// Whether a chunk file is written readably rather than compactly.
pub fn chunk_is_pretty(enable_json_minify: bool, disable_json_minify: bool) -> (r: bool)
    ensures
        r == (!disable_json_minify || enable_json_minify),
{
    !disable_json_minify || enable_json_minify
}

/// Where the main output goes once the source has been written to chunk
/// files.
#[derive(Debug, Clone, Copy, PartialEq, Eq, Structural)]
pub enum ChunkedOutput {
    /// To its file in the save directory.
    File,
    /// To standard output.
    Stdout,
    /// Nowhere; it is said where the chunks are.
    Announce,
    /// Nowhere, and nothing is said.
    Silent,
}

/// Decides where the main output goes once the source has been written to
/// chunk files: to its file if output is saved, else to standard output if
/// that was asked for; otherwise it is only said where the chunks are,
/// unless quiet.
pub fn chunked_output(save_given: bool, stdout: bool, quiet: bool) -> (r: ChunkedOutput)
    ensures
        r == if save_given {
            ChunkedOutput::File
        } else if stdout {
            ChunkedOutput::Stdout
        } else if !quiet {
            ChunkedOutput::Announce
        } else {
            ChunkedOutput::Silent
        },
{
    if save_given {
        ChunkedOutput::File
    } else if stdout {
        ChunkedOutput::Stdout
    } else if !quiet {
        ChunkedOutput::Announce
    } else {
        ChunkedOutput::Silent
    }
}

/// A text without the `/` and `\` at its end.
pub open spec fn without_trailing_separators(s: Seq<char>) -> Seq<char>
    decreases s.len(),
{
    if s.len() > 0 && (s.last() == '/' || s.last() == '\\') {
        without_trailing_separators(s.drop_last())
    } else {
        s
    }
}

/// Takes the `/` and `\` off the end of a text.
pub fn trim_trailing_separators(text: &str) -> (r: String)
    ensures
        r@ == without_trailing_separators(text@),
{
    let chars = chars_of(text);
    let mut end: usize = chars.len();
    proof {
        assert(text@.take(end as int) =~= text@);
    }
    while end > 0 && (chars[end - 1] == '/' || chars[end - 1] == '\\')
        invariant
            chars@ == text@,
            end <= chars.len(),
            without_trailing_separators(text@) == without_trailing_separators(
                text@.take(end as int),
            ),
        decreases end,
    {
        proof {
            assert(text@.take(end as int).drop_last() =~= text@.take(end - 1));
        }
        end = end - 1;
    }
    proof {
        let kept = text@.take(end as int);
        if end > 0 {
            assert(kept.last() == chars@[end - 1]);
        }
        assert(text@.subrange(0, end as int) =~= kept);
    }
    String::from_str(vstd::string::StrSliceExecFns::substring_char(text, 0, end))
}

/// How the pattern of `quick` was read.
#[derive(Debug, Clone, Copy, PartialEq, Eq, Structural)]
pub enum QuickReading {
    /// The pattern is used as it is.
    AsGiven,
    /// The pattern names a directory and stands for what is in it.
    Directory,
    /// The pattern ends like a directory but names none; it is used without
    /// its ending.
    NoSuchDirectory,
}

/// How the pattern of `quick` is read, given whether it names a directory.
pub open spec fn quick_reading_spec(pattern: Seq<char>, names_directory: bool) -> QuickReading {
    if names_directory {
        QuickReading::Directory
    } else if pattern.len() > 0 && (pattern.last() == '/' || pattern.last() == '\\') {
        QuickReading::NoSuchDirectory
    } else {
        QuickReading::AsGiven
    }
}

/// The pattern that `quick` matches files against.
pub open spec fn quick_pattern_spec(pattern: Seq<char>, names_directory: bool) -> Seq<char> {
    match quick_reading_spec(pattern, names_directory) {
        QuickReading::Directory => without_trailing_separators(pattern) + "**/*"@,
        QuickReading::NoSuchDirectory => without_trailing_separators(pattern),
        QuickReading::AsGiven => pattern,
    }
}

/// Works out the pattern that `quick` matches files against.
pub fn quick_pattern(pattern: &str, names_directory: bool) -> (r: (String, QuickReading))
    ensures
        r.0@ == quick_pattern_spec(pattern@, names_directory),
        r.1 == quick_reading_spec(pattern@, names_directory),
{
    let ends_in_separator = match last_char(pattern) {
        Some(c) => c == '/' || c == '\\',
        None => false,
    };
    if names_directory {
        let trimmed = trim_trailing_separators(pattern);
        (concat2(trimmed.as_str(), "**/*"), QuickReading::Directory)
    } else if ends_in_separator {
        (trim_trailing_separators(pattern), QuickReading::NoSuchDirectory)
    } else {
        (String::from_str(pattern), QuickReading::AsGiven)
    }
}

/// The shells for which completions are written.
#[derive(Debug, Clone, Copy, PartialEq, Eq, Structural)]
pub enum ShellKind {
    Fish,
    Bash,
    Zsh,
}

/// The shell that goes by a name in lower case.
pub fn completion_shell(name_lower: &str) -> (r: Option<ShellKind>)
    ensures
        r == if name_lower@ == "fish"@ {
            Some(ShellKind::Fish)
        } else if name_lower@ == "bash"@ {
            Some(ShellKind::Bash)
        } else if name_lower@ == "zsh"@ {
            Some(ShellKind::Zsh)
        } else {
            None
        },
{
    if str_eq(name_lower, "fish") {
        Some(ShellKind::Fish)
    } else if str_eq(name_lower, "bash") {
        Some(ShellKind::Bash)
    } else if str_eq(name_lower, "zsh") {
        Some(ShellKind::Zsh)
    } else {
        None
    }
}

/// The name of the file that holds the completions of a program for a
/// shell.
pub fn completion_file_name(shell: ShellKind, bin_name: &str) -> (r: String)
    ensures
        r@ == match shell {
            ShellKind::Fish => bin_name@ + ".fish"@,
            ShellKind::Bash => bin_name@ + ".bash"@,
            ShellKind::Zsh => "_"@ + bin_name@,
        },
{
    match shell {
        ShellKind::Fish => concat2(bin_name, ".fish"),
        ShellKind::Bash => concat2(bin_name, ".bash"),
        ShellKind::Zsh => concat2("_", bin_name),
    }
}

/// Whether an answer to the question whether a file may be overwritten
/// means yes: if, but for whitespace around it, it is `y` or `Y`.
pub fn confirms_overwrite(response: &str) -> (r: bool)
    ensures
        r == (trim_spec(response@) == "y"@ || trim_spec(response@) == "Y"@),
{
    let answer = trim_str(response);
    str_eq(answer, "y") || str_eq(answer, "Y")
}

/// Whether the pairs hold the key.
pub open spec fn has_key(pairs: Seq<PairModel>, key: Seq<char>) -> bool {
    0 <= pair_index(pairs, key) < pairs.len()
}

/// The key under which a prompt is looked up: a name with a `:` is a key
/// already; any other name stands for the first of `static:name`,
/// `custom:name` and `imported:name` that is there, and for itself if none
/// is.
pub open spec fn prompt_key_spec(prompts: Seq<PairModel>, name: Seq<char>) -> Seq<char> {
    if 0 <= index_of_char(name, ':') < name.len() {
        name
    } else if has_key(prompts, "static:"@ + name) {
        "static:"@ + name
    } else if has_key(prompts, "custom:"@ + name) {
        "custom:"@ + name
    } else if has_key(prompts, "imported:"@ + name) {
        "imported:"@ + name
    } else {
        name
    }
}

/// Works out the key under which a prompt is looked up.
pub fn prompt_key(prompts: &Vec<(String, String)>, name: &str) -> (r: String)
    ensures
        r@ == prompt_key_spec(pairs_model(prompts@), name@),
{
    let chars = chars_of(name);
    if crate::text::find_char(&chars, ':').is_some() {
        return String::from_str(name);
    }
    let static_key = concat2("static:", name);
    let custom_key = concat2("custom:", name);
    let imported_key = concat2("imported:", name);
    if find_pair(prompts, static_key.as_str()).is_some() {
        static_key
    } else if find_pair(prompts, custom_key.as_str()).is_some() {
        custom_key
    } else if find_pair(prompts, imported_key.as_str()).is_some() {
        imported_key
    } else {
        String::from_str(name)
    }
}

/// The keys under which a rule set is looked up, in order: the name as it
/// is, then what follows its last `:` under `static:`, `imported:` and
/// `custom:`.
pub open spec fn rule_key_candidates_spec(name: Seq<char>) -> Seq<Seq<char>> {
    let stem = pieces(name, ':').last();
    seq![name, "static:"@ + stem, "imported:"@ + stem, "custom:"@ + stem]
}

/// Lists the keys under which a rule set is looked up.
pub fn rule_key_candidates(name: &str) -> (r: Vec<String>)
    ensures
        texts_of(r@) == rule_key_candidates_spec(name@),
{
    let mut parts = split_on(name, ':');
    let ghost all = texts_of(parts@);
    proof {
        lemma_pieces_nonempty(name@, ':');
    }
    let stem = match parts.pop() {
        Some(last) => last,
        None => String::from_str(name),
    };
    assert(stem@ == all.last());
    let mut keys: Vec<String> = Vec::new();
    keys.push(String::from_str(name));
    keys.push(concat2("static:", stem.as_str()));
    keys.push(concat2("imported:", stem.as_str()));
    keys.push(concat2("custom:", stem.as_str()));
    assert(texts_of(keys@) =~= rule_key_candidates_spec(name@));
    keys
}

/// Cutting a text gives at least one piece.
pub proof fn lemma_pieces_nonempty(s: Seq<char>, sep: char)
    ensures
        pieces(s, sep).len() > 0,
    decreases s.len(),
{
    let k = index_of_char(s, sep);
    if 0 <= k < s.len() {
        lemma_pieces_nonempty(s.skip(k + 1), sep);
    }
}

/// The two places where an imported file is looked for, in order: below the
/// project root, and below the configuration directory in the project root.
pub fn import_candidates(project_root: &str, import: &str) -> (r: (String, String))
    ensures
        r.0@ == join_spec(project_root@, import@),
        r.1@ == join_spec(join_spec(project_root@, DEFAULT_CONFIG_DIR@), import@),
{
    let direct = join_paths(project_root, import);
    let config_dir = join_paths(project_root, DEFAULT_CONFIG_DIR);
    let in_config_dir = join_paths(config_dir.as_str(), import);
    (direct, in_config_dir)
}

/// One path that changed: as reported, and in canonical form if that could
/// be worked out.
#[derive(Debug, Clone)]
pub struct ChangedPath {
    pub path: String,
    pub canonical: Option<String>,
}

/// Whether a change concerns the configuration file: by the canonical
/// paths if both are known, else by the paths as they are.
pub open spec fn is_config_change(
    config_path: Seq<char>,
    config_canonical: Option<String>,
    change: ChangedPath,
) -> bool {
    match (config_canonical, change.canonical) {
        (Some(c), Some(e)) => c@ == e@,
        _ => change.path@ == config_path,
    }
}

/// Whether any of the changes concerns the configuration file.
pub fn config_file_changed(
    config_path: &str,
    config_canonical: &Option<String>,
    changes: &Vec<ChangedPath>,
) -> (r: bool)
    ensures
        r == exists|i: int|
            0 <= i < changes@.len() && is_config_change(
                config_path@,
                *config_canonical,
                #[trigger] changes@[i],
            ),
{
    let mut i: usize = 0;
    while i < changes.len()
        invariant
            0 <= i <= changes.len(),
            forall|j: int|
                0 <= j < i ==> !is_config_change(
                    config_path@,
                    *config_canonical,
                    #[trigger] changes@[j],
                ),
        decreases changes.len() - i,
    {
        let change = &changes[i];
        let hit = match (config_canonical, &change.canonical) {
            (Some(c), Some(e)) => str_eq(c.as_str(), e.as_str()),
            _ => str_eq(change.path.as_str(), config_path),
        };
        if hit {
            return true;
        }
        i = i + 1;
    }
    false
}

/// What the watcher reports.
#[derive(Debug, Clone, Copy, PartialEq, Eq, Structural)]
pub enum WatchEvent {
    /// Some paths changed; `config_changed` tells whether the configuration
    /// file is among them.
    Changes { count: usize, config_changed: bool },
    /// The watcher reported an error.
    Failure,
    /// The watcher is gone.
    Closed,
}

/// What the watch mode does next.
#[derive(Debug, Clone, Copy, PartialEq, Eq, Structural)]
pub enum WatchAction {
    /// Go on waiting.
    Wait,
    /// Generate the output anew, after loading the configuration anew if
    /// `reload_config` says so.
    Regenerate { reload_config: bool },
    /// Report the error and go on waiting.
    Report,
    /// Leave the watch mode.
    Stop,
}

/// Decides what the watch mode does on an event.
pub fn watch_step(event: WatchEvent) -> (r: WatchAction)
    ensures
        r == match event {
            WatchEvent::Changes { count, config_changed } => if count == 0 {
                WatchAction::Wait
            } else {
                WatchAction::Regenerate { reload_config: config_changed }
            },
            WatchEvent::Failure => WatchAction::Report,
            WatchEvent::Closed => WatchAction::Stop,
        },
{
    match event {
        WatchEvent::Changes { count, config_changed } => {
            if count == 0 {
                WatchAction::Wait
            } else {
                WatchAction::Regenerate { reload_config: config_changed }
            }
        },
        WatchEvent::Failure => WatchAction::Report,
        WatchEvent::Closed => WatchAction::Stop,
    }
}

} // verus!
