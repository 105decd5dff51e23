//! The configuration: which sections are produced, which paths each section
//! takes, and how the result is written.

use vstd::prelude::*;
use vstd::string::StringExecFns;
use crate::error::AppError;
use crate::pairs::pairs_model;
use crate::rule_map::{rule_map_entries, rule_map_new, RuleSetModel};
use crate::paths::{file_name_of, file_name_spec};
use crate::text::concat2;

verus! {

/// The directory, below the project root, that holds the configuration.
pub const DEFAULT_CONFIG_DIR: &'static str = ".xtools/xcontext";

/// The name of the configuration file inside [`DEFAULT_CONFIG_DIR`].
pub const DEFAULT_CONFIG_FILENAME: &'static str = "xcontext.toml";

/// The directory, below the project root, that holds saved output.
pub const DEFAULT_CACHE_DIR: &'static str = ".xtools/xcontext/cache";

/// The debounce delay of the watch mode when none is configured.
pub const DEFAULT_WATCH_DELAY: &'static str = "300ms";

/// Whether a section follows ignore files: as the general setting says, or
/// always, or never.
#[derive(Debug, Clone, Copy, PartialEq, Eq, Structural)]
pub enum IgnoreSetting {
    Inherit,
    True,
    False,
}

/// What holds for the whole project: its name, and whether ignore files and
/// built-in ignore patterns are followed.
#[derive(Debug, Clone)]
pub struct GeneralConfig {
    pub project_name: Option<String>,
    pub use_gitignore: bool,
    pub enable_builtin_ignore: bool,
}

/// The pattern lists that a section falls back to when it has none of its
/// own.
#[derive(Debug, Clone)]
pub struct CommonFiltersConfig {
    pub include_patterns: Vec<String>,
    pub exclude_patterns: Vec<String>,
}

/// The metadata section: `key = value` pairs that are written out as they
/// are.
#[derive(Debug, Clone)]
pub struct MetaConfig {
    pub enabled: bool,
    pub custom_meta: Vec<(String, String)>,
}

/// The filter of one section. A pattern list that is absent falls back to
/// the common list; a list that is present is taken as it is, also when it
/// is empty.
#[derive(Debug, Clone)]
pub struct DocsConfig {
    pub enabled: bool,
    pub use_gitignore: IgnoreSetting,
    pub include_patterns: Option<Vec<String>>,
    pub exclude_patterns: Option<Vec<String>>,
}

/// See [`DocsConfig`].
#[derive(Debug, Clone)]
pub struct TreeConfig {
    pub enabled: bool,
    pub use_gitignore: IgnoreSetting,
    pub include_patterns: Option<Vec<String>>,
    pub exclude_patterns: Option<Vec<String>>,
}

/// See [`DocsConfig`].
#[derive(Debug, Clone)]
pub struct SourceConfig {
    pub enabled: bool,
    pub use_gitignore: IgnoreSetting,
    pub include_patterns: Option<Vec<String>>,
    pub exclude_patterns: Option<Vec<String>>,
}

/// The rules section: which static rule sets are taken or left out by stem,
/// which rule files are imported, and the rule lists given by name.
#[derive(Debug, Clone)]
pub struct RulesConfig {
    pub enabled: bool,
    pub include_stems: Vec<String>,
    pub exclude_stems: Vec<String>,
    pub import: Vec<String>,
    pub custom: indexmap::IndexMap<String, Vec<String>>,
}

/// The prompts section: which prompt files are imported, and the prompts
/// given by name.
#[derive(Debug, Clone)]
pub struct PromptsConfig {
    pub import: Vec<String>,
    pub custom: Vec<(String, String)>,
}

/// How the output is written: its format, and which general fields it
/// carries.
#[derive(Debug, Clone)]
pub struct OutputConfig {
    pub format: String,
    pub json_minify: bool,
    pub xml_pretty_print: bool,
    pub include_project_name: bool,
    pub include_project_root: bool,
    pub include_system_info: bool,
    pub include_timestamp: bool,
}

/// Where output is saved, and under which file name.
#[derive(Debug, Clone)]
pub struct SaveConfig {
    pub output_dir: String,
    pub filename_base: Option<String>,
    pub extension: Option<String>,
}

/// The watch mode: how long it waits for changes to settle.
#[derive(Debug, Clone)]
pub struct WatchConfig {
    pub delay: String,
}

/// The whole configuration, section by section.
#[derive(Debug, Clone)]
pub struct Config {
    pub general: GeneralConfig,
    pub common_filters: CommonFiltersConfig,
    pub meta: MetaConfig,
    pub docs: DocsConfig,
    pub tree: TreeConfig,
    pub source: SourceConfig,
    pub rules: RulesConfig,
    pub prompts: PromptsConfig,
    pub output: OutputConfig,
    pub save: SaveConfig,
    pub watch: WatchConfig,
}

/// The default of a switch that is on unless said otherwise.
pub fn default_true() -> (r: bool)
    ensures
        r,
{
    true
}

/// The default of a switch that is off unless said otherwise.
pub fn default_false() -> (r: bool)
    ensures
        !r,
{
    false
}

/// The default output format.
pub fn default_format() -> (r: String)
    ensures
        r@ == "json"@,
{
    String::from_str("json")
}

/// The default directory for saved output.
pub fn default_save_dir_config() -> (r: String)
    ensures
        r@ == DEFAULT_CACHE_DIR@,
{
    String::from_str(DEFAULT_CACHE_DIR)
}

/// The default debounce delay of the watch mode.
pub fn default_watch_delay_string() -> (r: String)
    ensures
        r@ == DEFAULT_WATCH_DELAY@,
{
    String::from_str(DEFAULT_WATCH_DELAY)
}

impl Default for IgnoreSetting {
    fn default() -> (r: Self)
        ensures
            r == IgnoreSetting::Inherit,
    {
        IgnoreSetting::Inherit
    }
}

impl Default for GeneralConfig {
    fn default() -> (r: Self)
        ensures
            r.project_name is None,
            r.use_gitignore,
            r.enable_builtin_ignore,
    {
        GeneralConfig {
            project_name: None,
            use_gitignore: default_true(),
            enable_builtin_ignore: default_true(),
        }
    }
}

impl Default for CommonFiltersConfig {
    fn default() -> (r: Self)
        ensures
            r.include_patterns@.len() == 0,
            r.exclude_patterns@.len() == 0,
    {
        CommonFiltersConfig { include_patterns: Vec::new(), exclude_patterns: Vec::new() }
    }
}

impl Default for MetaConfig {
    fn default() -> (r: Self)
        ensures
            r.enabled,
            pairs_model(r.custom_meta@) == seq![("author"@, "json"@)],
    {
        let mut custom_meta: Vec<(String, String)> = Vec::new();
        custom_meta.push((String::from_str("author"), String::from_str("json")));
        assert(pairs_model(custom_meta@) =~= seq![("author"@, "json"@)]);
        MetaConfig { enabled: default_true(), custom_meta }
    }
}

/// A section's filter as it is by default: enabled, following the general
/// ignore setting, with pattern lists that are present and empty.
pub open spec fn section_is_default(
    enabled: bool,
    use_gitignore: IgnoreSetting,
    include_patterns: Option<Vec<String>>,
    exclude_patterns: Option<Vec<String>>,
) -> bool {
    &&& enabled
    &&& use_gitignore == IgnoreSetting::Inherit
    &&& include_patterns matches Some(list) && list@.len() == 0
    &&& exclude_patterns matches Some(list) && list@.len() == 0
}

impl Default for DocsConfig {
    fn default() -> (r: Self)
        ensures
            section_is_default(r.enabled, r.use_gitignore, r.include_patterns, r.exclude_patterns),
    {
        DocsConfig {
            enabled: default_true(),
            use_gitignore: IgnoreSetting::Inherit,
            include_patterns: Some(Vec::new()),
            exclude_patterns: Some(Vec::new()),
        }
    }
}

impl Default for TreeConfig {
    fn default() -> (r: Self)
        ensures
            section_is_default(r.enabled, r.use_gitignore, r.include_patterns, r.exclude_patterns),
    {
        TreeConfig {
            enabled: default_true(),
            use_gitignore: IgnoreSetting::Inherit,
            include_patterns: Some(Vec::new()),
            exclude_patterns: Some(Vec::new()),
        }
    }
}

impl Default for SourceConfig {
    fn default() -> (r: Self)
        ensures
            section_is_default(r.enabled, r.use_gitignore, r.include_patterns, r.exclude_patterns),
    {
        SourceConfig {
            enabled: default_true(),
            use_gitignore: IgnoreSetting::Inherit,
            include_patterns: Some(Vec::new()),
            exclude_patterns: Some(Vec::new()),
        }
    }
}

impl Default for RulesConfig {
    fn default() -> (r: Self)
        ensures
            r.enabled,
            r.include_stems@.len() == 0,
            r.exclude_stems@.len() == 0,
            r.import@.len() == 0,
            rule_map_entries(r.custom) == Seq::<RuleSetModel>::empty(),
    {
        RulesConfig {
            enabled: true,
            include_stems: Vec::new(),
            exclude_stems: Vec::new(),
            import: Vec::new(),
            custom: rule_map_new(),
        }
    }
}

impl Default for PromptsConfig {
    fn default() -> (r: Self)
        ensures
            r.import@.len() == 0,
            r.custom@.len() == 0,
    {
        PromptsConfig { import: Vec::new(), custom: Vec::new() }
    }
}

impl Default for OutputConfig {
    fn default() -> (r: Self)
        ensures
            r.format@ == "json"@,
            r.json_minify,
            !r.xml_pretty_print,
            r.include_project_name,
            r.include_project_root,
            r.include_system_info,
            r.include_timestamp,
    {
        OutputConfig {
            format: default_format(),
            json_minify: default_true(),
            xml_pretty_print: default_false(),
            include_project_name: default_true(),
            include_project_root: default_true(),
            include_system_info: default_true(),
            include_timestamp: default_true(),
        }
    }
}

impl Default for SaveConfig {
    fn default() -> (r: Self)
        ensures
            r.output_dir@ == DEFAULT_CACHE_DIR@,
            r.filename_base is None,
            r.extension is None,
    {
        SaveConfig { output_dir: default_save_dir_config(), filename_base: None, extension: None }
    }
}

impl Default for WatchConfig {
    fn default() -> (r: Self)
        ensures
            r.delay@ == DEFAULT_WATCH_DELAY@,
    {
        WatchConfig { delay: default_watch_delay_string() }
    }
}

impl Default for Config {
    fn default() -> (r: Self)
        ensures
            r.general.project_name is None,
            r.general.use_gitignore,
            r.general.enable_builtin_ignore,
            r.common_filters.include_patterns@.len() == 0,
            r.common_filters.exclude_patterns@.len() == 0,
            r.meta.enabled,
            pairs_model(r.meta.custom_meta@) == seq![("author"@, "json"@)],
            section_is_default(
                r.docs.enabled,
                r.docs.use_gitignore,
                r.docs.include_patterns,
                r.docs.exclude_patterns,
            ),
            section_is_default(
                r.tree.enabled,
                r.tree.use_gitignore,
                r.tree.include_patterns,
                r.tree.exclude_patterns,
            ),
            section_is_default(
                r.source.enabled,
                r.source.use_gitignore,
                r.source.include_patterns,
                r.source.exclude_patterns,
            ),
            r.rules.enabled,
            r.rules.include_stems@.len() == 0,
            r.rules.exclude_stems@.len() == 0,
            r.rules.import@.len() == 0,
            rule_map_entries(r.rules.custom) == Seq::<RuleSetModel>::empty(),
            r.prompts.import@.len() == 0,
            r.prompts.custom@.len() == 0,
            r.output.format@ == "json"@,
            r.output.json_minify,
            !r.output.xml_pretty_print,
            r.output.include_project_name,
            r.output.include_project_root,
            r.output.include_system_info,
            r.output.include_timestamp,
            r.save.output_dir@ == DEFAULT_CACHE_DIR@,
            r.save.filename_base is None,
            r.save.extension is None,
            r.watch.delay@ == DEFAULT_WATCH_DELAY@,
    {
        Config {
            general: GeneralConfig::default(),
            common_filters: CommonFiltersConfig::default(),
            meta: MetaConfig::default(),
            docs: DocsConfig::default(),
            tree: TreeConfig::default(),
            source: SourceConfig::default(),
            rules: RulesConfig::default(),
            prompts: PromptsConfig::default(),
            output: OutputConfig::default(),
            save: SaveConfig::default(),
            watch: WatchConfig::default(),
        }
    }
}

impl Config {
    /// The pattern list that a section takes paths by: its own if it has
    /// one, even an empty one, else the common list.
    pub open spec fn effective_include(self, section: Option<Vec<String>>) -> Vec<String> {
        match section {
            Some(list) => list,
            None => self.common_filters.include_patterns,
        }
    }

    /// The pattern list that a section leaves paths out by: its own if it
    /// has one, even an empty one, else the common list.
    pub open spec fn effective_exclude(self, section: Option<Vec<String>>) -> Vec<String> {
        match section {
            Some(list) => list,
            None => self.common_filters.exclude_patterns,
        }
    }

    /// Whether a section follows ignore files.
    pub open spec fn effective_gitignore(self, section: IgnoreSetting) -> bool {
        match section {
            IgnoreSetting::True => true,
            IgnoreSetting::False => false,
            IgnoreSetting::Inherit => self.general.use_gitignore,
        }
    }

    /// The pattern list that a section takes paths by.
    pub fn get_effective_include<'a>(&'a self, section_include: &'a Option<Vec<String>>) -> (r:
        &'a Vec<String>)
        ensures
            *r == self.effective_include(*section_include),
            section_include matches Some(list) ==> *r == list,
            section_include is None ==> *r == self.common_filters.include_patterns,
    {
        match section_include {
            Some(list) => list,
            None => &self.common_filters.include_patterns,
        }
    }

    /// The pattern list that a section leaves paths out by.
    pub fn get_effective_exclude<'a>(&'a self, section_exclude: &'a Option<Vec<String>>) -> (r:
        &'a Vec<String>)
        ensures
            *r == self.effective_exclude(*section_exclude),
            section_exclude matches Some(list) ==> *r == list,
            section_exclude is None ==> *r == self.common_filters.exclude_patterns,
    {
        match section_exclude {
            Some(list) => list,
            None => &self.common_filters.exclude_patterns,
        }
    }

    /// Whether a section follows ignore files. The walk is one for all
    /// sections and goes by the general setting alone; a section's own
    /// setting is worked out here and has no effect on what is walked.
    pub fn get_effective_gitignore(&self, section_setting: &IgnoreSetting) -> (r: bool)
        ensures
            r == self.effective_gitignore(*section_setting),
    {
        match section_setting {
            IgnoreSetting::True => true,
            IgnoreSetting::False => false,
            IgnoreSetting::Inherit => self.general.use_gitignore,
        }
    }

    /// Whether built-in ignore patterns are in force.
    pub fn get_effective_builtin_ignore(&self) -> (r: bool)
        ensures
            r == self.general.enable_builtin_ignore,
    {
        self.general.enable_builtin_ignore
    }

    /// Whether the docs section is on.
    pub fn is_docs_section_active(&self) -> (r: bool)
        ensures
            r == self.docs.enabled,
    {
        self.docs.enabled
    }

    /// The name of the project: the configured one, else the name of the
    /// project's directory, else `UnknownProject`.
    pub open spec fn effective_project_name(self, project_root: Seq<char>) -> Seq<char> {
        match self.general.project_name {
            Some(name) => name@,
            None => match file_name_spec(project_root) {
                Some(name) => name,
                None => "UnknownProject"@,
            },
        }
    }

    /// The name of the project.
    pub fn get_effective_project_name(&self, project_root: &str) -> (r: String)
        ensures
            r@ == self.effective_project_name(project_root@),
    {
        match &self.general.project_name {
            Some(name) => name.clone(),
            None => match file_name_of(project_root) {
                Some(name) => name,
                None => String::from_str("UnknownProject"),
            },
        }
    }

    /// The debounce delay of the watch mode in nanoseconds, if the
    /// configured text is a duration. A text with an exponent of more than
    /// four digits is refused without being read.
    pub fn get_watch_delay(&self) -> (r: Result<u128, AppError>)
        ensures
            match r {
                Ok(nanos) => watch_delay_spec(self.watch.delay@) == Ok::<u128, Seq<char>>(nanos),
                Err(e) => e matches AppError::InvalidArgument(m) && watch_delay_spec(
                    self.watch.delay@,
                ) == Err::<u128, Seq<char>>(m@),
            },
    {
        let delay = self.watch.delay.as_str();
        if !has_small_exponents(delay) {
            let mut m = concat2("Invalid watch delay duration '", delay);
            m.append("': ");
            m.append("exponent has more than four digits");
            m.append(". Use format like '500ms', '2s'.");
            return Err(AppError::InvalidArgument(m));
        }
        match parse_duration_nanos(delay) {
            Ok(nanos) => Ok(nanos),
            Err(detail) => {
                let mut m = concat2("Invalid watch delay duration '", delay);
                m.append("': ");
                m.append(detail.as_str());
                m.append(". Use format like '500ms', '2s'.");
                Err(AppError::InvalidArgument(m))
            },
        }
    }
}

/// What a text means as a duration: its length in nanoseconds, or the
/// description of why it is no duration.
pub uninterp spec fn parsed_duration(text: Seq<char>) -> Result<u128, Seq<char>>;

/// Whether a character is one of the digits `0` to `9`.
pub open spec fn is_digit(c: char) -> bool {
    '0' <= c && c <= '9'
}

/// The number of decimal digits that a text begins with.
pub open spec fn digit_run(s: Seq<char>) -> nat
    decreases s.len(),
{
    if s.len() > 0 && is_digit(s[0]) {
        1 + digit_run(s.drop_first())
    } else {
        0
    }
}

/// The number of digits of the exponent that a text begins with, after a
/// sign if there is one.
pub open spec fn exponent_digits(s: Seq<char>) -> nat {
    if s.len() > 0 && (s[0] == '+' || s[0] == '-') {
        digit_run(s.drop_first())
    } else {
        digit_run(s)
    }
}

/// No `e` in the text is followed by an exponent of more than four digits.
pub open spec fn exponents_small(s: Seq<char>) -> bool {
    forall|i: int|
        0 <= i < s.len() && (s[i] == 'e' || s[i] == 'E') ==> exponent_digits(
            #[trigger] s.skip(i + 1),
        ) <= 4
}

/// A text that begins with `k` digits has `k` digits more than what follows
/// them.
proof fn lemma_digit_run(s: Seq<char>, k: int)
    requires
        0 <= k <= s.len(),
        forall|j: int| 0 <= j < k ==> is_digit(#[trigger] s[j]),
    ensures
        digit_run(s) == k + digit_run(s.skip(k)),
    decreases k,
{
    if k == 0 {
        assert(s.skip(0) =~= s);
    } else {
        let t = s.drop_first();
        assert forall|j: int| 0 <= j < k - 1 implies is_digit(#[trigger] t[j]) by {
            assert(t[j] == s[j + 1]);
        }
        lemma_digit_run(t, k - 1);
        assert(t.skip(k - 1) =~= s.skip(k));
    }
}

/// Whether the characters from `start` on begin with more than four digits.
fn digits_exceed_four(chars: &Vec<char>, start: usize) -> (r: bool)
    requires
        start <= chars.len(),
    ensures
        r == (digit_run(chars@.skip(start as int)) > 4),
{
    let ghost s = chars@.skip(start as int);
    let mut k: usize = 0;
    while k <= 4 && start + k < chars.len() && '0' <= chars[start + k] && chars[start + k] <= '9'
        invariant
            0 <= k <= 5,
            start + k <= chars.len(),
            s == chars@.skip(start as int),
            forall|j: int| 0 <= j < k ==> is_digit(#[trigger] s[j]),
        decreases 5 - k,
    {
        k = k + 1;
    }
    proof {
        lemma_digit_run(s, k as int);
        if k <= 4 {
            let rest = s.skip(k as int);
            if start + k < chars.len() {
                assert(rest[0] == chars@[start + k]);
            }
            assert(digit_run(rest) == 0);
        }
    }
    k > 4
}

/// Whether no `e` in the text is followed by an exponent of more than four
/// digits.
pub fn has_small_exponents(text: &str) -> (r: bool)
    ensures
        r == exponents_small(text@),
{
    let chars = crate::text::chars_of(text);
    let n = chars.len();
    let mut i: usize = 0;
    while i < n
        invariant
            0 <= i <= n,
            n == chars.len(),
            chars@ == text@,
            forall|j: int|
                0 <= j < i && (chars@[j] == 'e' || chars@[j] == 'E') ==> exponent_digits(
                    #[trigger] chars@.skip(j + 1),
                ) <= 4,
        decreases n - i,
    {
        if chars[i] == 'e' || chars[i] == 'E' {
            let ghost after = chars@.skip(i + 1);
            let signed = i + 1 < n && (chars[i + 1] == '+' || chars[i + 1] == '-');
            proof {
                if i + 1 < n {
                    assert(after[0] == chars@[i + 1]);
                    assert(after.drop_first() =~= chars@.skip(i + 2));
                }
            }
            let too_long = if signed {
                digits_exceed_four(&chars, i + 2)
            } else {
                digits_exceed_four(&chars, i + 1)
            };
            if too_long {
                return false;
            }
        }
        i = i + 1;
    }
    true
}

/// What the configured watch delay gives: its length in nanoseconds, or the
/// text of the error.
pub open spec fn watch_delay_spec(delay: Seq<char>) -> Result<u128, Seq<char>> {
    if !exponents_small(delay) {
        Err(invalid_delay_text(delay, "exponent has more than four digits"@))
    } else {
        match parsed_duration(delay) {
            Ok(nanos) => Ok(nanos),
            Err(detail) => Err(invalid_delay_text(delay, detail)),
        }
    }
}

/// `parse_duration::parse`: reads a text such as `300ms` or `2s` as a
/// duration, given here in nanoseconds; a text that is no duration gives the
/// error's description. The time it takes grows with ten to the power of an
/// exponent in the text, so exponents must be small.
#[verifier::external_body]
fn parse_duration_nanos(text: &str) -> (r: Result<u128, String>)
    requires
        exponents_small(text@),
    ensures
        match r {
            Ok(nanos) => parsed_duration(text@) == Ok::<u128, Seq<char>>(nanos),
            Err(msg) => parsed_duration(text@) == Err::<u128, Seq<char>>(msg@),
        },
{
    parse_duration::parse(text).map(|d| d.as_nanos()).map_err(|e| e.to_string())
}

/// The text of the error for a watch delay that is no duration.
pub open spec fn invalid_delay_text(delay: Seq<char>, detail: Seq<char>) -> Seq<char> {
    "Invalid watch delay duration '"@ + delay + "': "@ + detail
        + ". Use format like '500ms', '2s'."@
}

} // verus!
