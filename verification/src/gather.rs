//! Gathering: from the walked paths of a project to the file lists and the
//! tree entries of the three sections.
//!
//! The walk itself and the reading of files happen outside; this module
//! decides what is walked into, which section each path belongs to, what
//! becomes of each read, and in which order the results come out.

use vstd::prelude::*;
use vstd::string::StringExecFns;
use crate::config::{Config, DEFAULT_CACHE_DIR};
use crate::error::AppError;
use crate::filter::{should_include, should_include_spec};
use crate::glob::{
    build_glob_set_from_vec, glob_list_error, glob_set_empty, glob_set_globs, processed_patterns,
    set_hits,
};
use crate::output_formats::BuiltinIgnores;
use crate::paths::{first_sep, normal_components, split_components};
use crate::order::{par_sort_by_key, sorted_by_key, SortKey};
use crate::reader::{are_read_errors, collect_read_results, read_failures, read_files, ReadOutcome};
use crate::text::{chars_of, texts_of};
use crate::tree::entry_texts;

verus! {

/// One file that was read: its absolute path, its text, and its size in
/// bytes.
#[derive(Debug, Clone)]
pub struct FileInfo {
    pub path: String,
    pub content: String,
    pub size: usize,
}

/// One path that the walk found: absolute, relative to the project root, and
/// whether it is a directory.
#[derive(Debug, Clone)]
pub struct WalkedPath {
    pub path: String,
    pub relative_path: String,
    pub is_dir: bool,
}

/// The compiled patterns of one section.
pub struct SectionFilter {
    pub include_set: globset::GlobSet,
    pub has_includes: bool,
    pub exclude_set: globset::GlobSet,
    pub builtin_exclude_set: globset::GlobSet,
}

/// The compiled patterns of all sections.
pub struct GatherFilters {
    pub tree: SectionFilter,
    pub source: SectionFilter,
    pub docs: SectionFilter,
    pub common_builtin_exclude_set: globset::GlobSet,
}

/// The sections that a path belongs to.
#[derive(Debug, Clone, Copy, PartialEq, Eq, Structural)]
pub struct PathClass {
    pub in_tree: bool,
    pub in_docs: bool,
    pub in_source: bool,
}

/// The first of the given outcomes that is an error.
pub open spec fn first_error(outcomes: Seq<Option<Seq<char>>>) -> Option<Seq<char>>
    decreases outcomes.len(),
{
    if outcomes.len() == 0 {
        None
    } else if outcomes[0] is Some {
        outcomes[0]
    } else {
        first_error(outcomes.drop_first())
    }
}

/// What compiling a list gives when the list is compiled only if `active`.
pub open spec fn list_error_if(active: bool, patterns: Seq<String>) -> Option<Seq<char>> {
    if active {
        glob_list_error(patterns)
    } else {
        None
    }
}

/// What compiling all the pattern lists of a configuration gives: nothing,
/// or the error of the first list that fails. The lists are taken in this
/// order: tree, source and docs, each with its include list before its
/// exclude list, then the built-in lists, common, tree, source and docs.
/// The lists of a docs section that is switched off are not compiled.
pub open spec fn filters_error(config: Config, builtin: BuiltinIgnores) -> Option<Seq<char>> {
    first_error(
        seq![
            glob_list_error(config.effective_include(config.tree.include_patterns)@),
            glob_list_error(config.effective_exclude(config.tree.exclude_patterns)@),
            glob_list_error(config.effective_include(config.source.include_patterns)@),
            glob_list_error(config.effective_exclude(config.source.exclude_patterns)@),
            list_error_if(
                config.docs.enabled,
                config.effective_include(config.docs.include_patterns)@,
            ),
            list_error_if(
                config.docs.enabled,
                config.effective_exclude(config.docs.exclude_patterns)@,
            ),
            glob_list_error(builtin.common@),
            glob_list_error(builtin.tree@),
            glob_list_error(builtin.source@),
            glob_list_error(builtin.docs@),
        ],
    )
}

/// The patterns of a list that is compiled only if `active`; none otherwise.
pub open spec fn globs_if(active: bool, patterns: Seq<String>) -> Seq<Seq<char>> {
    if active {
        processed_patterns(patterns)
    } else {
        Seq::empty()
    }
}

/// The filters hold the patterns of the configuration and of the built-in
/// lists, and each section knows whether it has include patterns.
pub open spec fn filters_match(filters: GatherFilters, config: Config, builtin: BuiltinIgnores) -> bool {
    let tree_include = config.effective_include(config.tree.include_patterns)@;
    let source_include = config.effective_include(config.source.include_patterns)@;
    let docs_include = config.effective_include(config.docs.include_patterns)@;
    &&& glob_set_globs(filters.tree.include_set) == processed_patterns(tree_include)
    &&& glob_set_globs(filters.tree.exclude_set) == processed_patterns(
        config.effective_exclude(config.tree.exclude_patterns)@,
    )
    &&& filters.tree.has_includes == (tree_include.len() > 0)
    &&& glob_set_globs(filters.tree.builtin_exclude_set) == processed_patterns(builtin.tree@)
    &&& glob_set_globs(filters.source.include_set) == processed_patterns(source_include)
    &&& glob_set_globs(filters.source.exclude_set) == processed_patterns(
        config.effective_exclude(config.source.exclude_patterns)@,
    )
    &&& filters.source.has_includes == (source_include.len() > 0)
    &&& glob_set_globs(filters.source.builtin_exclude_set) == processed_patterns(builtin.source@)
    &&& glob_set_globs(filters.docs.include_set) == globs_if(config.docs.enabled, docs_include)
    &&& glob_set_globs(filters.docs.exclude_set) == globs_if(
        config.docs.enabled,
        config.effective_exclude(config.docs.exclude_patterns)@,
    )
    &&& filters.docs.has_includes == (config.docs.enabled && docs_include.len() > 0)
    &&& glob_set_globs(filters.docs.builtin_exclude_set) == processed_patterns(builtin.docs@)
    &&& glob_set_globs(filters.common_builtin_exclude_set) == processed_patterns(builtin.common@)
}

/// Compiles the pattern lists of a list that is compiled only if `active`.
fn build_glob_set_if(active: bool, patterns: &Vec<String>) -> (r: Result<
    globset::GlobSet,
    AppError,
>)
    ensures
        match r {
            Ok(set) => list_error_if(active, patterns@) is None && glob_set_globs(set) == globs_if(
                active,
                patterns@,
            ),
            Err(e) => e matches AppError::Glob(m) && list_error_if(active, patterns@) == Some(m@),
        },
{
    if active {
        build_glob_set_from_vec(patterns.as_slice())
    } else {
        Ok(glob_set_empty())
    }
}

/// Compiles every pattern list that gathering needs. One pattern that does
/// not compile fails the whole, before anything is walked.
pub fn build_filters(config: &Config, builtin: &BuiltinIgnores) -> (r: Result<
    GatherFilters,
    AppError,
>)
    ensures
        match r {
            Ok(filters) => filters_error(*config, *builtin) is None && filters_match(
                filters,
                *config,
                *builtin,
            ),
            Err(e) => e matches AppError::Glob(m) && filters_error(*config, *builtin) == Some(m@),
        },
{
    let tree_include_patterns = config.get_effective_include(&config.tree.include_patterns);
    let tree_exclude_patterns = config.get_effective_exclude(&config.tree.exclude_patterns);
    let source_include_patterns = config.get_effective_include(&config.source.include_patterns);
    let source_exclude_patterns = config.get_effective_exclude(&config.source.exclude_patterns);
    let docs_include_patterns = config.get_effective_include(&config.docs.include_patterns);
    let docs_exclude_patterns = config.get_effective_exclude(&config.docs.exclude_patterns);
    let ghost outcomes = seq![
        glob_list_error(tree_include_patterns@),
        glob_list_error(tree_exclude_patterns@),
        glob_list_error(source_include_patterns@),
        glob_list_error(source_exclude_patterns@),
        list_error_if(config.docs.enabled, docs_include_patterns@),
        list_error_if(config.docs.enabled, docs_exclude_patterns@),
        glob_list_error(builtin.common@),
        glob_list_error(builtin.tree@),
        glob_list_error(builtin.source@),
        glob_list_error(builtin.docs@),
    ];
    proof {
        reveal_with_fuel(first_error, 11);
    }

    let tree_include_set = build_glob_set_from_vec(tree_include_patterns.as_slice())?;
    let tree_exclude_set = build_glob_set_from_vec(tree_exclude_patterns.as_slice())?;
    let has_tree_includes = tree_include_patterns.len() > 0;

    let source_include_set = build_glob_set_from_vec(source_include_patterns.as_slice())?;
    let source_exclude_set = build_glob_set_from_vec(source_exclude_patterns.as_slice())?;
    let has_source_includes = source_include_patterns.len() > 0;

    let docs_active = config.is_docs_section_active();
    let docs_include_set = build_glob_set_if(docs_active, docs_include_patterns)?;
    let docs_exclude_set = build_glob_set_if(docs_active, docs_exclude_patterns)?;
    let has_docs_includes = docs_active && docs_include_patterns.len() > 0;

    let common_builtin_exclude_set = build_glob_set_from_vec(builtin.common.as_slice())?;
    let tree_builtin_exclude_set = build_glob_set_from_vec(builtin.tree.as_slice())?;
    let source_builtin_exclude_set = build_glob_set_from_vec(builtin.source.as_slice())?;
    let docs_builtin_exclude_set = build_glob_set_from_vec(builtin.docs.as_slice())?;

    Ok(
        GatherFilters {
            tree: SectionFilter {
                include_set: tree_include_set,
                has_includes: has_tree_includes,
                exclude_set: tree_exclude_set,
                builtin_exclude_set: tree_builtin_exclude_set,
            },
            source: SectionFilter {
                include_set: source_include_set,
                has_includes: has_source_includes,
                exclude_set: source_exclude_set,
                builtin_exclude_set: source_builtin_exclude_set,
            },
            docs: SectionFilter {
                include_set: docs_include_set,
                has_includes: has_docs_includes,
                exclude_set: docs_exclude_set,
                builtin_exclude_set: docs_builtin_exclude_set,
            },
            common_builtin_exclude_set,
        },
    )
}

/// How many threads the walk uses, given how many are on offer: all of
/// them, but never more than twelve.
pub open spec fn walker_threads_spec(available: usize) -> usize {
    if available < 12 {
        available
    } else {
        12
    }
}

/// How the walk is set up.
#[derive(Debug, Clone, Copy, PartialEq, Eq, Structural)]
pub struct WalkSettings {
    /// The number of threads that walk.
    pub threads: usize,
    /// Whether hidden files are left out. They never are: hiding is a matter
    /// for the patterns.
    pub skip_hidden: bool,
    /// Whether `.ignore` files are followed.
    pub ignore_files: bool,
    /// Whether `.gitignore` files are followed.
    pub git_ignore: bool,
    /// Whether the repository's own exclude file is followed.
    pub git_exclude: bool,
    /// Whether ignore files count only inside a repository. They always
    /// count: the walk works outside repositories too.
    pub require_git: bool,
}

/// Sets up the walk: one general switch governs all ignore files.
pub fn walk_settings(config: &Config, available_threads: usize) -> (r: WalkSettings)
    ensures
        r == (WalkSettings {
            threads: walker_threads_spec(available_threads),
            skip_hidden: false,
            ignore_files: config.general.use_gitignore,
            git_ignore: config.general.use_gitignore,
            git_exclude: config.general.use_gitignore,
            require_git: false,
        }),
{
    let threads = if available_threads < 12 {
        available_threads
    } else {
        12
    };
    let use_global_gitignore = config.general.use_gitignore;
    WalkSettings {
        threads,
        skip_hidden: false,
        ignore_files: use_global_gitignore,
        git_ignore: use_global_gitignore,
        git_exclude: use_global_gitignore,
        require_git: false,
    }
}

/// What the walk does with an entry it has found.
#[derive(Debug, Clone, Copy, PartialEq, Eq, Structural)]
pub enum WalkStep {
    /// Go on without reporting the entry.
    Pass,
    /// Do not report the entry and do not walk into it.
    SkipTree,
    /// Report the entry.
    Emit,
}

/// The path lies in the directory where this program keeps its own output.
pub open spec fn under_cache_dir(relative_path: Seq<char>) -> bool {
    crate::paths::starts_with_components(
        normal_components(relative_path),
        normal_components(DEFAULT_CACHE_DIR@),
    )
}

/// What the walk does with an entry at the given depth below the root: the
/// root itself is passed over; the program's own output directory and `.git`
/// are not walked into, whatever the ignore settings; everything else is
/// reported.
pub open spec fn walk_step_spec(depth: usize, relative_path: Seq<char>) -> WalkStep {
    if depth == 0 {
        WalkStep::Pass
    } else if under_cache_dir(relative_path) || in_git_dir(relative_path) {
        WalkStep::SkipTree
    } else {
        WalkStep::Emit
    }
}

/// Decides what the walk does with an entry.
pub fn walk_step(depth: usize, relative_path: &str) -> (r: WalkStep)
    ensures
        r == walk_step_spec(depth, relative_path@),
{
    if depth == 0 {
        return WalkStep::Pass;
    }
    let components = split_components(relative_path);
    let cache = split_components(DEFAULT_CACHE_DIR);
    if crate::paths::components_start_with(&components, &cache) || is_git_path(relative_path) {
        WalkStep::SkipTree
    } else {
        WalkStep::Emit
    }
}

/// The path is `.git` or lies below it.
pub open spec fn in_git_dir(relative_path: Seq<char>) -> bool {
    crate::paths::first_segment(relative_path) == ".git"@
}

/// Whether a path is `.git` or lies below it.
pub fn is_git_path(relative_path: &str) -> (r: bool)
    ensures
        r == in_git_dir(relative_path@),
{
    let chars = chars_of(relative_path);
    let n = chars.len();
    let ghost s = relative_path@;
    proof {
        reveal_strlit(".git");
        crate::paths::lemma_first_sep_is(s);
    }
    let ghost k = first_sep(s);
    if n >= 4 && chars[0] == '.' && chars[1] == 'g' && chars[2] == 'i' && chars[3] == 't' && (n == 4
        || chars[4] == '/') {
        proof {
            crate::paths::lemma_first_sep(s, 4);
            assert(s.take(4) =~= ".git"@);
        }
        true
    } else {
        proof {
            if s.take(k) == ".git"@ {
                assert(s.take(k).len() == k);
                assert(".git"@.len() == 4);
                assert(k == 4);
                assert(s.take(k)[0] == s[0] && s.take(k)[1] == s[1] && s.take(k)[2] == s[2]
                    && s.take(k)[3] == s[3]);
                assert(false);
            }
        }
        false
    }
}

/// Whether a section takes a path.
pub open spec fn section_takes(
    section: SectionFilter,
    common_builtin: globset::GlobSet,
    use_builtin: bool,
    path: Seq<char>,
    is_dir: bool,
) -> bool {
    should_include_spec(
        path,
        is_dir,
        glob_set_globs(section.include_set),
        section.has_includes,
        glob_set_globs(section.exclude_set),
        use_builtin,
        glob_set_globs(common_builtin),
        glob_set_globs(section.builtin_exclude_set),
    )
}

/// The sections that a walked path belongs to.
///
/// Nothing in `.git` belongs anywhere. A path belongs to the tree if the
/// tree section is on and takes it. Only files belong to docs and source: to
/// docs if that section is on and takes the file; to source if the file does
/// not belong to docs and the source section is on and takes it.
pub open spec fn classify_spec(
    config: Config,
    filters: GatherFilters,
    path: Seq<char>,
    is_dir: bool,
) -> PathClass {
    let use_builtin = config.general.enable_builtin_ignore;
    let common = filters.common_builtin_exclude_set;
    if in_git_dir(path) {
        PathClass { in_tree: false, in_docs: false, in_source: false }
    } else {
        let in_docs = !is_dir && config.docs.enabled && section_takes(
            filters.docs,
            common,
            use_builtin,
            path,
            false,
        );
        PathClass {
            in_tree: config.tree.enabled && section_takes(
                filters.tree,
                common,
                use_builtin,
                path,
                is_dir,
            ),
            in_docs,
            in_source: !is_dir && !in_docs && config.source.enabled && section_takes(
                filters.source,
                common,
                use_builtin,
                path,
                false,
            ),
        }
    }
}

/// Decides whether a section takes a path.
fn section_includes(
    config: &Config,
    section: &SectionFilter,
    section_setting: &crate::config::IgnoreSetting,
    common_builtin: &globset::GlobSet,
    project_root: &str,
    relative_path: &str,
    is_dir: bool,
) -> (r: bool)
    ensures
        r == section_takes(
            *section,
            *common_builtin,
            config.general.enable_builtin_ignore,
            relative_path@,
            is_dir,
        ),
{
    should_include(
        relative_path,
        is_dir,
        &section.include_set,
        section.has_includes,
        &section.exclude_set,
        config.get_effective_gitignore(section_setting),
        project_root,
        config.get_effective_builtin_ignore(),
        common_builtin,
        &section.builtin_exclude_set,
    )
}

/// Decides which sections a walked path belongs to. A file never belongs to
/// both docs and source.
pub fn classify_path(
    config: &Config,
    filters: &GatherFilters,
    project_root: &str,
    relative_path: &str,
    is_dir: bool,
) -> (r: PathClass)
    ensures
        r == classify_spec(*config, *filters, relative_path@, is_dir),
        !(r.in_docs && r.in_source),
        is_dir ==> !r.in_docs && !r.in_source,
{
    if is_git_path(relative_path) {
        return PathClass { in_tree: false, in_docs: false, in_source: false };
    }
    let common = &filters.common_builtin_exclude_set;
    let in_tree = config.tree.enabled && section_includes(
        config,
        &filters.tree,
        &config.tree.use_gitignore,
        common,
        project_root,
        relative_path,
        is_dir,
    );
    let in_docs = !is_dir && config.is_docs_section_active() && section_includes(
        config,
        &filters.docs,
        &config.docs.use_gitignore,
        common,
        project_root,
        relative_path,
        false,
    );
    let in_source = !is_dir && !in_docs && config.source.enabled && section_includes(
        config,
        &filters.source,
        &config.source.use_gitignore,
        common,
        project_root,
        relative_path,
        false,
    );
    PathClass { in_tree, in_docs, in_source }
}

/// What is to be done after the walk: the entries of the tree, and the
/// absolute paths of the files to read for the source and the docs section.
#[derive(Debug, Clone)]
pub struct GatherPlan {
    pub tree_candidates: Vec<(String, bool)>,
    pub source_file_paths: Vec<String>,
    pub docs_file_paths: Vec<String>,
}

/// The tree entries among the walked paths, in order: the relative path of
/// each path that belongs to the tree, with whether it is a directory.
pub open spec fn planned_tree(config: Config, filters: GatherFilters, walked: Seq<WalkedPath>) -> Seq<
    (Seq<char>, bool),
>
    decreases walked.len(),
{
    if walked.len() == 0 {
        Seq::empty()
    } else {
        let earlier = planned_tree(config, filters, walked.drop_last());
        let w = walked.last();
        if classify_spec(config, filters, w.relative_path@, w.is_dir).in_tree {
            earlier.push((w.relative_path@, w.is_dir))
        } else {
            earlier
        }
    }
}

/// The source files among the walked paths, in order, by absolute path.
pub open spec fn planned_source(config: Config, filters: GatherFilters, walked: Seq<WalkedPath>) -> Seq<
    Seq<char>,
>
    decreases walked.len(),
{
    if walked.len() == 0 {
        Seq::empty()
    } else {
        let earlier = planned_source(config, filters, walked.drop_last());
        let w = walked.last();
        if classify_spec(config, filters, w.relative_path@, w.is_dir).in_source {
            earlier.push(w.path@)
        } else {
            earlier
        }
    }
}

/// The docs files among the walked paths, in order, by absolute path.
pub open spec fn planned_docs(config: Config, filters: GatherFilters, walked: Seq<WalkedPath>) -> Seq<
    Seq<char>,
>
    decreases walked.len(),
{
    if walked.len() == 0 {
        Seq::empty()
    } else {
        let earlier = planned_docs(config, filters, walked.drop_last());
        let w = walked.last();
        if classify_spec(config, filters, w.relative_path@, w.is_dir).in_docs {
            earlier.push(w.path@)
        } else {
            earlier
        }
    }
}

/// Sorts the walked paths into the three sections.
///
/// The paths are taken in the order given, which nothing is promised about;
/// the results are put in order by [`finish_gather`].
pub fn classify_walked(
    config: &Config,
    filters: &GatherFilters,
    project_root: &str,
    walked: &[WalkedPath],
) -> (plan: GatherPlan)
    ensures
        entry_texts(plan.tree_candidates@) == planned_tree(*config, *filters, walked@),
        texts_of(plan.source_file_paths@) == planned_source(*config, *filters, walked@),
        texts_of(plan.docs_file_paths@) == planned_docs(*config, *filters, walked@),
{
    let mut tree_candidates: Vec<(String, bool)> = Vec::new();
    let mut source_file_paths: Vec<String> = Vec::new();
    let mut docs_file_paths: Vec<String> = Vec::new();
    let mut i: usize = 0;
    proof {
        assert(walked@.take(0) =~= Seq::<WalkedPath>::empty());
        assert(entry_texts(tree_candidates@) =~= Seq::<(Seq<char>, bool)>::empty());
        assert(texts_of(source_file_paths@) =~= Seq::<Seq<char>>::empty());
        assert(texts_of(docs_file_paths@) =~= Seq::<Seq<char>>::empty());
    }
    while i < walked.len()
        invariant
            0 <= i <= walked.len(),
            entry_texts(tree_candidates@) == planned_tree(*config, *filters, walked@.take(i as int)),
            texts_of(source_file_paths@) == planned_source(
                *config,
                *filters,
                walked@.take(i as int),
            ),
            texts_of(docs_file_paths@) == planned_docs(*config, *filters, walked@.take(i as int)),
        decreases walked.len() - i,
    {
        let walked_info = &walked[i];
        let class = classify_path(
            config,
            filters,
            project_root,
            walked_info.relative_path.as_str(),
            walked_info.is_dir,
        );
        let ghost tree_before = entry_texts(tree_candidates@);
        let ghost source_before = texts_of(source_file_paths@);
        let ghost docs_before = texts_of(docs_file_paths@);
        proof {
            let upto = walked@.take(i + 1);
            assert(upto.drop_last() =~= walked@.take(i as int));
            assert(upto.last() == walked@[i as int]);
        }
        if class.in_tree {
            tree_candidates.push((walked_info.relative_path.clone(), walked_info.is_dir));
            assert(entry_texts(tree_candidates@) =~= tree_before.push(
                (walked_info.relative_path@, walked_info.is_dir),
            ));
        }
        if class.in_docs {
            docs_file_paths.push(walked_info.path.clone());
            assert(texts_of(docs_file_paths@) =~= docs_before.push(walked_info.path@));
        } else if class.in_source {
            source_file_paths.push(walked_info.path.clone());
            assert(texts_of(source_file_paths@) =~= source_before.push(walked_info.path@));
        }
        i = i + 1;
    }
    proof {
        assert(walked@.take(i as int) =~= walked@);
    }
    GatherPlan { tree_candidates, source_file_paths, docs_file_paths }
}

impl SortKey for FileInfo {
    open spec fn key(&self) -> Seq<char> {
        self.path@
    }

    fn sort_key(&self) -> (r: &str) {
        self.path.as_str()
    }
}

impl SortKey for (String, bool) {
    open spec fn key(&self) -> Seq<char> {
        self.0@
    }

    fn sort_key(&self) -> (r: &str) {
        self.0.as_str()
    }
}

/// What gathering gives: the files of the source and of the docs section,
/// each sorted by path, the entries of the tree sorted by path, and the
/// reads that failed.
#[derive(Debug)]
pub struct GatherResult {
    pub source_files: Vec<FileInfo>,
    pub docs_files: Vec<FileInfo>,
    pub tree_entries: Vec<(String, bool)>,
    pub read_errors: Vec<AppError>,
}

/// Finishes gathering once the files have been read: keeps the files that
/// are text, puts files and tree entries in order of path, and collects the
/// reads that failed, those of the source section first.
pub fn finish_gather(
    tree_candidates: Vec<(String, bool)>,
    source_reads: Vec<ReadOutcome>,
    docs_reads: Vec<ReadOutcome>,
) -> (r: GatherResult)
    ensures
        r.source_files@.to_multiset() == read_files(source_reads@).to_multiset(),
        sorted_by_key(r.source_files@),
        r.docs_files@.to_multiset() == read_files(docs_reads@).to_multiset(),
        sorted_by_key(r.docs_files@),
        r.tree_entries@.to_multiset() == tree_candidates@.to_multiset(),
        sorted_by_key(r.tree_entries@),
        are_read_errors(
            r.read_errors@,
            read_failures(source_reads@) + read_failures(docs_reads@),
        ),
{
    let (mut final_source_files, source_errors) = collect_read_results(source_reads);
    let (mut final_docs_files, mut docs_errors) = collect_read_results(docs_reads);
    let mut file_read_errors = source_errors;
    let ghost first = file_read_errors@;
    let ghost second = docs_errors@;
    file_read_errors.append(&mut docs_errors);
    assert(file_read_errors@ =~= first + second);

    par_sort_by_key(&mut final_source_files);
    par_sort_by_key(&mut final_docs_files);
    let mut tree_entries = tree_candidates;
    par_sort_by_key(&mut tree_entries);

    GatherResult {
        source_files: final_source_files,
        docs_files: final_docs_files,
        tree_entries,
        read_errors: file_read_errors,
    }
}

/// The lines that warn of the reads that failed: none if there were no
/// failures or if warnings are not wanted; else an empty line, a heading,
/// one line for each failure, and a closing line.
pub open spec fn warning_lines(errors: Seq<AppError>, quiet: bool) -> Seq<Seq<char>> {
    if errors.len() == 0 || quiet {
        Seq::empty()
    } else {
        seq![Seq::<char>::empty(), "⚠️ Warning: Errors encountered during file reading:"@]
            + Seq::new(errors.len(), |i: int| " - "@ + errors[i].text()) + seq!["---"@]
    }
}

/// Words the warning about the reads that failed.
pub fn read_warning_lines(errors: &Vec<AppError>, quiet: bool) -> (r: Vec<String>)
    ensures
        texts_of(r@) == warning_lines(errors@, quiet),
{
    let mut lines: Vec<String> = Vec::new();
    if errors.len() == 0 || quiet {
        assert(texts_of(lines@) =~= Seq::<Seq<char>>::empty());
        return lines;
    }
    lines.push(String::new());
    lines.push(String::from_str("⚠️ Warning: Errors encountered during file reading:"));
    let ghost head = texts_of(lines@);
    assert(head =~= seq![
        Seq::<char>::empty(),
        "⚠️ Warning: Errors encountered during file reading:"@,
    ]);
    let mut i: usize = 0;
    while i < errors.len()
        invariant
            0 <= i <= errors.len(),
            texts_of(lines@) == head + Seq::new(i as nat, |j: int| " - "@ + errors@[j].text()),
        decreases errors.len() - i,
    {
        let ghost before = texts_of(lines@);
        let message = errors[i].message();
        lines.push(crate::text::concat2(" - ", message.as_str()));
        assert(texts_of(lines@) =~= before.push(" - "@ + errors@[i as int].text()));
        assert(head + Seq::new((i + 1) as nat, |j: int| " - "@ + errors@[j].text()) =~= (head
            + Seq::new(i as nat, |j: int| " - "@ + errors@[j].text())).push(
            " - "@ + errors@[i as int].text(),
        ));
        i = i + 1;
    }
    let ghost body = texts_of(lines@);
    lines.push(String::from_str("---"));
    assert(texts_of(lines@) =~= body + seq!["---"@]);
    lines
}

/// A file that belongs to docs does not belong to source, whatever the
/// configuration and the patterns.
pub proof fn law_docs_excludes_source(
    config: Config,
    filters: GatherFilters,
    path: Seq<char>,
    is_dir: bool,
)
    ensures
        !(classify_spec(config, filters, path, is_dir).in_docs && classify_spec(
            config,
            filters,
            path,
            is_dir,
        ).in_source),
{
}

/// Every planned source file is the path of a walked file that belongs to
/// source, and every planned docs file is the path of one that belongs to
/// docs.
proof fn lemma_planned_members(
    config: Config,
    filters: GatherFilters,
    walked: Seq<WalkedPath>,
    path: Seq<char>,
)
    ensures
        planned_source(config, filters, walked).contains(path) ==> exists|i: int|
            0 <= i < walked.len() && (#[trigger] walked[i]).path@ == path && classify_spec(
                config,
                filters,
                walked[i].relative_path@,
                walked[i].is_dir,
            ).in_source,
        planned_docs(config, filters, walked).contains(path) ==> exists|i: int|
            0 <= i < walked.len() && (#[trigger] walked[i]).path@ == path && classify_spec(
                config,
                filters,
                walked[i].relative_path@,
                walked[i].is_dir,
            ).in_docs,
    decreases walked.len(),
{
    if walked.len() > 0 {
        let earlier = walked.drop_last();
        let last = walked.last();
        let n = walked.len() - 1;
        lemma_planned_members(config, filters, earlier, path);
        let class = classify_spec(config, filters, last.relative_path@, last.is_dir);
        if planned_source(config, filters, walked).contains(path) {
            let before = planned_source(config, filters, earlier);
            if before.contains(path) {
                let i = choose|i: int|
                    0 <= i < earlier.len() && (#[trigger] earlier[i]).path@ == path
                        && classify_spec(
                        config,
                        filters,
                        earlier[i].relative_path@,
                        earlier[i].is_dir,
                    ).in_source;
                assert(walked[i] == earlier[i]);
            } else {
                let now = planned_source(config, filters, walked);
                let k = choose|k: int| 0 <= k < now.len() && now[k] == path;
                if k < before.len() {
                    assert(before[k] == path);
                }
                assert(walked[n].path@ == path);
            }
        }
        if planned_docs(config, filters, walked).contains(path) {
            let before = planned_docs(config, filters, earlier);
            if before.contains(path) {
                let i = choose|i: int|
                    0 <= i < earlier.len() && (#[trigger] earlier[i]).path@ == path
                        && classify_spec(
                        config,
                        filters,
                        earlier[i].relative_path@,
                        earlier[i].is_dir,
                    ).in_docs;
                assert(walked[i] == earlier[i]);
            } else {
                let now = planned_docs(config, filters, walked);
                let k = choose|k: int| 0 <= k < now.len() && now[k] == path;
                if k < before.len() {
                    assert(before[k] == path);
                }
                assert(walked[n].path@ == path);
            }
        }
    }
}

/// A file selected for docs is never in the list of source files: where no
/// path was walked twice, the two lists have no path in common.
pub proof fn law_docs_and_source_disjoint(
    config: Config,
    filters: GatherFilters,
    walked: Seq<WalkedPath>,
    path: Seq<char>,
)
    requires
        forall|i: int, j: int|
            0 <= i < j < walked.len() ==> (#[trigger] walked[i]).path@ != (
            #[trigger] walked[j]).path@,
    ensures
        !(planned_docs(config, filters, walked).contains(path) && planned_source(
            config,
            filters,
            walked,
        ).contains(path)),
{
    lemma_planned_members(config, filters, walked, path);
}

/// A pattern list that a section gives is taken as it stands, also when it
/// is empty: the common list then plays no part. So a section with an empty
/// include list of its own has no include filter, and takes every path that
/// is neither excluded nor ignored, whatever the common include list holds.
pub proof fn law_empty_include_list_is_no_filter(
    config: Config,
    builtin: BuiltinIgnores,
    filters: GatherFilters,
    path: Seq<char>,
    is_dir: bool,
)
    requires
        filters_match(filters, config, builtin),
    ensures
        config.tree.include_patterns matches Some(list) && list@.len() == 0 ==> section_takes(
            filters.tree,
            filters.common_builtin_exclude_set,
            config.general.enable_builtin_ignore,
            path,
            is_dir,
        ) == taken_without_includes(
            filters.tree,
            filters.common_builtin_exclude_set,
            config.general.enable_builtin_ignore,
            path,
            is_dir,
        ),
        config.source.include_patterns matches Some(list) && list@.len() == 0 ==> section_takes(
            filters.source,
            filters.common_builtin_exclude_set,
            config.general.enable_builtin_ignore,
            path,
            is_dir,
        ) == taken_without_includes(
            filters.source,
            filters.common_builtin_exclude_set,
            config.general.enable_builtin_ignore,
            path,
            is_dir,
        ),
        config.docs.include_patterns matches Some(list) && list@.len() == 0 ==> section_takes(
            filters.docs,
            filters.common_builtin_exclude_set,
            config.general.enable_builtin_ignore,
            path,
            is_dir,
        ) == taken_without_includes(
            filters.docs,
            filters.common_builtin_exclude_set,
            config.general.enable_builtin_ignore,
            path,
            is_dir,
        ),
{
}

/// Whether a section takes a path when its include patterns are left out of
/// account: if its exclude patterns do not select the path and, where
/// built-in ignores are in force, the built-in patterns do not either.
pub open spec fn taken_without_includes(
    section: SectionFilter,
    common_builtin: globset::GlobSet,
    use_builtin: bool,
    path: Seq<char>,
    is_dir: bool,
) -> bool {
    &&& !set_hits(glob_set_globs(section.exclude_set), path, is_dir)
    &&& !(use_builtin && (set_hits(glob_set_globs(common_builtin), path, is_dir) || set_hits(
        glob_set_globs(section.builtin_exclude_set),
        path,
        is_dir,
    )))
}

} // verus!
