//! The inclusion decision: whether one walked path belongs to one section.

use vstd::prelude::*;
use crate::glob::{glob_set_globs, glob_set_selects, set_hits};

verus! {

/// The decision, from what the four pattern sets say of a path.
///
/// In this order: a path that the section's exclude patterns select is out;
/// where the section has include patterns, a path that they do not select is
/// out; where built-in ignores are in force, a path that the common or the
/// section's built-in patterns select is out; every other path is in.
pub open spec fn include_decision(
    excluded: bool,
    has_includes: bool,
    included: bool,
    use_builtin: bool,
    common_builtin_hit: bool,
    section_builtin_hit: bool,
) -> bool {
    if excluded {
        false
    } else if has_includes && !included {
        false
    } else if use_builtin && (common_builtin_hit || section_builtin_hit) {
        false
    } else {
        true
    }
}

/// Whether a path belongs to a section, given the patterns of the section's
/// four sets.
pub open spec fn should_include_spec(
    path: Seq<char>,
    is_dir: bool,
    include_globs: Seq<Seq<char>>,
    has_includes: bool,
    exclude_globs: Seq<Seq<char>>,
    use_builtin: bool,
    common_builtin_globs: Seq<Seq<char>>,
    section_builtin_globs: Seq<Seq<char>>,
) -> bool {
    include_decision(
        set_hits(exclude_globs, path, is_dir),
        has_includes,
        set_hits(include_globs, path, is_dir),
        use_builtin,
        set_hits(common_builtin_globs, path, is_dir),
        set_hits(section_builtin_globs, path, is_dir),
    )
}

/// Decides inclusion from the answers of the four pattern sets.
pub fn decide_inclusion(
    excluded: bool,
    has_includes: bool,
    included: bool,
    use_builtin: bool,
    common_builtin_hit: bool,
    section_builtin_hit: bool,
) -> (r: bool)
    ensures
        r == include_decision(
            excluded,
            has_includes,
            included,
            use_builtin,
            common_builtin_hit,
            section_builtin_hit,
        ),
{
    if excluded {
        return false;
    }
    if has_includes && !included {
        return false;
    }
    if use_builtin && (common_builtin_hit || section_builtin_hit) {
        return false;
    }
    true
}

/// Decides whether a walked path belongs to a section.
///
/// `has_includes` tells whether the section has include patterns at all.
/// Ignore files play no part here: what they exclude never reaches this
/// function, because the walk itself leaves it out. The section's own ignore
/// setting and the project root are taken and not used.
pub fn should_include(
    relative_path: &str,
    is_dir: bool,
    include_set: &globset::GlobSet,
    has_includes: bool,
    exclude_set: &globset::GlobSet,
    _use_gitignore: bool,
    _project_root: &str,
    use_builtin: bool,
    common_builtin_exclude: &globset::GlobSet,
    section_builtin_exclude: &globset::GlobSet,
) -> (r: bool)
    ensures
        r == should_include_spec(
            relative_path@,
            is_dir,
            glob_set_globs(*include_set),
            has_includes,
            glob_set_globs(*exclude_set),
            use_builtin,
            glob_set_globs(*common_builtin_exclude),
            glob_set_globs(*section_builtin_exclude),
        ),
        set_hits(glob_set_globs(*exclude_set), relative_path@, is_dir) ==> !r,
{
    if glob_set_selects(exclude_set, relative_path, is_dir) {
        return false;
    }
    if has_includes && !glob_set_selects(include_set, relative_path, is_dir) {
        return false;
    }
    if use_builtin {
        if glob_set_selects(common_builtin_exclude, relative_path, is_dir) {
            return false;
        }
        if glob_set_selects(section_builtin_exclude, relative_path, is_dir) {
            return false;
        }
    }
    true
}

/// Exclusion takes precedence: a path that the exclude patterns select is
/// never included, whatever the include patterns and the built-in ignores
/// say.
pub proof fn law_exclude_wins(
    path: Seq<char>,
    is_dir: bool,
    include_globs: Seq<Seq<char>>,
    has_includes: bool,
    exclude_globs: Seq<Seq<char>>,
    use_builtin: bool,
    common_builtin_globs: Seq<Seq<char>>,
    section_builtin_globs: Seq<Seq<char>>,
)
    requires
        set_hits(exclude_globs, path, is_dir),
    ensures
        !should_include_spec(
            path,
            is_dir,
            include_globs,
            has_includes,
            exclude_globs,
            use_builtin,
            common_builtin_globs,
            section_builtin_globs,
        ),
{
}

/// With built-in ignores switched off, a path that only built-in patterns
/// select is included: the built-in patterns then have no say.
pub proof fn law_builtin_off_includes(
    path: Seq<char>,
    is_dir: bool,
    include_globs: Seq<Seq<char>>,
    has_includes: bool,
    exclude_globs: Seq<Seq<char>>,
    common_builtin_globs: Seq<Seq<char>>,
    section_builtin_globs: Seq<Seq<char>>,
)
    requires
        !set_hits(exclude_globs, path, is_dir),
        !has_includes || set_hits(include_globs, path, is_dir),
    ensures
        should_include_spec(
            path,
            is_dir,
            include_globs,
            has_includes,
            exclude_globs,
            false,
            common_builtin_globs,
            section_builtin_globs,
        ),
{
}

/// Without include patterns the include step rejects nothing: the decision
/// then rests on the exclude patterns and the built-in ignores alone.
pub proof fn law_no_includes_no_include_filter(
    path: Seq<char>,
    is_dir: bool,
    include_globs: Seq<Seq<char>>,
    exclude_globs: Seq<Seq<char>>,
    use_builtin: bool,
    common_builtin_globs: Seq<Seq<char>>,
    section_builtin_globs: Seq<Seq<char>>,
)
    ensures
        should_include_spec(
            path,
            is_dir,
            include_globs,
            false,
            exclude_globs,
            use_builtin,
            common_builtin_globs,
            section_builtin_globs,
        ) == (!set_hits(exclude_globs, path, is_dir) && !(use_builtin && (set_hits(
            common_builtin_globs,
            path,
            is_dir,
        ) || set_hits(section_builtin_globs, path, is_dir)))),
{
}

} // verus!
