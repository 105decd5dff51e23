//! Glob patterns: what this crate assumes of the `globset` crate, and the
//! compiling of pattern lists into matchers.

use vstd::prelude::*;
use vstd::string::{StrSliceExecFns, StringExecFns};
use crate::error::AppError;
use crate::text::{concat2, last_char, trim_spec, trim_str};

verus! {

/// `globset::Glob`: one parsed pattern. Nothing is known of it but the
/// pattern it was parsed from.
#[verifier::external_type_specification]
#[verifier::external_body]
pub struct ExGlob(globset::Glob);

/// `globset::GlobSet`: a matcher built from patterns. Nothing is known of it
/// but the patterns it was built from.
#[verifier::external_type_specification]
#[verifier::external_body]
pub struct ExGlobSet(globset::GlobSet);

/// `globset::GlobSetBuilder`: the patterns gathered for a matcher.
#[verifier::external_type_specification]
#[verifier::external_body]
pub struct ExGlobSetBuilder(globset::GlobSetBuilder);

/// The pattern text that a parsed glob was made from.
///
/// This and the names that follow stand for what `globset` does with
/// patterns and paths in which `/` is the path separator.
pub uninterp spec fn glob_text(glob: globset::Glob) -> Seq<char>;

/// The pattern texts of the globs added to a builder, in order.
pub uninterp spec fn builder_globs(builder: globset::GlobSetBuilder) -> Seq<Seq<char>>;

/// The pattern texts of the globs that a set was built from, in order.
pub uninterp spec fn glob_set_globs(set: globset::GlobSet) -> Seq<Seq<char>>;

/// What parsing a pattern gives: nothing if it is a valid glob, else the
/// description of what is wrong with it.
pub uninterp spec fn glob_parse_error(pattern: Seq<char>) -> Option<Seq<char>>;

/// What building a set from valid patterns gives: nothing if the set can be
/// built, else the description of the failure.
pub uninterp spec fn glob_set_build_error(patterns: Seq<Seq<char>>) -> Option<Seq<char>>;

/// Whether a set built from the given patterns matches the given path, that
/// is, whether any one of its globs does.
pub uninterp spec fn glob_set_matches(patterns: Seq<Seq<char>>, path: Seq<char>) -> bool;

/// `globset::Glob::new`: parses a pattern with the default options. The glob
/// that comes back remembers the pattern; a pattern that does not parse gives
/// the error's text.
#[verifier::external_body]
fn glob_new(pattern: &str) -> (r: Result<globset::Glob, String>)
    ensures
        match r {
            Ok(glob) => glob_parse_error(pattern@) is None && glob_text(glob) == pattern@,
            Err(msg) => glob_parse_error(pattern@) == Some(msg@),
        },
{
    globset::Glob::new(pattern).map_err(|e| e.to_string())
}

/// `globset::GlobSetBuilder::new`: a builder without globs.
#[verifier::external_body]
fn glob_set_builder_new() -> (r: globset::GlobSetBuilder)
    ensures
        builder_globs(r) == Seq::<Seq<char>>::empty(),
{
    globset::GlobSetBuilder::new()
}

/// `globset::GlobSetBuilder::add`: appends one glob to the builder.
#[verifier::external_body]
fn glob_set_builder_add(builder: &mut globset::GlobSetBuilder, glob: globset::Glob)
    ensures
        builder_globs(*final(builder)) == builder_globs(*old(builder)).push(glob_text(glob)),
{
    builder.add(glob);
}

/// `globset::GlobSetBuilder::build`: builds the set of all globs added so
/// far. A builder without globs always builds, to the empty set.
#[verifier::external_body]
fn glob_set_builder_build(builder: &globset::GlobSetBuilder) -> (r: Result<
    globset::GlobSet,
    String,
>)
    ensures
        builder_globs(*builder).len() == 0 ==> r is Ok,
        match r {
            Ok(set) => glob_set_build_error(builder_globs(*builder)) is None && glob_set_globs(set)
                == builder_globs(*builder),
            Err(msg) => glob_set_build_error(builder_globs(*builder)) == Some(msg@),
        },
{
    builder.build().map_err(|e| e.to_string())
}

/// `globset::GlobSet::empty`: the set without globs.
#[verifier::external_body]
pub(crate) fn glob_set_empty() -> (r: globset::GlobSet)
    ensures
        glob_set_globs(r) == Seq::<Seq<char>>::empty(),
{
    globset::GlobSet::empty()
}

/// `globset::GlobSet::is_match`: whether any glob of the set matches the
/// path. The empty set matches nothing.
#[verifier::external_body]
pub(crate) fn glob_set_is_match(set: &globset::GlobSet, path: &str) -> (r: bool)
    ensures
        r == glob_set_matches(glob_set_globs(*set), path@),
        glob_set_globs(*set).len() == 0 ==> !r,
{
    set.is_match(path)
}

/// A pattern as it is compiled: trimmed of surrounding whitespace, and, where
/// it ends in a `/`, with `**` appended, so that it stands for the directory
/// and everything beneath it.
pub open spec fn processed_pattern(pattern: Seq<char>) -> Seq<char> {
    let trimmed = trim_spec(pattern);
    if trimmed.len() > 0 && trimmed.last() == '/' {
        trimmed + "**"@
    } else {
        trimmed
    }
}

/// The patterns of a list as they are compiled, in order.
pub open spec fn processed_patterns(patterns: Seq<String>) -> Seq<Seq<char>> {
    Seq::new(patterns.len(), |i: int| processed_pattern(patterns[i]@))
}

/// Every pattern of the list parses.
pub open spec fn all_parse(processed: Seq<Seq<char>>) -> bool {
    forall|i: int| 0 <= i < processed.len() ==> glob_parse_error(#[trigger] processed[i]) is None
}

/// The index of the first pattern that does not parse, or the length of the
/// list if all do.
pub open spec fn first_bad(processed: Seq<Seq<char>>) -> int
    decreases processed.len(),
{
    if processed.len() == 0 || glob_parse_error(processed[0]) is Some {
        0
    } else {
        1 + first_bad(processed.drop_first())
    }
}

/// The text of the error for a pattern that does not parse: it names the
/// pattern as written, the pattern as compiled, and what is wrong with it.
pub open spec fn invalid_pattern_text(
    pattern: Seq<char>,
    processed: Seq<char>,
    detail: Seq<char>,
) -> Seq<char> {
    "Invalid glob pattern \""@ + pattern + "\" (processed as \""@ + processed + "\"): "@ + detail
}

/// [`first_bad`] is the one index that does not parse while all before it
/// do.
pub proof fn lemma_first_bad(processed: Seq<Seq<char>>, k: int)
    requires
        0 <= k < processed.len(),
        forall|j: int| 0 <= j < k ==> glob_parse_error(#[trigger] processed[j]) is None,
        glob_parse_error(processed[k]) is Some,
    ensures
        first_bad(processed) == k,
    decreases k,
{
    if k > 0 {
        let tail = processed.drop_first();
        assert(glob_parse_error(processed[0]) is None);
        assert forall|j: int| 0 <= j < k - 1 implies glob_parse_error(#[trigger] tail[j])
            is None by {
            assert(tail[j] == processed[j + 1]);
        }
        lemma_first_bad(tail, k - 1);
    }
}

/// Brings one pattern into the form in which it is compiled.
pub fn process_pattern(pattern: &str) -> (r: String)
    ensures
        r@ == processed_pattern(pattern@),
{
    let trimmed = trim_str(pattern);
    let ends_in_slash = match last_char(trimmed) {
        Some(c) => c == '/',
        None => false,
    };
    if ends_in_slash {
        concat2(trimmed, "**")
    } else {
        String::from_str(trimmed)
    }
}

/// What compiling a list of patterns gives: nothing if it succeeds, else the
/// text of the error. A pattern that does not parse fails the list with an
/// error that names the first such pattern; a list whose patterns all parse
/// can still fail to build.
pub open spec fn glob_list_error(patterns: Seq<String>) -> Option<Seq<char>> {
    let processed = processed_patterns(patterns);
    let k = first_bad(processed);
    if all_parse(processed) {
        glob_set_build_error(processed)
    } else {
        Some(invalid_pattern_text(patterns[k]@, processed[k], glob_parse_error(processed[k])->0))
    }
}

/// Compiles a list of patterns into one matcher.
///
/// Each pattern is first brought into its compiled form (see
/// [`processed_pattern`]). One pattern that does not parse fails the whole
/// list, with an error that names the first such pattern as it was written
/// and as it was compiled.
pub fn build_glob_set_from_vec(patterns: &[String]) -> (r: Result<globset::GlobSet, AppError>)
    ensures
        match r {
            Ok(set) => glob_list_error(patterns@) is None && glob_set_globs(set)
                == processed_patterns(patterns@),
            Err(e) => e matches AppError::Glob(m) && glob_list_error(patterns@) == Some(m@),
        },
        patterns@.len() == 0 ==> r is Ok,
{
    let ghost processed = processed_patterns(patterns@);
    let mut builder = glob_set_builder_new();
    let mut i: usize = 0;
    proof {
        assert(processed.take(0) =~= Seq::<Seq<char>>::empty());
    }
    while i < patterns.len()
        invariant
            0 <= i <= patterns.len(),
            processed == processed_patterns(patterns@),
            builder_globs(builder) == processed.take(i as int),
            forall|j: int| 0 <= j < i ==> glob_parse_error(#[trigger] processed[j]) is None,
        decreases patterns.len() - i,
    {
        let pattern = &patterns[i];
        let compiled = process_pattern(pattern.as_str());
        assert(compiled@ == processed[i as int]);
        match glob_new(compiled.as_str()) {
            Ok(glob) => {
                glob_set_builder_add(&mut builder, glob);
                assert(processed.take(i + 1) =~= processed.take(i as int).push(processed[i as int]));
            },
            Err(detail) => {
                proof {
                    lemma_first_bad(processed, i as int);
                }
                let mut m = concat2("Invalid glob pattern \"", pattern.as_str());
                m.append("\" (processed as \"");
                m.append(compiled.as_str());
                m.append("\"): ");
                m.append(detail.as_str());
                return Err(AppError::Glob(m));
            },
        }
        i = i + 1;
    }
    proof {
        assert(processed.take(i as int) =~= processed);
    }
    match glob_set_builder_build(&builder) {
        Ok(set) => Ok(set),
        Err(msg) => Err(AppError::Glob(msg)),
    }
}

/// The path that stands for "something inside this directory" when a
/// directory is tested against patterns: the directory's path with a made-up
/// file name below it.
pub open spec fn dir_probe(path: Seq<char>) -> Seq<char> {
    if path.len() == 0 || path.last() == '/' {
        path + "dummy_file_for_dir_match"@
    } else {
        path + "/"@ + "dummy_file_for_dir_match"@
    }
}

/// Whether the patterns select the path: they match it, or, for a
/// directory, they match what lies inside it. Matchers are defined over
/// file-like paths, so a pattern such as `docs/**` matches the directory
/// `docs` only through a path below it.
pub open spec fn set_hits(patterns: Seq<Seq<char>>, path: Seq<char>, is_dir: bool) -> bool {
    glob_set_matches(patterns, path) || (is_dir && glob_set_matches(patterns, dir_probe(path)))
}

/// Builds the path under which a directory is tested against patterns.
pub fn dir_probe_path(path: &str) -> (r: String)
    ensures
        r@ == dir_probe(path@),
{
    let needs_separator = match last_char(path) {
        Some(c) => c != '/',
        None => false,
    };
    if needs_separator {
        let mut r = concat2(path, "/");
        r.append("dummy_file_for_dir_match");
        r
    } else {
        concat2(path, "dummy_file_for_dir_match")
    }
}

/// Tests a path against a set of patterns, a directory also by what lies
/// inside it.
pub fn glob_set_selects(set: &globset::GlobSet, path: &str, is_dir: bool) -> (r: bool)
    ensures
        r == set_hits(glob_set_globs(*set), path@, is_dir),
        glob_set_globs(*set).len() == 0 ==> !r,
{
    if glob_set_is_match(set, path) {
        true
    } else if is_dir {
        let probe = dir_probe_path(path);
        glob_set_is_match(set, probe.as_str())
    } else {
        false
    }
}

} // verus!
