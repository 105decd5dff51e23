//! Where the configuration file is looked for.
//!
//! Looking needs the file system, which is outside; what is decided here is
//! which paths are tried, in which order, and what the answer is once it is
//! known which of them exist.

use vstd::prelude::*;
use vstd::string::{StrSliceExecFns, StringExecFns};
use crate::config::{Config, DEFAULT_CONFIG_DIR, DEFAULT_CONFIG_FILENAME};
use crate::error::AppError;
use crate::paths::{
    file_name_of, file_name_spec, first_segment, is_absolute, is_absolute_spec, join_paths,
    join_spec, path_model, path_pieces, split_pieces,
};
use crate::text::{
    chars_of, concat2, concat3, find_char, index_of_char, opt_text, str_eq,
};

verus! {

/// The index of the last `c` in `s`, or `-1` if there is none.
pub open spec fn last_index_of_char(s: Seq<char>, c: char) -> int
    decreases s.len(),
{
    if s.len() == 0 {
        -1
    } else if s.last() == c {
        s.len() - 1
    } else {
        last_index_of_char(s.drop_last(), c)
    }
}

/// The extension of a file name: what follows its last `.`, unless it has
/// no `.` or only one at its very beginning.
pub open spec fn name_extension(name: Seq<char>) -> Option<Seq<char>> {
    let dot = last_index_of_char(name, '.');
    if dot <= 0 {
        None
    } else {
        Some(name.skip(dot + 1))
    }
}

/// The extension of the name that a path ends in, if it ends in a name that
/// has one.
pub open spec fn path_extension(path: Seq<char>) -> Option<Seq<char>> {
    match file_name_spec(path) {
        Some(name) => name_extension(name),
        None => None,
    }
}

/// A path without what follows the name it ends in: without `/` and `/.` at
/// its end.
pub open spec fn up_to_name(path: Seq<char>) -> Seq<char>
    decreases path.len(),
{
    if path.len() > 0 && path.last() == '/' {
        up_to_name(path.drop_last())
    } else if path.len() > 1 && path.last() == '.' && path[path.len() - 2] == '/' {
        up_to_name(path.take(path.len() - 2))
    } else {
        path
    }
}

/// A path that ends in a name without extension, with `.toml` put after the
/// name; any other path as it is.
pub open spec fn with_toml(path: Seq<char>) -> Seq<char> {
    if file_name_spec(path) is Some && path_extension(path) is None {
        up_to_name(path) + ".toml"@
    } else {
        path
    }
}

/// The number of components of a path: its root if it is absolute, a `.` at
/// its beginning otherwise, and each of its pieces.
pub open spec fn component_count(path: Seq<char>) -> nat {
    path_pieces(path, true).len() + if is_absolute_spec(path) || first_segment(path) == seq!['.'] {
        1nat
    } else {
        0nat
    }
}

/// Whether what was given for the configuration file is read as a path
/// rather than as a name: if, expanded, it is absolute or has more than one
/// component, or if, as given, it holds a `/` or a `\`.
pub open spec fn reads_as_path(given: Seq<char>, expanded: Seq<char>) -> bool {
    ||| is_absolute_spec(expanded)
    ||| component_count(expanded) > 1
    ||| 0 <= index_of_char(given, '/') < given.len()
    ||| 0 <= index_of_char(given, '\\') < given.len()
}

/// The search for the configuration file: what is tried, in order.
#[derive(Debug, Clone)]
pub enum ConfigSearch {
    /// No configuration file is loaded.
    Disabled,
    /// The default file is loaded if it exists; it is no failure if it does
    /// not.
    Default { path: String },
    /// The first of the given paths that exists is loaded; it is a failure
    /// if none does, and `missing` says so.
    Named { first: String, second: Option<String>, missing: String },
}

/// The search for the configuration file, as values.
pub ghost enum SearchModel {
    Disabled,
    Default { path: Seq<char> },
    Named { first: Seq<char>, second: Option<Seq<char>>, missing: Seq<char> },
}

impl View for ConfigSearch {
    type V = SearchModel;

    open spec fn view(&self) -> SearchModel {
        match *self {
            ConfigSearch::Disabled => SearchModel::Disabled,
            ConfigSearch::Default { path } => SearchModel::Default { path: path@ },
            ConfigSearch::Named { first, second, missing } => SearchModel::Named {
                first: first@,
                second: opt_text(second),
                missing: missing@,
            },
        }
    }
}

/// The directory, in a project, that holds the configuration.
pub open spec fn config_dir_spec(project_root: Seq<char>) -> Seq<char> {
    join_spec(project_root, DEFAULT_CONFIG_DIR@)
}

/// The search for a configuration file given as a path: the path itself
/// and, if it ends in a name without extension, the same with `.toml`.
pub open spec fn path_search(expanded: Seq<char>) -> SearchModel {
    let second = with_toml(expanded);
    SearchModel::Named {
        first: expanded,
        second: if path_extension(expanded) is None {
            Some(second)
        } else {
            None
        },
        missing: "Specified config file not found at path: "@ + if path_extension(expanded)
            is None {
            second
        } else {
            expanded
        },
    }
}

/// The search for a configuration file given as a name: the file of that
/// name, with `.toml` after it unless it ends so, in the project's
/// configuration directory.
pub open spec fn name_search(project_root: Seq<char>, expanded: Seq<char>) -> SearchModel {
    let file_name = if path_extension(expanded) == Some("toml"@) {
        expanded
    } else {
        expanded + ".toml"@
    };
    SearchModel::Named {
        first: join_spec(config_dir_spec(project_root), file_name),
        second: None,
        missing: "Specified config file '"@ + expanded + "' not found in default directory: "@
            + config_dir_spec(project_root),
    }
}

/// The search for the configuration file. `given` is what the command line
/// names, and `expanded` the same with a leading `~` replaced by the home
/// directory.
pub open spec fn config_search_spec(
    project_root: Seq<char>,
    given: Option<(Seq<char>, Seq<char>)>,
    disabled: bool,
) -> SearchModel {
    if disabled {
        SearchModel::Disabled
    } else {
        match given {
            None => SearchModel::Default {
                path: join_spec(config_dir_spec(project_root), DEFAULT_CONFIG_FILENAME@),
            },
            Some((given, expanded)) => if reads_as_path(given, expanded) {
                path_search(expanded)
            } else {
                name_search(project_root, expanded)
            },
        }
    }
}

/// What the search gives once it is known which of its paths exist: the
/// path to load, or nothing to load, or the failure.
pub open spec fn search_outcome(search: SearchModel, first_exists: bool, second_exists: bool) -> Result<
    Option<Seq<char>>,
    Seq<char>,
> {
    match search {
        SearchModel::Disabled => Ok(None),
        SearchModel::Default { path } => if first_exists {
            Ok(Some(path))
        } else {
            Ok(None)
        },
        SearchModel::Named { first, second, missing } => if first_exists {
            Ok(Some(first))
        } else if second is Some && second_exists {
            Ok(second)
        } else {
            Err(missing)
        },
    }
}

/// The position of the last `c` among the characters, if there is one.
fn find_last_char(chars: &Vec<char>, c: char) -> (r: Option<usize>)
    ensures
        match r {
            Some(i) => i < chars.len() && i == last_index_of_char(chars@, c),
            None => last_index_of_char(chars@, c) == -1,
        },
{
    let mut end: usize = chars.len();
    proof {
        assert(chars@.take(end as int) =~= chars@);
    }
    while end > 0
        invariant
            end <= chars.len(),
            last_index_of_char(chars@, c) == last_index_of_char(chars@.take(end as int), c),
        decreases end,
    {
        proof {
            let upto = chars@.take(end as int);
            assert(upto.last() == chars@[end - 1]);
            assert(upto.drop_last() =~= chars@.take(end - 1));
        }
        if chars[end - 1] == c {
            return Some(end - 1);
        }
        end = end - 1;
    }
    None
}

/// The extension of the name that a path ends in.
pub fn extension_of(path: &str) -> (r: Option<String>)
    ensures
        opt_text(r) == path_extension(path@),
{
    match file_name_of(path) {
        None => None,
        Some(name) => {
            let chars = chars_of(name.as_str());
            match find_last_char(&chars, '.') {
                None => None,
                Some(dot) => {
                    if dot == 0 {
                        None
                    } else {
                        let after = name.as_str().substring_char(dot + 1, chars.len());
                        assert(after@ =~= name@.skip(dot + 1));
                        Some(String::from_str(after))
                    }
                },
            }
        },
    }
}

/// Takes off a path what follows the name it ends in.
fn trim_to_name(path: &str) -> (r: String)
    ensures
        r@ == up_to_name(path@),
{
    let chars = chars_of(path);
    let mut end: usize = chars.len();
    proof {
        assert(path@.take(end as int) =~= path@);
    }
    loop
        invariant
            chars@ == path@,
            end <= chars.len(),
            up_to_name(path@) == up_to_name(path@.take(end as int)),
        ensures
            up_to_name(path@) == path@.take(end as int),
        decreases end,
    {
        let ghost kept = path@.take(end as int);
        proof {
            if end > 0 {
                assert(kept.last() == chars@[end - 1]);
                assert(kept.drop_last() =~= path@.take(end - 1));
            }
            if end > 1 {
                assert(kept[kept.len() - 2] == chars@[end - 2]);
                assert(kept.take(kept.len() - 2) =~= path@.take(end - 2));
            }
        }
        if end > 0 && chars[end - 1] == '/' {
            end = end - 1;
        } else if end > 1 && chars[end - 1] == '.' && chars[end - 2] == '/' {
            end = end - 2;
        } else {
            break ;
        }
    }
    assert(path@.subrange(0, end as int) =~= path@.take(end as int));
    String::from_str(path.substring_char(0, end))
}

/// Whether a path has more than one component.
fn has_many_components(path: &str) -> (r: bool)
    ensures
        r == (component_count(path@) > 1),
{
    let pieces = split_pieces(path, true);
    assert(path_model(pieces@).len() == pieces.len());
    let chars = chars_of(path);
    let first_is_dot = match find_char(&chars, '/') {
        Some(sep) => sep == 1 && chars[0] == '.',
        None => chars.len() == 1 && chars[0] == '.',
    };
    proof {
        let first = first_segment(path@);
        let dot = seq!['.'];
        assert(dot.len() == 1 && dot[0] == '.');
        if first_is_dot {
            assert(first =~= dot);
        } else if first == dot {
            assert(first[0] == path@[0]);
        }
    }
    let extra = is_absolute(path) || first_is_dot;
    if extra {
        pieces.len() > 0
    } else {
        pieces.len() > 1
    }
}

/// Whether a text holds the character.
fn holds_char(text: &str, c: char) -> (r: bool)
    ensures
        r == (0 <= index_of_char(text@, c) < text@.len()),
{
    let chars = chars_of(text);
    find_char(&chars, c).is_some()
}

impl Config {
    /// Works out where the configuration file is looked for. `given` is
    /// what the command line names, if anything, and `expanded` the same
    /// with a leading `~` replaced by the home directory.
    pub fn config_search(
        project_root: &str,
        given: Option<(&str, &str)>,
        cli_disable_config: bool,
    ) -> (r: ConfigSearch)
        ensures
            r@ == config_search_spec(
                project_root@,
                match given {
                    Some((g, e)) => Some((g@, e@)),
                    None => None,
                },
                cli_disable_config,
            ),
    {
        if cli_disable_config {
            return ConfigSearch::Disabled;
        }
        let config_dir = join_paths(project_root, DEFAULT_CONFIG_DIR);
        match given {
            None => ConfigSearch::Default {
                path: join_paths(config_dir.as_str(), DEFAULT_CONFIG_FILENAME),
            },
            Some((p_str, expanded)) => {
                let looks_like_path = is_absolute(expanded) || has_many_components(expanded)
                    || holds_char(p_str, '/') || holds_char(p_str, '\\');
                let extension = extension_of(expanded);
                if looks_like_path {
                    match extension {
                        None => {
                            let second = match file_name_of(expanded) {
                                Some(_) => concat2(trim_to_name(expanded).as_str(), ".toml"),
                                None => String::from_str(expanded),
                            };
                            let missing = concat2(
                                "Specified config file not found at path: ",
                                second.as_str(),
                            );
                            ConfigSearch::Named {
                                first: String::from_str(expanded),
                                second: Some(second),
                                missing,
                            }
                        },
                        Some(_) => ConfigSearch::Named {
                            first: String::from_str(expanded),
                            second: None,
                            missing: concat2("Specified config file not found at path: ", expanded),
                        },
                    }
                } else {
                    let ends_in_toml = match &extension {
                        Some(e) => str_eq(e.as_str(), "toml"),
                        None => false,
                    };
                    let file_name = if ends_in_toml {
                        String::from_str(expanded)
                    } else {
                        concat2(expanded, ".toml")
                    };
                    let mut missing = concat3(
                        "Specified config file '",
                        expanded,
                        "' not found in default directory: ",
                    );
                    missing.append(config_dir.as_str());
                    ConfigSearch::Named {
                        first: join_paths(config_dir.as_str(), file_name.as_str()),
                        second: None,
                        missing,
                    }
                }
            },
        }
    }

    /// Says which configuration file is loaded, once it is known which of
    /// the paths of the search exist: the path, or nothing if none is to be
    /// loaded; it is a failure if a file was named and is not there.
    pub fn resolve_config_path(search: &ConfigSearch, first_exists: bool, second_exists: bool) -> (r:
        Result<Option<String>, AppError>)
        ensures
            match r {
                Ok(path) => search_outcome(search@, first_exists, second_exists) == Ok::<
                    Option<Seq<char>>,
                    Seq<char>,
                >(opt_text(path)),
                Err(e) => e matches AppError::Config(m) && search_outcome(
                    search@,
                    first_exists,
                    second_exists,
                ) == Err::<Option<Seq<char>>, Seq<char>>(m@),
            },
    {
        match search {
            ConfigSearch::Disabled => Ok(None),
            ConfigSearch::Default { path } => {
                if first_exists {
                    Ok(Some(path.clone()))
                } else {
                    Ok(None)
                }
            },
            ConfigSearch::Named { first, second, missing } => {
                if first_exists {
                    Ok(Some(first.clone()))
                } else {
                    match second {
                        Some(path) => {
                            if second_exists {
                                Ok(Some(path.clone()))
                            } else {
                                Err(AppError::Config(missing.clone()))
                            }
                        },
                        None => Err(AppError::Config(missing.clone())),
                    }
                }
            },
        }
    }

    /// The text that names the project root before it is resolved: what the
    /// command line gives, else what the environment gives unless that is
    /// empty; nothing if the current directory is to be used.
    pub fn determine_project_root(cli_project_root: Option<&str>, from_environment: Option<&str>) -> (r:
        Option<String>)
        ensures
            opt_text(r) == match cli_project_root {
                Some(root) => Some(root@),
                None => match from_environment {
                    Some(root) => if root@.len() > 0 {
                        Some(root@)
                    } else {
                        None
                    },
                    None => None,
                },
            },
    {
        match cli_project_root {
            Some(root) => Some(String::from_str(root)),
            None => match from_environment {
                Some(root) => {
                    if root.unicode_len() > 0 {
                        Some(String::from_str(root))
                    } else {
                        None
                    }
                },
                None => None,
            },
        }
    }
}

} // verus!
