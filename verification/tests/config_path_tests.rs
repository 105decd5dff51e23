use std::path::{Path, PathBuf};
use xcontext::config_path::{extension_of, ConfigSearch};
use xcontext::{AppError, Config};

fn named(search: ConfigSearch) -> (String, Option<String>, String) {
    match search {
        ConfigSearch::Named { first, second, missing } => (first, second, missing),
        other => panic!("expected a named search, got {:?}", other),
    }
}

#[test]
fn extensions_are_read_as_the_standard_library_reads_them() {
    for path in [
        "a.toml", "a", ".bashrc", "a.", "a.b.c", "dir/a.toml", "dir.d/a", "a/..", "", "/", "a/.",
        "a/b/", "..", "...", "a..b", ".a.b", "dir/.hidden", "x.toml/", "/abs/conf.TOML",
    ] {
        let expected = Path::new(path).extension().map(|e| e.to_string_lossy().into_owned());
        assert_eq!(extension_of(path), expected);
    }
    assert_eq!(extension_of("conf/my.toml"), Some("toml".to_string()));
    assert_eq!(extension_of(".bashrc"), None);
}

#[test]
fn no_search_when_disabled() {
    assert!(matches!(Config::config_search("/p", None, true), ConfigSearch::Disabled));
    assert!(matches!(
        Config::config_search("/p", Some(("x.toml", "x.toml")), true),
        ConfigSearch::Disabled
    ));
    let search = Config::config_search("/p", None, true);
    assert!(matches!(Config::resolve_config_path(&search, true, true), Ok(None)));
}

#[test]
fn default_file_is_optional() {
    let search = Config::config_search("/p", None, false);
    assert!(matches!(
        &search,
        ConfigSearch::Default { path } if path == "/p/.xtools/xcontext/xcontext.toml"
    ));
    assert_eq!(
        Config::resolve_config_path(&search, true, false).unwrap(),
        Some("/p/.xtools/xcontext/xcontext.toml".to_string())
    );
    assert_eq!(Config::resolve_config_path(&search, false, true).unwrap(), None);
}

#[test]
fn a_name_is_looked_for_in_the_configuration_directory() {
    let (first, second, missing) = named(Config::config_search("/p", Some(("mine", "mine")), false));
    assert_eq!(first, "/p/.xtools/xcontext/mine.toml");
    assert_eq!(second, None);
    assert_eq!(
        missing,
        "Specified config file 'mine' not found in default directory: /p/.xtools/xcontext"
    );
    let (first, _, _) = named(Config::config_search("/p", Some(("mine.toml", "mine.toml")), false));
    assert_eq!(first, "/p/.xtools/xcontext/mine.toml");
    let (first, _, _) = named(Config::config_search("/p", Some(("mine.yaml", "mine.yaml")), false));
    assert_eq!(first, "/p/.xtools/xcontext/mine.yaml.toml");
    let (first, _, _) = named(Config::config_search("/p", Some((".", ".")), false));
    assert_eq!(first, "/p/.xtools/xcontext/..toml");
}

#[test]
fn a_path_is_tried_as_it_is_and_with_toml() {
    let (first, second, missing) =
        named(Config::config_search("/p", Some(("conf/mine", "conf/mine")), false));
    assert_eq!(first, "conf/mine");
    assert_eq!(second, Some("conf/mine.toml".to_string()));
    assert_eq!(missing, "Specified config file not found at path: conf/mine.toml");
    let (first, second, missing) =
        named(Config::config_search("/p", Some(("conf/mine.cfg", "conf/mine.cfg")), false));
    assert_eq!(first, "conf/mine.cfg");
    assert_eq!(second, None);
    assert_eq!(missing, "Specified config file not found at path: conf/mine.cfg");
    // a home directory makes a name a path
    let (first, second, _) = named(Config::config_search("/p", Some(("~", "/home/me")), false));
    assert_eq!(first, "/home/me");
    assert_eq!(second, Some("/home/me.toml".to_string()));
    // a backslash makes a name a path
    let (first, _, _) = named(Config::config_search("/p", Some(("a\\b", "a\\b")), false));
    assert_eq!(first, "a\\b");
}

#[test]
fn reading_as_path_and_adding_toml_follow_the_standard_library() {
    for given in [
        "a", "a/b", "./a", ".", "..", "a/", "/", "/a", "a/..", "a/./b", "x/.hidden", "x/.hidden/",
        "conf/a/.", "a//", "", "a.b", ".a", "a\\b", "../x", "./", ".//x", "..a", "a/b.toml",
    ] {
        let path = PathBuf::from(given);
        let looks_like_path = path.is_absolute()
            || path.components().count() > 1
            || given.contains(['/', '\\']);
        let (first, second, missing) =
            named(Config::config_search("/p", Some((given, given)), false));
        if looks_like_path {
            assert_eq!(first, given);
            let mut extended = path.clone();
            if path.extension().is_none() {
                extended.set_extension("toml");
                assert_eq!(second, Some(extended.to_string_lossy().into_owned()));
            } else {
                assert_eq!(second, None);
            }
            assert_eq!(
                missing,
                format!("Specified config file not found at path: {}", extended.display())
            );
        } else {
            let filename = if path.extension().map_or(true, |e| e != "toml") {
                format!("{}.toml", given)
            } else {
                given.to_string()
            };
            let expected = Path::new("/p").join(".xtools/xcontext").join(filename);
            assert_eq!(first, expected.to_string_lossy());
            assert_eq!(second, None);
        }
    }
}

#[test]
fn a_named_file_must_be_there() {
    let search = Config::config_search("/p", Some(("conf/mine", "conf/mine")), false);
    assert_eq!(
        Config::resolve_config_path(&search, true, true).unwrap(),
        Some("conf/mine".to_string())
    );
    assert_eq!(
        Config::resolve_config_path(&search, false, true).unwrap(),
        Some("conf/mine.toml".to_string())
    );
    assert!(matches!(
        Config::resolve_config_path(&search, false, false),
        Err(AppError::Config(ref m)) if m == "Specified config file not found at path: conf/mine.toml"
    ));
    let search = Config::config_search("/p", Some(("mine", "mine")), false);
    assert!(matches!(
        Config::resolve_config_path(&search, false, true),
        Err(AppError::Config(ref m)) if m == "Specified config file 'mine' not found in default directory: /p/.xtools/xcontext"
    ));
}

#[test]
fn project_root_comes_from_the_command_line_first() {
    assert_eq!(Config::determine_project_root(Some("/cli"), Some("/env")), Some("/cli".to_string()));
    assert_eq!(Config::determine_project_root(None, Some("/env")), Some("/env".to_string()));
    assert_eq!(Config::determine_project_root(None, Some("")), None);
    assert_eq!(Config::determine_project_root(None, None), None);
    assert_eq!(Config::determine_project_root(Some(""), Some("/env")), Some("".to_string()));
}
