//! Which rule set goes with which trait of a project.

use vstd::prelude::*;
use vstd::string::StringExecFns;
use crate::text::str_eq;

verus! {

/// The stem of the rule set that goes with a project trait, if there is
/// one. A trait is a file extension in lower case, or a file name.
pub open spec fn rule_stem_of(characteristic: Seq<char>) -> Option<Seq<char>> {
    let c = characteristic;
    if c == "rs"@ {
        Some("rust"@)
    } else if c == "rb"@ {
        Some("ruby"@)
    } else if c == "c"@ || c == "h"@ {
        Some("c"@)
    } else if c == "cpp"@ || c == "hpp"@ {
        Some("cpp"@)
    } else if c == "go"@ {
        Some("go"@)
    } else if c == "js"@ || c == "cjs"@ || c == "mjs"@ || c == "jsx"@ {
        Some("javascript"@)
    } else if c == "ts"@ || c == "tsx"@ {
        Some("typescript"@)
    } else if c == "php"@ {
        Some("php"@)
    } else if c == "org"@ || c == "md"@ {
        Some("documentation"@)
    } else if c == "json"@ || c == "yaml"@ || c == "yml"@ || c == "toml"@ || c == "xml"@ {
        Some("config_file"@)
    } else if c == "rake"@ {
        Some("rakefile"@)
    } else if c == "Rakefile"@ {
        Some("rakefile"@)
    } else if c == "Gemfile"@ {
        Some("ruby"@)
    } else {
        None
    }
}

/// The stems of the rule sets that are always taken, unless excluded.
pub open spec fn default_rule_stems() -> Seq<Seq<char>> {
    seq!["general"@, "guidelines"@, "documentation"@]
}

/// The stem of the rule set that goes with a project trait, if there is one.
pub fn map_characteristic_to_rule_stem(characteristic: &str) -> (r: Option<&'static str>)
    ensures
        match r {
            Some(stem) => rule_stem_of(characteristic@) == Some(stem@),
            None => rule_stem_of(characteristic@) is None,
        },
{
    let c = characteristic;
    if str_eq(c, "rs") {
        Some("rust")
    } else if str_eq(c, "rb") {
        Some("ruby")
    } else if str_eq(c, "c") || str_eq(c, "h") {
        Some("c")
    } else if str_eq(c, "cpp") || str_eq(c, "hpp") {
        Some("cpp")
    } else if str_eq(c, "go") {
        Some("go")
    } else if str_eq(c, "js") || str_eq(c, "cjs") || str_eq(c, "mjs") || str_eq(c, "jsx") {
        Some("javascript")
    } else if str_eq(c, "ts") || str_eq(c, "tsx") {
        Some("typescript")
    } else if str_eq(c, "php") {
        Some("php")
    } else if str_eq(c, "org") || str_eq(c, "md") {
        Some("documentation")
    } else if str_eq(c, "json") || str_eq(c, "yaml") || str_eq(c, "yml") || str_eq(c, "toml")
        || str_eq(c, "xml") {
        Some("config_file")
    } else if str_eq(c, "rake") {
        Some("rakefile")
    } else if str_eq(c, "Rakefile") {
        Some("rakefile")
    } else if str_eq(c, "Gemfile") {
        Some("ruby")
    } else {
        None
    }
}

/// The stems of the rule sets that are always taken, unless excluded.
pub fn get_default_rule_stems() -> (r: Vec<String>)
    ensures
        crate::text::texts_of(r@) == default_rule_stems(),
{
    let mut stems: Vec<String> = Vec::new();
    stems.push(String::from_str("general"));
    stems.push(String::from_str("guidelines"));
    stems.push(String::from_str("documentation"));
    assert(crate::text::texts_of(stems@) =~= default_rule_stems());
    stems
}

} // verus!
