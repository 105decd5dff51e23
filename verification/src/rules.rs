//! The static rule files, and the traits of a project by which rule sets are
//! chosen.

use vstd::prelude::*;
use vstd::string::StringExecFns;
use vstd::utf8::{decode_utf8, valid_utf8};
use crate::error::AppError;
use crate::output_formats::StaticData;
use crate::reader::{text_from_utf8, utf8_error_text};
use crate::text::{concat2, concat3, insert_unique, lowercase_of, set_with, str_eq, texts_of, to_lowercase};

pub mod mapping;

verus! {

/// The path under which the rule file of a stem is kept.
pub open spec fn rule_file_path(rule_stem: Seq<char>) -> Seq<char> {
    "rules/"@ + rule_stem + ".org"@
}

/// The index of the first file kept under the given path, or the number of
/// files if there is none.
pub open spec fn file_index(files: Seq<(String, Vec<u8>)>, path: Seq<char>) -> int
    decreases files.len(),
{
    if files.len() == 0 || files[0].0@ == path {
        0
    } else {
        1 + file_index(files.drop_first(), path)
    }
}

/// [`file_index`] is the one index that is kept under the path while none
/// before it is.
proof fn lemma_file_index(files: Seq<(String, Vec<u8>)>, path: Seq<char>, k: int)
    requires
        0 <= k <= files.len(),
        forall|j: int| 0 <= j < k ==> (#[trigger] files[j]).0@ != path,
        k < files.len() ==> files[k].0@ == path,
    ensures
        file_index(files, path) == k,
    decreases k,
{
    if k > 0 {
        let tail = files.drop_first();
        assert(files[0].0@ != path);
        assert forall|j: int| 0 <= j < k - 1 implies (#[trigger] tail[j]).0@ != path by {
            assert(tail[j] == files[j + 1]);
        }
        lemma_file_index(tail, path, k - 1);
    }
}

/// What asking for the rule file of a stem gives: its text, or the text of
/// the error. The file must be there and must be UTF-8.
pub open spec fn static_rule_text(data: StaticData, rule_stem: Seq<char>) -> Result<
    Seq<char>,
    Seq<char>,
> {
    let path = rule_file_path(rule_stem);
    let i = file_index(data.rule_files@, path);
    if 0 <= i < data.rule_files@.len() {
        let bytes = data.rule_files@[i].1@;
        if valid_utf8(bytes) {
            Ok(decode_utf8(bytes))
        } else {
            Err("UTF-8 error in embedded rule "@ + path + ": "@ + utf8_error_text(bytes))
        }
    } else {
        Err("Static rule file not found in embed: "@ + path)
    }
}

/// Finds the file kept under a path.
fn find_file(files: &Vec<(String, Vec<u8>)>, path: &str) -> (r: Option<usize>)
    ensures
        match r {
            Some(i) => i < files.len() && i == file_index(files@, path@),
            None => file_index(files@, path@) == files.len(),
        },
{
    let mut i: usize = 0;
    while i < files.len()
        invariant
            0 <= i <= files.len(),
            forall|j: int| 0 <= j < i ==> (#[trigger] files@[j]).0@ != path@,
        decreases files.len() - i,
    {
        if str_eq(files[i].0.as_str(), path) {
            proof {
                lemma_file_index(files@, path@, i as int);
            }
            return Some(i);
        }
        i = i + 1;
    }
    proof {
        lemma_file_index(files@, path@, i as int);
    }
    None
}

/// A copy of some bytes.
fn clone_bytes(bytes: &Vec<u8>) -> (r: Vec<u8>)
    ensures
        r@ == bytes@,
{
    let mut out: Vec<u8> = Vec::new();
    let mut i: usize = 0;
    while i < bytes.len()
        invariant
            0 <= i <= bytes.len(),
            out@ == bytes@.take(i as int),
        decreases bytes.len() - i,
    {
        out.push(bytes[i]);
        assert(bytes@.take(i + 1) =~= bytes@.take(i as int).push(bytes@[i as int]));
        i = i + 1;
    }
    assert(bytes@.take(i as int) =~= bytes@);
    out
}

/// The text of the static rule file of the given stem.
pub fn get_static_rule_content(data: &StaticData, rule_stem: &str) -> (r: Result<String, AppError>)
    ensures
        match r {
            Ok(text) => static_rule_text(*data, rule_stem@) == Ok::<Seq<char>, Seq<char>>(text@),
            Err(e) => e matches AppError::RuleLoading(m) && static_rule_text(*data, rule_stem@)
                == Err::<Seq<char>, Seq<char>>(m@),
        },
{
    let file_path = concat3("rules/", rule_stem, ".org");
    match find_file(&data.rule_files, file_path.as_str()) {
        None => Err(
            AppError::RuleLoading(
                concat2("Static rule file not found in embed: ", file_path.as_str()),
            ),
        ),
        Some(i) => {
            match text_from_utf8(clone_bytes(&data.rule_files[i].1)) {
                Ok(text) => Ok(text),
                Err(detail) => {
                    let mut m = concat3("UTF-8 error in embedded rule ", file_path.as_str(), ": ");
                    m.append(detail.as_str());
                    Err(AppError::RuleLoading(m))
                },
            }
        },
    }
}

/// The name and the extension of one file of the project.
#[derive(Debug, Clone)]
pub struct FileNameParts {
    pub file_name: Option<String>,
    pub extension: Option<String>,
}

/// Whether a file name is itself a trait of the project.
pub open spec fn is_telling_name(name: Seq<char>) -> bool {
    name == "Rakefile"@ || name == "Gemfile"@ || name == "Cargo.toml"@ || name == "package.json"@
        || name == "composer.json"@ || name == "go.mod"@ || name == "Makefile"@
}

/// The traits after one more file has been looked at: a telling file name is
/// a trait, and so is the extension in lower case.
pub open spec fn with_file_traits(traits: Seq<Seq<char>>, file: FileNameParts) -> Seq<Seq<char>> {
    let named = match file.file_name {
        Some(name) => if is_telling_name(name@) {
            set_with(traits, name@)
        } else {
            traits
        },
        None => traits,
    };
    match file.extension {
        Some(ext) => {
            let lowered = set_with(named, lowercase_of(ext@));
            if ext@ == "rake"@ {
                set_with(lowered, "rake"@)
            } else {
                lowered
            }
        },
        None => named,
    }
}

/// The traits of a project with the given files, in the order in which they
/// are first met.
pub open spec fn project_traits(files: Seq<FileNameParts>) -> Seq<Seq<char>>
    decreases files.len(),
{
    if files.len() == 0 {
        Seq::empty()
    } else {
        with_file_traits(project_traits(files.drop_last()), files.last())
    }
}

/// Whether a file name is itself a trait of the project.
fn telling_name(name: &str) -> (r: bool)
    ensures
        r == is_telling_name(name@),
{
    str_eq(name, "Rakefile") || str_eq(name, "Gemfile") || str_eq(name, "Cargo.toml") || str_eq(
        name,
        "package.json",
    ) || str_eq(name, "composer.json") || str_eq(name, "go.mod") || str_eq(name, "Makefile")
}

/// Adds the traits that one file shows.
pub fn note_file_traits(characteristics: &mut Vec<String>, file: &FileNameParts)
    ensures
        texts_of(final(characteristics)@) == with_file_traits(
            texts_of(old(characteristics)@),
            *file,
        ),
{
    match &file.file_name {
        Some(name) => {
            if telling_name(name.as_str()) {
                insert_unique(characteristics, name.clone());
            }
        },
        None => {},
    }
    match &file.extension {
        Some(ext) => {
            insert_unique(characteristics, to_lowercase(ext.as_str()));
            if str_eq(ext.as_str(), "rake") {
                insert_unique(characteristics, String::from_str("rake"));
            }
        },
        None => {},
    }
}

/// Detects the traits of a project from the names of its files.
pub fn detect_project_characteristics(files: &Vec<FileNameParts>) -> (r: Vec<String>)
    ensures
        texts_of(r@) == project_traits(files@),
{
    let mut characteristics: Vec<String> = Vec::new();
    let mut i: usize = 0;
    proof {
        assert(files@.take(0) =~= Seq::<FileNameParts>::empty());
        assert(texts_of(characteristics@) =~= Seq::<Seq<char>>::empty());
    }
    while i < files.len()
        invariant
            0 <= i <= files.len(),
            texts_of(characteristics@) == project_traits(files@.take(i as int)),
        decreases files.len() - i,
    {
        proof {
            let upto = files@.take(i + 1);
            assert(upto.drop_last() =~= files@.take(i as int));
            assert(upto.last() == files@[i as int]);
        }
        note_file_traits(&mut characteristics, &files[i]);
        i = i + 1;
    }
    proof {
        assert(files@.take(i as int) =~= files@);
    }
    characteristics
}

} // verus!
