//! The shapes of what is written out, and the fixed texts and pattern lists
//! that come with the program.

use vstd::prelude::*;
use vstd::string::StringExecFns;
use crate::error::AppError;
use crate::pairs::{get_pair, pair_value, pairs_model};
use crate::text::concat3;

verus! {

/// One file as it appears in the output: its path relative to the project
/// root, and its text.
#[derive(Debug, Clone)]
pub struct FileContextInfo {
    pub path: String,
    pub content: String,
}

/// The source section: either the files themselves or the names of the chunk
/// files that hold them.
#[derive(Debug, Clone)]
pub struct SourceRepresentation {
    pub files: Option<Vec<FileContextInfo>>,
    pub chunks: Option<Vec<String>>,
}

/// Which part of how many a chunk is, counted from one.
#[derive(Debug, Clone, Copy, PartialEq, Eq, Structural)]
pub struct ChunkInfo {
    pub current_part: usize,
    pub total_parts: usize,
}

/// One chunk of the source section.
#[derive(Debug, Clone)]
pub struct ChunkFile {
    pub files: Vec<FileContextInfo>,
    pub chunk_info: ChunkInfo,
}

/// The sentences of which the guide at the head of the output is made.
#[derive(Debug, Clone)]
pub struct AiReadmeText {
    pub intro: String,
    pub key_sections_header: String,
    pub project_name_desc: String,
    pub project_root_desc: String,
    pub system_info_desc: String,
    pub meta_desc: String,
    pub docs_desc: String,
    pub tree_desc: String,
    pub source_files_desc: String,
    pub source_chunks_desc: String,
    pub source_missing_desc: String,
    pub rules_desc: String,
    pub rules_missing_desc: String,
    pub timestamp_desc: String,
}

/// The pattern lists that are ignored unless built-in ignores are switched
/// off: one for all sections and one for each section.
#[derive(Debug, Clone)]
pub struct BuiltinIgnores {
    pub common: Vec<String>,
    pub tree: Vec<String>,
    pub source: Vec<String>,
    pub docs: Vec<String>,
}

/// The kinds of predefined text.
#[derive(Debug, Clone, Copy, PartialEq, Eq, Structural)]
pub enum TextType {
    Prompt,
}

/// The data that comes with the program, loaded once at start-up and only
/// read afterwards: the predefined prompts by name, the sentences of the
/// guide, the built-in ignore patterns, and the static rule files by path.
#[derive(Debug, Clone)]
pub struct StaticData {
    pub prompts: Vec<(String, String)>,
    pub ai_readme: AiReadmeText,
    pub builtin_ignores: BuiltinIgnores,
    pub rule_files: Vec<(String, Vec<u8>)>,
}

impl Default for BuiltinIgnores {
    fn default() -> (r: Self)
        ensures
            r.common@.len() == 0,
            r.tree@.len() == 0,
            r.source@.len() == 0,
            r.docs@.len() == 0,
    {
        BuiltinIgnores {
            common: Vec::new(),
            tree: Vec::new(),
            source: Vec::new(),
            docs: Vec::new(),
        }
    }
}

impl Default for SourceRepresentation {
    fn default() -> (r: Self)
        ensures
            r.files is None,
            r.chunks is None,
    {
        SourceRepresentation { files: None, chunks: None }
    }
}

/// The text of the error for a predefined text that is not there.
pub open spec fn missing_text_message(kind: Seq<char>, name: Seq<char>) -> Seq<char> {
    "Predefined "@ + kind + " name \\\""@ + name + "\\\" specified in config not found."@
}

/// The word for a kind of predefined text.
pub open spec fn text_type_word(text_type: TextType) -> Seq<char> {
    match text_type {
        TextType::Prompt => "prompt"@,
    }
}

/// The predefined prompts by name.
pub fn get_predefined_prompts(data: &StaticData) -> (r: &Vec<(String, String)>)
    ensures
        *r == data.prompts,
{
    &data.prompts
}

/// The sentences of the guide.
pub fn get_ai_readme_text(data: &StaticData) -> (r: &AiReadmeText)
    ensures
        *r == data.ai_readme,
{
    &data.ai_readme
}

/// The built-in ignore patterns.
pub fn get_builtin_ignore_patterns(data: &StaticData) -> (r: &BuiltinIgnores)
    ensures
        *r == data.builtin_ignores,
{
    &data.builtin_ignores
}

/// The predefined text of the given kind and name.
pub fn get_predefined_text(data: &StaticData, name: &str, text_type: TextType) -> (r: Result<
    String,
    AppError,
>)
    ensures
        match r {
            Ok(text) => pair_value(pairs_model(data.prompts@), name@) == Some(text@),
            Err(e) => {
                &&& pair_value(pairs_model(data.prompts@), name@) is None
                &&& e matches AppError::Config(m)
                &&& m@ == missing_text_message(text_type_word(text_type), name@)
            },
        },
{
    let map = match text_type {
        TextType::Prompt => get_predefined_prompts(data),
    };
    match get_pair(map, name) {
        Some(text) => Ok(text.clone()),
        None => {
            let type_str = match text_type {
                TextType::Prompt => "prompt",
            };
            let mut m = concat3("Predefined ", type_str, " name \\\"");
            m.append(name);
            m.append("\\\" specified in config not found.");
            Err(AppError::Config(m))
        },
    }
}

} // verus!
