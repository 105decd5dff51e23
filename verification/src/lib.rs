//! Gathers the files of a project into a context for AI tools: which paths
//! belong to the tree, the source and the docs section, what becomes of the
//! files that are read, and how the flat list of paths is assembled into a
//! tree.

pub mod chunking;
pub mod cli;
pub mod cli_args;
pub mod commands;
pub mod config;
pub mod config_path;
pub mod context;
pub mod error;
pub mod filter;
pub mod gather;
pub mod glob;
pub mod metrics;
pub mod order;
pub mod output_formats;
pub mod pairs;
pub mod paths;
pub mod reader;
pub mod resolve;
pub mod rule_map;
pub mod rules;
pub mod system;
pub mod text;
pub mod tree;
pub mod tree_laws;
pub mod tree_model;

pub use config::{Config, MetaConfig, PromptsConfig, RulesConfig};
pub use context::ProjectContext;
pub use error::AppError;
pub use gather::{FileInfo, WalkedPath};
pub use output_formats::{
    get_ai_readme_text, get_builtin_ignore_patterns, get_predefined_text, AiReadmeText,
    BuiltinIgnores, ChunkFile, ChunkInfo, FileContextInfo, SourceRepresentation, StaticData,
    TextType,
};
pub use resolve::ResolvedRules;
pub use rules::{detect_project_characteristics, get_static_rule_content};
pub use system::SystemInfo;
pub use tree::{build_tree_from_paths, TreeNode};
