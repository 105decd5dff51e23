//! The context: everything that is written out about a project.

use vstd::prelude::*;
use vstd::string::StringExecFns;
use crate::chunking::{contexts_of, create_file_context_list, shown_path};
use crate::config::Config;
use crate::gather::FileInfo;
use crate::output_formats::{AiReadmeText, FileContextInfo, SourceRepresentation};
use crate::pairs::{clone_pairs, pairs_model, PairModel};
use crate::paths::relative_to;
use crate::resolve::{ResolvedRules, RulesModel};
use crate::rule_map::{rule_map_entries, rule_map_is_empty};
use crate::system::SystemInfo;
use crate::text::opt_text;
use crate::tree::TreeNode;

verus! {

/// Everything that is written out about a project. A part that is absent is
/// left out of the output.
#[derive(Debug)]
pub struct ProjectContext {
    pub ai_readme: Option<String>,
    pub project_name: Option<String>,
    pub project_root: Option<String>,
    pub system_info: Option<SystemInfo>,
    pub meta: Option<Vec<(String, String)>>,
    pub docs: Option<Vec<FileContextInfo>>,
    pub tree: Option<Vec<TreeNode>>,
    pub source: Option<SourceRepresentation>,
    pub rules: indexmap::IndexMap<String, Vec<String>>,
    pub prompts: Option<Vec<(String, String)>>,
    pub generation_timestamp: Option<String>,
    /// The resolved rules with their origins, kept for inspection; not part
    /// of the output.
    pub resolved_rules_debug: Option<ResolvedRules>,
}

/// The text alone if the condition holds, else nothing.
pub open spec fn when(condition: bool, text: Seq<char>) -> Seq<Seq<char>> {
    if condition {
        seq![text]
    } else {
        Seq::empty()
    }
}

/// The texts joined, with `sep` between each two.
pub open spec fn joined(parts: Seq<Seq<char>>, sep: Seq<char>) -> Seq<char>
    decreases parts.len(),
{
    if parts.len() == 0 {
        Seq::empty()
    } else if parts.len() == 1 {
        parts[0]
    } else {
        joined(parts.drop_last(), sep) + sep + parts.last()
    }
}

/// Whether the guide speaks of the source section, and if so, which sentence
/// it uses: the one for files, the one for chunks, or the one for a source
/// section that is switched on and empty.
pub open spec fn source_sentence(
    source: Option<SourceRepresentation>,
    source_enabled: bool,
    t: AiReadmeText,
) -> Seq<Seq<char>> {
    match source {
        Some(repr) => if repr.files is Some {
            seq![t.source_files_desc@]
        } else if repr.chunks is Some {
            seq![t.source_chunks_desc@]
        } else {
            seq![t.source_missing_desc@]
        },
        None => when(source_enabled, t.source_missing_desc@),
    }
}

/// Whether the guide speaks of the rules, and if so, which sentence it uses.
pub open spec fn rules_sentence(has_rules: bool, rules_enabled: bool, t: AiReadmeText) -> Seq<
    Seq<char>,
> {
    if has_rules {
        seq![t.rules_desc@]
    } else {
        when(rules_enabled, t.rules_missing_desc@)
    }
}

/// The sentences of the guide that describe the parts of a context, one for
/// each part that is there, in the order of the output.
pub open spec fn readme_details(ctx: ProjectContext, config: Config, t: AiReadmeText) -> Seq<
    Seq<char>,
> {
    when(ctx.project_name is Some, t.project_name_desc@) + when(
        ctx.project_root is Some,
        t.project_root_desc@,
    ) + when(ctx.system_info is Some, t.system_info_desc@) + when(ctx.meta is Some, t.meta_desc@)
        + when(ctx.docs is Some, t.docs_desc@) + when(ctx.tree is Some, t.tree_desc@)
        + source_sentence(ctx.source, config.source.enabled, t) + rules_sentence(
        rule_map_entries(ctx.rules).len() > 0,
        config.rules.enabled,
        t,
    ) + when(ctx.generation_timestamp is Some, t.timestamp_desc@)
}

/// The guide at the head of a context: the introduction, and, if any part
/// is described, a header and the descriptions, all joined by a backslash
/// and the letter `n`.
pub open spec fn readme_text(ctx: ProjectContext, config: Config, t: AiReadmeText) -> Seq<char> {
    let details = readme_details(ctx, config, t);
    if details.len() > 0 {
        joined(seq![t.intro@, t.key_sections_header@] + details, "\\n"@)
    } else {
        t.intro@
    }
}

/// The texts that a list of borrowed texts stands for.
pub open spec fn strs_of(parts: Seq<&str>) -> Seq<Seq<char>> {
    Seq::new(parts.len(), |i: int| parts[i]@)
}

/// Appends a text if the condition holds.
fn push_when<'a>(parts: &mut Vec<&'a str>, condition: bool, text: &'a str)
    ensures
        strs_of(final(parts)@) == strs_of(old(parts)@) + when(condition, text@),
{
    let ghost before = strs_of(parts@);
    if condition {
        parts.push(text);
        assert(strs_of(parts@) =~= before + seq![text@]);
    } else {
        assert(before =~= before + Seq::<Seq<char>>::empty());
    }
}

/// Joins texts, with `sep` between each two.
pub fn join_texts(parts: &Vec<&str>, sep: &str) -> (r: String)
    ensures
        r@ == joined(strs_of(parts@), sep@),
{
    let ghost all = strs_of(parts@);
    let mut out = String::new();
    let mut i: usize = 0;
    proof {
        assert(all.take(0) =~= Seq::<Seq<char>>::empty());
    }
    while i < parts.len()
        invariant
            0 <= i <= parts.len(),
            all == strs_of(parts@),
            out@ == joined(all.take(i as int), sep@),
        decreases parts.len() - i,
    {
        proof {
            let upto = all.take(i + 1);
            assert(upto.drop_last() =~= all.take(i as int));
            assert(upto.last() == parts@[i as int]@);
            if i == 0 {
                assert(upto[0] == parts@[0]@);
                assert(Seq::<char>::empty() + parts@[0]@ =~= parts@[0]@);
            }
        }
        if i > 0 {
            out.append(sep);
        }
        out.append(parts[i]);
        i = i + 1;
    }
    proof {
        assert(all.take(i as int) =~= all);
    }
    out
}

/// The parts of a context that are set when it is first put together.
pub open spec fn context_built(
    ctx: ProjectContext,
    project_root: Seq<char>,
    config: Config,
    tree_structure: Option<Vec<TreeNode>>,
    resolved_rules: RulesModel,
    prompts: Seq<PairModel>,
    system_info: Option<SystemInfo>,
    timestamp: Option<String>,
) -> bool {
    &&& opt_text(ctx.project_name) == if config.output.include_project_name {
        Some(config.effective_project_name(project_root))
    } else {
        None
    }
    &&& opt_text(ctx.project_root) == if config.output.include_project_root {
        Some(project_root)
    } else {
        None
    }
    &&& ctx.system_info == if config.output.include_system_info {
        system_info
    } else {
        None
    }
    &&& if config.meta.enabled && config.meta.custom_meta@.len() > 0 {
        ctx.meta matches Some(meta) && pairs_model(meta@) == pairs_model(config.meta.custom_meta@)
    } else {
        ctx.meta is None
    }
    &&& ctx.docs is None
    &&& ctx.tree == if config.tree.enabled {
        tree_structure
    } else {
        None
    }
    &&& ctx.source is None
    &&& rule_map_entries(ctx.rules) == resolved_rules.0
    &&& if prompts.len() > 0 {
        ctx.prompts matches Some(p) && pairs_model(p@) == prompts
    } else {
        ctx.prompts is None
    }
    &&& ctx.generation_timestamp == if config.output.include_timestamp {
        timestamp
    } else {
        None
    }
    &&& ctx.resolved_rules_debug matches Some(debug) && debug@ == resolved_rules
}

impl ProjectContext {
    /// Puts a context together from what was gathered and resolved. Docs and
    /// source are added afterwards.
    pub fn build(
        project_root_path: &str,
        config: &Config,
        tree_structure: Option<Vec<TreeNode>>,
        resolved_rules: ResolvedRules,
        prompts: Vec<(String, String)>,
        system_info: Option<SystemInfo>,
        timestamp: Option<String>,
        readme_template: &AiReadmeText,
    ) -> (r: Result<Self, crate::error::AppError>)
        ensures
            r matches Ok(ctx) && context_built(
                ctx,
                project_root_path@,
                *config,
                tree_structure,
                resolved_rules@,
                pairs_model(prompts@),
                system_info,
                timestamp,
            ) && opt_text(ctx.ai_readme) == Some(readme_text(ctx, *config, *readme_template)),
    {
        let sys_info = if config.output.include_system_info {
            system_info
        } else {
            None
        };
        let meta_map = if config.meta.enabled && config.meta.custom_meta.len() > 0 {
            Some(clone_pairs(&config.meta.custom_meta))
        } else {
            None
        };
        let resolved_rules_debug_info = resolved_rules.duplicate();
        let prompts_section = if prompts.len() > 0 {
            Some(prompts)
        } else {
            None
        };
        let mut context = ProjectContext {
            ai_readme: None,
            project_name: if config.output.include_project_name {
                Some(config.get_effective_project_name(project_root_path))
            } else {
                None
            },
            project_root: if config.output.include_project_root {
                Some(String::from_str(project_root_path))
            } else {
                None
            },
            system_info: sys_info,
            meta: meta_map,
            docs: None,
            tree: if config.tree.enabled {
                tree_structure
            } else {
                None
            },
            source: None,
            rules: resolved_rules.rulesets,
            prompts: prompts_section,
            generation_timestamp: if config.output.include_timestamp {
                timestamp
            } else {
                None
            },
            resolved_rules_debug: Some(resolved_rules_debug_info),
        };
        context.populate_ai_readme(config, readme_template);
        Ok(context)
    }

    /// Two contexts differ at most in their guide.
    pub open spec fn same_but_readme(self, other: ProjectContext) -> bool {
        &&& self.project_name == other.project_name
        &&& self.project_root == other.project_root
        &&& self.system_info == other.system_info
        &&& self.meta == other.meta
        &&& self.docs == other.docs
        &&& self.tree == other.tree
        &&& self.source == other.source
        &&& self.rules == other.rules
        &&& self.prompts == other.prompts
        &&& self.generation_timestamp == other.generation_timestamp
        &&& self.resolved_rules_debug == other.resolved_rules_debug
    }

    /// Two contexts differ at most in their guide and in the parts that are
    /// added after the context has been put together: docs and source.
    pub open spec fn same_frame(self, other: ProjectContext) -> bool {
        &&& self.project_name == other.project_name
        &&& self.project_root == other.project_root
        &&& self.system_info == other.system_info
        &&& self.meta == other.meta
        &&& self.tree == other.tree
        &&& self.rules == other.rules
        &&& self.prompts == other.prompts
        &&& self.generation_timestamp == other.generation_timestamp
        &&& self.resolved_rules_debug == other.resolved_rules_debug
    }

    /// Adds the source files themselves to the context: if the source
    /// section is on and there are files, else the section stays empty.
    pub fn add_files(
        self,
        source_files_info: Vec<FileInfo>,
        project_root: &str,
        config: &Config,
        readme_template: &AiReadmeText,
    ) -> (r: Self)
        ensures
            r.same_frame(self),
            r.docs == self.docs,
            if config.source.enabled && source_files_info@.len() > 0 {
                &&& r.source matches Some(repr)
                &&& repr.chunks is None
                &&& repr.files matches Some(files)
                &&& contexts_of(files@, source_files_info@, project_root@)
            } else {
                r.source is None
            },
            opt_text(r.ai_readme) == Some(readme_text(r, *config, *readme_template)),
    {
        let mut this = self;
        if config.source.enabled && source_files_info.len() > 0 {
            this.source = Some(
                SourceRepresentation {
                    files: Some(create_file_context_list(source_files_info, project_root)),
                    chunks: None,
                },
            );
        } else {
            this.source = None;
        }
        this.populate_ai_readme(config, readme_template);
        this
    }

    /// Adds the documentation files to the context: if the docs section is
    /// on and there are files, else the section stays empty.
    pub fn add_docs(
        self,
        docs_files_info: Vec<FileInfo>,
        project_root: &str,
        config: &Config,
        readme_template: &AiReadmeText,
    ) -> (r: Self)
        ensures
            r.same_frame(self),
            r.source == self.source,
            if config.docs.enabled && docs_files_info@.len() > 0 {
                r.docs matches Some(files) && contexts_of(files@, docs_files_info@, project_root@)
            } else {
                r.docs is None
            },
            opt_text(r.ai_readme) == Some(readme_text(r, *config, *readme_template)),
    {
        let mut this = self;
        if config.docs.enabled && docs_files_info.len() > 0 {
            this.docs = Some(create_file_context_list(docs_files_info, project_root));
        } else {
            this.docs = None;
        }
        this.populate_ai_readme(config, readme_template);
        this
    }

    /// Adds the names of the chunk files to the context, each relative to
    /// the directory they are saved in: if the source section is on and
    /// there are chunks, else the section stays empty.
    pub fn add_chunk_paths(
        self,
        chunk_paths: Vec<String>,
        save_dir: &str,
        config: &Config,
        readme_template: &AiReadmeText,
    ) -> (r: Self)
        ensures
            r.same_frame(self),
            r.docs == self.docs,
            if config.source.enabled && chunk_paths@.len() > 0 {
                &&& r.source matches Some(repr)
                &&& repr.files is None
                &&& repr.chunks matches Some(chunks)
                &&& chunks@.len() == chunk_paths@.len()
                &&& forall|i: int|
                    0 <= i < chunks@.len() ==> (#[trigger] chunks@[i])@ == shown_path(
                        chunk_paths@[i]@,
                        save_dir@,
                    )
            } else {
                r.source is None
            },
            opt_text(r.ai_readme) == Some(readme_text(r, *config, *readme_template)),
    {
        let mut this = self;
        if config.source.enabled && chunk_paths.len() > 0 {
            let ghost all = chunk_paths@;
            let mut relative_chunk_paths: Vec<String> = Vec::new();
            for p in it: chunk_paths
                invariant
                    it.seq() == all,
                    relative_chunk_paths@.len() == it.index(),
                    forall|i: int|
                        0 <= i < relative_chunk_paths@.len() ==> (
                        #[trigger] relative_chunk_paths@[i])@ == shown_path(all[i]@, save_dir@),
            {
                let shown = match relative_to(p.as_str(), save_dir) {
                    Some(relative) => relative,
                    None => p,
                };
                relative_chunk_paths.push(shown);
            }
            this.source = Some(
                SourceRepresentation { files: None, chunks: Some(relative_chunk_paths) },
            );
        } else {
            this.source = None;
        }
        this.populate_ai_readme(config, readme_template);
        this
    }

    /// Writes the guide at the head of the context anew, from the parts
    /// that the context now has.
    pub fn populate_ai_readme(&mut self, config: &Config, readme_template: &AiReadmeText)
        ensures
            final(self).same_but_readme(*old(self)),
            opt_text(final(self).ai_readme) == Some(
                readme_text(*final(self), *config, *readme_template),
            ),
    {
        let t = readme_template;
        let mut details: Vec<&str> = Vec::new();
        assert(strs_of(details@) =~= Seq::<Seq<char>>::empty());
        push_when(&mut details, self.project_name.is_some(), t.project_name_desc.as_str());
        push_when(&mut details, self.project_root.is_some(), t.project_root_desc.as_str());
        push_when(&mut details, self.system_info.is_some(), t.system_info_desc.as_str());
        push_when(&mut details, self.meta.is_some(), t.meta_desc.as_str());
        push_when(&mut details, self.docs.is_some(), t.docs_desc.as_str());
        push_when(&mut details, self.tree.is_some(), t.tree_desc.as_str());
        let ghost upto_tree = strs_of(details@);

        match &self.source {
            Some(source_repr) => {
                if source_repr.files.is_some() {
                    push_when(&mut details, true, t.source_files_desc.as_str());
                } else if source_repr.chunks.is_some() {
                    push_when(&mut details, true, t.source_chunks_desc.as_str());
                } else {
                    push_when(&mut details, true, t.source_missing_desc.as_str());
                }
            },
            None => {
                push_when(&mut details, config.source.enabled, t.source_missing_desc.as_str());
            },
        }
        assert(strs_of(details@) == upto_tree + source_sentence(
            self.source,
            config.source.enabled,
            *t,
        ));
        let ghost upto_source = strs_of(details@);

        if !rule_map_is_empty(&self.rules) {
            push_when(&mut details, true, t.rules_desc.as_str());
        } else {
            push_when(&mut details, config.rules.enabled, t.rules_missing_desc.as_str());
        }
        assert(strs_of(details@) == upto_source + rules_sentence(
            rule_map_entries(self.rules).len() > 0,
            config.rules.enabled,
            *t,
        ));
        push_when(&mut details, self.generation_timestamp.is_some(), t.timestamp_desc.as_str());
        assert(strs_of(details@) =~= readme_details(*self, *config, *t));

        if details.len() > 0 {
            let mut parts: Vec<&str> = Vec::new();
            parts.push(t.intro.as_str());
            parts.push(t.key_sections_header.as_str());
            let ghost head = strs_of(parts@);
            assert(head =~= seq![t.intro@, t.key_sections_header@]);
            let mut i: usize = 0;
            while i < details.len()
                invariant
                    0 <= i <= details.len(),
                    strs_of(parts@) == head + strs_of(details@).take(i as int),
                decreases details.len() - i,
            {
                let ghost before = strs_of(parts@);
                parts.push(details[i]);
                assert(strs_of(parts@) =~= before.push(details@[i as int]@));
                assert(strs_of(details@).take(i + 1) =~= strs_of(details@).take(i as int).push(
                    details@[i as int]@,
                ));
                i = i + 1;
            }
            assert(strs_of(details@).take(i as int) =~= strs_of(details@));
            self.ai_readme = Some(join_texts(&parts, "\\n"));
        } else {
            self.ai_readme = Some(t.intro.clone());
        }
    }
}

} // verus!
