//! Resolving which rules and which prompts go into the output.

use vstd::prelude::*;
use vstd::string::StringExecFns;
use crate::config::{PromptsConfig, RulesConfig};
use crate::error::AppError;
use crate::output_formats::StaticData;
use crate::pairs::{clone_pairs, pairs_model, pairs_with, set_pair, PairModel};
use crate::rule_map::{
    entries_with, rule_map_entries, rule_map_insert, rule_map_new, rule_map_to_vec, RuleSetModel,
};
use crate::rules::mapping::{
    default_rule_stems, get_default_rule_stems, map_characteristic_to_rule_stem, rule_stem_of,
};
use crate::rules::{get_static_rule_content, static_rule_text};
use crate::text::{
    concat2, contains_text, insert_unique, is_blank, lowercase_of, nonblank_lines, set_with,
    texts_of, to_lowercase, trim_nonblank, trim_spec, trimmed_lines, trimmed_nonblank,
};

verus! {

/// The rules that go into the output: the rule sets by key, in the order in
/// which they were resolved, and for each key where the set came from.
#[derive(Debug, Clone)]
pub struct ResolvedRules {
    pub rulesets: indexmap::IndexMap<String, Vec<String>>,
    pub origins: Vec<(String, String)>,
}

/// A file that the configuration imports, once it has been found and read:
/// the stem of its name and its text.
#[derive(Debug, Clone)]
pub struct ImportedText {
    pub stem: String,
    pub content: String,
}

/// Resolved rules as values: the rule sets and the origins.
pub type RulesModel = (Seq<RuleSetModel>, Seq<PairModel>);

impl View for ResolvedRules {
    type V = RulesModel;

    open spec fn view(&self) -> RulesModel {
        (rule_map_entries(self.rulesets), pairs_model(self.origins@))
    }
}

impl ResolvedRules {
    /// A copy of the resolved rules.
    pub fn duplicate(&self) -> (r: ResolvedRules)
        ensures
            r@ == self@,
    {
        ResolvedRules { rulesets: self.rulesets.clone(), origins: clone_pairs(&self.origins) }
    }
}

/// The rules after one rule set has been put under a key.
pub open spec fn with_ruleset(
    rules: RulesModel,
    key: Seq<char>,
    lines: Seq<Seq<char>>,
    origin: Seq<char>,
) -> RulesModel {
    (entries_with(rules.0, key, lines), pairs_with(rules.1, key, origin))
}

/// The stem that goes with a trait: the one of the trait in lower case, else
/// the one of the trait as it is.
pub open spec fn stem_for(characteristic: Seq<char>) -> Option<Seq<char>> {
    match rule_stem_of(lowercase_of(characteristic)) {
        Some(stem) => Some(stem),
        None => rule_stem_of(characteristic),
    }
}

/// The stems to begin with: the default ones, and after them those that go
/// with the traits of the project.
pub open spec fn base_stems(characteristics: Seq<Seq<char>>) -> Seq<Seq<char>>
    decreases characteristics.len(),
{
    if characteristics.len() == 0 {
        default_rule_stems()
    } else {
        let earlier = base_stems(characteristics.drop_last());
        match stem_for(characteristics.last()) {
            Some(stem) => set_with(earlier, stem),
            None => earlier,
        }
    }
}

/// The texts of a list that are not among the excluded ones.
pub open spec fn without(list: Seq<Seq<char>>, excluded: Seq<Seq<char>>) -> Seq<Seq<char>>
    decreases list.len(),
{
    if list.len() == 0 {
        Seq::empty()
    } else {
        let earlier = without(list.drop_last(), excluded);
        if excluded.contains(list.last()) {
            earlier
        } else {
            earlier.push(list.last())
        }
    }
}

/// A list used as a set, after all the given items have been put in.
pub open spec fn with_all(list: Seq<Seq<char>>, items: Seq<Seq<char>>) -> Seq<Seq<char>>
    decreases items.len(),
{
    if items.len() == 0 {
        list
    } else {
        set_with(with_all(list, items.drop_last()), items.last())
    }
}

/// The stems of the static rule sets that are loaded: the base stems
/// without the excluded ones, and the stems that the configuration asks
/// for by name.
pub open spec fn effective_stems(
    characteristics: Seq<Seq<char>>,
    exclude: Seq<Seq<char>>,
    include_list: Seq<Seq<char>>,
) -> Seq<Seq<char>> {
    with_all(without(base_stems(characteristics), exclude), include_list)
}

/// Where a static rule set came from.
pub open spec fn origin_word(is_default: bool, is_included: bool) -> Seq<char> {
    if is_default && is_included {
        "default+include"@
    } else if is_default {
        "default"@
    } else if is_included {
        "include"@
    } else {
        "dynamic"@
    }
}

/// The rules after the static rule sets of the given stems have been
/// loaded. A stem whose rule file cannot be had is passed over.
pub open spec fn with_static_rules(
    rules: RulesModel,
    data: StaticData,
    stems: Seq<Seq<char>>,
    include_list: Seq<Seq<char>>,
) -> RulesModel
    decreases stems.len(),
{
    if stems.len() == 0 {
        rules
    } else {
        let earlier = with_static_rules(rules, data, stems.drop_last(), include_list);
        let stem = stems.last();
        match static_rule_text(data, stem) {
            Ok(content) => with_ruleset(
                earlier,
                "static:"@ + stem,
                nonblank_lines(content),
                origin_word(default_rule_stems().contains(stem), include_list.contains(stem)),
            ),
            Err(_) => earlier,
        }
    }
}

/// The rules after the imported files have been added.
pub open spec fn with_imported_rules(rules: RulesModel, imported: Seq<ImportedText>) -> RulesModel
    decreases imported.len(),
{
    if imported.len() == 0 {
        rules
    } else {
        let earlier = with_imported_rules(rules, imported.drop_last());
        let file = imported.last();
        with_ruleset(earlier, "imported:"@ + file.stem@, nonblank_lines(file.content@), "import"@)
    }
}

/// The rules after the rule lists of the configuration have been added. An
/// empty list is passed over.
pub open spec fn with_custom_rules(rules: RulesModel, custom: Seq<RuleSetModel>) -> RulesModel
    decreases custom.len(),
{
    if custom.len() == 0 {
        rules
    } else {
        let earlier = with_custom_rules(rules, custom.drop_last());
        let (name, list) = custom.last();
        if list.len() == 0 {
            earlier
        } else {
            with_ruleset(earlier, "custom:"@ + name, trimmed_nonblank(list), "custom"@)
        }
    }
}

/// The rules that a configuration resolves to, for a project with the given
/// traits and imported files: none if rules are switched off, else the
/// static rule sets, then the imported files, then the configured lists.
pub open spec fn resolved_rules_spec(
    config: RulesConfig,
    characteristics: Seq<Seq<char>>,
    data: StaticData,
    imported: Seq<ImportedText>,
) -> RulesModel {
    let none = (Seq::<RuleSetModel>::empty(), Seq::<PairModel>::empty());
    if !config.enabled {
        none
    } else {
        let include_list = texts_of(config.include_stems@);
        let stems = effective_stems(characteristics, texts_of(config.exclude_stems@), include_list);
        with_custom_rules(
            with_imported_rules(with_static_rules(none, data, stems, include_list), imported),
            rule_map_entries(config.custom),
        )
    }
}

/// Puts a rule set under a key.
fn put_ruleset(resolved: &mut ResolvedRules, key: String, lines: Vec<String>, origin: &str)
    ensures
        final(resolved)@ == with_ruleset(old(resolved)@, key@, texts_of(lines@), origin@),
{
    let origin_key = key.clone();
    rule_map_insert(&mut resolved.rulesets, key, lines);
    set_pair(&mut resolved.origins, origin_key, String::from_str(origin));
}

/// Works out the stems to begin with.
fn base_static_stems(characteristics: &Vec<String>) -> (r: Vec<String>)
    ensures
        texts_of(r@) == base_stems(texts_of(characteristics@)),
{
    let ghost all = texts_of(characteristics@);
    let mut stems = get_default_rule_stems();
    let mut i: usize = 0;
    proof {
        assert(all.take(0) =~= Seq::<Seq<char>>::empty());
    }
    while i < characteristics.len()
        invariant
            0 <= i <= characteristics.len(),
            all == texts_of(characteristics@),
            texts_of(stems@) == base_stems(all.take(i as int)),
        decreases characteristics.len() - i,
    {
        proof {
            let upto = all.take(i + 1);
            assert(upto.drop_last() =~= all.take(i as int));
            assert(upto.last() == characteristics@[i as int]@);
        }
        let characteristic = &characteristics[i];
        let char_lower = to_lowercase(characteristic.as_str());
        let stem = match map_characteristic_to_rule_stem(char_lower.as_str()) {
            Some(stem) => Some(stem),
            None => map_characteristic_to_rule_stem(characteristic.as_str()),
        };
        match stem {
            Some(stem) => {
                insert_unique(&mut stems, String::from_str(stem));
            },
            None => {},
        }
        i = i + 1;
    }
    proof {
        assert(all.take(i as int) =~= all);
    }
    stems
}

/// Works out the stems of the static rule sets that are loaded.
fn effective_static_stems(
    characteristics: &Vec<String>,
    exclude: &Vec<String>,
    include_list: &Vec<String>,
) -> (r: Vec<String>)
    ensures
        texts_of(r@) == effective_stems(
            texts_of(characteristics@),
            texts_of(exclude@),
            texts_of(include_list@),
        ),
{
    let base = base_static_stems(characteristics);
    let ghost base_texts = texts_of(base@);
    let ghost wanted = texts_of(include_list@);
    let mut stems: Vec<String> = Vec::new();
    let mut i: usize = 0;
    proof {
        assert(base_texts.take(0) =~= Seq::<Seq<char>>::empty());
        assert(texts_of(stems@) =~= Seq::<Seq<char>>::empty());
    }
    while i < base.len()
        invariant
            0 <= i <= base.len(),
            base_texts == texts_of(base@),
            texts_of(stems@) == without(base_texts.take(i as int), texts_of(exclude@)),
        decreases base.len() - i,
    {
        let ghost before = texts_of(stems@);
        proof {
            let upto = base_texts.take(i + 1);
            assert(upto.drop_last() =~= base_texts.take(i as int));
            assert(upto.last() == base@[i as int]@);
        }
        if !contains_text(exclude, base[i].as_str()) {
            stems.push(base[i].clone());
            assert(texts_of(stems@) =~= before.push(base@[i as int]@));
        }
        i = i + 1;
    }
    proof {
        assert(base_texts.take(i as int) =~= base_texts);
        assert(wanted.take(0) =~= Seq::<Seq<char>>::empty());
    }
    let ghost kept = texts_of(stems@);
    let mut j: usize = 0;
    while j < include_list.len()
        invariant
            0 <= j <= include_list.len(),
            wanted == texts_of(include_list@),
            texts_of(stems@) == with_all(kept, wanted.take(j as int)),
        decreases include_list.len() - j,
    {
        proof {
            let upto = wanted.take(j + 1);
            assert(upto.drop_last() =~= wanted.take(j as int));
            assert(upto.last() == include_list@[j as int]@);
        }
        insert_unique(&mut stems, include_list[j].clone());
        j = j + 1;
    }
    proof {
        assert(wanted.take(j as int) =~= wanted);
    }
    stems
}

/// Loads the static rule sets of the given stems.
fn add_static_rules(
    resolved: &mut ResolvedRules,
    data: &StaticData,
    stems: &Vec<String>,
    include_list: &Vec<String>,
)
    ensures
        final(resolved)@ == with_static_rules(
            old(resolved)@,
            *data,
            texts_of(stems@),
            texts_of(include_list@),
        ),
{
    let ghost start = resolved@;
    let ghost all = texts_of(stems@);
    let defaults = get_default_rule_stems();
    let mut i: usize = 0;
    proof {
        assert(all.take(0) =~= Seq::<Seq<char>>::empty());
    }
    while i < stems.len()
        invariant
            0 <= i <= stems.len(),
            all == texts_of(stems@),
            texts_of(defaults@) == default_rule_stems(),
            resolved@ == with_static_rules(start, *data, all.take(i as int), texts_of(include_list@)),
        decreases stems.len() - i,
    {
        proof {
            let upto = all.take(i + 1);
            assert(upto.drop_last() =~= all.take(i as int));
            assert(upto.last() == stems@[i as int]@);
        }
        let stem = &stems[i];
        match get_static_rule_content(data, stem.as_str()) {
            Ok(content) => {
                let key = concat2("static:", stem.as_str());
                let is_default = contains_text(&defaults, stem.as_str());
                let is_included = contains_text(include_list, stem.as_str());
                let origin = if is_default && is_included {
                    "default+include"
                } else if is_default {
                    "default"
                } else if is_included {
                    "include"
                } else {
                    "dynamic"
                };
                put_ruleset(resolved, key, trimmed_lines(content.as_str()), origin);
            },
            Err(_) => {},
        }
        i = i + 1;
    }
    proof {
        assert(all.take(i as int) =~= all);
    }
}

/// Adds the imported files.
fn add_imported_rules(resolved: &mut ResolvedRules, imported: &Vec<ImportedText>)
    ensures
        final(resolved)@ == with_imported_rules(old(resolved)@, imported@),
{
    let ghost start = resolved@;
    let mut i: usize = 0;
    proof {
        assert(imported@.take(0) =~= Seq::<ImportedText>::empty());
    }
    while i < imported.len()
        invariant
            0 <= i <= imported.len(),
            resolved@ == with_imported_rules(start, imported@.take(i as int)),
        decreases imported.len() - i,
    {
        proof {
            let upto = imported@.take(i + 1);
            assert(upto.drop_last() =~= imported@.take(i as int));
            assert(upto.last() == imported@[i as int]);
        }
        let file = &imported[i];
        let key = concat2("imported:", file.stem.as_str());
        put_ruleset(resolved, key, trimmed_lines(file.content.as_str()), "import");
        i = i + 1;
    }
    proof {
        assert(imported@.take(i as int) =~= imported@);
    }
}

/// The rule lists that copied-out entries stand for.
pub open spec fn custom_model(custom: Seq<(String, Vec<String>)>) -> Seq<RuleSetModel> {
    Seq::new(custom.len(), |i: int| (custom[i].0@, texts_of(custom[i].1@)))
}

/// Adds the rule lists of the configuration.
fn add_custom_rules(resolved: &mut ResolvedRules, custom: &Vec<(String, Vec<String>)>)
    ensures
        final(resolved)@ == with_custom_rules(old(resolved)@, custom_model(custom@)),
{
    let ghost start = resolved@;
    let ghost all = custom_model(custom@);
    let mut i: usize = 0;
    proof {
        assert(all.take(0) =~= Seq::<RuleSetModel>::empty());
    }
    while i < custom.len()
        invariant
            0 <= i <= custom.len(),
            all == custom_model(custom@),
            resolved@ == with_custom_rules(start, all.take(i as int)),
        decreases custom.len() - i,
    {
        proof {
            let upto = all.take(i + 1);
            assert(upto.drop_last() =~= all.take(i as int));
            assert(upto.last() == (custom@[i as int].0@, texts_of(custom@[i as int].1@)));
        }
        let name = &custom[i].0;
        let rules_list = &custom[i].1;
        if rules_list.len() > 0 {
            let key = concat2("custom:", name.as_str());
            put_ruleset(resolved, key, trim_nonblank(rules_list), "custom");
        }
        i = i + 1;
    }
    proof {
        assert(all.take(i as int) =~= all);
    }
}

/// Resolves the rules of a configuration for a project with the given
/// traits. `imported` holds the imported rule files that were found and
/// could be read, in the order of the configuration.
pub fn resolve_rules(
    rules_config: &RulesConfig,
    project_characteristics: &Vec<String>,
    data: &StaticData,
    imported: &Vec<ImportedText>,
) -> (r: Result<ResolvedRules, AppError>)
    ensures
        r matches Ok(resolved) && resolved@ == resolved_rules_spec(
            *rules_config,
            texts_of(project_characteristics@),
            *data,
            imported@,
        ),
{
    let mut resolved = ResolvedRules { rulesets: rule_map_new(), origins: Vec::new() };
    assert(pairs_model(resolved.origins@) =~= Seq::<PairModel>::empty());
    if !rules_config.enabled {
        return Ok(resolved);
    }
    let stems = effective_static_stems(
        project_characteristics,
        &rules_config.exclude_stems,
        &rules_config.include_stems,
    );
    add_static_rules(&mut resolved, data, &stems, &rules_config.include_stems);
    add_imported_rules(&mut resolved, imported);
    let custom = rule_map_to_vec(&rules_config.custom);
    assert(custom_model(custom@) =~= rule_map_entries(rules_config.custom));
    add_custom_rules(&mut resolved, &custom);
    Ok(resolved)
}

/// The prompts after the predefined ones have been added, each under
/// `static:` and its name.
pub open spec fn with_static_prompts(prompts: Seq<PairModel>, predefined: Seq<PairModel>) -> Seq<
    PairModel,
>
    decreases predefined.len(),
{
    if predefined.len() == 0 {
        prompts
    } else {
        let earlier = with_static_prompts(prompts, predefined.drop_last());
        pairs_with(earlier, "static:"@ + predefined.last().0, predefined.last().1)
    }
}

/// The prompts after the given texts have been added under a prefix and
/// their names. A blank text is passed over.
pub open spec fn with_prompts(prompts: Seq<PairModel>, prefix: Seq<char>, given: Seq<PairModel>) -> Seq<
    PairModel,
>
    decreases given.len(),
{
    if given.len() == 0 {
        prompts
    } else {
        let earlier = with_prompts(prompts, prefix, given.drop_last());
        if trim_spec(given.last().1).len() > 0 {
            pairs_with(earlier, prefix + given.last().0, given.last().1)
        } else {
            earlier
        }
    }
}

/// The `(stem, text)` pairs that imported files stand for.
pub open spec fn imported_pairs(imported: Seq<ImportedText>) -> Seq<PairModel> {
    Seq::new(imported.len(), |i: int| (imported[i].stem@, imported[i].content@))
}

/// The prompts that a configuration resolves to: the predefined ones, then
/// the imported files, then the configured texts.
pub open spec fn resolved_prompts_spec(
    config: PromptsConfig,
    data: StaticData,
    imported: Seq<ImportedText>,
) -> Seq<PairModel> {
    with_prompts(
        with_prompts(
            with_static_prompts(Seq::empty(), pairs_model(data.prompts@)),
            "imported:"@,
            imported_pairs(imported),
        ),
        "custom:"@,
        pairs_model(config.custom@),
    )
}

/// Adds texts under a prefix and their names, passing over blank ones.
fn add_prompts(resolved: &mut Vec<(String, String)>, prefix: &str, given: &Vec<(String, String)>)
    ensures
        pairs_model(final(resolved)@) == with_prompts(
            pairs_model(old(resolved)@),
            prefix@,
            pairs_model(given@),
        ),
{
    let ghost start = pairs_model(resolved@);
    let ghost all = pairs_model(given@);
    let mut i: usize = 0;
    proof {
        assert(all.take(0) =~= Seq::<PairModel>::empty());
    }
    while i < given.len()
        invariant
            0 <= i <= given.len(),
            all == pairs_model(given@),
            pairs_model(resolved@) == with_prompts(start, prefix@, all.take(i as int)),
        decreases given.len() - i,
    {
        proof {
            let upto = all.take(i + 1);
            assert(upto.drop_last() =~= all.take(i as int));
            assert(upto.last() == all[i as int]);
        }
        if !is_blank(given[i].1.as_str()) {
            set_pair(resolved, concat2(prefix, given[i].0.as_str()), given[i].1.clone());
        }
        i = i + 1;
    }
    proof {
        assert(all.take(i as int) =~= all);
    }
}

/// The imported files as `(stem, text)` pairs.
fn imported_as_pairs(imported: &Vec<ImportedText>) -> (r: Vec<(String, String)>)
    ensures
        pairs_model(r@) == imported_pairs(imported@),
{
    let mut pairs: Vec<(String, String)> = Vec::new();
    let mut i: usize = 0;
    while i < imported.len()
        invariant
            0 <= i <= imported.len(),
            pairs@.len() == i,
            forall|k: int| 0 <= k < i ==> (#[trigger] pairs@[k]).0@ == imported@[k].stem@,
            forall|k: int| 0 <= k < i ==> (#[trigger] pairs@[k]).1@ == imported@[k].content@,
        decreases imported.len() - i,
    {
        pairs.push((imported[i].stem.clone(), imported[i].content.clone()));
        i = i + 1;
    }
    assert(pairs_model(pairs@) =~= imported_pairs(imported@));
    pairs
}

/// Resolves the prompts of a configuration. `imported` holds the imported
/// prompt files that were found and could be read, in the order of the
/// configuration.
pub fn resolve_prompts(
    prompts_config: &PromptsConfig,
    data: &StaticData,
    imported: &Vec<ImportedText>,
) -> (r: Result<Vec<(String, String)>, AppError>)
    ensures
        r matches Ok(resolved) && pairs_model(resolved@) == resolved_prompts_spec(
            *prompts_config,
            *data,
            imported@,
        ),
{
    let mut resolved: Vec<(String, String)> = Vec::new();
    let predefined = &data.prompts;
    let ghost given = pairs_model(predefined@);
    let mut i: usize = 0;
    proof {
        assert(given.take(0) =~= Seq::<PairModel>::empty());
        assert(pairs_model(resolved@) =~= Seq::<PairModel>::empty());
    }
    while i < predefined.len()
        invariant
            0 <= i <= predefined.len(),
            given == pairs_model(predefined@),
            pairs_model(resolved@) == with_static_prompts(Seq::empty(), given.take(i as int)),
        decreases predefined.len() - i,
    {
        proof {
            let upto = given.take(i + 1);
            assert(upto.drop_last() =~= given.take(i as int));
            assert(upto.last() == given[i as int]);
        }
        set_pair(
            &mut resolved,
            concat2("static:", predefined[i].0.as_str()),
            predefined[i].1.clone(),
        );
        i = i + 1;
    }
    proof {
        assert(given.take(i as int) =~= given);
    }
    let imported_prompts = imported_as_pairs(imported);
    add_prompts(&mut resolved, "imported:", &imported_prompts);
    add_prompts(&mut resolved, "custom:", &prompts_config.custom);
    Ok(resolved)
}

} // verus!
