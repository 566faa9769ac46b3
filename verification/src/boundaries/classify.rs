//! Which layer and which context a file belongs to, the context policy's
//! public surfaces, package names of bare import specifiers, and the path
//! tests the boundary rules share.
use vstd::prelude::*;
use crate::text::{
    chars_of, concat, has_prefix, has_string, has_suffix, join, join_with, str_ends_with,
    str_eq, str_starts_with, string_of, texts,
};
use crate::paths::{split_all, split_chars, lemma_split_all_nonempty};
use crate::config::{ContextConfig, ContextRulesConfig, LayerConfig};
use crate::settings::{
    find_named, lookup, package_rule_views, LayerPackageRule, OptionValue, OptionView,
    RuleSetting, SettingView, ConfigError, find_option,
};
use crate::model::{RuleId, Severity};
use super::glob::{compile_pattern, compiled_view, pattern_matches, spec_glob_matches, CompiledPattern, path_matches};
use crate::paths::spec_path_components;

verus! {

/// The class of a file: one name, none, or several.
pub enum Classification {
    Classified(String),
    Unclassified,
    Ambiguous(Vec<String>),
}

pub enum ClassificationView {
    Classified(Seq<char>),
    Unclassified,
    Ambiguous(Seq<Seq<char>>),
}

impl View for Classification {
    type V = ClassificationView;

    open spec fn view(&self) -> ClassificationView {
        match self {
            Classification::Classified(n) => ClassificationView::Classified(n@),
            Classification::Unclassified => ClassificationView::Unclassified,
            Classification::Ambiguous(v) => ClassificationView::Ambiguous(texts(v@)),
        }
    }
}

/// A name with its path patterns.
pub open spec fn some_pattern_matches(patterns: Seq<Seq<char>>, file: Seq<Seq<char>>) -> bool {
    exists|k: int| 0 <= k < patterns.len() && spec_glob_matches(#[trigger] patterns[k], file)
}

/// The names (in definition order) whose patterns match the file.
pub open spec fn matching_names(defs: Seq<(Seq<char>, Seq<Seq<char>>)>, file: Seq<Seq<char>>) -> Seq<Seq<char>>
    decreases defs.len(),
{
    if defs.len() == 0 {
        Seq::empty()
    } else {
        let earlier = matching_names(defs.drop_last(), file);
        if some_pattern_matches(defs.last().1, file) {
            earlier.push(defs.last().0)
        } else {
            earlier
        }
    }
}

pub open spec fn spec_classify(defs: Seq<(Seq<char>, Seq<Seq<char>>)>, file: Seq<Seq<char>>) -> ClassificationView {
    let m = matching_names(defs, file);
    if m.len() == 0 {
        ClassificationView::Unclassified
    } else if m.len() == 1 {
        ClassificationView::Classified(m[0])
    } else {
        ClassificationView::Ambiguous(m)
    }
}

pub open spec fn layer_defs(layers: Seq<LayerConfig>) -> Seq<(Seq<char>, Seq<Seq<char>>)> {
    layers.map_values(|l: LayerConfig| (l.name@, texts(l.patterns@)))
}

pub open spec fn context_defs(contexts: Seq<ContextConfig>) -> Seq<(Seq<char>, Seq<Seq<char>>)> {
    contexts.map_values(|c: ContextConfig| (c.name@, texts(c.patterns@)))
}

/// `to` is among the layers that the first layer named `from` may import.
pub open spec fn spec_may_import(layers: Seq<LayerConfig>, from: Seq<char>, to: Seq<char>) -> bool {
    match lookup(layers.map_values(|l: LayerConfig| (l.name@, texts(l.may_import@))), from) {
        Some(allowed) => allowed.contains(to),
        None => false,
    }
}

/// Names with compiled patterns.
pub struct PatternClassifier {
    pub names: Vec<String>,
    pub patterns: Vec<Vec<CompiledPattern>>,
    pub raw: Ghost<Seq<(Seq<char>, Seq<Seq<char>>)>>,
}

impl PatternClassifier {
    pub open spec fn wf(&self) -> bool {
        &&& self.names@.len() == self.patterns@.len()
        &&& self.raw@.len() == self.names@.len()
        &&& forall|i: int| 0 <= i < self.names@.len() ==> #[trigger] self.raw@[i].0 == self.names@[i]@
        &&& forall|i: int| 0 <= i < self.names@.len() ==> (#[trigger] self.patterns@[i])@.len() == self.raw@[i].1.len()
        &&& forall|i: int, k: int| 0 <= i < self.names@.len() && 0 <= k < self.patterns@[i]@.len()
            ==> compiled_view(#[trigger] self.patterns@[i]@[k]) == spec_path_components(self.raw@[i].1[k])
    }

    fn build(defs_names: Vec<String>, defs_patterns: &Vec<Vec<String>>, raw: Ghost<Seq<(Seq<char>, Seq<Seq<char>>)>>) -> (r: PatternClassifier)
        requires
            defs_names@.len() == defs_patterns@.len(),
            raw@.len() == defs_names@.len(),
            forall|i: int| 0 <= i < raw@.len() ==> #[trigger] raw@[i] == (defs_names@[i]@, texts(defs_patterns@[i]@)),
        ensures
            r.wf(),
            r.raw@ == raw@,
    {
        let mut patterns: Vec<Vec<CompiledPattern>> = Vec::new();
        let mut i: usize = 0;
        while i < defs_patterns.len()
            invariant
                i <= defs_patterns@.len(),
                patterns@.len() == i,
                defs_names@.len() == defs_patterns@.len(),
                raw@.len() == defs_names@.len(),
                forall|j: int| 0 <= j < raw@.len() ==> #[trigger] raw@[j] == (defs_names@[j]@, texts(defs_patterns@[j]@)),
                forall|j: int| 0 <= j < i ==> (#[trigger] patterns@[j])@.len() == raw@[j].1.len(),
                forall|j: int, k: int| 0 <= j < i && 0 <= k < patterns@[j]@.len()
                    ==> compiled_view(#[trigger] patterns@[j]@[k]) == spec_path_components(raw@[j].1[k]),
            decreases defs_patterns@.len() - i,
        {
            let mut compiled: Vec<CompiledPattern> = Vec::new();
            let mut k: usize = 0;
            while k < defs_patterns[i].len()
                invariant
                    i < defs_patterns@.len(),
                    k <= defs_patterns@[i as int]@.len(),
                    compiled@.len() == k,
                    forall|q: int| 0 <= q < k ==> compiled_view(#[trigger] compiled@[q]) == spec_path_components(defs_patterns@[i as int]@[q]@),
                decreases defs_patterns@[i as int]@.len() - k,
            {
                compiled.push(compile_pattern(defs_patterns[i][k].as_str()));
                k = k + 1;
            }
            assert(raw@[i as int].1 == texts(defs_patterns@[i as int]@));
            patterns.push(compiled);
            i = i + 1;
        }
        PatternClassifier { names: defs_names, patterns, raw }
    }

    pub fn for_layers(layers: &Vec<LayerConfig>) -> (r: PatternClassifier)
        ensures
            r.wf(),
            r.raw@ == layer_defs(layers@),
    {
        let mut names: Vec<String> = Vec::new();
        let mut pats: Vec<Vec<String>> = Vec::new();
        let mut i: usize = 0;
        while i < layers.len()
            invariant
                i <= layers@.len(),
                names@.len() == i,
                pats@.len() == i,
                forall|j: int| 0 <= j < i ==> #[trigger] layer_defs(layers@)[j] == (names@[j]@, texts(pats@[j]@)),
            decreases layers@.len() - i,
        {
            names.push(layers[i].name.clone());
            pats.push(crate::text::clone_strings(&layers[i].patterns));
            i = i + 1;
        }
        PatternClassifier::build(names, &pats, Ghost(layer_defs(layers@)))
    }

    pub fn for_contexts(contexts: &Vec<ContextConfig>) -> (r: PatternClassifier)
        ensures
            r.wf(),
            r.raw@ == context_defs(contexts@),
    {
        let mut names: Vec<String> = Vec::new();
        let mut pats: Vec<Vec<String>> = Vec::new();
        let mut i: usize = 0;
        while i < contexts.len()
            invariant
                i <= contexts@.len(),
                names@.len() == i,
                pats@.len() == i,
                forall|j: int| 0 <= j < i ==> #[trigger] context_defs(contexts@)[j] == (names@[j]@, texts(pats@[j]@)),
            decreases contexts@.len() - i,
        {
            names.push(contexts[i].name.clone());
            pats.push(crate::text::clone_strings(&contexts[i].patterns));
            i = i + 1;
        }
        PatternClassifier::build(names, &pats, Ghost(context_defs(contexts@)))
    }

    fn matches_entry(&self, i: usize, file: &Vec<String>) -> (r: bool)
        requires
            self.wf(),
            i < self.names@.len(),
        ensures
            r == some_pattern_matches(self.raw@[i as int].1, texts(file@)),
    {
        let mut k: usize = 0;
        while k < self.patterns[i].len()
            invariant
                self.wf(),
                i < self.names@.len(),
                k <= self.patterns@[i as int]@.len(),
                forall|q: int| 0 <= q < k ==> !spec_glob_matches(#[trigger] self.raw@[i as int].1[q], texts(file@)),
            decreases self.patterns@[i as int]@.len() - k,
        {
            if pattern_matches(&self.patterns[i][k], file) {
                assert(spec_glob_matches(self.raw@[i as int].1[k as int], texts(file@)));
                return true;
            }
            k = k + 1;
        }
        false
    }

    /// The class of the file.
    pub fn classify(&self, file: &Vec<String>) -> (r: Classification)
        requires
            self.wf(),
        ensures
            r@ == spec_classify(self.raw@, texts(file@)),
    {
        let ghost defs = self.raw@;
        let mut found: Vec<String> = Vec::new();
        let mut i: usize = 0;
        while i < self.names.len()
            invariant
                self.wf(),
                defs == self.raw@,
                i <= self.names@.len(),
                texts(found@) == matching_names(defs.take(i as int), texts(file@)),
            decreases self.names@.len() - i,
        {
            assert(defs.take(i + 1).drop_last() =~= defs.take(i as int));
            assert(defs.take(i + 1).last() == defs[i as int]);
            if self.matches_entry(i, file) {
                let ghost before = texts(found@);
                found.push(self.names[i].clone());
                assert(texts(found@) =~= before.push(defs[i as int].0));
            }
            i = i + 1;
        }
        assert(defs.take(self.names@.len() as int) =~= defs);
        if found.len() == 0 {
            Classification::Unclassified
        } else if found.len() == 1 {
            Classification::Classified(found[0].clone())
        } else {
            Classification::Ambiguous(found)
        }
    }
}

/// Whether the first layer named `from` may import `to`.
pub fn may_import(layers: &Vec<LayerConfig>, from: &str, to: &str) -> (r: bool)
    ensures
        r == spec_may_import(layers@, from@, to@),
{
    let ghost m = layers@.map_values(|l: LayerConfig| (l.name@, texts(l.may_import@)));
    let mut i: usize = 0;
    assert(m.subrange(0, m.len() as int) =~= m);
    while i < layers.len()
        invariant
            i <= layers@.len(),
            m == layers@.map_values(|l: LayerConfig| (l.name@, texts(l.may_import@))),
            lookup(m, from@) == lookup(m.subrange(i as int, m.len() as int), from@),
        decreases layers@.len() - i,
    {
        let ghost rest = m.subrange(i as int, m.len() as int);
        assert(rest.subrange(1, rest.len() as int) =~= m.subrange(i + 1, m.len() as int));
        assert(rest[0] == (layers@[i as int].name@, texts(layers@[i as int].may_import@)));
        if str_eq(layers[i].name.as_str(), from) {
            return has_string(&layers[i].may_import, to);
        }
        i = i + 1;
    }
    false
}

/// Some component of the path is one of `segments`.
pub open spec fn spec_has_any_segment(c: Seq<Seq<char>>, segments: Seq<Seq<char>>) -> bool {
    exists|j: int| 0 <= j < c.len() && segments.contains(#[trigger] c[j])
}

pub fn path_has_any_segment(file: &Vec<String>, segments: &Vec<String>) -> (r: bool)
    ensures
        r == spec_has_any_segment(texts(file@), texts(segments@)),
{
    let found = crate::paths::any_component_in(file, segments);
    proof {
        let c = texts(file@);
        if found {
            let j = choose|j: int| 0 <= j < file@.len() && texts(segments@).contains(#[trigger] file@[j]@);
            assert(c[j] == file@[j]@);
        } else {
            assert forall|j: int| 0 <= j < c.len() implies !texts(segments@).contains(#[trigger] c[j]) by {
                assert(c[j] == file@[j]@);
            }
        }
    }
    found
}

/// The '/'-joined path ends with one of `suffixes`.
pub open spec fn spec_ends_with_any(c: Seq<Seq<char>>, suffixes: Seq<Seq<char>>) -> bool {
    exists|k: int| 0 <= k < suffixes.len() && has_suffix(join_with(c, "/"@), #[trigger] suffixes[k])
}

pub fn path_ends_with_any(file: &Vec<String>, suffixes: &Vec<String>) -> (r: bool)
    ensures
        r == spec_ends_with_any(texts(file@), texts(suffixes@)),
{
    let path = join(file, "/");
    let mut k: usize = 0;
    while k < suffixes.len()
        invariant
            k <= suffixes@.len(),
            path@ == join_with(texts(file@), "/"@),
            forall|j: int| 0 <= j < k ==> !has_suffix(path@, #[trigger] texts(suffixes@)[j]),
        decreases suffixes@.len() - k,
    {
        assert(texts(suffixes@)[k as int] == suffixes@[k as int]@);
        if str_ends_with(path.as_str(), suffixes[k].as_str()) {
            return true;
        }
        k = k + 1;
    }
    false
}

/// The context policy: same-context imports, and the path segments that
/// make a file part of its context's public surface.
pub struct ContextPolicy {
    pub allow_same_context: bool,
    pub allow_cross_context: Vec<String>,
}

impl ContextPolicy {
    pub fn from_rules(rules: &ContextRulesConfig) -> (r: ContextPolicy)
        ensures
            r.allow_same_context == rules.allow_same_context,
            texts(r.allow_cross_context@) == texts(rules.allow_cross_context@),
    {
        ContextPolicy {
            allow_same_context: rules.allow_same_context,
            allow_cross_context: crate::text::clone_strings(&rules.allow_cross_context),
        }
    }

    /// A file is on its context's public surface when one of its path
    /// segments is a public surface segment.
    pub fn is_public_surface(&self, file: &Vec<String>) -> (r: bool)
        ensures
            r == spec_has_any_segment(texts(file@), texts(self.allow_cross_context@)),
    {
        path_has_any_segment(file, &self.allow_cross_context)
    }
}

/// The package an import specifier names: `@scope/name` for a scoped
/// specifier, else its first segment.
pub open spec fn spec_package_name(spec: Seq<char>) -> Seq<char> {
    let parts = split_all(spec, '/');
    if spec.len() > 0 && spec[0] == '@' && parts.len() >= 2 {
        parts[0] + "/"@ + parts[1]
    } else {
        parts[0]
    }
}

pub fn normalized_package_name(specifier: &str) -> (r: String)
    ensures
        r@ == spec_package_name(specifier@),
{
    let cs = chars_of(specifier);
    let parts = split_chars(cs.as_slice(), '/');
    let ghost pv = parts@.map_values(|p: Vec<char>| p@);
    proof {
        lemma_split_all_nonempty(specifier@, '/');
        assert(pv[0] == parts@[0]@);
    }
    if cs.len() > 0 && cs[0] == '@' && parts.len() >= 2 {
        assert(pv[1] == parts@[1]@);
        let scope = string_of(parts[0].as_slice());
        let name = string_of(parts[1].as_slice());
        concat(concat(scope.as_str(), "/").as_str(), name.as_str())
    } else {
        string_of(parts[0].as_slice())
    }
}

/// A package pattern names the package, or is `<prefix>/*` and the package
/// starts with `<prefix>/`.
pub open spec fn pattern_allows(pattern: Seq<char>, package: Seq<char>) -> bool {
    pattern == package || (has_suffix(pattern, "/*"@) && has_prefix(package, pattern.drop_last()))
}

pub open spec fn spec_package_allowed(patterns: Seq<Seq<char>>, package: Seq<char>) -> bool {
    exists|k: int| 0 <= k < patterns.len() && pattern_allows(#[trigger] patterns[k], package)
}

pub fn package_allowed(patterns: &Vec<String>, package: &str) -> (r: bool)
    ensures
        r == spec_package_allowed(texts(patterns@), package@),
{
    let mut k: usize = 0;
    while k < patterns.len()
        invariant
            k <= patterns@.len(),
            forall|j: int| 0 <= j < k ==> !pattern_allows(#[trigger] texts(patterns@)[j], package@),
        decreases patterns@.len() - k,
    {
        let pattern = patterns[k].as_str();
        assert(texts(patterns@)[k as int] == pattern@);
        let allows = if str_eq(pattern, package) {
            true
        } else if crate::text::str_ends_with(pattern, "/*") {
            proof {
                reveal_strlit("/*");
            }
            let pc = chars_of(pattern);
            let prefix = string_of(&pc.as_slice()[0..pc.len() - 1]);
            assert(prefix@ =~= pattern@.drop_last());
            str_starts_with(package, prefix.as_str())
        } else {
            false
        };
        if allows {
            return true;
        }
        k = k + 1;
    }
    false
}

/// The severity and allowed packages of one layer: those of the first entry
/// for the layer, or off when no entry names it.
pub open spec fn spec_layer_package_policy(rules: Seq<(Seq<char>, Severity, Seq<Seq<char>>)>, layer: Seq<char>) -> (Severity, Seq<Seq<char>>)
    decreases rules.len(),
{
    if rules.len() == 0 {
        (Severity::Off, Seq::empty())
    } else if rules[0].0 == layer {
        (rules[0].1, rules[0].2)
    } else {
        spec_layer_package_policy(rules.skip(1), layer)
    }
}

/// The `layers` option: its entries, empty when absent, an error for
/// another shape.
pub open spec fn package_rules_result(s: SettingView) -> Option<Seq<(Seq<char>, Severity, Seq<Seq<char>>)>> {
    match find_option(s.options, "layers"@) {
        None => Some(Seq::empty()),
        Some(OptionView::LayerPackages(v)) => Some(v),
        Some(_) => None,
    }
}

/// The per-layer package policy of `cleanarch/no-forbidden-imports`.
pub struct ExternalPackagePolicy {
    pub layers: Vec<LayerPackageRule>,
}

impl ExternalPackagePolicy {
    pub fn from_rule_setting(setting: &RuleSetting) -> (r: Result<ExternalPackagePolicy, ConfigError>)
        ensures
            match r {
                Ok(p) => package_rules_result(setting@) == Some(package_rule_views(p.layers@)),
                Err(e) => package_rules_result(setting@) is None && e.rule == RuleId::NoForbiddenImports
                    && e.option@ == "layers"@,
            },
    {
        match setting.option("layers") {
            None => Ok(ExternalPackagePolicy { layers: Vec::new() }),
            Some(OptionValue::LayerPackages(v)) => Ok(ExternalPackagePolicy { layers: crate::settings::clone_package_rules(v) }),
            Some(_) => Err(ConfigError { rule: RuleId::NoForbiddenImports, option: "layers".to_owned() }),
        }
    }

    pub fn for_layer(&self, layer: &str) -> (r: (Severity, Vec<String>))
        ensures
            spec_layer_package_policy(package_rule_views(self.layers@), layer@) == (r.0, texts(r.1@)),
    {
        let ghost rv = package_rule_views(self.layers@);
        let mut i: usize = 0;
        assert(rv.skip(0) =~= rv);
        while i < self.layers.len()
            invariant
                i <= self.layers@.len(),
                rv == package_rule_views(self.layers@),
                spec_layer_package_policy(rv, layer@) == spec_layer_package_policy(rv.skip(i as int), layer@),
            decreases self.layers@.len() - i,
        {
            assert(rv.skip(i as int).skip(1) =~= rv.skip(i + 1));
            assert(rv.skip(i as int)[0] == self.layers@[i as int]@);
            if str_eq(self.layers[i].from_layer.as_str(), layer) {
                return (self.layers[i].severity, crate::text::clone_strings(&self.layers[i].allow));
            }
            i = i + 1;
        }
        let none: Vec<String> = Vec::new();
        assert(texts(none@) =~= Seq::<Seq<char>>::empty());
        (Severity::Off, none)
    }
}

} // verus!
