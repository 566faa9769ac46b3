//! Per-rule settings: a severity plus named options, the project's rule
//! policy (base settings and per-file overrides), and typed option lookup
//! with defaults.
use vstd::prelude::*;
use crate::text::{clone_strings, str_eq, texts};
use crate::model::{path_views, same_path, RuleId, Severity};
use crate::catalog::{default_rule_severity_of, spec_default_severity};

verus! {

/// A list of strings under a name (one entry of a map-shaped option).
pub struct NamedTexts {
    pub name: String,
    pub values: Vec<String>,
}

impl View for NamedTexts {
    type V = (Seq<char>, Seq<Seq<char>>);

    open spec fn view(&self) -> (Seq<char>, Seq<Seq<char>>) {
        (self.name@, texts(self.values@))
    }
}

pub open spec fn named_views(v: Seq<NamedTexts>) -> Seq<(Seq<char>, Seq<Seq<char>>)> {
    v.map_values(|n: NamedTexts| n@)
}

/// One entry of the `layers` option of `cleanarch/no-forbidden-imports`.
pub struct LayerPackageRule {
    pub from_layer: String,
    pub severity: Severity,
    pub allow: Vec<String>,
}

impl View for LayerPackageRule {
    type V = (Seq<char>, Severity, Seq<Seq<char>>);

    open spec fn view(&self) -> (Seq<char>, Severity, Seq<Seq<char>>) {
        (self.from_layer@, self.severity, texts(self.allow@))
    }
}

pub open spec fn package_rule_views(v: Seq<LayerPackageRule>) -> Seq<(Seq<char>, Severity, Seq<Seq<char>>)> {
    v.map_values(|r: LayerPackageRule| r@)
}

/// The value of a rule option as it was written in the configuration.
pub enum OptionValue {
    Text(String),
    Texts(Vec<String>),
    Flag(bool),
    Count(usize),
    TextLists(Vec<NamedTexts>),
    LayerPackages(Vec<LayerPackageRule>),
    /// Any value of another shape.
    Other,
}

pub enum OptionView {
    Text(Seq<char>),
    Texts(Seq<Seq<char>>),
    Flag(bool),
    Count(usize),
    TextLists(Seq<(Seq<char>, Seq<Seq<char>>)>),
    LayerPackages(Seq<(Seq<char>, Severity, Seq<Seq<char>>)>),
    Other,
}

impl View for OptionValue {
    type V = OptionView;

    open spec fn view(&self) -> OptionView {
        match self {
            OptionValue::Text(s) => OptionView::Text(s@),
            OptionValue::Texts(v) => OptionView::Texts(texts(v@)),
            OptionValue::Flag(b) => OptionView::Flag(*b),
            OptionValue::Count(n) => OptionView::Count(*n),
            OptionValue::TextLists(v) => OptionView::TextLists(named_views(v@)),
            OptionValue::LayerPackages(v) => OptionView::LayerPackages(package_rule_views(v@)),
            OptionValue::Other => OptionView::Other,
        }
    }
}

pub struct NamedOption {
    pub name: String,
    pub value: OptionValue,
}

impl View for NamedOption {
    type V = (Seq<char>, OptionView);

    open spec fn view(&self) -> (Seq<char>, OptionView) {
        (self.name@, self.value@)
    }
}

/// The effective setting of one rule for one file.
pub struct RuleSetting {
    pub severity: Severity,
    pub options: Vec<NamedOption>,
}

pub struct SettingView {
    pub severity: Severity,
    pub options: Seq<(Seq<char>, OptionView)>,
}

impl View for RuleSetting {
    type V = SettingView;

    open spec fn view(&self) -> SettingView {
        SettingView { severity: self.severity, options: self.options@.map_values(|o: NamedOption| o@) }
    }
}

/// A rule option holds a value of the wrong shape.
pub struct ConfigError {
    pub rule: RuleId,
    pub option: String,
}

/// The first option of the given name.
pub open spec fn find_option(opts: Seq<(Seq<char>, OptionView)>, name: Seq<char>) -> Option<OptionView>
    decreases opts.len(),
{
    if opts.len() == 0 {
        None
    } else if opts[0].0 == name {
        Some(opts[0].1)
    } else {
        find_option(opts.subrange(1, opts.len() as int), name)
    }
}

pub open spec fn str_views(v: Seq<&str>) -> Seq<Seq<char>> {
    v.map_values(|s: &str| s@)
}

/// What a list-of-strings option reads as: the default when it is absent,
/// its strings when it is a list, and an error otherwise.
pub open spec fn texts_option_result(
    s: SettingView,
    name: Seq<char>,
    default: Seq<Seq<char>>,
) -> Option<Seq<Seq<char>>> {
    match find_option(s.options, name) {
        None => Some(default),
        Some(OptionView::Texts(v)) => Some(v),
        Some(_) => None,
    }
}

pub open spec fn text_option_result(s: SettingView, name: Seq<char>, default: Seq<char>) -> Option<Seq<char>> {
    match find_option(s.options, name) {
        None => Some(default),
        Some(OptionView::Text(v)) => Some(v),
        Some(_) => None,
    }
}

pub open spec fn flag_option_result(s: SettingView, name: Seq<char>, default: bool) -> Option<bool> {
    match find_option(s.options, name) {
        None => Some(default),
        Some(OptionView::Flag(v)) => Some(v),
        Some(_) => None,
    }
}

pub open spec fn count_option_result(s: SettingView, name: Seq<char>, default: usize) -> Option<usize> {
    match find_option(s.options, name) {
        None => Some(default),
        Some(OptionView::Count(v)) => Some(v),
        Some(_) => None,
    }
}

pub open spec fn lists_option_result(
    s: SettingView,
    name: Seq<char>,
    default: Seq<(Seq<char>, Seq<Seq<char>>)>,
) -> Option<Seq<(Seq<char>, Seq<Seq<char>>)>> {
    match find_option(s.options, name) {
        None => Some(default),
        Some(OptionView::TextLists(v)) => Some(v),
        Some(_) => None,
    }
}

/// Owned strings from string slices.
pub fn strings_from(v: &[&str]) -> (r: Vec<String>)
    ensures
        texts(r@) == str_views(v@),
{
    let mut out: Vec<String> = Vec::new();
    let mut i: usize = 0;
    while i < v.len()
        invariant
            i <= v@.len(),
            out@.len() == i,
            forall|j: int| 0 <= j < i ==> out@[j]@ == v@[j]@,
        decreases v@.len() - i,
    {
        out.push(v[i].to_owned());
        i = i + 1;
    }
    assert(texts(out@) =~= str_views(v@));
    out
}

pub fn clone_named(v: &Vec<NamedTexts>) -> (r: Vec<NamedTexts>)
    ensures
        named_views(r@) == named_views(v@),
{
    let mut out: Vec<NamedTexts> = Vec::new();
    let mut i: usize = 0;
    while i < v.len()
        invariant
            i <= v@.len(),
            out@.len() == i,
            forall|j: int| 0 <= j < i ==> out@[j]@ == v@[j]@,
        decreases v@.len() - i,
    {
        out.push(NamedTexts { name: v[i].name.clone(), values: clone_strings(&v[i].values) });
        i = i + 1;
    }
    assert(named_views(out@) =~= named_views(v@));
    out
}

pub fn clone_package_rules(v: &Vec<LayerPackageRule>) -> (r: Vec<LayerPackageRule>)
    ensures
        package_rule_views(r@) == package_rule_views(v@),
{
    let mut out: Vec<LayerPackageRule> = Vec::new();
    let mut i: usize = 0;
    while i < v.len()
        invariant
            i <= v@.len(),
            out@.len() == i,
            forall|j: int| 0 <= j < i ==> out@[j]@ == v@[j]@,
        decreases v@.len() - i,
    {
        out.push(LayerPackageRule {
            from_layer: v[i].from_layer.clone(),
            severity: v[i].severity,
            allow: clone_strings(&v[i].allow),
        });
        i = i + 1;
    }
    assert(package_rule_views(out@) =~= package_rule_views(v@));
    out
}

impl OptionValue {
    pub fn copy(&self) -> (r: OptionValue)
        ensures
            r@ == self@,
    {
        match self {
            OptionValue::Text(s) => OptionValue::Text(s.clone()),
            OptionValue::Texts(v) => OptionValue::Texts(clone_strings(v)),
            OptionValue::Flag(b) => OptionValue::Flag(*b),
            OptionValue::Count(n) => OptionValue::Count(*n),
            OptionValue::TextLists(v) => OptionValue::TextLists(clone_named(v)),
            OptionValue::LayerPackages(v) => OptionValue::LayerPackages(clone_package_rules(v)),
            OptionValue::Other => OptionValue::Other,
        }
    }
}

impl RuleSetting {
    pub fn copy(&self) -> (r: RuleSetting)
        ensures
            r@ == self@,
    {
        let mut options: Vec<NamedOption> = Vec::new();
        let mut i: usize = 0;
        while i < self.options.len()
            invariant
                i <= self.options@.len(),
                options@.len() == i,
                forall|j: int| 0 <= j < i ==> options@[j]@ == self.options@[j]@,
            decreases self.options@.len() - i,
        {
            let o = &self.options[i];
            options.push(NamedOption { name: o.name.clone(), value: o.value.copy() });
            i = i + 1;
        }
        assert(options@.map_values(|o: NamedOption| o@) =~= self@.options);
        RuleSetting { severity: self.severity, options }
    }

    /// The option of the given name, if the setting has one.
    pub fn option(&self, name: &str) -> (r: Option<&OptionValue>)
        ensures
            match r {
                Some(v) => find_option(self@.options, name@) == Some(v@),
                None => find_option(self@.options, name@) is None,
            },
    {
        let mut i: usize = 0;
        assert(self@.options.subrange(0, self@.options.len() as int) =~= self@.options);
        while i < self.options.len()
            invariant
                i <= self.options@.len(),
                find_option(self@.options, name@) == find_option(
                    self@.options.subrange(i as int, self@.options.len() as int),
                    name@,
                ),
            decreases self.options@.len() - i,
        {
            let ghost rest = self@.options.subrange(i as int, self@.options.len() as int);
            assert(rest.subrange(1, rest.len() as int) =~= self@.options.subrange(
                i + 1,
                self@.options.len() as int,
            ));
            if str_eq(self.options[i].name.as_str(), name) {
                return Some(&self.options[i].value);
            }
            i = i + 1;
        }
        None
    }
}

/// A list-of-strings option, or `default` when the setting does not name it.
pub fn string_vec_option(rule: RuleId, setting: &RuleSetting, name: &str, default: &[&str]) -> (r:
    Result<Vec<String>, ConfigError>)
    ensures
        match r {
            Ok(v) => texts_option_result(setting@, name@, str_views(default@)) == Some(texts(v@)),
            Err(e) => texts_option_result(setting@, name@, str_views(default@)) is None && e.rule
                == rule && e.option@ == name@,
        },
{
    match setting.option(name) {
        None => Ok(strings_from(default)),
        Some(OptionValue::Texts(v)) => Ok(clone_strings(v)),
        Some(_) => Err(ConfigError { rule, option: name.to_owned() }),
    }
}

/// A set-of-strings option: the same reading as [`string_vec_option`]; callers
/// only ask whether it holds a string.
pub fn string_set_option(rule: RuleId, setting: &RuleSetting, name: &str, default: &[&str]) -> (r:
    Result<Vec<String>, ConfigError>)
    ensures
        match r {
            Ok(v) => texts_option_result(setting@, name@, str_views(default@)) == Some(texts(v@)),
            Err(e) => texts_option_result(setting@, name@, str_views(default@)) is None && e.rule
                == rule && e.option@ == name@,
        },
{
    string_vec_option(rule, setting, name, default)
}

pub fn string_option(rule: RuleId, setting: &RuleSetting, name: &str, default: &str) -> (r: Result<
    String,
    ConfigError,
>)
    ensures
        match r {
            Ok(v) => text_option_result(setting@, name@, default@) == Some(v@),
            Err(e) => text_option_result(setting@, name@, default@) is None && e.rule == rule
                && e.option@ == name@,
        },
{
    match setting.option(name) {
        None => Ok(default.to_owned()),
        Some(OptionValue::Text(v)) => Ok(v.clone()),
        Some(_) => Err(ConfigError { rule, option: name.to_owned() }),
    }
}

pub fn bool_option(rule: RuleId, setting: &RuleSetting, name: &str, default: bool) -> (r: Result<
    bool,
    ConfigError,
>)
    ensures
        match r {
            Ok(v) => flag_option_result(setting@, name@, default) == Some(v),
            Err(e) => flag_option_result(setting@, name@, default) is None && e.rule == rule
                && e.option@ == name@,
        },
{
    match setting.option(name) {
        None => Ok(default),
        Some(OptionValue::Flag(v)) => Ok(*v),
        Some(_) => Err(ConfigError { rule, option: name.to_owned() }),
    }
}

pub fn usize_option(rule: RuleId, setting: &RuleSetting, name: &str, default: usize) -> (r: Result<
    usize,
    ConfigError,
>)
    ensures
        match r {
            Ok(v) => count_option_result(setting@, name@, default) == Some(v),
            Err(e) => count_option_result(setting@, name@, default) is None && e.rule == rule
                && e.option@ == name@,
        },
{
    match setting.option(name) {
        None => Ok(default),
        Some(OptionValue::Count(v)) => Ok(*v),
        Some(_) => Err(ConfigError { rule, option: name.to_owned() }),
    }
}

/// A map-shaped option (name to list of strings), or `default`.
pub fn string_lists_option(
    rule: RuleId,
    setting: &RuleSetting,
    name: &str,
    default: Vec<NamedTexts>,
) -> (r: Result<Vec<NamedTexts>, ConfigError>)
    ensures
        match r {
            Ok(v) => lists_option_result(setting@, name@, named_views(default@)) == Some(
                named_views(v@),
            ),
            Err(e) => lists_option_result(setting@, name@, named_views(default@)) is None
                && e.rule == rule && e.option@ == name@,
        },
{
    match setting.option(name) {
        None => Ok(default),
        Some(OptionValue::TextLists(v)) => Ok(clone_named(v)),
        Some(_) => Err(ConfigError { rule, option: name.to_owned() }),
    }
}

/// The setting that the configuration gives a rule.
pub struct RuleEntry {
    pub rule: RuleId,
    pub setting: RuleSetting,
}

/// Settings that apply to the listed files only.
pub struct RuleOverride {
    pub files: Vec<Vec<String>>,
    pub rules: Vec<RuleEntry>,
}

/// The configured settings of the rules: base settings, then overrides in
/// order, a later matching override replacing an earlier setting.
pub struct RulePolicy {
    pub rules: Vec<RuleEntry>,
    pub overrides: Vec<RuleOverride>,
}

pub open spec fn entry_views(v: Seq<RuleEntry>) -> Seq<(RuleId, SettingView)> {
    v.map_values(|e: RuleEntry| (e.rule, e.setting@))
}

/// The first setting of `rule` in a list of entries.
pub open spec fn find_entry(entries: Seq<(RuleId, SettingView)>, rule: RuleId) -> Option<SettingView>
    decreases entries.len(),
{
    if entries.len() == 0 {
        None
    } else if entries[0].0 == rule {
        Some(entries[0].1)
    } else {
        find_entry(entries.subrange(1, entries.len() as int), rule)
    }
}

pub open spec fn default_setting(rule: RuleId) -> SettingView {
    SettingView { severity: spec_default_severity(rule), options: Seq::empty() }
}

/// The setting of `rule` for `file` after the first `n` overrides.
pub open spec fn effective_after(p: RulePolicy, rule: RuleId, file: Seq<Seq<char>>, n: int) -> SettingView
    decreases n,
{
    if n <= 0 {
        match find_entry(entry_views(p.rules@), rule) {
            Some(s) => s,
            None => default_setting(rule),
        }
    } else {
        let o = p.overrides@[n - 1];
        if path_views(o.files@).contains(file) && find_entry(entry_views(o.rules@), rule) is Some {
            find_entry(entry_views(o.rules@), rule)->0
        } else {
            effective_after(p, rule, file, n - 1)
        }
    }
}

/// The setting of `rule` that applies to `file`.
pub open spec fn spec_effective(p: RulePolicy, rule: RuleId, file: Seq<Seq<char>>) -> SettingView {
    effective_after(p, rule, file, p.overrides@.len() as int)
}

fn find_rule_entry(entries: &Vec<RuleEntry>, rule: RuleId) -> (r: Option<&RuleSetting>)
    ensures
        match r {
            Some(s) => find_entry(entry_views(entries@), rule) == Some(s@),
            None => find_entry(entry_views(entries@), rule) is None,
        },
{
    let mut i: usize = 0;
    assert(entry_views(entries@).subrange(0, entries@.len() as int) =~= entry_views(entries@));
    while i < entries.len()
        invariant
            i <= entries@.len(),
            find_entry(entry_views(entries@), rule) == find_entry(
                entry_views(entries@).subrange(i as int, entries@.len() as int),
                rule,
            ),
        decreases entries@.len() - i,
    {
        let ghost rest = entry_views(entries@).subrange(i as int, entries@.len() as int);
        assert(rest.subrange(1, rest.len() as int) =~= entry_views(entries@).subrange(
            i + 1,
            entries@.len() as int,
        ));
        if entries[i].rule == rule {
            return Some(&entries[i].setting);
        }
        i = i + 1;
    }
    None
}

fn has_path(paths: &Vec<Vec<String>>, file: &Vec<String>) -> (r: bool)
    ensures
        r == path_views(paths@).contains(texts(file@)),
{
    let mut i: usize = 0;
    while i < paths.len()
        invariant
            i <= paths@.len(),
            forall|j: int| 0 <= j < i ==> texts(paths@[j]@) != texts(file@),
        decreases paths@.len() - i,
    {
        if same_path(&paths[i], file) {
            assert(path_views(paths@)[i as int] == texts(file@));
            return true;
        }
        i = i + 1;
    }
    assert(!path_views(paths@).contains(texts(file@))) by {
        if path_views(paths@).contains(texts(file@)) {
            let j = choose|j: int|
                0 <= j < path_views(paths@).len() && path_views(paths@)[j] == texts(file@);
            assert(texts(paths@[j]@) == texts(file@));
        }
    }
    false
}

impl RulePolicy {
    /// The setting of `rule` that applies to `file`.
    pub fn effective_rule(&self, rule: RuleId, file: &Vec<String>) -> (r: RuleSetting)
        ensures
            r@ == spec_effective(*self, rule, texts(file@)),
    {
        let mut current: RuleSetting = match find_rule_entry(&self.rules, rule) {
            Some(s) => s.copy(),
            None => RuleSetting { severity: default_rule_severity_of(rule), options: Vec::new() },
        };
        assert(current@ == effective_after(*self, rule, texts(file@), 0)) by {
            assert(current@.options =~= Seq::<(Seq<char>, OptionView)>::empty()
                || find_entry(entry_views(self.rules@), rule) is Some);
        }
        let mut i: usize = 0;
        while i < self.overrides.len()
            invariant
                i <= self.overrides@.len(),
                current@ == effective_after(*self, rule, texts(file@), i as int),
            decreases self.overrides@.len() - i,
        {
            let o = &self.overrides[i];
            if has_path(&o.files, file) {
                match find_rule_entry(&o.rules, rule) {
                    Some(s) => {
                        current = s.copy();
                    },
                    None => {},
                }
            }
            i = i + 1;
        }
        current
    }

    /// The severity of `rule` for `file`.
    pub fn effective_severity(&self, rule: RuleId, file: &Vec<String>) -> (r: Severity)
        ensures
            r == spec_effective(*self, rule, texts(file@)).severity,
    {
        let s = self.effective_rule(rule, file);
        s.severity
    }
}

/// The values under the first entry named `key`.
pub open spec fn lookup(m: Seq<(Seq<char>, Seq<Seq<char>>)>, key: Seq<char>) -> Option<Seq<Seq<char>>>
    decreases m.len(),
{
    if m.len() == 0 {
        None
    } else if m[0].0 == key {
        Some(m[0].1)
    } else {
        lookup(m.subrange(1, m.len() as int), key)
    }
}

/// The first entry named `key`.
pub fn find_named<'a>(m: &'a Vec<NamedTexts>, key: &str) -> (r: Option<&'a NamedTexts>)
    ensures
        match r {
            Some(e) => lookup(named_views(m@), key@) == Some(texts(e.values@)) && e.name@ == key@,
            None => lookup(named_views(m@), key@) is None,
        },
{
    let ghost mv = named_views(m@);
    let mut i: usize = 0;
    assert(mv.subrange(0, mv.len() as int) =~= mv);
    while i < m.len()
        invariant
            i <= m@.len(),
            mv == named_views(m@),
            lookup(mv, key@) == lookup(mv.subrange(i as int, mv.len() as int), key@),
        decreases m@.len() - i,
    {
        let ghost rest = mv.subrange(i as int, mv.len() as int);
        assert(rest.subrange(1, rest.len() as int) =~= mv.subrange(i + 1, mv.len() as int));
        if str_eq(m[i].name.as_str(), key) {
            return Some(&m[i]);
        }
        i = i + 1;
    }
    None
}

/// Whether an entry is named `key`.
pub fn has_named(m: &Vec<NamedTexts>, key: &str) -> (r: bool)
    ensures
        r == lookup(named_views(m@), key@) is Some,
{
    match find_named(m, key) {
        Some(_) => true,
        None => false,
    }
}


/// The setting of `rule` for the first file where the rule is not off.
pub open spec fn first_active(p: RulePolicy, rule: RuleId, files: Seq<Seq<Seq<char>>>) -> Option<SettingView>
    decreases files.len(),
{
    if files.len() == 0 {
        None
    } else if spec_effective(p, rule, files[0]).severity != Severity::Off {
        Some(spec_effective(p, rule, files[0]))
    } else {
        first_active(p, rule, files.skip(1))
    }
}

/// The setting that `first_active` finds has the rule on.
pub proof fn lemma_first_active_on(p: RulePolicy, rule: RuleId, files: Seq<Seq<Seq<char>>>)
    ensures
        first_active(p, rule, files) matches Some(s) ==> s.severity != Severity::Off,
    decreases files.len(),
{
    if files.len() > 0 && spec_effective(p, rule, files[0]).severity == Severity::Off {
        lemma_first_active_on(p, rule, files.skip(1));
    }
}

/// The setting of `rule` for the first file where the rule is not off, if any.
pub fn first_active_setting(policy: &RulePolicy, rule: RuleId, files: &Vec<Vec<String>>) -> (r: Option<
    RuleSetting,
>)
    ensures
        match r {
            Some(s) => first_active(*policy, rule, path_views(files@)) == Some(s@),
            None => first_active(*policy, rule, path_views(files@)) is None,
        },
{
    let ghost fv = path_views(files@);
    let mut i: usize = 0;
    assert(fv.skip(0) =~= fv);
    while i < files.len()
        invariant
            i <= files@.len(),
            fv == path_views(files@),
            first_active(*policy, rule, fv) == first_active(*policy, rule, fv.skip(i as int)),
        decreases files@.len() - i,
    {
        assert(fv.skip(i as int).skip(1) =~= fv.skip(i + 1));
        assert(fv.skip(i as int)[0] == texts(files@[i as int]@));
        let s = policy.effective_rule(rule, &files[i]);
        if s.severity != Severity::Off {
            return Some(s);
        }
        i = i + 1;
    }
    None
}

} // verus!
