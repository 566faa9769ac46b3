//! The values that the rules read and produce: severities, rule identifiers,
//! import edges between project files, findings and per-rule settings.
//!
//! A project path is held as its project-relative components (`Vec<String>`);
//! its view is the sequence of the components' characters.
use vstd::prelude::*;
use crate::text::{clone_strings, texts};
use crate::paths::{is_source_file, spec_is_source_file};

verus! {

/// How strongly a rule reports its findings.
#[derive(Clone, Copy, Debug, PartialEq, Eq, Structural)]
pub enum Severity {
    Off,
    Warn,
    Error,
}

/// Every rule that can produce a finding.
#[derive(Clone, Copy, Debug, PartialEq, Eq, Structural)]
pub enum RuleId {
    NoLayerLeak,
    NoForbiddenImports,
    NoCrossContextInternalImport,
    NoFrameworkInCore,
    NoOuterDataFormatInCore,
    NoPublicSurfaceInternalReexport,
    NoContextCycle,
    NoUnownedSchemaImport,
    CleanArtifactPlacement,
    UnclassifiedFile,
    AmbiguousLayer,
    AmbiguousContext,
    VerticalNoCrossSliceInternalImport,
    VerticalNoGlobalSliceArtifacts,
    VerticalSliceEntryPoint,
    VerticalNoSharedLayerArtifacts,
    NoConcreteDependency,
    FeatureEnvy,
    ShotgunSurgery,
    TestPlacement,
    PathNaming,
    FeatureSystemLayout,
    FeatureSystemPublicApi,
    FeatureSystemDependencyFlow,
    FeatureSystemAdapterContract,
    FeatureSystemQueryContract,
    UnusedSuppression,
    InvalidSuppression,
}

/// Whether an import statement imports or re-exports.
#[derive(Clone, Copy, Debug, PartialEq, Eq, Structural)]
pub enum ImportKind {
    Import,
    ReExport,
}

/// Where an import specifier leads.
pub enum ImportResolution {
    /// A project file, by its components.
    Local(Vec<String>),
    /// A package outside the project.
    External,
    /// A relative specifier that names no project file.
    UnresolvedLocal,
}

/// One import statement of a project file.
pub struct ImportEdge {
    pub source: Vec<String>,
    pub specifier: String,
    pub kind: ImportKind,
    pub resolution: ImportResolution,
    pub line: usize,
    pub column: usize,
}

pub enum ResolutionView {
    Local(Seq<Seq<char>>),
    External,
    UnresolvedLocal,
}

pub struct EdgeView {
    pub source: Seq<Seq<char>>,
    pub specifier: Seq<char>,
    pub kind: ImportKind,
    pub resolution: ResolutionView,
    pub line: usize,
    pub column: usize,
}

impl View for ImportResolution {
    type V = ResolutionView;

    open spec fn view(&self) -> ResolutionView {
        match self {
            ImportResolution::Local(t) => ResolutionView::Local(texts(t@)),
            ImportResolution::External => ResolutionView::External,
            ImportResolution::UnresolvedLocal => ResolutionView::UnresolvedLocal,
        }
    }
}

impl View for ImportEdge {
    type V = EdgeView;

    open spec fn view(&self) -> EdgeView {
        EdgeView {
            source: texts(self.source@),
            specifier: self.specifier@,
            kind: self.kind,
            resolution: self.resolution@,
            line: self.line,
            column: self.column,
        }
    }
}

/// A finding of a rule. `details` holds the rule-specific values of the
/// finding (names, messages and suggestions) in a fixed order per rule, and
/// `counts` its rule-specific numbers.
pub struct Violation {
    pub rule: RuleId,
    pub file: Vec<String>,
    pub severity: Severity,
    pub line: Option<usize>,
    pub column: Option<usize>,
    pub specifier: Option<String>,
    pub target: Option<Vec<String>>,
    pub details: Vec<String>,
    pub counts: Vec<usize>,
    pub suppressed: bool,
    pub suppression_reason: Option<String>,
}

pub struct ViolationView {
    pub rule: RuleId,
    pub file: Seq<Seq<char>>,
    pub severity: Severity,
    pub line: Option<usize>,
    pub column: Option<usize>,
    pub specifier: Option<Seq<char>>,
    pub target: Option<Seq<Seq<char>>>,
    pub details: Seq<Seq<char>>,
    pub counts: Seq<usize>,
    pub suppressed: bool,
    pub suppression_reason: Option<Seq<char>>,
}

impl View for Violation {
    type V = ViolationView;

    open spec fn view(&self) -> ViolationView {
        ViolationView {
            rule: self.rule,
            file: texts(self.file@),
            severity: self.severity,
            line: self.line,
            column: self.column,
            specifier: match self.specifier {
                Some(s) => Some(s@),
                None => None,
            },
            target: match self.target {
                Some(t) => Some(texts(t@)),
                None => None,
            },
            details: texts(self.details@),
            counts: self.counts@,
            suppressed: self.suppressed,
            suppression_reason: match self.suppression_reason {
                Some(s) => Some(s@),
                None => None,
            },
        }
    }
}

/// Views of a sequence of findings.
pub open spec fn views(v: Seq<Violation>) -> Seq<ViolationView> {
    v.map_values(|x: Violation| x@)
}

/// Views of a sequence of paths.
pub open spec fn path_views(v: Seq<Vec<String>>) -> Seq<Seq<Seq<char>>> {
    v.map_values(|p: Vec<String>| texts(p@))
}

/// Views of a sequence of import edges.
pub open spec fn edge_views(v: Seq<ImportEdge>) -> Seq<EdgeView> {
    v.map_values(|e: ImportEdge| e@)
}

/// A finding that belongs to a file as a whole.
pub open spec fn file_finding(
    rule: RuleId,
    file: Seq<Seq<char>>,
    severity: Severity,
    details: Seq<Seq<char>>,
    counts: Seq<usize>,
) -> ViolationView {
    ViolationView {
        rule,
        file,
        severity,
        line: None,
        column: None,
        specifier: None,
        target: None,
        details,
        counts,
        suppressed: false,
        suppression_reason: None,
    }
}

/// A finding at an import statement.
pub open spec fn edge_finding(
    rule: RuleId,
    edge: EdgeView,
    target: Option<Seq<Seq<char>>>,
    severity: Severity,
    details: Seq<Seq<char>>,
    counts: Seq<usize>,
) -> ViolationView {
    ViolationView {
        rule,
        file: edge.source,
        severity,
        line: Some(edge.line),
        column: Some(edge.column),
        specifier: Some(edge.specifier),
        target,
        details,
        counts,
        suppressed: false,
        suppression_reason: None,
    }
}

/// A copy of a path.
pub fn clone_path(p: &Vec<String>) -> (r: Vec<String>)
    ensures
        texts(r@) == texts(p@),
{
    clone_strings(p)
}

/// Whether two paths are the same.
pub fn same_path(a: &Vec<String>, b: &Vec<String>) -> (r: bool)
    ensures
        r == (texts(a@) == texts(b@)),
{
    if a.len() != b.len() {
        assert(texts(a@).len() != texts(b@).len());
        return false;
    }
    let mut i: usize = 0;
    while i < a.len()
        invariant
            a@.len() == b@.len(),
            i <= a@.len(),
            forall|j: int| 0 <= j < i ==> a@[j]@ == b@[j]@,
        decreases a@.len() - i,
    {
        if a[i] != b[i] {
            assert(texts(a@)[i as int] != texts(b@)[i as int]);
            return false;
        }
        i = i + 1;
    }
    assert(texts(a@) =~= texts(b@));
    true
}

/// A finding for a whole file.
pub fn file_violation(
    rule: RuleId,
    file: &Vec<String>,
    severity: Severity,
    details: Vec<String>,
    counts: Vec<usize>,
) -> (v: Violation)
    ensures
        v@ == file_finding(rule, texts(file@), severity, texts(details@), counts@),
{
    Violation {
        rule,
        file: clone_path(file),
        severity,
        line: None,
        column: None,
        specifier: None,
        target: None,
        details,
        counts,
        suppressed: false,
        suppression_reason: None,
    }
}

/// A finding at an import statement, with the file it resolved to if any.
pub fn edge_violation(
    rule: RuleId,
    edge: &ImportEdge,
    target: Option<&Vec<String>>,
    severity: Severity,
    details: Vec<String>,
    counts: Vec<usize>,
) -> (v: Violation)
    ensures
        v@ == edge_finding(
            rule,
            edge@,
            match target {
                Some(t) => Some(texts(t@)),
                None => None,
            },
            severity,
            texts(details@),
            counts@,
        ),
{
    let target = match target {
        Some(t) => Some(clone_path(t)),
        None => None,
    };
    Violation {
        rule,
        file: clone_path(&edge.source),
        severity,
        line: Some(edge.line),
        column: Some(edge.column),
        specifier: Some(edge.specifier.clone()),
        target,
        details,
        counts,
        suppressed: false,
        suppression_reason: None,
    }
}

/// Why a rule could not be checked: an option of the wrong shape, or the
/// text of a file the rule reads was not supplied.
pub enum CheckError {
    Config(crate::settings::ConfigError),
    MissingSource(Vec<String>),
    /// A source file that does not parse, with the parser's message.
    ParseSource(Vec<String>, String),
}

/// A check that could not be completed, as a value: the rule and option
/// whose value has the wrong shape, or the file whose text is missing.
pub enum FailureView {
    Config(RuleId, Seq<char>),
    MissingSource(Seq<Seq<char>>),
    ParseSource(Seq<Seq<char>>, Seq<char>),
}

/// What a check returned: its findings, or why it failed.
pub open spec fn outcome(r: Result<Vec<Violation>, CheckError>) -> Result<Seq<ViolationView>, FailureView> {
    match r {
        Ok(v) => Ok(views(v@)),
        Err(CheckError::Config(e)) => Err(FailureView::Config(e.rule, e.option@)),
        Err(CheckError::MissingSource(f)) => Err(FailureView::MissingSource(texts(f@))),
        Err(CheckError::ParseSource(f, m)) => Err(FailureView::ParseSource(texts(f@), m@)),
    }
}

/// The text of one project file.
pub struct SourceText {
    pub file: Vec<String>,
    pub text: String,
}

pub open spec fn source_views(v: Seq<SourceText>) -> Seq<(Seq<Seq<char>>, Seq<char>)> {
    v.map_values(|s: SourceText| (texts(s.file@), s.text@))
}

/// The text of the first entry for `file`.
pub open spec fn source_of(sources: Seq<(Seq<Seq<char>>, Seq<char>)>, file: Seq<Seq<char>>) -> Option<Seq<char>>
    decreases sources.len(),
{
    if sources.len() == 0 {
        None
    } else if sources[0].0 == file {
        Some(sources[0].1)
    } else {
        source_of(sources.subrange(1, sources.len() as int), file)
    }
}

/// The text of `file`, if it was supplied.
pub fn find_source<'a>(sources: &'a Vec<SourceText>, file: &Vec<String>) -> (r: Option<&'a String>)
    ensures
        match r {
            Some(t) => source_of(source_views(sources@), texts(file@)) == Some(t@),
            None => source_of(source_views(sources@), texts(file@)) is None,
        },
{
    let ghost sv = source_views(sources@);
    let mut i: usize = 0;
    assert(sv.subrange(0, sv.len() as int) =~= sv);
    while i < sources.len()
        invariant
            i <= sources@.len(),
            sv == source_views(sources@),
            source_of(sv, texts(file@)) == source_of(sv.subrange(i as int, sv.len() as int), texts(file@)),
        decreases sources@.len() - i,
    {
        let ghost rest = sv.subrange(i as int, sv.len() as int);
        assert(rest.subrange(1, rest.len() as int) =~= sv.subrange(i + 1, sv.len() as int));
        if same_path(&sources[i].file, file) {
            return Some(&sources[i].text);
        }
        i = i + 1;
    }
    None
}

/// Whether `file` is one of `files`.
pub fn contains_path(files: &Vec<Vec<String>>, file: &Vec<String>) -> (r: bool)
    ensures
        r == path_views(files@).contains(texts(file@)),
{
    let mut i: usize = 0;
    while i < files.len()
        invariant
            i <= files@.len(),
            forall|j: int| 0 <= j < i ==> texts(files@[j]@) != texts(file@),
        decreases files@.len() - i,
    {
        if same_path(&files[i], file) {
            assert(path_views(files@)[i as int] == texts(file@));
            return true;
        }
        i = i + 1;
    }
    assert(!path_views(files@).contains(texts(file@))) by {
        if path_views(files@).contains(texts(file@)) {
            let j = choose|j: int| 0 <= j < path_views(files@).len() && path_views(files@)[j] == texts(file@);
            assert(texts(files@[j]@) == texts(file@));
        }
    }
    false
}

/// The text the rules read for `f`: that of a listed source file.
pub open spec fn known_text(
    files: Seq<Seq<Seq<char>>>,
    sources: Seq<(Seq<Seq<char>>, Seq<char>)>,
    f: Seq<Seq<char>>,
) -> Option<Seq<char>> {
    if files.contains(f) && spec_is_source_file(f) {
        source_of(sources, f)
    } else {
        None
    }
}

/// The text the rules read for `f`, or nothing.
pub open spec fn text_or_empty(
    files: Seq<Seq<Seq<char>>>,
    sources: Seq<(Seq<Seq<char>>, Seq<char>)>,
    f: Seq<Seq<char>>,
) -> Seq<char> {
    match known_text(files, sources, f) {
        Some(t) => t,
        None => Seq::empty(),
    }
}

/// The first listed source file whose text is missing.
pub open spec fn first_missing_source(
    files: Seq<Seq<Seq<char>>>,
    sources: Seq<(Seq<Seq<char>>, Seq<char>)>,
) -> Option<Seq<Seq<char>>>
    decreases files.len(),
{
    if files.len() == 0 {
        None
    } else if spec_is_source_file(files[0]) && source_of(sources, files[0]) is None {
        Some(files[0])
    } else {
        first_missing_source(files.skip(1), sources)
    }
}

pub fn known_source<'a>(files: &Vec<Vec<String>>, sources: &'a Vec<SourceText>, file: &Vec<String>) -> (r: Option<
    &'a String,
>)
    ensures
        match r {
            Some(t) => known_text(path_views(files@), source_views(sources@), texts(file@)) == Some(t@),
            None => known_text(path_views(files@), source_views(sources@), texts(file@)) is None,
        },
{
    if contains_path(files, file) && is_source_file(file) {
        find_source(sources, file)
    } else {
        None
    }
}

pub fn missing_source(files: &Vec<Vec<String>>, sources: &Vec<SourceText>) -> (r: Option<Vec<String>>)
    ensures
        match r {
            Some(f) => first_missing_source(path_views(files@), source_views(sources@)) == Some(texts(f@)),
            None => first_missing_source(path_views(files@), source_views(sources@)) is None,
        },
{
    let ghost fv = path_views(files@);
    let ghost sv = source_views(sources@);
    let mut i: usize = 0;
    assert(fv.skip(0) =~= fv);
    while i < files.len()
        invariant
            i <= files@.len(),
            fv == path_views(files@),
            sv == source_views(sources@),
            first_missing_source(fv, sv) == first_missing_source(fv.skip(i as int), sv),
        decreases files@.len() - i,
    {
        assert(fv.skip(i as int).skip(1) =~= fv.skip(i + 1));
        assert(fv.skip(i as int)[0] == texts(files@[i as int]@));
        if is_source_file(&files[i]) {
            match find_source(sources, &files[i]) {
                None => return Some(clone_path(&files[i])),
                Some(_) => {},
            }
        }
        i = i + 1;
    }
    None
}

/// A finding at a line and column of a file.
pub open spec fn located_finding(
    rule: RuleId,
    file: Seq<Seq<char>>,
    severity: Severity,
    line: usize,
    column: usize,
    details: Seq<Seq<char>>,
) -> ViolationView {
    ViolationView {
        rule,
        file,
        severity,
        line: Some(line),
        column: Some(column),
        specifier: None,
        target: None,
        details,
        counts: Seq::empty(),
        suppressed: false,
        suppression_reason: None,
    }
}

pub fn located_violation(
    rule: RuleId,
    file: &Vec<String>,
    severity: Severity,
    line: usize,
    column: usize,
    details: Vec<String>,
) -> (v: Violation)
    ensures
        v@ == located_finding(rule, texts(file@), severity, line, column, texts(details@)),
{
    let v = Violation {
        rule,
        file: clone_path(file),
        severity,
        line: Some(line),
        column: Some(column),
        specifier: None,
        target: None,
        details,
        counts: Vec::new(),
        suppressed: false,
        suppression_reason: None,
    };
    assert(v@.counts =~= Seq::<usize>::empty());
    v
}

/// A copy of a finding.
pub fn copy_violation(v: &Violation) -> (r: Violation)
    ensures
        r@ == v@,
{
    let r = Violation {
        rule: v.rule,
        file: clone_path(&v.file),
        severity: v.severity,
        line: v.line,
        column: v.column,
        specifier: match &v.specifier {
            Some(s) => Some(s.clone()),
            None => None,
        },
        target: match &v.target {
            Some(t) => Some(clone_path(t)),
            None => None,
        },
        details: clone_strings(&v.details),
        counts: v.counts.clone(),
        suppressed: v.suppressed,
        suppression_reason: match &v.suppression_reason {
            Some(s) => Some(s.clone()),
            None => None,
        },
    };
    assert(r@.counts =~= v@.counts);
    r
}

} // verus!
