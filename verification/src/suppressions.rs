//! Inline suppressions: a line comment
//! `// onioncry-disable-next-line <rule>[, <rule>...] -- <reason>` marks the
//! findings of those rules on the next line as suppressed. Malformed
//! comments and suppressions that suppress nothing are reported.
use vstd::prelude::*;
use crate::text::{chars_of, concat, contains_text, has_prefix, join, join_with, occurs_at, occurs_at_exec, str_eq, string_of, texts};
use crate::paths::{is_source_file, spec_is_source_file, split_all, split_chars, lemma_split_all_nonempty};
use crate::code_smells::{is_white_space, is_white_space_char, trim, trim_chars, trim_start};
use crate::catalog::{canonical_rule_name, rule_for_name, spec_rule_for_name, spec_rule_name};
use crate::closest::{closest_rule_names, spec_closest};
use crate::tsconfig::{debug_quote, debug_text};
use crate::model::{
    clone_path, find_source, outcome, path_views, same_path, source_of, source_views, views,
    CheckError, FailureView, RuleId, Severity, SourceText, Violation, ViolationView,
};
use crate::settings::{spec_effective, RulePolicy};

verus! {

/// A comment as the parser reports it: whether it is a line comment, the
/// byte offsets of its text (without the delimiters), and the byte offset
/// where it starts.
pub struct CommentSpan {
    pub is_line: bool,
    pub content_start: usize,
    pub content_end: usize,
    pub start: usize,
}

pub open spec fn comment_views(v: Seq<CommentSpan>) -> Seq<(bool, usize, usize, usize)> {
    v.map_values(|c: CommentSpan| (c.is_line, c.content_start, c.content_end, c.start))
}

/// What the parser gives for a file (by name) and its text: the comments,
/// or the parse failure with the parser's first error message, if any.
pub uninterp spec fn parsed_comments(file_name: Seq<char>, source: Seq<char>) -> Result<
    Seq<(bool, usize, usize, usize)>,
    Option<Seq<char>>,
>;

pub open spec fn parse_outcome(r: Result<Vec<CommentSpan>, Option<String>>) -> Result<
    Seq<(bool, usize, usize, usize)>,
    Option<Seq<char>>,
> {
    match r {
        Ok(v) => Ok(comment_views(v@)),
        Err(Some(m)) => Err(Some(m@)),
        Err(None) => Err(None),
    }
}

/// oxc: `SourceType::from_path` for the file name, then `Parser::parse` on
/// the text. The comments of a parse without errors, as spans; otherwise the
/// message of the extension error or of the first syntax error (none when
/// the parser stopped without one). The result is named, not stated.
#[verifier::external_body]
fn parse_comments(file_name: &str, source: &str) -> (r: Result<Vec<CommentSpan>, Option<String>>)
    ensures
        parse_outcome(r) == parsed_comments(file_name@, source@),
{
    let source_type = oxc_span::SourceType::from_path(file_name).map_err(|e| Some(e.to_string()))?;
    let allocator = oxc_allocator::Allocator::default();
    let parsed = oxc_parser::Parser::new(&allocator, source, source_type).parse();
    if parsed.panicked || parsed.diagnostics.has_errors() {
        return Err(parsed.diagnostics.errors().next().map(|e| e.to_string()));
    }
    Ok(parsed.program.comments.iter().map(|c| CommentSpan {
        is_line: c.is_line(),
        content_start: c.content_span().start as usize,
        content_end: c.content_span().end as usize,
        start: c.span.start as usize,
    }).collect())
}

/// The number of bytes of a character in UTF-8.
pub open spec fn char_width(c: char) -> int {
    if (c as u32) < 0x80 {
        1
    } else if (c as u32) < 0x800 {
        2
    } else if (c as u32) < 0x10000 {
        3
    } else {
        4
    }
}

/// The index of the character that starts at byte offset `b` of the
/// UTF-8 encoding of `s` (the length when `b` is the end), if a character
/// starts there.
pub open spec fn char_offset(s: Seq<char>, b: int) -> Option<int>
    decreases s.len(),
{
    if b == 0 {
        Some(0)
    } else if s.len() == 0 || b < 0 {
        None
    } else {
        match char_offset(s.skip(1), b - char_width(s[0])) {
            Some(k) => Some(k + 1),
            None => None,
        }
    }
}

pub open spec fn shifted(o: Option<int>, by: int) -> Option<int> {
    match o {
        Some(k) => Some(k + by),
        None => None,
    }
}

fn char_width_of(c: char) -> (r: usize)
    ensures
        r == char_width(c),
{
    if (c as u32) < 0x80 {
        1
    } else if (c as u32) < 0x800 {
        2
    } else if (c as u32) < 0x10000 {
        3
    } else {
        4
    }
}

pub fn char_index_of_byte(s: &Vec<char>, b: usize) -> (r: Option<usize>)
    ensures
        match r {
            Some(k) => char_offset(s@, b as int) == Some(k as int) && k <= s@.len(),
            None => char_offset(s@, b as int) is None,
        },
{
    let mut i: usize = 0;
    let mut remaining: usize = b;
    assert(s@.skip(0) =~= s@);
    while i < s.len() && remaining != 0
        invariant
            i <= s@.len(),
            char_offset(s@, b as int) == shifted(char_offset(s@.skip(i as int), remaining as int), i as int),
        decreases s@.len() - i,
    {
        let w = char_width_of(s[i]);
        assert(s@.skip(i as int).skip(1) =~= s@.skip(i + 1));
        assert(s@.skip(i as int)[0] == s@[i as int]);
        if w > remaining {
            assert(char_offset(s@.skip(i + 1), remaining - w) is None) by {
                lemma_negative_offset(s@.skip(i + 1), remaining - w);
            }
            return None;
        }
        remaining = remaining - w;
        i = i + 1;
    }
    if remaining == 0 {
        Some(i)
    } else {
        assert(s@.skip(i as int).len() == 0);
        None
    }
}

proof fn lemma_negative_offset(s: Seq<char>, b: int)
    requires
        b < 0,
    ensures
        char_offset(s, b) is None,
{
}

/// 1-based line and column (in characters) of character index `k`.
pub open spec fn newlines(s: Seq<char>) -> nat
    decreases s.len(),
{
    if s.len() == 0 {
        0
    } else {
        newlines(s.drop_last()) + if s.last() == '\n' { 1nat } else { 0nat }
    }
}

/// The characters since the last newline.
pub open spec fn since_newline(s: Seq<char>) -> nat
    decreases s.len(),
{
    if s.len() == 0 {
        0
    } else if s.last() == '\n' {
        0
    } else {
        since_newline(s.drop_last()) + 1
    }
}

pub open spec fn line_of(s: Seq<char>, k: int) -> int {
    newlines(s.take(k)) as int + 1
}

pub open spec fn column_of(s: Seq<char>, k: int) -> int {
    since_newline(s.take(k)) as int + 1
}

pub fn line_column(s: &Vec<char>, k: usize) -> (r: (usize, usize))
    requires
        k < s@.len(),
    ensures
        r.0 == line_of(s@, k as int),
        r.1 == column_of(s@, k as int),
{
    let n = s.len();
    let mut line: usize = 0;
    let mut column: usize = 0;
    let mut i: usize = 0;
    assert(s@.take(0) =~= Seq::<char>::empty());
    while i < k
        invariant
            n == s@.len(),
            i <= k < s@.len(),
            line <= i,
            column <= i,
            line == newlines(s@.take(i as int)),
            column == since_newline(s@.take(i as int)),
        decreases k - i,
    {
        assert(s@.take(i + 1).drop_last() =~= s@.take(i as int));
        assert(s@.take(i + 1).last() == s@[i as int]);
        if s[i] == '\n' {
            line = line + 1;
            column = 0;
        } else {
            column = column + 1;
        }
        i = i + 1;
    }
    (line + 1, column + 1)
}

pub open spec fn directive_text() -> Seq<char> {
    "onioncry-disable-next-line"@
}

pub open spec fn missing_reason() -> Seq<char> {
    "inline suppression requires `-- <reason>`"@
}

pub open spec fn missing_rules() -> Seq<char> {
    "inline suppression requires at least one rule before `--`"@
}

pub open spec fn empty_rule_name() -> Seq<char> {
    "inline suppression contains an empty rule name"@
}

pub open spec fn unknown_rule_message(rule: Seq<char>) -> Seq<char> {
    "unknown rule "@ + debug_text(rule) + " in inline suppression; closest known rules: "@ + join_with(
        spec_closest(rule, 3),
        ", "@,
    )
}

/// A directive: the rules it suppresses and why, or what is wrong with it.
pub enum DirectiveView {
    Valid { line: int, column: int, reason: Seq<char>, rules: Seq<RuleId> },
    Invalid { line: int, column: int, messages: Seq<Seq<char>> },
}

/// The first index of `pat` in `s`, if any.
pub open spec fn first_index(s: Seq<char>, pat: Seq<char>, from: int) -> Option<int>
    decreases s.len() + 1 - from,
{
    if from < 0 || from + pat.len() > s.len() {
        None
    } else if occurs_at(s, pat, from) {
        Some(from)
    } else {
        first_index(s, pat, from + 1)
    }
}

/// The messages for the rule names and the rules they name.
pub open spec fn rule_name_results(names: Seq<Seq<char>>) -> (Seq<Seq<char>>, Seq<RuleId>)
    decreases names.len(),
{
    if names.len() == 0 {
        (Seq::empty(), Seq::empty())
    } else {
        let (errors, rules) = rule_name_results(names.drop_last());
        let name = names.last();
        if name.len() == 0 {
            (errors.push(empty_rule_name()), rules)
        } else {
            match spec_rule_for_name(name) {
                Some(r) => (errors, rules.push(r)),
                None => (errors.push(unknown_rule_message(name)), rules),
            }
        }
    }
}

/// The directive in a comment, if the comment holds one.
pub open spec fn spec_directive(s: Seq<char>, c: (bool, usize, usize, usize)) -> Option<DirectiveView> {
    let (is_line, content_start, content_end, start) = c;
    if !is_line {
        None
    } else {
        match (char_offset(s, content_start as int), char_offset(s, content_end as int), char_offset(s, start as int)) {
            (Some(a), Some(b), Some(k)) => if !(a <= b && k < s.len()) {
                None
            } else {
                let content = trim_start(s.subrange(a, b));
                if !has_prefix(content, directive_text()) {
                    None
                } else {
                    let body = content.skip(directive_text().len() as int);
                    if body.len() > 0 && !is_white_space(body[0]) {
                        None
                    } else {
                        let line = line_of(s, k);
                        let column = column_of(s, k);
                        match first_index(body, "--"@, 0) {
                            None => Some(DirectiveView::Invalid { line, column, messages: seq![missing_reason()] }),
                            Some(p) => {
                                let reason = trim(body.skip(p + 2));
                                if reason.len() == 0 {
                                    Some(DirectiveView::Invalid { line, column, messages: seq![missing_reason()] })
                                } else {
                                    let names = split_all(body.take(p), ',').map_values(|n: Seq<char>| trim(n));
                                    if forall|i: int| 0 <= i < names.len() ==> (#[trigger] names[i]).len() == 0 {
                                        Some(DirectiveView::Invalid { line, column, messages: seq![missing_rules()] })
                                    } else {
                                        let (errors, rules) = rule_name_results(names);
                                        if errors.len() > 0 {
                                            Some(DirectiveView::Invalid { line, column, messages: errors })
                                        } else {
                                            Some(DirectiveView::Valid { line, column, reason, rules })
                                        }
                                    }
                                }
                            },
                        }
                    }
                }
            },
            _ => None,
        }
    }
}

/// A parsed directive.
pub enum ParsedDirective {
    Valid { line: usize, column: usize, reason: String, rules: Vec<RuleId> },
    Invalid { line: usize, column: usize, messages: Vec<String> },
}

impl View for ParsedDirective {
    type V = DirectiveView;

    open spec fn view(&self) -> DirectiveView {
        match self {
            ParsedDirective::Valid { line, column, reason, rules } => DirectiveView::Valid {
                line: *line as int,
                column: *column as int,
                reason: reason@,
                rules: rules@,
            },
            ParsedDirective::Invalid { line, column, messages } => DirectiveView::Invalid {
                line: *line as int,
                column: *column as int,
                messages: texts(messages@),
            },
        }
    }
}

fn find_double_dash(s: &Vec<char>) -> (r: Option<usize>)
    ensures
        match r {
            Some(p) => first_index(s@, "--"@, 0) == Some(p as int) && p + 2 <= s@.len(),
            None => first_index(s@, "--"@, 0) is None,
        },
{
    proof {
        reveal_strlit("--");
    }
    let pat = chars_of("--");
    let mut i: usize = 0;
    while i < s.len() && s.len() - i >= 2
        invariant
            i <= s@.len(),
            pat@ == "--"@,
            first_index(s@, "--"@, 0) == first_index(s@, "--"@, i as int),
        decreases s@.len() + 1 - i,
    {
        if occurs_at_exec(s.as_slice(), pat.as_slice(), i) {
            return Some(i);
        }
        i = i + 1;
    }
    None
}

fn sub_chars(s: &Vec<char>, from: usize, to: usize) -> (r: Vec<char>)
    requires
        from <= to <= s@.len(),
    ensures
        r@ == s@.subrange(from as int, to as int),
{
    let mut out: Vec<char> = Vec::new();
    let mut i = from;
    while i < to
        invariant
            from <= i <= to <= s@.len(),
            out@ == s@.subrange(from as int, i as int),
        decreases to - i,
    {
        out.push(s[i]);
        assert(s@.subrange(from as int, i + 1) =~= s@.subrange(from as int, i as int).push(s@[i as int]));
        i = i + 1;
    }
    out
}

fn rule_names_check(names: &Vec<Vec<char>>) -> (r: (Vec<String>, Vec<RuleId>))
    ensures
        (texts(r.0@), r.1@) == rule_name_results(names@.map_values(|n: Vec<char>| n@)),
{
    let ghost nv = names@.map_values(|n: Vec<char>| n@);
    let mut errors: Vec<String> = Vec::new();
    let mut rules: Vec<RuleId> = Vec::new();
    let mut i: usize = 0;
    assert(nv.take(0) =~= Seq::<Seq<char>>::empty());
    assert(texts(errors@) =~= Seq::<Seq<char>>::empty());
    while i < names.len()
        invariant
            i <= names@.len(),
            nv == names@.map_values(|n: Vec<char>| n@),
            (texts(errors@), rules@) == rule_name_results(nv.take(i as int)),
        decreases names@.len() - i,
    {
        assert(nv.take(i + 1).drop_last() =~= nv.take(i as int));
        assert(nv.take(i + 1).last() == names@[i as int]@);
        let ghost before = texts(errors@);
        if names[i].len() == 0 {
            errors.push("inline suppression contains an empty rule name".to_owned());
            assert(texts(errors@) =~= before.push(empty_rule_name()));
        } else {
            let name = string_of(names[i].as_slice());
            match rule_for_name(name.as_str()) {
                Some(r) => {
                    rules.push(r);
                },
                None => {
                    let quoted = debug_quote(name.as_str());
                    let closest = closest_rule_names(name.as_str(), 3);
                    let message = concat(
                        concat(concat("unknown rule ", quoted.as_str()).as_str(), " in inline suppression; closest known rules: ").as_str(),
                        join(&closest, ", ").as_str(),
                    );
                    errors.push(message);
                    assert(texts(errors@) =~= before.push(unknown_rule_message(name@)));
                },
            }
        }
        i = i + 1;
    }
    assert(nv.take(names@.len() as int) =~= nv);
    (errors, rules)
}

fn invalid(line: usize, column: usize, message: &str) -> (r: ParsedDirective)
    ensures
        r@ == (DirectiveView::Invalid { line: line as int, column: column as int, messages: seq![message@] }),
{
    let mut messages: Vec<String> = Vec::new();
    messages.push(message.to_owned());
    assert(texts(messages@) =~= seq![message@]);
    ParsedDirective::Invalid { line, column, messages }
}

/// The directive in a comment of the source `s`, if the comment holds one.
pub fn parse_directive(s: &Vec<char>, comment: &CommentSpan) -> (r: Option<ParsedDirective>)
    ensures
        match r {
            Some(d) => spec_directive(s@, (comment.is_line, comment.content_start, comment.content_end, comment.start)) == Some(d@),
            None => spec_directive(s@, (comment.is_line, comment.content_start, comment.content_end, comment.start)) is None,
        },
{
    if !comment.is_line {
        return None;
    }
    let a = match char_index_of_byte(s, comment.content_start) {
        Some(a) => a,
        None => return None,
    };
    let b = match char_index_of_byte(s, comment.content_end) {
        Some(b) => b,
        None => return None,
    };
    let k = match char_index_of_byte(s, comment.start) {
        Some(k) => k,
        None => return None,
    };
    if !(a <= b && k < s.len()) {
        return None;
    }
    let raw = sub_chars(s, a, b);
    let mut start: usize = 0;
    assert(raw@.skip(0) =~= raw@);
    while start < raw.len() && is_white_space_char(raw[start])
        invariant
            start <= raw@.len(),
            trim_start(raw@) == trim_start(raw@.skip(start as int)),
        decreases raw@.len() - start,
    {
        assert(raw@.skip(start as int).skip(1) =~= raw@.skip(start + 1));
        start = start + 1;
    }
    let content = sub_chars(&raw, start, raw.len());
    assert(content@ =~= raw@.skip(start as int));
    proof {
        reveal_strlit("onioncry-disable-next-line");
    }
    let directive = chars_of("onioncry-disable-next-line");
    if !crate::text::starts_with(content.as_slice(), directive.as_slice()) {
        return None;
    }
    let body = sub_chars(&content, directive.len(), content.len());
    assert(body@ =~= content@.skip(directive_text().len() as int));
    if body.len() > 0 && !is_white_space_char(body[0]) {
        return None;
    }
    let (line, column) = line_column(s, k);
    let p = match find_double_dash(&body) {
        Some(p) => p,
        None => return Some(invalid(line, column, "inline suppression requires `-- <reason>`")),
    };
    let reason_part = sub_chars(&body, p + 2, body.len());
    assert(reason_part@ =~= body@.skip(p + 2));
    let reason = trim_chars(reason_part.as_slice());
    if reason.len() == 0 {
        return Some(invalid(line, column, "inline suppression requires `-- <reason>`"));
    }
    let rules_part = sub_chars(&body, 0, p);
    assert(rules_part@ =~= body@.take(p as int));
    let pieces = split_chars(rules_part.as_slice(), ',');
    let ghost pv = pieces@.map_values(|n: Vec<char>| n@);
    let mut names: Vec<Vec<char>> = Vec::new();
    let mut all_empty = true;
    let mut i: usize = 0;
    while i < pieces.len()
        invariant
            i <= pieces@.len(),
            pv == pieces@.map_values(|n: Vec<char>| n@),
            names@.map_values(|n: Vec<char>| n@) == pv.take(i as int).map_values(|n: Seq<char>| trim(n)),
            all_empty == forall|q: int| 0 <= q < i ==> (#[trigger] names@[q]@).len() == 0,
            names@.len() == i,
        decreases pieces@.len() - i,
    {
        let t = trim_chars(pieces[i].as_slice());
        if t.len() > 0 {
            all_empty = false;
        }
        let ghost before = names@.map_values(|n: Vec<char>| n@);
        let ghost old = names@;
        let ghost tv = t@;
        names.push(t);
        assert(forall|q: int| 0 <= q < i ==> names@[q] == old[q]);
        assert(names@[i as int]@ == tv);
        assert(names@.map_values(|n: Vec<char>| n@) =~= before.push(trim(pieces@[i as int]@)));
        assert(pv.take(i + 1).map_values(|n: Seq<char>| trim(n)) =~= pv.take(i as int).map_values(|n: Seq<char>| trim(n)).push(trim(pv[i as int])));
        i = i + 1;
    }
    assert(pv.take(pieces@.len() as int) =~= pv);
    let ghost nv = names@.map_values(|n: Vec<char>| n@);
    assert(nv == split_all(body@.take(p as int), ',').map_values(|n: Seq<char>| trim(n)));
    if all_empty {
        assert(forall|q: int| 0 <= q < nv.len() ==> (#[trigger] nv[q]).len() == 0);
        return Some(invalid(line, column, "inline suppression requires at least one rule before `--`"));
    }
    assert(!(forall|q: int| 0 <= q < nv.len() ==> (#[trigger] nv[q]).len() == 0)) by {
        let q = choose|q: int| 0 <= q < names@.len() && !((#[trigger] names@[q]@).len() == 0);
        assert(nv[q] == names@[q]@);
    }
    let (errors, rules) = rule_names_check(&names);
    if errors.len() > 0 {
        return Some(ParsedDirective::Invalid { line, column, messages: errors });
    }
    let reason_text = string_of(reason.as_slice());
    Some(ParsedDirective::Valid { line, column, reason: reason_text, rules })
}


/// The directives among a file's comments, in comment order.
pub open spec fn file_directives(text: Seq<char>, comments: Seq<(bool, usize, usize, usize)>) -> Seq<DirectiveView>
    decreases comments.len(),
{
    if comments.len() == 0 {
        Seq::empty()
    } else {
        let earlier = file_directives(text, comments.drop_last());
        match spec_directive(text, comments.last()) {
            Some(d) => earlier.push(d),
            None => earlier,
        }
    }
}

/// A valid suppression: its file, line, column, reason and rules.
pub type SuppressionView = (Seq<Seq<char>>, int, int, Seq<char>, Seq<RuleId>);

pub open spec fn valid_suppressions(file: Seq<Seq<char>>, ds: Seq<DirectiveView>) -> Seq<SuppressionView>
    decreases ds.len(),
{
    if ds.len() == 0 {
        Seq::empty()
    } else {
        let earlier = valid_suppressions(file, ds.drop_last());
        match ds.last() {
            DirectiveView::Valid { line, column, reason, rules } => earlier.push((file, line, column, reason, rules)),
            _ => earlier,
        }
    }
}

/// The findings for a malformed directive, one per message.
pub open spec fn message_findings(file: Seq<Seq<char>>, severity: Severity, line: int, column: int, messages: Seq<Seq<char>>) -> Seq<ViolationView>
    decreases messages.len(),
{
    if messages.len() == 0 {
        Seq::empty()
    } else {
        message_findings(file, severity, line, column, messages.drop_last()).push(
            crate::model::located_finding(RuleId::InvalidSuppression, file, severity, line as usize, column as usize, seq![messages.last()]),
        )
    }
}

pub open spec fn invalid_findings(rules: RulePolicy, file: Seq<Seq<char>>, ds: Seq<DirectiveView>) -> Seq<ViolationView>
    decreases ds.len(),
{
    if ds.len() == 0 {
        Seq::empty()
    } else {
        let earlier = invalid_findings(rules, file, ds.drop_last());
        let severity = spec_effective(rules, RuleId::InvalidSuppression, file).severity;
        match ds.last() {
            DirectiveView::Invalid { line, column, messages } => if severity == Severity::Off {
                earlier
            } else {
                earlier + message_findings(file, severity, line, column, messages)
            },
            _ => earlier,
        }
    }
}

pub open spec fn parse_failure_message(m: Option<Seq<char>>) -> Seq<char> {
    match m {
        Some(x) => x,
        None => "parser panicked"@,
    }
}

/// The suppressions and the malformed-directive findings of the files, in
/// file order, or why a file could not be read.
pub open spec fn collected_directives(
    rules: RulePolicy,
    sources: Seq<(Seq<Seq<char>>, Seq<char>)>,
    files: Seq<Seq<Seq<char>>>,
) -> Result<(Seq<SuppressionView>, Seq<ViolationView>), FailureView>
    decreases files.len(),
{
    if files.len() == 0 {
        Ok((Seq::empty(), Seq::empty()))
    } else {
        match collected_directives(rules, sources, files.drop_last()) {
            Err(e) => Err(e),
            Ok((supps, invalid)) => {
                let file = files.last();
                if !spec_is_source_file(file) {
                    Ok((supps, invalid))
                } else {
                    match source_of(sources, file) {
                        None => Err(FailureView::MissingSource(file)),
                        Some(text) => match parsed_comments(file.last(), text) {
                            Err(m) => Err(FailureView::ParseSource(file, parse_failure_message(m))),
                            Ok(comments) => {
                                let ds = file_directives(text, comments);
                                Ok((supps + valid_suppressions(file, ds), invalid + invalid_findings(rules, file, ds)))
                            },
                        },
                    }
                }
            },
        }
    }
}

/// The suppression rule names the finding (its file, rule and the next line).
pub open spec fn suppresses(s: SuppressionView, r: RuleId, v: ViolationView) -> bool {
    v.file == s.0 && v.rule == r && v.line is Some && v.line->0 == s.1 + 1
}

pub open spec fn suppresses_any(s: SuppressionView, v: ViolationView) -> bool {
    exists|k: int| 0 <= k < s.4.len() && suppresses(s, #[trigger] s.4[k], v)
}

/// The reason of the last suppression that suppresses the finding.
pub open spec fn last_reason(supps: Seq<SuppressionView>, v: ViolationView) -> Option<Seq<char>>
    decreases supps.len(),
{
    if supps.len() == 0 {
        None
    } else if suppresses_any(supps.last(), v) {
        Some(supps.last().3)
    } else {
        last_reason(supps.drop_last(), v)
    }
}

/// The finding, marked suppressed (with the reason) when a suppression names it.
pub open spec fn applied(supps: Seq<SuppressionView>, v: ViolationView) -> ViolationView {
    match last_reason(supps, v) {
        Some(reason) => ViolationView { suppressed: true, suppression_reason: Some(reason), ..v },
        None => v,
    }
}

/// The unused-suppression findings, per suppression and rule, in order.
/// Details: the rule's name.
pub open spec fn unused_findings(rules: RulePolicy, supps: Seq<SuppressionView>, vs: Seq<ViolationView>) -> Seq<ViolationView>
    decreases supps.len(),
{
    if supps.len() == 0 {
        Seq::empty()
    } else {
        unused_findings(rules, supps.drop_last(), vs) + unused_rule_findings(rules, supps.last(), supps.last().4, vs)
    }
}

pub open spec fn unused_rule_findings(rules: RulePolicy, s: SuppressionView, rs: Seq<RuleId>, vs: Seq<ViolationView>) -> Seq<ViolationView>
    decreases rs.len(),
{
    if rs.len() == 0 {
        Seq::empty()
    } else {
        let earlier = unused_rule_findings(rules, s, rs.drop_last(), vs);
        let r = rs.last();
        let severity = spec_effective(rules, RuleId::UnusedSuppression, s.0).severity;
        if (exists|i: int| 0 <= i < vs.len() && suppresses(s, r, #[trigger] vs[i])) || severity == Severity::Off {
            earlier
        } else {
            earlier.push(crate::model::located_finding(RuleId::UnusedSuppression, s.0, severity, s.1 as usize, s.2 as usize, seq![spec_rule_name(r)]))
        }
    }
}

/// The findings with suppressions applied, then the malformed-directive
/// findings, then the unused suppressions.
pub open spec fn suppression_outcome(
    rules: RulePolicy,
    files: Seq<Seq<Seq<char>>>,
    sources: Seq<(Seq<Seq<char>>, Seq<char>)>,
    vs: Seq<ViolationView>,
) -> Result<Seq<ViolationView>, FailureView> {
    match collected_directives(rules, sources, files) {
        Err(e) => Err(e),
        Ok((supps, invalid)) => Ok(
            vs.map_values(|v: ViolationView| applied(supps, v)) + invalid + unused_findings(rules, supps, vs),
        ),
    }
}

/// A valid suppression.
pub struct InlineSuppression {
    pub file: Vec<String>,
    pub line: usize,
    pub column: usize,
    pub reason: String,
    pub rules: Vec<RuleId>,
}

impl View for InlineSuppression {
    type V = SuppressionView;

    open spec fn view(&self) -> SuppressionView {
        (texts(self.file@), self.line as int, self.column as int, self.reason@, self.rules@)
    }
}

pub open spec fn suppression_views(v: Seq<InlineSuppression>) -> Seq<SuppressionView> {
    v.map_values(|s: InlineSuppression| s@)
}

proof fn lemma_collect_error_persists(
    rules: RulePolicy,
    sources: Seq<(Seq<Seq<char>>, Seq<char>)>,
    files: Seq<Seq<Seq<char>>>,
    n: int,
)
    requires
        0 <= n <= files.len(),
        collected_directives(rules, sources, files.take(n)) is Err,
    ensures
        collected_directives(rules, sources, files) == collected_directives(rules, sources, files.take(n)),
    decreases files.len() - n,
{
    if n < files.len() {
        assert(files.take(n + 1).drop_last() =~= files.take(n));
        lemma_collect_error_persists(rules, sources, files, n + 1);
    } else {
        assert(files.take(n) =~= files);
    }
}

/// The directives among one file's comments, as the parser reported them:
/// the valid suppressions are appended to `supps` and the findings for the
/// malformed ones to `invalid`, in comment order.
pub fn file_suppressions(
    file: &Vec<String>,
    text: &Vec<char>,
    comments: &Vec<CommentSpan>,
    rule_policy: &RulePolicy,
    supps: &mut Vec<InlineSuppression>,
    invalid: &mut Vec<Violation>,
)
    ensures
        suppression_views(final(supps)@) == suppression_views(old(supps)@) + valid_suppressions(texts(file@), file_directives(text@, comment_views(comments@))),
        views(final(invalid)@) == views(old(invalid)@) + invalid_findings(*rule_policy, texts(file@), file_directives(text@, comment_views(comments@))),
{
    let ghost cv = comment_views(comments@);
    let ghost s0 = suppression_views(supps@);
    let ghost i0 = views(invalid@);
    let severity = rule_policy.effective_severity(RuleId::InvalidSuppression, file);
    let mut j: usize = 0;
    assert(cv.take(0) =~= Seq::<(bool, usize, usize, usize)>::empty());
    assert(suppression_views(supps@) =~= s0 + Seq::<SuppressionView>::empty());
    assert(views(invalid@) =~= i0 + Seq::<ViolationView>::empty());
    while j < comments.len()
        invariant
            j <= comments@.len(),
            cv == comment_views(comments@),
            severity == spec_effective(*rule_policy, RuleId::InvalidSuppression, texts(file@)).severity,
            suppression_views(supps@) == s0 + valid_suppressions(texts(file@), file_directives(text@, cv.take(j as int))),
            views(invalid@) == i0 + invalid_findings(*rule_policy, texts(file@), file_directives(text@, cv.take(j as int))),
        decreases comments@.len() - j,
    {
        assert(cv.take(j + 1).drop_last() =~= cv.take(j as int));
        let c = &comments[j];
        assert(cv.take(j + 1).last() == (c.is_line, c.content_start, c.content_end, c.start));
        let ghost ds = file_directives(text@, cv.take(j as int));
        match parse_directive(text, c) {
            None => {},
            Some(ParsedDirective::Valid { line, column, reason, rules }) => {
                let ghost before = suppression_views(supps@);
                let s = InlineSuppression { file: clone_path(file), line, column, reason, rules };
                let ghost sv = s@;
                supps.push(s);
                assert(suppression_views(supps@) =~= before.push(sv));
                let ghost ds1 = file_directives(text@, cv.take(j + 1));
                assert(ds1.drop_last() =~= ds);
                assert(invalid_findings(*rule_policy, texts(file@), ds1) == invalid_findings(*rule_policy, texts(file@), ds));
            },
            Some(ParsedDirective::Invalid { line, column, messages }) => {
                let ghost ds1 = file_directives(text@, cv.take(j + 1));
                assert(ds1.drop_last() =~= ds);
                assert(valid_suppressions(texts(file@), ds1) == valid_suppressions(texts(file@), ds));
                if severity != Severity::Off {
                    let ghost start = views(invalid@);
                    let mut m: usize = 0;
                    assert(texts(messages@).take(0) =~= Seq::<Seq<char>>::empty());
                    assert(views(invalid@) =~= start + message_findings(texts(file@), severity, line as int, column as int, texts(messages@).take(0)));
                    while m < messages.len()
                        invariant
                            m <= messages@.len(),
                            views(invalid@) == start + message_findings(texts(file@), severity, line as int, column as int, texts(messages@).take(m as int)),
                        decreases messages@.len() - m,
                    {
                        assert(texts(messages@).take(m + 1).drop_last() =~= texts(messages@).take(m as int));
                        assert(texts(messages@).take(m + 1).last() == messages@[m as int]@);
                        let mut details: Vec<String> = Vec::new();
                        details.push(messages[m].clone());
                        assert(texts(details@) =~= seq![messages@[m as int]@]);
                        let v = crate::model::located_violation(RuleId::InvalidSuppression, file, severity, line, column, details);
                        let ghost before = views(invalid@);
                        invalid.push(v);
                        assert(views(invalid@) =~= before.push(v@));
                        m = m + 1;
                    }
                    assert(texts(messages@).take(messages@.len() as int) =~= texts(messages@));
                }
            },
        }
        j = j + 1;
    }
    assert(cv.take(comments@.len() as int) =~= cv);
}

/// Whether the suppression suppresses the finding by one of its rules.
fn suppresses_rule(s: &InlineSuppression, rule: RuleId, v: &Violation) -> (r: bool)
    ensures
        r == suppresses(s@, rule, v@),
{
    same_path(&v.file, &s.file) && v.rule == rule && match v.line {
        Some(l) => s.line < usize::MAX && l == s.line + 1,
        None => false,
    }
}

fn suppresses_any_rule(s: &InlineSuppression, v: &Violation) -> (r: bool)
    ensures
        r == suppresses_any(s@, v@),
{
    let mut k: usize = 0;
    while k < s.rules.len()
        invariant
            k <= s.rules@.len(),
            forall|q: int| 0 <= q < k ==> !suppresses(s@, #[trigger] s@.4[q], v@),
        decreases s.rules@.len() - k,
    {
        if suppresses_rule(s, s.rules[k], v) {
            return true;
        }
        k = k + 1;
    }
    false
}

/// Applies the inline suppressions of the source files to the findings and
/// adds the findings for malformed and unused suppressions.
pub fn apply_inline_suppressions(
    files: &Vec<Vec<String>>,
    sources: &Vec<SourceText>,
    rule_policy: &RulePolicy,
    violations: Vec<Violation>,
) -> (r: Result<Vec<Violation>, CheckError>)
    ensures
        outcome(r) == suppression_outcome(*rule_policy, path_views(files@), source_views(sources@), views(violations@)),
{
    let ghost fv = path_views(files@);
    let ghost sv = source_views(sources@);
    let mut supps: Vec<InlineSuppression> = Vec::new();
    let mut invalid: Vec<Violation> = Vec::new();
    let mut i: usize = 0;
    assert(fv.take(0) =~= Seq::<Seq<Seq<char>>>::empty());
    assert(suppression_views(supps@) =~= Seq::<SuppressionView>::empty());
    assert(views(invalid@) =~= Seq::<ViolationView>::empty());
    while i < files.len()
        invariant
            i <= files@.len(),
            fv == path_views(files@),
            sv == source_views(sources@),
            collected_directives(*rule_policy, sv, fv.take(i as int)) == Ok::<(Seq<SuppressionView>, Seq<ViolationView>), FailureView>((suppression_views(supps@), views(invalid@))),
        decreases files@.len() - i,
    {
        assert(fv.take(i + 1).drop_last() =~= fv.take(i as int));
        let file = &files[i];
        assert(fv.take(i + 1).last() == texts(file@));
        if is_source_file(file) {
            let text = match find_source(sources, file) {
                Some(t) => t,
                None => {
                    proof {
                        lemma_collect_error_persists(*rule_policy, sv, fv, i as int + 1);
                    }
                    return Err(CheckError::MissingSource(clone_path(file)));
                },
            };
            let name = &file[file.len() - 1];
            assert(texts(file@).last() == name@);
            match parse_comments(name.as_str(), text.as_str()) {
                Err(m) => {
                    let message = match m {
                        Some(x) => x,
                        None => "parser panicked".to_owned(),
                    };
                    proof {
                        lemma_collect_error_persists(*rule_policy, sv, fv, i as int + 1);
                    }
                    return Err(CheckError::ParseSource(clone_path(file), message));
                },
                Ok(comments) => {
                    let chars = chars_of(text.as_str());
                    file_suppressions(file, &chars, &comments, rule_policy, &mut supps, &mut invalid);
                },
            }
        }
        i = i + 1;
    }
    assert(fv.take(files@.len() as int) =~= fv);
    let ghost svs = suppression_views(supps@);
    let ghost vv = views(violations@);
    let mut out: Vec<Violation> = Vec::new();
    let mut k: usize = 0;
    while k < violations.len()
        invariant
            k <= violations@.len(),
            vv == views(violations@),
            svs == suppression_views(supps@),
            fv == path_views(files@),
            sv == source_views(sources@),
            collected_directives(*rule_policy, sv, fv) == Ok::<(Seq<SuppressionView>, Seq<ViolationView>), FailureView>((svs, views(invalid@))),
            views(out@) == vv.take(k as int).map_values(|v: ViolationView| applied(svs, v)),
        decreases violations@.len() - k,
    {
        let v = &violations[k];
        let mut reason: Option<String> = None;
        let mut q: usize = 0;
        assert(svs.take(0) =~= Seq::<SuppressionView>::empty());
        while q < supps.len()
            invariant
                q <= supps@.len(),
                svs == suppression_views(supps@),
                match reason {
                    Some(r) => last_reason(svs.take(q as int), v@) == Some(r@),
                    None => last_reason(svs.take(q as int), v@) is None,
                },
            decreases supps@.len() - q,
        {
            assert(svs.take(q + 1).drop_last() =~= svs.take(q as int));
            assert(svs.take(q + 1).last() == supps@[q as int]@);
            if suppresses_any_rule(&supps[q], v) {
                reason = Some(supps[q].reason.clone());
            }
            q = q + 1;
        }
        assert(svs.take(supps@.len() as int) =~= svs);
        let mut copy = crate::model::copy_violation(v);
        match reason {
            Some(r) => {
                copy.suppressed = true;
                copy.suppression_reason = Some(r);
            },
            None => {},
        }
        let ghost before = views(out@);
        out.push(copy);
        assert(views(out@) =~= before.push(applied(svs, vv[k as int])));
        assert(vv.take(k + 1).map_values(|v: ViolationView| applied(svs, v)) =~= vv.take(k as int).map_values(|v: ViolationView| applied(svs, v)).push(applied(svs, vv[k as int])));
        k = k + 1;
    }
    assert(vv.take(violations@.len() as int) =~= vv);
    let ghost head = views(out@);
    let ghost inv = views(invalid@);
    out.append(&mut invalid);
    let ghost with_invalid = views(out@);
    assert(with_invalid =~= head + inv);
    let mut s: usize = 0;
    assert(svs.take(0) =~= Seq::<SuppressionView>::empty());
    assert(with_invalid =~= with_invalid + unused_findings(*rule_policy, svs.take(0), vv));
    while s < supps.len()
        invariant
            s <= supps@.len(),
            svs == suppression_views(supps@),
            vv == views(violations@),
            fv == path_views(files@),
            sv == source_views(sources@),
            collected_directives(*rule_policy, sv, fv) == Ok::<(Seq<SuppressionView>, Seq<ViolationView>), FailureView>((svs, inv)),
            head == vv.map_values(|v: ViolationView| applied(svs, v)),
            with_invalid == head + inv,
            views(out@) == with_invalid + unused_findings(*rule_policy, svs.take(s as int), vv),
        decreases supps@.len() - s,
    {
        assert(svs.take(s + 1).drop_last() =~= svs.take(s as int));
        let supp = &supps[s];
        assert(svs.take(s + 1).last() == supp@);
        let severity = rule_policy.effective_severity(RuleId::UnusedSuppression, &supp.file);
        let ghost start = views(out@);
        let mut k2: usize = 0;
        assert(supp@.4.take(0) =~= Seq::<RuleId>::empty());
        assert(start =~= start + unused_rule_findings(*rule_policy, supp@, supp@.4.take(0), vv));
        while k2 < supp.rules.len()
            invariant
                k2 <= supp.rules@.len(),
                vv == views(violations@),
                severity == spec_effective(*rule_policy, RuleId::UnusedSuppression, supp@.0).severity,
                views(out@) == start + unused_rule_findings(*rule_policy, supp@, supp@.4.take(k2 as int), vv),
            decreases supp.rules@.len() - k2,
        {
            assert(supp@.4.take(k2 + 1).drop_last() =~= supp@.4.take(k2 as int));
            let rule = supp.rules[k2];
            assert(supp@.4.take(k2 + 1).last() == rule);
            let mut used = false;
            let mut w: usize = 0;
            while w < violations.len()
                invariant
                    w <= violations@.len(),
                    vv == views(violations@),
                    used == exists|q: int| 0 <= q < w && suppresses(supp@, rule, #[trigger] vv[q]),
                decreases violations@.len() - w,
            {
                if suppresses_rule(supp, rule, &violations[w]) {
                    used = true;
                }
                proof {
                    if used {
                        if suppresses(supp@, rule, vv[w as int]) {
                        } else {
                            let q = choose|q: int| 0 <= q < w && suppresses(supp@, rule, #[trigger] vv[q]);
                            assert(0 <= q < w + 1);
                        }
                    }
                }
                w = w + 1;
            }
            if !used && severity != Severity::Off {
                let mut details: Vec<String> = Vec::new();
                details.push(rule.name().to_owned());
                assert(texts(details@) =~= seq![spec_rule_name(rule)]);
                let v = crate::model::located_violation(RuleId::UnusedSuppression, &supp.file, severity, supp.line, supp.column, details);
                let ghost before = views(out@);
                out.push(v);
                assert(views(out@) =~= before.push(v@));
            }
            k2 = k2 + 1;
        }
        assert(supp@.4.take(supp.rules@.len() as int) =~= supp@.4);
        s = s + 1;
    }
    assert(svs.take(supps@.len() as int) =~= svs);
    Ok(out)
}


/// `a` and `b` agree on everything but whether they are suppressed and why.
pub open spec fn same_but_suppression(a: ViolationView, b: ViolationView) -> bool {
    ViolationView { suppressed: b.suppressed, suppression_reason: b.suppression_reason, ..a } == b
}

proof fn lemma_last_reason_named(supps: Seq<SuppressionView>, v: ViolationView)
    requires
        last_reason(supps, v) is Some,
    ensures
        exists|k: int| 0 <= k < supps.len() && suppresses_any(#[trigger] supps[k], v),
    decreases supps.len(),
{
    if suppresses_any(supps.last(), v) {
        assert(suppresses_any(supps[supps.len() - 1], v));
    } else {
        lemma_last_reason_named(supps.drop_last(), v);
        let k = choose|k: int| 0 <= k < supps.drop_last().len() && suppresses_any(#[trigger] supps.drop_last()[k], v);
        assert(supps[k] == supps.drop_last()[k]);
    }
}

/// Suppressions keep every finding in the report, in its place, with its
/// severity and everything else it had; a finding changes only by being
/// marked suppressed, and only when a valid suppression of its file names
/// its rule on the line just above it.
pub proof fn law_suppressions_keep_findings(
    rules: RulePolicy,
    files: Seq<Seq<Seq<char>>>,
    sources: Seq<(Seq<Seq<char>>, Seq<char>)>,
    vs: Seq<ViolationView>,
)
    requires
        suppression_outcome(rules, files, sources, vs) is Ok,
    ensures
        ({
            let out = suppression_outcome(rules, files, sources, vs)->Ok_0;
            let supps = collected_directives(rules, sources, files)->Ok_0.0;
            &&& out.len() >= vs.len()
            &&& forall|i: int| 0 <= i < vs.len() ==> same_but_suppression(#[trigger] out[i], vs[i])
            &&& forall|i: int|
                0 <= i < vs.len() && (#[trigger] out[i]).suppressed != vs[i].suppressed ==> exists|k: int|
                    0 <= k < supps.len() && suppresses_any(#[trigger] supps[k], vs[i])
        }),
{
    let out = suppression_outcome(rules, files, sources, vs)->Ok_0;
    let supps = collected_directives(rules, sources, files)->Ok_0.0;
    let mapped = vs.map_values(|v: ViolationView| applied(supps, v));
    assert forall|i: int| 0 <= i < vs.len() implies same_but_suppression(#[trigger] out[i], vs[i]) by {
        assert(out[i] == mapped[i]);
    }
    assert forall|i: int|
        0 <= i < vs.len() && (#[trigger] out[i]).suppressed != vs[i].suppressed implies exists|k: int|
            0 <= k < supps.len() && suppresses_any(#[trigger] supps[k], vs[i]) by {
        assert(out[i] == mapped[i]);
        lemma_last_reason_named(supps, vs[i]);
    }
}


/// The finding that reports rule `r` of suppression `s` as unused.
pub open spec fn unused_finding(rules: RulePolicy, s: SuppressionView, r: RuleId) -> ViolationView {
    crate::model::located_finding(
        RuleId::UnusedSuppression,
        s.0,
        spec_effective(rules, RuleId::UnusedSuppression, s.0).severity,
        s.1 as usize,
        s.2 as usize,
        seq![spec_rule_name(r)],
    )
}

proof fn lemma_unused_rule_reported(rules: RulePolicy, s: SuppressionView, rs: Seq<RuleId>, vs: Seq<ViolationView>, k: int)
    requires
        0 <= k < rs.len(),
        forall|i: int| 0 <= i < vs.len() ==> !suppresses(s, rs[k], #[trigger] vs[i]),
        spec_effective(rules, RuleId::UnusedSuppression, s.0).severity != Severity::Off,
    ensures
        unused_rule_findings(rules, s, rs, vs).contains(unused_finding(rules, s, rs[k])),
    decreases rs.len(),
{
    let earlier = unused_rule_findings(rules, s, rs.drop_last(), vs);
    let whole = unused_rule_findings(rules, s, rs, vs);
    if k == rs.len() - 1 {
        assert(whole == earlier.push(unused_finding(rules, s, rs[k])));
        assert(whole[earlier.len() as int] == unused_finding(rules, s, rs[k]));
    } else {
        assert(rs.drop_last()[k] == rs[k]);
        lemma_unused_rule_reported(rules, s, rs.drop_last(), vs, k);
        let w = choose|w: int| 0 <= w < earlier.len() && earlier[w] == unused_finding(rules, s, rs[k]);
        assert(whole[w] == earlier[w]);
    }
}

proof fn lemma_unused_reported(rules: RulePolicy, supps: Seq<SuppressionView>, vs: Seq<ViolationView>, j: int, k: int)
    requires
        0 <= j < supps.len(),
        0 <= k < supps[j].4.len(),
        forall|i: int| 0 <= i < vs.len() ==> !suppresses(supps[j], supps[j].4[k], #[trigger] vs[i]),
        spec_effective(rules, RuleId::UnusedSuppression, supps[j].0).severity != Severity::Off,
    ensures
        unused_findings(rules, supps, vs).contains(unused_finding(rules, supps[j], supps[j].4[k])),
    decreases supps.len(),
{
    let f = unused_finding(rules, supps[j], supps[j].4[k]);
    let earlier = unused_findings(rules, supps.drop_last(), vs);
    let last = unused_rule_findings(rules, supps.last(), supps.last().4, vs);
    let whole = unused_findings(rules, supps, vs);
    assert(whole == earlier + last);
    if j == supps.len() - 1 {
        lemma_unused_rule_reported(rules, supps[j], supps[j].4, vs, k);
        let w = choose|w: int| 0 <= w < last.len() && last[w] == f;
        assert(whole[earlier.len() + w] == f);
    } else {
        assert(supps.drop_last()[j] == supps[j]);
        lemma_unused_reported(rules, supps.drop_last(), vs, j, k);
        let w = choose|w: int| 0 <= w < earlier.len() && earlier[w] == f;
        assert(whole[w] == f);
    }
}

/// Every rule of a valid suppression that suppresses no finding is
/// reported as an unused suppression at the suppression's comment (unless
/// that rule is off for the file).
pub proof fn law_unused_suppressions_reported(
    rules: RulePolicy,
    files: Seq<Seq<Seq<char>>>,
    sources: Seq<(Seq<Seq<char>>, Seq<char>)>,
    vs: Seq<ViolationView>,
    j: int,
    k: int,
)
    requires
        suppression_outcome(rules, files, sources, vs) is Ok,
        0 <= j < collected_directives(rules, sources, files)->Ok_0.0.len(),
        0 <= k < collected_directives(rules, sources, files)->Ok_0.0[j].4.len(),
        forall|i: int| 0 <= i < vs.len() ==> !suppresses(
            collected_directives(rules, sources, files)->Ok_0.0[j],
            collected_directives(rules, sources, files)->Ok_0.0[j].4[k],
            #[trigger] vs[i],
        ),
        spec_effective(rules, RuleId::UnusedSuppression, collected_directives(rules, sources, files)->Ok_0.0[j].0).severity
            != Severity::Off,
    ensures
        suppression_outcome(rules, files, sources, vs)->Ok_0.contains(
            unused_finding(
                rules,
                collected_directives(rules, sources, files)->Ok_0.0[j],
                collected_directives(rules, sources, files)->Ok_0.0[j].4[k],
            ),
        ),
{
    let (supps, invalid) = collected_directives(rules, sources, files)->Ok_0;
    let mapped = vs.map_values(|v: ViolationView| applied(supps, v));
    let out = suppression_outcome(rules, files, sources, vs)->Ok_0;
    let f = unused_finding(rules, supps[j], supps[j].4[k]);
    lemma_unused_reported(rules, supps, vs, j, k);
    let un = unused_findings(rules, supps, vs);
    let w = choose|w: int| 0 <= w < un.len() && un[w] == f;
    assert(out == mapped + invalid + un);
    assert(out[mapped.len() + invalid.len() + w] == f);
}


proof fn lemma_rule_name_results(names: Seq<Seq<char>>)
    ensures
        rule_name_results(names).0.len() == 0 ==> rule_name_results(names).1.len() == names.len(),
    decreases names.len(),
{
    if names.len() > 0 {
        lemma_rule_name_results(names.drop_last());
    }
}

proof fn lemma_directive_valid(s: Seq<char>, c: (bool, usize, usize, usize))
    ensures
        spec_directive(s, c) matches Some(DirectiveView::Valid { reason, rules, .. }) ==> reason.len() > 0 && rules.len() > 0,
{
    if let Some(DirectiveView::Valid { line, column, reason, rules }) = spec_directive(s, c) {
        let (is_line, content_start, content_end, start) = c;
        let a = char_offset(s, content_start as int)->0;
        let b = char_offset(s, content_end as int)->0;
        let content = trim_start(s.subrange(a, b));
        let body = content.skip(directive_text().len() as int);
        let p = first_index(body, "--"@, 0)->0;
        let names = split_all(body.take(p), ',').map_values(|n: Seq<char>| trim(n));
        lemma_rule_name_results(names);
        assert(names.len() > 0);
    }
}

proof fn lemma_file_directives_valid(text: Seq<char>, comments: Seq<(bool, usize, usize, usize)>)
    ensures
        forall|i: int| 0 <= i < file_directives(text, comments).len() ==> (#[trigger] file_directives(text, comments)[i] matches DirectiveView::Valid { reason, rules, .. } ==> reason.len() > 0 && rules.len() > 0),
    decreases comments.len(),
{
    if comments.len() > 0 {
        lemma_file_directives_valid(text, comments.drop_last());
        lemma_directive_valid(text, comments.last());
        let earlier = file_directives(text, comments.drop_last());
        assert forall|i: int| 0 <= i < file_directives(text, comments).len() implies (#[trigger] file_directives(text, comments)[i] matches DirectiveView::Valid { reason, rules, .. } ==> reason.len() > 0 && rules.len() > 0) by {
            if i < earlier.len() {
                assert(file_directives(text, comments)[i] == earlier[i]);
            }
        }
    }
}

proof fn lemma_valid_suppressions(file: Seq<Seq<char>>, ds: Seq<DirectiveView>)
    requires
        forall|i: int| 0 <= i < ds.len() ==> (#[trigger] ds[i] matches DirectiveView::Valid { reason, rules, .. } ==> reason.len() > 0 && rules.len() > 0),
    ensures
        forall|k: int| 0 <= k < valid_suppressions(file, ds).len() ==> (#[trigger] valid_suppressions(file, ds)[k]).3.len() > 0
            && valid_suppressions(file, ds)[k].4.len() > 0 && valid_suppressions(file, ds)[k].0 == file,
    decreases ds.len(),
{
    if ds.len() > 0 {
        assert forall|i: int| 0 <= i < ds.drop_last().len() implies (#[trigger] ds.drop_last()[i] matches DirectiveView::Valid { reason, rules, .. } ==> reason.len() > 0 && rules.len() > 0) by {
            assert(ds.drop_last()[i] == ds[i]);
        }
        lemma_valid_suppressions(file, ds.drop_last());
        assert(ds.last() == ds[ds.len() - 1]);
        let earlier = valid_suppressions(file, ds.drop_last());
        let whole = valid_suppressions(file, ds);
        assert forall|k: int| 0 <= k < whole.len() implies (#[trigger] whole[k]).3.len() > 0 && whole[k].4.len() > 0
            && whole[k].0 == file by {
            if k < earlier.len() {
                assert(whole[k] == earlier[k]);
            }
        }
    }
}

proof fn lemma_collected_valid(rules: RulePolicy, sources: Seq<(Seq<Seq<char>>, Seq<char>)>, files: Seq<Seq<Seq<char>>>)
    ensures
        collected_directives(rules, sources, files) is Ok ==> forall|k: int|
            0 <= k < collected_directives(rules, sources, files)->Ok_0.0.len() ==> (#[trigger] collected_directives(rules, sources, files)->Ok_0.0[k]).3.len() > 0
                && collected_directives(rules, sources, files)->Ok_0.0[k].4.len() > 0,
    decreases files.len(),
{
    if files.len() > 0 {
        lemma_collected_valid(rules, sources, files.drop_last());
        if collected_directives(rules, sources, files) is Ok && collected_directives(rules, sources, files.drop_last()) is Ok {
            let file = files.last();
            let before = collected_directives(rules, sources, files.drop_last())->Ok_0.0;
            let after = collected_directives(rules, sources, files)->Ok_0.0;
            if spec_is_source_file(file) {
                let text = source_of(sources, file)->0;
                let comments = parsed_comments(file.last(), text)->Ok_0;
                let ds = file_directives(text, comments);
                lemma_file_directives_valid(text, comments);
                lemma_valid_suppressions(file, ds);
                let added = valid_suppressions(file, ds);
                assert(after == before + added);
                assert forall|k: int| 0 <= k < after.len() implies (#[trigger] after[k]).3.len() > 0 && after[k].4.len() > 0 by {
                    if k < before.len() {
                        assert(after[k] == before[k]);
                    } else {
                        assert(after[k] == added[k - before.len()]);
                    }
                }
            }
        }
    }
}

/// A suppression takes effect only with a reason after `--` and at least
/// one rule before it: every valid suppression has a non-empty reason and
/// names at least one rule.
pub proof fn law_valid_suppressions_have_reason_and_rules(
    rules: RulePolicy,
    files: Seq<Seq<Seq<char>>>,
    sources: Seq<(Seq<Seq<char>>, Seq<char>)>,
)
    requires
        collected_directives(rules, sources, files) is Ok,
    ensures
        forall|k: int|
            0 <= k < collected_directives(rules, sources, files)->Ok_0.0.len() ==> (#[trigger] collected_directives(rules, sources, files)->Ok_0.0[k]).3.len() > 0
                && collected_directives(rules, sources, files)->Ok_0.0[k].4.len() > 0,
{
    lemma_collected_valid(rules, sources, files);
}

} // verus!
