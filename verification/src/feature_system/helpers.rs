//! Naming templates and the source-text signals the feature system rules
//! look for.
use vstd::prelude::*;
use crate::text::{
    ascii_lower, ascii_upper, chars_of, concat, contains_text, count_from, count_matches, is_alnum,
    is_ascii_alnum, lower_char, replace, replace_all, str_contains, str_eq, string_of, texts,
    upper_char,
};

verus! {

/// The words of `s` (runs of ASCII letters and digits), each with its first
/// character in upper case, run together; `at_start` says whether the next
/// letter or digit begins a word.
pub open spec fn pascal_from(s: Seq<char>, at_start: bool) -> Seq<char>
    decreases s.len(),
{
    if s.len() == 0 {
        Seq::empty()
    } else if !is_ascii_alnum(s[0]) {
        pascal_from(s.skip(1), true)
    } else if at_start {
        seq![upper_char(s[0])] + pascal_from(s.skip(1), false)
    } else {
        seq![s[0]] + pascal_from(s.skip(1), false)
    }
}

pub open spec fn spec_pascal_case(s: Seq<char>) -> Seq<char> {
    pascal_from(s, true)
}

pub open spec fn spec_camel_case(s: Seq<char>) -> Seq<char> {
    let p = spec_pascal_case(s);
    if p.len() == 0 {
        p
    } else {
        seq![lower_char(p[0])] + p.skip(1)
    }
}

/// The template with `{domain}`, `{domainCamel}` and `{DomainPascal}`
/// replaced, in that order.
pub open spec fn spec_render_template(template: Seq<char>, domain: Seq<char>) -> Seq<char> {
    replace_all(
        replace_all(
            replace_all(template, "{domain}"@, domain),
            "{domainCamel}"@,
            spec_camel_case(domain),
        ),
        "{DomainPascal}"@,
        spec_pascal_case(domain),
    )
}

/// `user-profile` becomes `UserProfile`.
pub fn domain_pascal_case(domain: &str) -> (r: String)
    ensures
        r@ == spec_pascal_case(domain@),
{
    let cs = chars_of(domain);
    let mut out: Vec<char> = Vec::new();
    let mut at_start = true;
    let mut i: usize = 0;
    assert(cs@.skip(0) =~= cs@);
    assert(out@ + pascal_from(cs@, true) =~= pascal_from(cs@, true));
    while i < cs.len()
        invariant
            i <= cs@.len(),
            cs@ == domain@,
            pascal_from(cs@, true) == out@ + pascal_from(cs@.skip(i as int), at_start),
        decreases cs@.len() - i,
    {
        let ghost rest = cs@.skip(i as int);
        assert(rest.skip(1) =~= cs@.skip(i + 1));
        let c = cs[i];
        if !is_alnum(c) {
            at_start = true;
        } else if at_start {
            let u = ascii_upper(c);
            out.push(u);
            at_start = false;
            assert(pascal_from(cs@, true) == out@ + pascal_from(cs@.skip(i + 1), at_start));
        } else {
            out.push(c);
            assert(pascal_from(cs@, true) == out@ + pascal_from(cs@.skip(i + 1), at_start));
        }
        i = i + 1;
    }
    assert(cs@.skip(cs@.len() as int) =~= Seq::<char>::empty());
    assert(out@ =~= out@ + Seq::<char>::empty());
    string_of(out.as_slice())
}

/// `user-profile` becomes `userProfile`.
pub fn domain_camel_case(domain: &str) -> (r: String)
    ensures
        r@ == spec_camel_case(domain@),
{
    let pascal = domain_pascal_case(domain);
    let cs = chars_of(pascal.as_str());
    if cs.len() == 0 {
        return String::new();
    }
    let mut out: Vec<char> = Vec::new();
    out.push(ascii_lower(cs[0]));
    let mut i: usize = 1;
    while i < cs.len()
        invariant
            1 <= i <= cs@.len(),
            out@ == seq![lower_char(cs@[0])] + cs@.subrange(1, i as int),
        decreases cs@.len() - i,
    {
        out.push(cs[i]);
        assert(cs@.subrange(1, i + 1) =~= cs@.subrange(1, i as int).push(cs@[i as int]));
        i = i + 1;
    }
    assert(cs@.subrange(1, cs@.len() as int) =~= cs@.skip(1));
    string_of(out.as_slice())
}

/// Fills a naming template for a domain.
pub fn render_feature_template(template: &str, domain: &str) -> (r: String)
    ensures
        r@ == spec_render_template(template@, domain@),
{
    proof {
        reveal_strlit("{domain}");
        reveal_strlit("{domainCamel}");
        reveal_strlit("{DomainPascal}");
    }
    let a = replace(template, "{domain}", domain);
    let camel = domain_camel_case(domain);
    let b = replace(a.as_str(), "{domainCamel}", camel.as_str());
    let pascal = domain_pascal_case(domain);
    replace(b.as_str(), "{DomainPascal}", pascal.as_str())
}

/// The source exports a value binding named `name`.
pub open spec fn spec_exports_value(s: Seq<char>, name: Seq<char>) -> bool {
    contains_text(s, "export const "@ + name) || contains_text(s, "export let "@ + name)
        || contains_text(s, "export var "@ + name) || (contains_text(s, "const "@ + name)
        && contains_text(s, "export { "@ + name + " }"@))
}

pub fn source_exports_value(source: &str, name: &str) -> (r: bool)
    ensures
        r == spec_exports_value(source@, name@),
{
    str_contains(source, concat("export const ", name).as_str()) || str_contains(
        source,
        concat("export let ", name).as_str(),
    ) || str_contains(source, concat("export var ", name).as_str()) || (str_contains(
        source,
        concat("const ", name).as_str(),
    ) && str_contains(source, concat(concat("export { ", name).as_str(), " }").as_str()))
}

/// The source exports a class named `name` that extends `Error`.
pub open spec fn spec_exports_error_class(s: Seq<char>, name: Seq<char>) -> bool {
    (contains_text(s, "export class "@ + name) && contains_text(s, "extends Error"@)) || (
    contains_text(s, "class "@ + name) && contains_text(s, "extends Error"@) && contains_text(
        s,
        "export { "@ + name + " }"@,
    ))
}

pub fn source_exports_error_class(source: &str, name: &str) -> (r: bool)
    ensures
        r == spec_exports_error_class(source@, name@),
{
    (str_contains(source, concat("export class ", name).as_str()) && str_contains(
        source,
        "extends Error",
    )) || (str_contains(source, concat("class ", name).as_str()) && str_contains(
        source,
        "extends Error",
    ) && str_contains(source, concat(concat("export { ", name).as_str(), " }").as_str()))
}

/// The source calls one of the configured HTTP clients (`fetch` included when listed).
pub open spec fn spec_has_read_call(s: Seq<char>, clients: Seq<Seq<char>>) -> bool {
    exists|k: int| 0 <= k < clients.len() && contains_text(s, clients[k] + "("@)
}

pub fn source_has_configured_read_call(source: &str, http_client_names: &Vec<String>) -> (r: bool)
    ensures
        r == spec_has_read_call(source@, texts(http_client_names@)),
{
    let mut k: usize = 0;
    while k < http_client_names.len()
        invariant
            k <= http_client_names@.len(),
            forall|j: int| 0 <= j < k ==> !contains_text(source@, http_client_names@[j]@ + "("@),
        decreases http_client_names@.len() - k,
    {
        let client = http_client_names[k].as_str();
        let found = if str_eq(client, "fetch") {
            str_contains(source, "fetch(")
        } else {
            str_contains(source, concat(client, "(").as_str())
        };
        proof {
            reveal_strlit("fetch");
            reveal_strlit("fetch(");
            reveal_strlit("(");
            assert("fetch("@ =~= "fetch"@ + "("@);
        }
        if found {
            assert(texts(http_client_names@)[k as int] == http_client_names@[k as int]@);
            return true;
        }
        k = k + 1;
    }
    false
}

/// "signal" occurs at least twice (accepted, then passed on).
pub open spec fn signal_passed(s: Seq<char>) -> bool {
    count_from(s, "signal"@, 0) >= 2
}

pub fn signal_count_at_least_two(source: &str) -> (r: bool)
    ensures
        r == signal_passed(source@),
{
    proof {
        reveal_strlit("signal");
    }
    count_matches(source, "signal") >= 2
}

pub open spec fn spec_accepts_abort_signal(s: Seq<char>) -> bool {
    contains_text(s, "AbortSignal"@) && signal_passed(s)
}

pub fn source_accepts_and_passes_abort_signal(source: &str) -> (r: bool)
    ensures
        r == spec_accepts_abort_signal(source@),
{
    str_contains(source, "AbortSignal") && signal_count_at_least_two(source)
}

pub open spec fn spec_has_query_hook_read(s: Seq<char>) -> bool {
    contains_text(s, "useQuery("@) || contains_text(s, "useSuspenseQuery("@) || contains_text(
        s,
        "useInfiniteQuery("@,
    )
}

pub fn source_has_query_hook_read(source: &str) -> (r: bool)
    ensures
        r == spec_has_query_hook_read(source@),
{
    str_contains(source, "useQuery(") || str_contains(source, "useSuspenseQuery(") || str_contains(
        source,
        "useInfiniteQuery(",
    )
}

/// The source reads or primes the query cache.
pub open spec fn spec_has_query_ownership(s: Seq<char>) -> bool {
    spec_has_query_hook_read(s) || contains_text(s, "prefetchQuery("@) || contains_text(
        s,
        "fetchQuery("@,
    ) || contains_text(s, "ensureQueryData("@) || contains_text(s, "getQueryData("@)
}

pub fn source_has_query_ownership(source: &str) -> (r: bool)
    ensures
        r == spec_has_query_ownership(source@),
{
    source_has_query_hook_read(source) || str_contains(source, "prefetchQuery(") || str_contains(
        source,
        "fetchQuery(",
    ) || str_contains(source, "ensureQueryData(") || str_contains(source, "getQueryData(")
}

/// The source uses the query-options surface; the same signals as query ownership.
pub fn source_uses_query_options_surface(source: &str) -> (r: bool)
    ensures
        r == spec_has_query_ownership(source@),
{
    source_has_query_hook_read(source) || str_contains(source, "prefetchQuery(") || str_contains(
        source,
        "fetchQuery(",
    ) || str_contains(source, "ensureQueryData(") || str_contains(source, "getQueryData(")
}

pub open spec fn spec_imports_and_uses_query_options(s: Seq<char>) -> bool {
    contains_text(s, "@tanstack/react-query"@) && contains_text(s, "queryOptions"@) && contains_text(
        s,
        "queryOptions("@,
    )
}

pub fn source_imports_and_uses_query_options(source: &str) -> (r: bool)
    ensures
        r == spec_imports_and_uses_query_options(source@),
{
    str_contains(source, "@tanstack/react-query") && str_contains(source, "queryOptions")
        && str_contains(source, "queryOptions(")
}

pub fn source_declares_query_key(source: &str) -> (r: bool)
    ensures
        r == contains_text(source@, "queryKey"@),
{
    str_contains(source, "queryKey")
}

pub open spec fn spec_passes_query_signal(s: Seq<char>) -> bool {
    contains_text(s, "queryFn"@) && signal_passed(s)
}

pub fn source_passes_query_signal(source: &str) -> (r: bool)
    ensures
        r == spec_passes_query_signal(source@),
{
    str_contains(source, "queryFn") && signal_count_at_least_two(source)
}

pub open spec fn spec_has_mutation_invalidation(s: Seq<char>) -> bool {
    contains_text(s, "useMutation("@) && (contains_text(s, "onSuccess"@) || contains_text(
        s,
        "onSettled"@,
    )) && contains_text(s, "invalidateQueries"@)
}

pub fn source_has_mutation_invalidation(source: &str) -> (r: bool)
    ensures
        r == spec_has_mutation_invalidation(source@),
{
    str_contains(source, "useMutation(") && (str_contains(source, "onSuccess") || str_contains(
        source,
        "onSettled",
    )) && str_contains(source, "invalidateQueries")
}

pub open spec fn spec_has_optimistic_update_contract(s: Seq<char>) -> bool {
    contains_text(s, "cancelQueries"@) && (contains_text(s, "previous"@) || contains_text(
        s,
        "snapshot"@,
    ) || contains_text(s, "rollback"@)) && (contains_text(s, "onSettled"@) || contains_text(
        s,
        "invalidateQueries"@,
    ))
}

pub fn source_has_optimistic_update_contract(source: &str) -> (r: bool)
    ensures
        r == spec_has_optimistic_update_contract(source@),
{
    str_contains(source, "cancelQueries") && (str_contains(source, "previous") || str_contains(
        source,
        "snapshot",
    ) || str_contains(source, "rollback")) && (str_contains(source, "onSettled") || str_contains(
        source,
        "invalidateQueries",
    ))
}

} // verus!
