//! Template variable parser and substitution engine.
//!
//! Supports `{{variable_name}}` placeholders in command, working_dir and
//! env_vars fields. A variable name starts with an ASCII letter or `_` and
//! continues with ASCII letters, digits or `_`. Variables are detected in
//! strings and resolved at process start time.

use std::collections::HashMap;
use vstd::prelude::*;

use crate::strmap::{map_contains, map_get, map_insert, map_new, string_map};
use crate::text::{is_blank, push_char, push_str, str_eq, to_owned_string, trim};

verus! {

/// A template variable definition with metadata.
#[derive(Debug, Clone, PartialEq)]
pub struct TemplateVar {
    pub name: String,
    pub description: String,
    pub default: Option<String>,
}

/// A template variable as plain values.
pub ghost struct TemplateVarView {
    pub name: Seq<char>,
    pub description: Seq<char>,
    pub default: Option<Seq<char>>,
}

pub open spec fn opt_view(o: Option<String>) -> Option<Seq<char>> {
    match o {
        Some(s) => Some(s@),
        None => None,
    }
}

impl View for TemplateVar {
    type V = TemplateVarView;

    open spec fn view(&self) -> TemplateVarView {
        TemplateVarView {
            name: self.name@,
            description: self.description@,
            default: opt_view(self.default),
        }
    }
}

/// The views of a list of template variables.
pub open spec fn vars_view(vars: Seq<TemplateVar>) -> Seq<TemplateVarView> {
    vars.map_values(|v: TemplateVar| v@)
}

/// Errors of template resolution and substitution.
#[derive(Debug, Clone, PartialEq)]
pub enum TemplateError {
    /// A required variable (no default) was given no value.
    RequiredValue(String),
    /// A placeholder in the input has no resolved value.
    MissingValue(String),
}

/// The message for a required variable given no value.
pub open spec fn required_text(name: Seq<char>) -> Seq<char> {
    "Template variable '"@ + name + "' requires a value (no default set)"@
}

/// The message of a template error.
pub open spec fn error_text(e: TemplateError) -> Seq<char> {
    match e {
        TemplateError::RequiredValue(n) => required_text(n@),
        TemplateError::MissingValue(n) => "Template variable '"@ + n@ + "' has no value"@,
    }
}

impl TemplateError {
    /// The error message.
    pub fn message(&self) -> (m: String)
        ensures
            m@ == error_text(*self),
    {
        let mut m = to_owned_string("Template variable '");
        match self {
            TemplateError::RequiredValue(n) => {
                push_str(&mut m, n.as_str());
                push_str(&mut m, "' requires a value (no default set)");
            },
            TemplateError::MissingValue(n) => {
                push_str(&mut m, n.as_str());
                push_str(&mut m, "' has no value");
            },
        }
        m
    }
}

pub fn clone_string(s: &String) -> (r: String)
    ensures
        r@ == s@,
{
    s.clone()
}

pub fn clone_opt_string(o: &Option<String>) -> (r: Option<String>)
    ensures
        opt_view(r) == opt_view(*o),
{
    match o {
        Some(s) => Some(s.clone()),
        None => None,
    }
}

impl TemplateVar {
    /// A copy with the same contents.
    pub fn duplicate(&self) -> (r: TemplateVar)
        ensures
            r@ == self@,
    {
        TemplateVar {
            name: self.name.clone(),
            description: self.description.clone(),
            default: clone_opt_string(&self.default),
        }
    }

    /// Returns true if this variable requires user input (no default set).
    pub fn is_required(&self) -> (b: bool)
        ensures
            b == (self.default is None),
    {
        self.default.is_none()
    }
}

/// A copy of a list of variables with the same contents.
pub fn clone_vars(v: &Vec<TemplateVar>) -> (r: Vec<TemplateVar>)
    ensures
        vars_view(r@) == vars_view(v@),
{
    let mut out: Vec<TemplateVar> = Vec::new();
    let mut i: usize = 0;
    while i < v.len()
        invariant
            i <= v.len(),
            out.len() == i,
            forall|j: int| 0 <= j < i ==> #[trigger] out@[j]@ == v@[j]@,
        decreases v.len() - i,
    {
        out.push(v[i].duplicate());
        i = i + 1;
    }
    assert(vars_view(out@) =~= vars_view(v@));
    out
}

/// The variables a list of detected names syncs to.
pub open spec fn synced_vars(existing: Seq<TemplateVarView>, names: Seq<Seq<char>>) -> Seq<
    TemplateVarView,
> {
    names.map_values(|n: Seq<char>| synced_var(existing, n))
}

/// Whether some variable in the list has no default.
pub open spec fn any_required(vars: Seq<TemplateVarView>) -> bool {
    exists|i: int| 0 <= i < vars.len() && vars[i].default is None
}

/// Check if any template variables in the list are required (have no default).
pub fn has_required_variables(vars: &[TemplateVar]) -> (b: bool)
    ensures
        b == any_required(vars_view(vars@)),
{
    let mut i: usize = 0;
    while i < vars.len()
        invariant
            i <= vars.len(),
            forall|j: int| 0 <= j < i ==> vars@[j].default is Some,
        decreases vars.len() - i,
    {
        if vars[i].is_required() {
            assert(vars_view(vars@)[i as int].default is None);
            return true;
        }
        i = i + 1;
    }
    assert forall|j: int| 0 <= j < vars_view(vars@).len() implies vars_view(vars@)[j].default is Some by {
        assert(vars@[j].default is Some);
    }
    false
}

/// The value a variable resolves to: its override when one is given, else
/// its default.
pub open spec fn resolved_value(v: TemplateVarView, overrides: Map<Seq<char>, Seq<char>>) -> Option<
    Seq<char>,
> {
    if overrides.dom().contains(v.name) {
        Some(overrides[v.name])
    } else {
        v.default
    }
}

/// Resolution of a list of variables: the map from each name to its
/// resolved value (a later variable of the same name wins), or the name of
/// the first variable that resolves to nothing.
pub open spec fn resolve_spec(vars: Seq<TemplateVarView>, overrides: Map<Seq<char>, Seq<char>>) -> Result<
    Map<Seq<char>, Seq<char>>,
    Seq<char>,
>
    decreases vars.len(),
{
    if vars.len() == 0 {
        Ok(Map::empty())
    } else {
        match resolve_spec(vars.drop_last(), overrides) {
            Err(e) => Err(e),
            Ok(m) => match resolved_value(vars.last(), overrides) {
                None => Err(vars.last().name),
                Some(x) => Ok(m.insert(vars.last().name, x)),
            },
        }
    }
}

/// Resolve template variables by merging defaults with optional overrides.
/// Returns a map of variable name -> resolved value.
/// Returns an error if any required variable (no default) has no override.
pub fn resolve_values(vars: &[TemplateVar], overrides: &HashMap<String, String>) -> (r: Result<
    HashMap<String, String>,
    TemplateError,
>)
    ensures
        match resolve_spec(vars_view(vars@), string_map(*overrides)) {
            Ok(m) => r matches Ok(map) && string_map(map) == m,
            Err(name) => r matches Err(TemplateError::RequiredValue(n)) && n@ == name,
        },
{
    let mut resolved = map_new();
    let ghost vv = vars_view(vars@);
    let ghost ov = string_map(*overrides);
    let mut i: usize = 0;
    assert(string_map(resolved) =~= Map::empty());
    assert(vv.take(0) =~= Seq::<TemplateVarView>::empty());
    while i < vars.len()
        invariant
            i <= vars.len(),
            vv == vars_view(vars@),
            ov == string_map(*overrides),
            resolve_spec(vv.take(i as int), ov) == Ok::<Map<Seq<char>, Seq<char>>, Seq<char>>(
                string_map(resolved),
            ),
        decreases vars.len() - i,
    {
        let var = &vars[i];
        assert(vv.take(i + 1).drop_last() =~= vv.take(i as int));
        assert(vv.take(i + 1).last() == var@);
        match map_get(overrides, var.name.as_str()) {
            Some(v) => {
                map_insert(&mut resolved, var.name.clone(), v.clone());
            },
            None => {
                match &var.default {
                    Some(d) => {
                        map_insert(&mut resolved, var.name.clone(), d.clone());
                    },
                    None => {
                        proof {
                            lemma_resolve_err_prefix(vv, ov, i as int + 1);
                        }
                        return Err(TemplateError::RequiredValue(var.name.clone()));
                    },
                }
            },
        }
        i = i + 1;
    }
    assert(vv.take(vars.len() as int) =~= vv);
    Ok(resolved)
}

/// Once a prefix of the list fails to resolve, the whole list fails with the
/// same name.
pub proof fn lemma_resolve_err_prefix(
    vars: Seq<TemplateVarView>,
    ov: Map<Seq<char>, Seq<char>>,
    k: int,
)
    requires
        0 <= k <= vars.len(),
        resolve_spec(vars.take(k), ov) is Err,
    ensures
        resolve_spec(vars, ov) == resolve_spec(vars.take(k), ov),
    decreases vars.len() - k,
{
    if k < vars.len() {
        assert(vars.take(k + 1).drop_last() =~= vars.take(k));
        lemma_resolve_err_prefix(vars, ov, k + 1);
    } else {
        assert(vars.take(k) =~= vars);
    }
}

/// The last variable in `existing` with the given name, if any.
pub open spec fn last_named(existing: Seq<TemplateVarView>, name: Seq<char>) -> Option<
    TemplateVarView,
>
    decreases existing.len(),
{
    if existing.len() == 0 {
        None
    } else if existing.last().name == name {
        Some(existing.last())
    } else {
        last_named(existing.drop_last(), name)
    }
}

/// The variable a detected name becomes: the existing metadata for it (the
/// last definition wins), or a new variable with empty description and no
/// default.
pub open spec fn synced_var(existing: Seq<TemplateVarView>, name: Seq<char>) -> TemplateVarView {
    match last_named(existing, name) {
        Some(v) => v,
        None => TemplateVarView { name: name, description: Seq::empty(), default: None },
    }
}

fn find_last_named(existing: &[TemplateVar], name: &String) -> (r: Option<usize>)
    ensures
        match last_named(vars_view(existing@), name@) {
            Some(v) => r matches Some(i) && i < existing.len() && existing@[i as int]@ == v,
            None => r is None,
        },
{
    let ghost ev = vars_view(existing@);
    let mut i: usize = existing.len();
    assert(ev.take(i as int) =~= ev);
    while i > 0
        invariant
            i <= existing.len(),
            ev == vars_view(existing@),
            last_named(ev, name@) == last_named(ev.take(i as int), name@),
        decreases i,
    {
        let ghost t = ev.take(i as int);
        assert(t.drop_last() =~= ev.take(i - 1));
        assert(t.last() == existing@[i - 1]@);
        if existing[i - 1].name == *name {
            return Some(i - 1);
        }
        i = i - 1;
    }
    None
}

/// Given the current template_vars and detected variable names from fields,
/// return the updated template_vars list:
/// - New variables get empty metadata
/// - Existing variables keep their metadata
/// - Orphaned variables (not in detected) are removed
pub fn sync_template_vars(existing: &[TemplateVar], detected_names: &[String]) -> (r: Vec<
    TemplateVar,
>)
    ensures
        r.len() == detected_names.len(),
        forall|i: int|
            0 <= i < r.len() ==> #[trigger] r@[i]@ == synced_var(
                vars_view(existing@),
                detected_names@[i]@,
            ),
{
    let mut out: Vec<TemplateVar> = Vec::new();
    let mut i: usize = 0;
    while i < detected_names.len()
        invariant
            i <= detected_names.len(),
            out.len() == i,
            forall|j: int|
                0 <= j < i ==> #[trigger] out@[j]@ == synced_var(
                    vars_view(existing@),
                    detected_names@[j]@,
                ),
        decreases detected_names.len() - i,
    {
        let name = &detected_names[i];
        let v = match find_last_named(existing, name) {
            Some(k) => existing[k].duplicate(),
            None => TemplateVar { name: name.clone(), description: String::new(), default: None },
        };
        out.push(v);
        i = i + 1;
    }
    out
}


// ---------------------------------------------------------------------------
// Placeholder grammar: `{{` identifier `}}`.
// ---------------------------------------------------------------------------

pub open spec fn is_ident_start(c: char) -> bool {
    ('a' <= c && c <= 'z') || ('A' <= c && c <= 'Z') || c == '_'
}

pub open spec fn is_ident_char(c: char) -> bool {
    is_ident_start(c) || ('0' <= c && c <= '9')
}

/// Length of the run of identifier characters of `s` starting at `k`.
pub open spec fn ident_run(s: Seq<char>, k: int) -> nat
    decreases s.len() - k,
{
    if 0 <= k < s.len() && is_ident_char(s[k]) {
        1 + ident_run(s, k + 1)
    } else {
        0
    }
}

/// Length of the placeholder that starts at position `i` of `s`, or 0 when
/// none starts there. Identifier characters never include `}`, so the
/// identifier is the whole run of identifier characters after `{{`.
pub open spec fn match_len(s: Seq<char>, i: int) -> nat {
    if 0 <= i && i + 3 <= s.len() && s[i] == '{' && s[i + 1] == '{' && is_ident_start(s[i + 2]) {
        let e = i + 3 + ident_run(s, i + 3);
        if e + 2 <= s.len() && s[e] == '}' && s[e + 1] == '}' {
            (e + 2 - i) as nat
        } else {
            0
        }
    } else {
        0
    }
}

/// The variable name of the placeholder at `i` (of length `match_len`).
pub open spec fn name_at(s: Seq<char>, i: int) -> Seq<char> {
    s.subrange(i + 2, i + match_len(s, i) - 2)
}

/// The names of the placeholders of `s` from position `i` on, in order,
/// scanning left to right and resuming after each placeholder.
pub open spec fn names_from(s: Seq<char>, i: int) -> Seq<Seq<char>>
    decreases s.len() - i,
{
    if i < 0 || i >= s.len() {
        Seq::empty()
    } else if match_len(s, i) > 0 {
        seq![name_at(s, i)] + names_from(s, i + match_len(s, i))
    } else {
        names_from(s, i + 1)
    }
}

/// All placeholder names of `s`, in order of appearance.
pub open spec fn placeholder_names(s: Seq<char>) -> Seq<Seq<char>> {
    names_from(s, 0)
}

/// `s` with repetitions removed, keeping each first occurrence in order.
pub open spec fn dedup(s: Seq<Seq<char>>) -> Seq<Seq<char>>
    decreases s.len(),
{
    if s.len() == 0 {
        Seq::empty()
    } else {
        let d = dedup(s.drop_last());
        if d.contains(s.last()) {
            d
        } else {
            d.push(s.last())
        }
    }
}

/// `s` from position `i` with every placeholder replaced by its value in
/// `vals`.
pub open spec fn subst_from(s: Seq<char>, i: int, vals: Map<Seq<char>, Seq<char>>) -> Seq<char>
    decreases s.len() - i,
{
    if i < 0 || i >= s.len() {
        Seq::empty()
    } else if match_len(s, i) > 0 {
        vals[name_at(s, i)] + subst_from(s, i + match_len(s, i), vals)
    } else {
        seq![s[i]] + subst_from(s, i + 1, vals)
    }
}

/// The first name of `names` that `vals` has no value for.
pub open spec fn first_missing(names: Seq<Seq<char>>, vals: Map<Seq<char>, Seq<char>>) -> Option<
    Seq<char>,
>
    decreases names.len(),
{
    if names.len() == 0 {
        None
    } else if !vals.dom().contains(names[0]) {
        Some(names[0])
    } else {
        first_missing(names.drop_first(), vals)
    }
}

proof fn lemma_ident_run_bound(s: Seq<char>, k: int)
    requires
        0 <= k <= s.len(),
    ensures
        k + ident_run(s, k) <= s.len(),
        forall|j: int| k <= j < k + ident_run(s, k) ==> is_ident_char(#[trigger] s[j]),
        k + ident_run(s, k) < s.len() ==> !is_ident_char(s[k + ident_run(s, k)]),
    decreases s.len() - k,
{
    if k < s.len() && is_ident_char(s[k]) {
        lemma_ident_run_bound(s, k + 1);
    }
}

fn is_ident_char_exec(d: char) -> (b: bool)
    ensures
        b == is_ident_char(d),
{
    ('a' <= d && d <= 'z') || ('A' <= d && d <= 'Z') || d == '_' || ('0' <= d && d <= '9')
}

/// Scans the placeholder at character `i` of `s`: its length, or 0.
fn placeholder_len(s: &str, n: usize, i: usize) -> (r: usize)
    requires
        n == s@.len(),
        i <= n,
    ensures
        r == match_len(s@, i as int),
        r > 0 ==> i + r <= n && r >= 5,
{
    if n - i < 3 || s.get_char(i) != '{' || s.get_char(i + 1) != '{' {
        return 0;
    }
    let c = s.get_char(i + 2);
    if !(('a' <= c && c <= 'z') || ('A' <= c && c <= 'Z') || c == '_') {
        return 0;
    }
    let mut e: usize = i + 3;
    while e < n && is_ident_char_exec(s.get_char(e))
        invariant
            i + 3 <= e <= n,
            n == s@.len(),
            forall|j: int| i + 3 <= j < e ==> is_ident_char(#[trigger] s@[j]),
        decreases n - e,
    {
        e = e + 1;
    }
    proof {
        lemma_ident_run_bound(s@, i + 3);
        assert(e == i + 3 + ident_run(s@, i + 3)) by {
            let r = ident_run(s@, i + 3);
            if e < i + 3 + r {
                assert(is_ident_char(s@[e as int]));
            }
            if e > i + 3 + r {
                assert(is_ident_char(s@[i + 3 + r]));
            }
        }
    }
    if n - e >= 2 && s.get_char(e) == '}' && s.get_char(e + 1) == '}' {
        e + 2 - i
    } else {
        0
    }
}

/// Whether `v` is one of `names` (by contents).
fn contains_name(names: &Vec<String>, v: &str) -> (b: bool)
    ensures
        b == names@.map_values(|x: String| x@).contains(v@),
{
    let ghost nv = names@.map_values(|x: String| x@);
    let mut i: usize = 0;
    while i < names.len()
        invariant
            i <= names.len(),
            nv == names@.map_values(|x: String| x@),
            forall|j: int| 0 <= j < i ==> nv[j] != v@,
        decreases names.len() - i,
    {
        if str_eq(names[i].as_str(), v) {
            assert(nv[i as int] == v@);
            return true;
        }
        i = i + 1;
    }
    false
}

proof fn lemma_dedup_push(s: Seq<Seq<char>>, x: Seq<char>)
    ensures
        dedup(s.push(x)) == (if dedup(s).contains(x) {
            dedup(s)
        } else {
            dedup(s).push(x)
        }),
{
    assert(s.push(x).drop_last() =~= s);
}

/// Appends to `out` the names of the placeholders of `s` that it does not
/// hold yet.
fn collect_names(s: &str, out: &mut Vec<String>, Ghost(prior): Ghost<Seq<Seq<char>>>)
    requires
        old(out)@.map_values(|x: String| x@) == dedup(prior),
    ensures
        final(out)@.map_values(|x: String| x@) == dedup(prior + placeholder_names(s@)),
{
    let n = s.unicode_len();
    let mut i: usize = 0;
    let ghost mut seen: Seq<Seq<char>> = prior;
    proof {
        assert(prior + Seq::<Seq<char>>::empty() =~= prior);
    }
    while i < n
        invariant
            i <= n,
            n == s@.len(),
            out@.map_values(|x: String| x@) == dedup(seen),
            seen + names_from(s@, i as int) == prior + placeholder_names(s@),
        decreases n - i,
    {
        let k = placeholder_len(s, n, i);
        if k > 0 {
            let name = s.substring_char(i + 2, i + k - 2);
            proof {
                assert(names_from(s@, i as int) == seq![name@] + names_from(s@, (i + k) as int));
                assert(seen + names_from(s@, i as int) =~= seen.push(name@) + names_from(
                    s@,
                    (i + k) as int,
                ));
                lemma_dedup_push(seen, name@);
            }
            if !contains_name(out, name) {
                out.push(String::from_str(name));
                assert(out@.map_values(|x: String| x@) =~= dedup(seen).push(name@));
            }
            proof {
                seen = seen.push(name@);
            }
            i = i + k;
        } else {
            i = i + 1;
        }
    }
    assert(names_from(s@, n as int) =~= Seq::<Seq<char>>::empty());
    assert(seen =~= prior + placeholder_names(s@));
}

/// Extract all unique variable names from a string.
/// Returns variable names in the order they first appear.
pub fn extract_variables(input: &str) -> (r: Vec<String>)
    ensures
        r@.map_values(|x: String| x@) == dedup(placeholder_names(input@)),
{
    let mut out: Vec<String> = Vec::new();
    assert(out@.map_values(|x: String| x@) =~= dedup(Seq::<Seq<char>>::empty()));
    collect_names(input, &mut out, Ghost(Seq::empty()));
    assert(Seq::<Seq<char>>::empty() + placeholder_names(input@) =~= placeholder_names(input@));
    out
}

/// The placeholder names of several fields, one field after another.
pub open spec fn fields_names(fields: Seq<Seq<char>>) -> Seq<Seq<char>>
    decreases fields.len(),
{
    if fields.len() == 0 {
        Seq::empty()
    } else {
        fields_names(fields.drop_last()) + placeholder_names(fields.last())
    }
}

/// Extract all unique variable names from multiple strings (command,
/// working_dir, env_vars). Returns deduplicated variable names in order of
/// first appearance across all inputs.
pub fn extract_variables_from_fields(fields: &[&str]) -> (r: Vec<String>)
    ensures
        r@.map_values(|x: String| x@) == dedup(
            fields_names(fields@.map_values(|f: &str| f@)),
        ),
{
    let ghost fv = fields@.map_values(|f: &str| f@);
    let mut out: Vec<String> = Vec::new();
    let mut i: usize = 0;
    assert(fv.take(0) =~= Seq::<Seq<char>>::empty());
    assert(out@.map_values(|x: String| x@) =~= dedup(Seq::<Seq<char>>::empty()));
    while i < fields.len()
        invariant
            i <= fields.len(),
            fv == fields@.map_values(|f: &str| f@),
            out@.map_values(|x: String| x@) == dedup(fields_names(fv.take(i as int))),
        decreases fields.len() - i,
    {
        assert(fv.take(i + 1).drop_last() =~= fv.take(i as int));
        assert(fv.take(i + 1).last() == fields@[i as int]@);
        collect_names(fields[i], &mut out, Ghost(fields_names(fv.take(i as int))));
        i = i + 1;
    }
    assert(fv.take(fields.len() as int) =~= fv);
    out
}

/// Check if the given fields contain any template variables.
pub fn has_template_variables(fields: &[&str]) -> (b: bool)
    ensures
        b == exists|k: int, i: int|
            0 <= k < fields.len() && #[trigger] match_len(fields@[k]@, i) > 0,
{
    let mut k: usize = 0;
    while k < fields.len()
        invariant
            k <= fields.len(),
            forall|a: int, i: int| 0 <= a < k ==> #[trigger] match_len(fields@[a]@, i) == 0,
        decreases fields.len() - k,
    {
        let f = fields[k];
        let n = f.unicode_len();
        let mut i: usize = 0;
        while i < n
            invariant
                i <= n,
                n == f@.len(),
                k < fields.len(),
                f == fields@[k as int],
                forall|j: int| 0 <= j < i ==> #[trigger] match_len(f@, j) == 0,
            decreases n - i,
        {
            if placeholder_len(f, n, i) > 0 {
                assert(match_len(fields@[k as int]@, i as int) > 0);
                return true;
            }
            i = i + 1;
        }
        assert forall|i: int| #[trigger] match_len(f@, i) == 0 by {
            if !(0 <= i < n) {
                assert(match_len(f@, i) == 0);
            }
        }
        k = k + 1;
    }
    false
}

/// Substitute all `{{variable_name}}` occurrences in a string with resolved
/// values. Returns an error naming the first placeholder that has no value.
pub fn substitute(input: &str, values: &HashMap<String, String>) -> (r: Result<String, TemplateError>)
    ensures
        match first_missing(placeholder_names(input@), string_map(*values)) {
            Some(name) => r matches Err(TemplateError::MissingValue(n)) && n@ == name,
            None => r matches Ok(out) && out@ == subst_from(input@, 0, string_map(*values)),
        },
{
    let n = input.unicode_len();
    let ghost vals = string_map(*values);
    // First pass: every placeholder must have a value.
    let mut i: usize = 0;
    while i < n
        invariant
            i <= n,
            n == input@.len(),
            vals == string_map(*values),
            first_missing(placeholder_names(input@), vals) == first_missing(
                names_from(input@, i as int),
                vals,
            ),
        decreases n - i,
    {
        let k = placeholder_len(input, n, i);
        if k > 0 {
            let name = input.substring_char(i + 2, i + k - 2);
            let ghost rest = names_from(input@, (i + k) as int);
            assert(names_from(input@, i as int) == seq![name@] + rest);
            assert((seq![name@] + rest).drop_first() =~= rest);
            if !map_contains(values, name) {
                return Err(TemplateError::MissingValue(String::from_str(name)));
            }
            i = i + k;
        } else {
            i = i + 1;
        }
    }
    // Second pass: replace.
    let mut out = String::new();
    let mut i: usize = 0;
    assert(out@ + subst_from(input@, 0, vals) =~= subst_from(input@, 0, vals));
    while i < n
        invariant
            i <= n,
            n == input@.len(),
            vals == string_map(*values),
            first_missing(names_from(input@, i as int), vals) is None,
            out@ + subst_from(input@, i as int, vals) == subst_from(input@, 0, vals),
        decreases n - i,
    {
        let ghost prev = out@;
        let k = placeholder_len(input, n, i);
        if k > 0 {
            let name = input.substring_char(i + 2, i + k - 2);
            let ghost rest = names_from(input@, (i + k) as int);
            assert(names_from(input@, i as int) == seq![name@] + rest);
            assert((seq![name@] + rest).drop_first() =~= rest);
            match map_get(values, name) {
                Some(v) => {
                    push_str(&mut out, v.as_str());
                },
                None => {
                    assert(false);
                },
            }
            assert(out@ + subst_from(input@, (i + k) as int, vals) =~= prev + subst_from(
                input@,
                i as int,
                vals,
            ));
            i = i + k;
        } else {
            push_char(&mut out, input.get_char(i));
            assert(out@ + subst_from(input@, (i + 1) as int, vals) =~= prev + subst_from(
                input@,
                i as int,
                vals,
            ));
            i = i + 1;
        }
    }
    assert(subst_from(input@, n as int, vals) =~= Seq::<char>::empty());
    assert(out@ =~= subst_from(input@, 0, vals));
    Ok(out)
}

// ---------------------------------------------------------------------------
// Laws.
// ---------------------------------------------------------------------------

/// Deduplication keeps exactly the elements of its input, each once.
pub proof fn lemma_dedup(s: Seq<Seq<char>>)
    ensures
        dedup(s).no_duplicates(),
        forall|x: Seq<char>| dedup(s).contains(x) <==> s.contains(x),
    decreases s.len(),
{
    if s.len() > 0 {
        lemma_dedup(s.drop_last());
        let d = dedup(s.drop_last());
        assert forall|x: Seq<char>| dedup(s).contains(x) <==> s.contains(x) by {
            if s.contains(x) && x != s.last() {
                let k = choose|k: int| 0 <= k < s.len() && s[k] == x;
                assert(s.drop_last()[k] == x);
            }
            if s.drop_last().contains(x) {
                let k = choose|k: int| 0 <= k < s.drop_last().len() && s.drop_last()[k] == x;
                assert(s[k] == x);
            }
            if x == s.last() {
                assert(s[s.len() - 1] == x);
            }
            if !d.contains(s.last()) {
                if d.push(s.last()).contains(x) && x != s.last() {
                    let k = choose|k: int| 0 <= k < d.push(s.last()).len() && d.push(s.last())[k] == x;
                    assert(d[k] == x);
                }
                if d.contains(x) {
                    let k = choose|k: int| 0 <= k < d.len() && d[k] == x;
                    assert(d.push(s.last())[k] == x);
                }
                if x == s.last() {
                    assert(d.push(s.last())[d.len() as int] == x);
                }
            }
        }
    }
}

/// Extracted variable names are distinct, and they are exactly the names of
/// the placeholders in the input.
pub proof fn lemma_extract_distinct(input: Seq<char>)
    ensures
        dedup(placeholder_names(input)).no_duplicates(),
        forall|x: Seq<char>|
            dedup(placeholder_names(input)).contains(x) <==> placeholder_names(input).contains(x),
{
    lemma_dedup(placeholder_names(input));
}

/// Whether `x` is a variable name: an identifier start followed by
/// identifier characters.
pub open spec fn is_identifier(x: Seq<char>) -> bool {
    x.len() >= 1 && is_ident_start(x[0]) && forall|j: int| 0 <= j < x.len() ==> is_ident_char(
        #[trigger] x[j],
    )
}

/// Every placeholder name is an identifier.
pub proof fn lemma_names_are_identifiers(s: Seq<char>, i: int)
    ensures
        forall|k: int|
            0 <= k < names_from(s, i).len() ==> is_identifier(#[trigger] names_from(s, i)[k]),
    decreases s.len() - i,
{
    if 0 <= i < s.len() {
        if match_len(s, i) > 0 {
            lemma_names_are_identifiers(s, i + match_len(s, i));
            lemma_ident_run_bound(s, i + 3);
            let x = name_at(s, i);
            assert forall|j: int| 0 <= j < x.len() implies is_ident_char(#[trigger] x[j]) by {
                assert(x[j] == s[i + 2 + j]);
            }
            assert(x.len() == 1 + ident_run(s, i + 3));
            assert(x[0] == s[i + 2]);
            assert(is_identifier(x));
            assert(names_from(s, i)[0] == x);
            assert forall|k: int| 0 <= k < names_from(s, i).len() implies is_identifier(
                #[trigger] names_from(s, i)[k],
            ) by {
                if k > 0 {
                    assert(names_from(s, i)[k] == names_from(s, i + match_len(s, i))[k - 1]);
                }
            }
        } else {
            lemma_names_are_identifiers(s, i + 1);
            assert(names_from(s, i) == names_from(s, i + 1));
        }
    }
}

/// A string without placeholders is left unchanged by substitution, with
/// any values.
pub proof fn lemma_subst_no_placeholders(s: Seq<char>, i: int, vals: Map<Seq<char>, Seq<char>>)
    requires
        0 <= i <= s.len(),
        names_from(s, i).len() == 0,
    ensures
        subst_from(s, i, vals) == s.skip(i),
    decreases s.len() - i,
{
    if i < s.len() {
        assert(match_len(s, i) == 0);
        lemma_subst_no_placeholders(s, i + 1, vals);
        assert(s.skip(i) =~= seq![s[i]] + s.skip(i + 1));
    } else {
        assert(s.skip(i) =~= Seq::<char>::empty());
    }
}

/// The names a resolution maps are exactly the names of the variables.
pub proof fn lemma_resolve_domain(vars: Seq<TemplateVarView>, ov: Map<Seq<char>, Seq<char>>)
    requires
        resolve_spec(vars, ov) is Ok,
    ensures
        forall|x: Seq<char>|
            #[trigger] resolve_spec(vars, ov)->Ok_0.dom().contains(x) <==> exists|k: int|
                0 <= k < vars.len() && vars[k].name == x,
    decreases vars.len(),
{
    if vars.len() > 0 {
        lemma_resolve_domain(vars.drop_last(), ov);
        assert forall|x: Seq<char>|
            #[trigger] resolve_spec(vars, ov)->Ok_0.dom().contains(x) <==> exists|k: int|
                0 <= k < vars.len() && vars[k].name == x by {
            if exists|k: int| 0 <= k < vars.len() && vars[k].name == x {
                let k = choose|k: int| 0 <= k < vars.len() && vars[k].name == x;
                if k < vars.len() - 1 {
                    assert(vars.drop_last()[k].name == x);
                }
            }
            if exists|k: int| 0 <= k < vars.drop_last().len() && vars.drop_last()[k].name == x {
                let k = choose|k: int|
                    0 <= k < vars.drop_last().len() && vars.drop_last()[k].name == x;
                assert(vars[k].name == x);
            }
        }
    }
}

proof fn lemma_first_missing_none(names: Seq<Seq<char>>, vals: Map<Seq<char>, Seq<char>>)
    requires
        forall|k: int| 0 <= k < names.len() ==> vals.dom().contains(#[trigger] names[k]),
    ensures
        first_missing(names, vals) is None,
    decreases names.len(),
{
    if names.len() > 0 {
        assert(vals.dom().contains(names[0]));
        assert forall|k: int| 0 <= k < names.drop_first().len() implies vals.dom().contains(
            #[trigger] names.drop_first()[k],
        ) by {
            assert(names.drop_first()[k] == names[k + 1]);
        }
        lemma_first_missing_none(names.drop_first(), vals);
    }
}

/// Resolved values always cover their template: when the variables of an
/// app resolve, and every placeholder of a field names one of those
/// variables, substitution of the resolved values into that field succeeds.
pub proof fn lemma_resolved_values_substitute(
    vars: Seq<TemplateVarView>,
    overrides: Map<Seq<char>, Seq<char>>,
    field: Seq<char>,
)
    requires
        resolve_spec(vars, overrides) is Ok,
        forall|k: int|
            0 <= k < placeholder_names(field).len() ==> exists|j: int|
                0 <= j < vars.len() && vars[j].name == #[trigger] placeholder_names(field)[k],
    ensures
        first_missing(placeholder_names(field), resolve_spec(vars, overrides)->Ok_0) is None,
{
    lemma_resolve_domain(vars, overrides);
    let m = resolve_spec(vars, overrides)->Ok_0;
    assert forall|k: int| 0 <= k < placeholder_names(field).len() implies m.dom().contains(
        #[trigger] placeholder_names(field)[k],
    ) by {
        let x = placeholder_names(field)[k];
        assert(exists|j: int| 0 <= j < vars.len() && vars[j].name == x);
    }
    lemma_first_missing_none(placeholder_names(field), m);
}

/// Syncing keeps the detected names, in order: the variable at each
/// position is named by the detected name at that position.
pub proof fn lemma_sync_names(existing: Seq<TemplateVarView>, name: Seq<char>)
    ensures
        synced_var(existing, name).name == name,
    decreases existing.len(),
{
    if existing.len() > 0 && existing.last().name != name {
        lemma_sync_names(existing.drop_last(), name);
    }
}
/// Whether no two variables share a name.
pub open spec fn names_distinct(vars: Seq<TemplateVarView>) -> bool {
    forall|i: int, j: int| 0 <= i < j < vars.len() ==> vars[i].name != vars[j].name
}

/// A law of resolution: it succeeds exactly when every variable has an
/// override or a default, and fails with the name of the first one that
/// has neither. With distinct names, each name then maps to its override
/// where there is one, else to its default.
pub proof fn lemma_resolve_closed_form(vars: Seq<TemplateVarView>, ov: Map<Seq<char>, Seq<char>>)
    ensures
        resolve_spec(vars, ov) is Ok <==> forall|i: int|
            0 <= i < vars.len() ==> #[trigger] resolved_value(vars[i], ov) is Some,
        resolve_spec(vars, ov) is Err ==> exists|i: int|
            0 <= i < vars.len() && resolved_value(vars[i], ov) is None && resolve_spec(vars, ov)->Err_0
                == vars[i].name && forall|j: int| 0 <= j < i ==> #[trigger] resolved_value(vars[j], ov) is Some,
        resolve_spec(vars, ov) is Ok && names_distinct(vars) ==> forall|i: int|
            0 <= i < vars.len() ==> resolve_spec(vars, ov)->Ok_0[#[trigger] vars[i].name]
                == resolved_value(vars[i], ov)->Some_0,
    decreases vars.len(),
{
    if vars.len() > 0 {
        let p = vars.drop_last();
        lemma_resolve_closed_form(p, ov);
        assert forall|i: int| 0 <= i < p.len() implies p[i] == vars[i] by {}
        if resolve_spec(vars, ov) is Ok {
            assert forall|i: int| 0 <= i < vars.len() implies #[trigger] resolved_value(vars[i], ov) is Some by {
                if i < p.len() {
                    assert(p[i] == vars[i]);
                    assert(resolved_value(p[i], ov) is Some);
                }
            }
        } else {
            match resolve_spec(p, ov) {
                Err(e) => {
                    let i = choose|i: int|
                        0 <= i < p.len() && resolved_value(p[i], ov) is None && e == p[i].name
                            && forall|j: int| 0 <= j < i ==> #[trigger] resolved_value(p[j], ov) is Some;
                    assert(vars[i] == p[i]);
                    assert forall|j: int| 0 <= j < i implies #[trigger] resolved_value(vars[j], ov) is Some by {
                        assert(vars[j] == p[j]);
                    }
                },
                Ok(_) => {
                    let i = vars.len() - 1;
                    assert(vars[i] == vars.last());
                    assert forall|j: int| 0 <= j < i implies #[trigger] resolved_value(vars[j], ov) is Some by {
                        assert(vars[j] == p[j]);
                        assert(resolved_value(p[j], ov) is Some);
                    }
                },
            }
        }
        if resolve_spec(vars, ov) is Ok && names_distinct(vars) {
            assert(names_distinct(p));
            let m = resolve_spec(vars, ov)->Ok_0;
            assert forall|i: int| 0 <= i < vars.len() implies m[#[trigger] vars[i].name]
                == resolved_value(vars[i], ov)->Some_0 by {
                if i < p.len() {
                    assert(p[i] == vars[i]);
                    assert(vars[i].name != vars[vars.len() - 1].name);
                } else {
                    assert(vars[i] == vars.last());
                }
            }
        }
    }
}

/// Resolution, with no overrides, of variables that all have defaults:
/// their defaults, by name (a later variable of the same name wins).
pub open spec fn defaults_map(vars: Seq<TemplateVarView>) -> Map<Seq<char>, Seq<char>>
    decreases vars.len(),
{
    if vars.len() == 0 {
        Map::empty()
    } else {
        defaults_map(vars.drop_last()).insert(
            vars.last().name,
            match vars.last().default {
                Some(d) => d,
                None => Seq::empty(),
            },
        )
    }
}

/// When every variable has a default, resolution with no overrides gives
/// each name its default (the last variable of a name winning).
pub proof fn lemma_resolve_defaults(vars: Seq<TemplateVarView>)
    requires
        forall|i: int| 0 <= i < vars.len() ==> (#[trigger] vars[i]).default is Some,
    ensures
        resolve_spec(vars, Map::empty()) == Ok::<Map<Seq<char>, Seq<char>>, Seq<char>>(defaults_map(vars)),
    decreases vars.len(),
{
    if vars.len() > 0 {
        let p = vars.drop_last();
        assert forall|i: int| 0 <= i < p.len() implies (#[trigger] p[i]).default is Some by {
            assert(p[i] == vars[i]);
        }
        lemma_resolve_defaults(p);
        assert(vars[vars.len() - 1] == vars.last());
    }
}

/// Syncing twice with the same names gives what syncing once gives.
pub proof fn lemma_sync_idempotent(existing: Seq<TemplateVarView>, names: Seq<Seq<char>>)
    ensures
        synced_vars(synced_vars(existing, names), names) == synced_vars(existing, names),
{
    let once = synced_vars(existing, names);
    assert forall|k: int| 0 <= k < names.len() implies synced_var(once, names[k]) == synced_var(
        existing,
        names[k],
    ) by {
        lemma_last_named_synced(existing, names, names[k]);
    }
    assert(synced_vars(once, names) =~= once);
}

/// Among synced variables, the last one named `n` (a detected name) is the
/// one `n` syncs to.
proof fn lemma_last_named_synced(existing: Seq<TemplateVarView>, names: Seq<Seq<char>>, n: Seq<char>)
    requires
        names.contains(n),
    ensures
        last_named(synced_vars(existing, names), n) == Some(synced_var(existing, n)),
    decreases names.len(),
{
    let s = synced_vars(existing, names);
    let p = names.drop_last();
    assert(s.drop_last() =~= synced_vars(existing, p));
    assert(s.last() == synced_var(existing, names.last()));
    lemma_sync_names(existing, names.last());
    if names.last() != n {
        let k = choose|k: int| 0 <= k < names.len() && names[k] == n;
        assert(k < names.len() - 1);
        assert(p[k] == n);
        lemma_last_named_synced(existing, p, n);
    }
}

} // verus!
