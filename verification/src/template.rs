//! Templates with secret placeholders: `{{ PROVIDER://NAME || 'fallback' }}`.
//!
//! Each placeholder holds one or more candidates separated by `||`; the first
//! candidate that resolves gives the value. A candidate in quotes is a literal.

use vstd::prelude::*;
use crate::text::{chars_of, ends_with, push_str, starts_with, string_from, trim, trim_chars};
use crate::textops::{
    join, push_joined, replace_all, replace_chars, sorted_unique, split_by, split_on,
    string_views, strictly_sorted, views,
};

verus! {

// ---------------------------------------------------------------------------
// Finding the placeholders
// ---------------------------------------------------------------------------

/// A placeholder opened just before `i` can close at `j`: the run from `i` to `j`
/// is not empty and holds no line break, and `}}` follows it.
pub open spec fn closes_at(s: Seq<char>, i: int, j: int) -> bool {
    &&& 0 <= i < j
    &&& j + 2 <= s.len()
    &&& s[j] == '}' && s[j + 1] == '}'
    &&& forall|k: int| i <= k < j ==> s[k] != '\n'
}

/// `j` is the first place where the placeholder opened just before `i` closes
/// (the shortest run: `{{(.+?)}}`).
pub open spec fn first_close(s: Seq<char>, i: int, j: int) -> bool {
    closes_at(s, i, j) && forall|k: int| i < k < j ==> !closes_at(s, i, k)
}

/// Whether a placeholder starts at `p`: `{{`, then a run that closes.
pub open spec fn opens_at(s: Seq<char>, p: int) -> bool {
    &&& 0 <= p && p + 1 < s.len()
    &&& s[p] == '{' && s[p + 1] == '{'
    &&& exists|j: int| #[trigger] first_close(s, p + 2, j)
}

/// The contents of the placeholders from position `p` on, left to right, each
/// match starting where the last one ended: at each position, a placeholder is
/// `{{`, the shortest non-empty run without a line break, and `}}`.
pub open spec fn placeholders_from(s: Seq<char>, p: int) -> Seq<Seq<char>>
    decreases s.len() - p,
    when 0 <= p <= s.len()
{
    if p >= s.len() {
        Seq::empty()
    } else if opens_at(s, p) {
        let j = choose|j: int| #[trigger] first_close(s, p + 2, j);
        seq![s.subrange(p + 2, j)] + placeholders_from(s, j + 2)
    } else {
        placeholders_from(s, p + 1)
    }
}

proof fn lemma_first_close_unique(s: Seq<char>, i: int, j1: int, j2: int)
    requires
        first_close(s, i, j1),
        first_close(s, i, j2),
    ensures
        j1 == j2,
{
    if j1 < j2 {
        assert(!closes_at(s, i, j1));
    }
    if j2 < j1 {
        assert(!closes_at(s, i, j2));
    }
}

/// Where the placeholder opened just before `i` closes, if it does.
fn find_close(s: &[char], i: usize) -> (r: Option<usize>)
    requires
        i <= s@.len(),
    ensures
        match r {
            Some(j) => first_close(s@, i as int, j as int),
            None => forall|j: int| !closes_at(s@, i as int, j),
        },
{
    let mut k: usize = i;
    while k < s.len()
        invariant
            i <= k <= s@.len(),
            forall|m: int| i <= m < k ==> s@[m] != '\n',
            forall|m: int| i < m < k ==> !closes_at(s@, i as int, m),
        decreases s@.len() - k,
    {
        if k > i && k + 1 < s.len() && s[k] == '}' && s[k + 1] == '}' {
            return Some(k);
        }
        if s[k] == '\n' {
            assert forall|j: int| !closes_at(s@, i as int, j) by {
                if closes_at(s@, i as int, j) && j > k {
                    assert(s@[k as int] != '\n');
                }
            }
            return None;
        }
        k = k + 1;
    }
    None
}

/// The contents of a template's placeholders, left to right.
fn scan_placeholders(s: &[char]) -> (r: Vec<Vec<char>>)
    ensures
        views(r@) == placeholders_from(s@, 0),
{
    let mut out: Vec<Vec<char>> = Vec::new();
    let mut p: usize = 0;
    while p < s.len()
        invariant
            p <= s@.len(),
            views(out@) + placeholders_from(s@, p as int) == placeholders_from(s@, 0),
        decreases s@.len() - p,
    {
        let ghost before = views(out@);
        if p + 1 < s.len() && s[p] == '{' && s[p + 1] == '{' {
            match find_close(s, p + 2) {
                Some(j) => {
                    proof {
                        assert(opens_at(s@, p as int));
                        let c = choose|c: int| #[trigger] first_close(s@, p + 2, c);
                        lemma_first_close_unique(s@, p + 2, c, j as int);
                    }
                    let mut part: Vec<char> = Vec::new();
                    let mut k: usize = p + 2;
                    while k < j
                        invariant
                            p + 2 <= k <= j,
                            j + 2 <= s@.len(),
                            part@ == s@.subrange(p + 2, k as int),
                        decreases j - k,
                    {
                        part.push(s[k]);
                        assert(s@.subrange(p + 2, k + 1) =~= s@.subrange(p + 2, k as int).push(s@[k as int]));
                        k = k + 1;
                    }
                    let ghost pv = part@;
                    out.push(part);
                    assert(views(out@) =~= before.push(pv));
                    assert(before + placeholders_from(s@, p as int) == before + (seq![pv]
                        + placeholders_from(s@, j + 2)));
                    assert(views(out@) + placeholders_from(s@, j + 2) =~= before + (seq![pv]
                        + placeholders_from(s@, j + 2)));
                    p = j + 2;
                },
                None => {
                    assert(!opens_at(s@, p as int));
                    p = p + 1;
                },
            }
        } else {
            assert(!opens_at(s@, p as int));
            p = p + 1;
        }
    }
    assert(placeholders_from(s@, p as int) =~= Seq::<Seq<char>>::empty());
    assert(views(out@) + Seq::<Seq<char>>::empty() =~= views(out@));
    out
}

/// What a template's placeholders contain, each once, in sorted order.
pub open spec fn is_sorted_refs(r: Seq<Seq<char>>, template: Seq<char>) -> bool {
    strictly_sorted(r) && forall|x: Seq<char>| #[trigger] r.contains(x) <==> placeholders_from(
        template,
        0,
    ).contains(x)
}

/// Turn character vectors into strings.
fn strings_of(v: &Vec<Vec<char>>) -> (r: Vec<String>)
    ensures
        string_views(r@) == views(v@),
{
    let mut out: Vec<String> = Vec::new();
    let mut i: usize = 0;
    while i < v.len()
        invariant
            i <= v@.len(),
            out@.len() == i,
            forall|k: int| 0 <= k < i ==> (#[trigger] out@[k])@ == v@[k]@,
        decreases v@.len() - i,
    {
        out.push(string_from(v[i].as_slice()));
        i = i + 1;
    }
    assert(string_views(out@) =~= views(v@));
    out
}

/// The expressions inside a template's placeholders, each once, in sorted order.
pub fn placeholder_refs(template: &str) -> (r: Vec<String>)
    ensures
        is_sorted_refs(string_views(r@), template@),
{
    let s = chars_of(template);
    let caps = scan_placeholders(s.as_slice());
    strings_of(&sorted_unique(&caps))
}

// ---------------------------------------------------------------------------
// Candidates
// ---------------------------------------------------------------------------

/// The candidates of a placeholder: its text split on `||`, each part trimmed.
pub open spec fn spec_candidates(full_ref: Seq<char>) -> Seq<Seq<char>> {
    split_on(full_ref, "||"@).map_values(|c: Seq<char>| trim(c))
}

/// Split a placeholder into its trimmed candidates.
pub fn split_candidates(full_ref: &str) -> (r: Vec<String>)
    ensures
        string_views(r@) == spec_candidates(full_ref@),
{
    proof {
        reveal_strlit("||");
    }
    let s = chars_of(full_ref);
    let sep = chars_of("||");
    let parts = split_by(s.as_slice(), sep.as_slice());
    let ghost pv = views(parts@);
    let mut out: Vec<String> = Vec::new();
    let mut i: usize = 0;
    while i < parts.len()
        invariant
            i <= parts@.len(),
            pv == views(parts@),
            out@.len() == i,
            forall|k: int| 0 <= k < i ==> (#[trigger] out@[k])@ == trim(parts@[k]@),
        decreases parts@.len() - i,
    {
        let t = trim_chars(parts[i].as_slice());
        out.push(string_from(t.as_slice()));
        i = i + 1;
    }
    assert(string_views(out@) =~= pv.map_values(|c: Seq<char>| trim(c)));
    out
}

/// A candidate quoted with `"` (at both ends), or with `'` at both ends and at
/// least two characters long, is a literal whose value is what is between the quotes.
pub open spec fn spec_literal(c: Seq<char>) -> Option<Seq<char>> {
    if (starts_with(c, "\""@) && ends_with(c, "\""@)) || (starts_with(c, "'"@) && ends_with(c, "'"@)
        && c.len() >= 2) {
        Some(c.subrange(1, c.len() - 1))
    } else {
        None
    }
}

/// The value of a literal candidate, or `None` for a secret reference.
/// A lone `"` reads as an empty quoted literal with no room for a value, which is refused.
pub fn literal_value(candidate: &str) -> (r: Option<String>)
    requires
        candidate@ != "\""@,
    ensures
        match r {
            Some(v) => spec_literal(candidate@) == Some(v@),
            None => spec_literal(candidate@) is None,
        },
{
    proof {
        reveal_strlit("\"");
        reveal_strlit("'");
    }
    let c = chars_of(candidate);
    let n = c.len();
    let dq = n >= 1 && c[0] == '"' && c[n - 1] == '"';
    let sq = n >= 2 && c[0] == '\'' && c[n - 1] == '\'';
    proof {
        if n >= 1 {
            assert(starts_with(c@, "\""@) == (c@[0] == '"')) by {
                assert(c@.subrange(0, 1)[0] == c@[0]);
                if c@[0] == '"' {
                    assert(c@.subrange(0, 1) =~= "\""@);
                }
            }
            assert(ends_with(c@, "\""@) == (c@[n - 1] == '"')) by {
                assert(c@.subrange(n - 1, n as int)[0] == c@[n - 1]);
                if c@[n - 1] == '"' {
                    assert(c@.subrange(n - 1, n as int) =~= "\""@);
                }
            }
            assert(starts_with(c@, "'"@) == (c@[0] == '\'')) by {
                assert(c@.subrange(0, 1)[0] == c@[0]);
                if c@[0] == '\'' {
                    assert(c@.subrange(0, 1) =~= "'"@);
                }
            }
            assert(ends_with(c@, "'"@) == (c@[n - 1] == '\'')) by {
                assert(c@.subrange(n - 1, n as int)[0] == c@[n - 1]);
                if c@[n - 1] == '\'' {
                    assert(c@.subrange(n - 1, n as int) =~= "'"@);
                }
            }
        }
        if dq && n == 1 {
            assert(c@ =~= "\""@);
        }
    }
    if dq || sq {
        let inner = crate::text::slice_of(c.as_slice(), 1, n - 1);
        Some(string_from(inner.as_slice()))
    } else {
        None
    }
}

// ---------------------------------------------------------------------------
// Messages
// ---------------------------------------------------------------------------

/// `{{` + ref + `}}`: the text a placeholder stands in.
pub open spec fn spec_placeholder(full_ref: Seq<char>) -> Seq<char> {
    "{{"@ + full_ref + "}}"@
}

/// The report for a placeholder none of whose candidates resolved.
pub open spec fn spec_placeholder_failure(full_ref: Seq<char>, errors: Seq<Seq<char>>) -> Seq<char> {
    "  "@ + spec_placeholder(full_ref) + ": All candidates failed:\n    - "@ + join(errors, "\n    - "@)
}

/// Report a placeholder whose candidates all failed, with each candidate's error.
pub fn placeholder_failure(full_ref: &str, errors: &Vec<String>) -> (r: String)
    ensures
        r@ == spec_placeholder_failure(full_ref@, string_views(errors@)),
{
    let mut v = chars_of("  ");
    push_str(&mut v, "{{");
    push_str(&mut v, full_ref);
    push_str(&mut v, "}}");
    push_str(&mut v, ": All candidates failed:\n    - ");
    let ev = char_vecs(errors);
    let sep = chars_of("\n    - ");
    push_joined(&mut v, &ev, sep.as_slice());
    assert(v@ =~= spec_placeholder_failure(full_ref@, string_views(errors@)));
    string_from(v.as_slice())
}

fn char_vecs(v: &Vec<String>) -> (r: Vec<Vec<char>>)
    ensures
        views(r@) == string_views(v@),
{
    let mut out: Vec<Vec<char>> = Vec::new();
    let mut i: usize = 0;
    while i < v.len()
        invariant
            i <= v@.len(),
            out@.len() == i,
            forall|k: int| 0 <= k < i ==> (#[trigger] out@[k])@ == v@[k]@,
        decreases v@.len() - i,
    {
        out.push(chars_of(v[i].as_str()));
        i = i + 1;
    }
    assert(views(out@) =~= string_views(v@));
    out
}

/// The error for a template with unresolved placeholders.
pub open spec fn spec_inject_failure(reports: Seq<Seq<char>>) -> Seq<char> {
    "Failed to resolve "@ + crate::text::decimal(reports.len()) + " placeholder(s) in template:\n"@ + join(
        reports,
        "\n"@,
    )
}

/// The error for a template whose placeholders in `reports` could not be resolved.
pub fn inject_failure(reports: &Vec<String>) -> (r: String)
    ensures
        r@ == spec_inject_failure(string_views(reports@)),
{
    let mut v = chars_of("Failed to resolve ");
    crate::text::push_decimal(&mut v, reports.len() as u64);
    push_str(&mut v, " placeholder(s) in template:\n");
    let ev = char_vecs(reports);
    let sep = chars_of("\n");
    push_joined(&mut v, &ev, sep.as_slice());
    assert(v@ =~= spec_inject_failure(string_views(reports@)));
    string_from(v.as_slice())
}

// ---------------------------------------------------------------------------
// Filling in
// ---------------------------------------------------------------------------

/// The template after replacing, in order, every `{{ref}}` of each resolved pair by its value.
pub open spec fn spec_render(template: Seq<char>, resolved: Seq<(Seq<char>, Seq<char>)>) -> Seq<char>
    decreases resolved.len(),
{
    if resolved.len() == 0 {
        template
    } else {
        let (r, v) = resolved.last();
        replace_all(spec_render(template, resolved.drop_last()), spec_placeholder(r), v)
    }
}

/// The views of resolved pairs.
pub open spec fn pair_views(v: Seq<(String, String)>) -> Seq<(Seq<char>, Seq<char>)> {
    v.map_values(|p: (String, String)| (p.0@, p.1@))
}

/// Fill in the template with the resolved values.
pub fn render_template(template: &str, resolved: &Vec<(String, String)>) -> (r: String)
    ensures
        r@ == spec_render(template@, pair_views(resolved@)),
{
    proof {
        reveal_strlit("{{");
        reveal_strlit("}}");
    }
    let ghost rv = pair_views(resolved@);
    let mut out = chars_of(template);
    let mut i: usize = 0;
    while i < resolved.len()
        invariant
            i <= resolved@.len(),
            rv == pair_views(resolved@),
            out@ == spec_render(template@, rv.subrange(0, i as int)),
        decreases resolved@.len() - i,
    {
        proof {
            reveal_strlit("{{");
        }
        let mut pat = chars_of("{{");
        push_str(&mut pat, resolved[i].0.as_str());
        push_str(&mut pat, "}}");
        assert(pat@ =~= spec_placeholder(resolved@[i as int].0@));
        let value = chars_of(resolved[i].1.as_str());
        out = replace_chars(out.as_slice(), pat.as_slice(), value.as_slice());
        i = i + 1;
        assert(rv.subrange(0, i as int).drop_last() =~= rv.subrange(0, i - 1));
    }
    assert(rv.subrange(0, resolved@.len() as int) =~= rv);
    string_from(out.as_slice())
}

/// A template without placeholders comes out as it went in.
pub proof fn law_render_without_placeholders(template: Seq<char>)
    ensures
        spec_render(template, Seq::empty()) == template,
{
}

/// A value is put where its placeholder stood: a template that is exactly one
/// placeholder renders to that placeholder's value.
pub proof fn law_render_single(full_ref: Seq<char>, value: Seq<char>)
    ensures
        spec_render(spec_placeholder(full_ref), seq![(full_ref, value)]) == value,
{
    let p = spec_placeholder(full_ref);
    let s = seq![(full_ref, value)];
    assert(s.drop_last() =~= Seq::<(Seq<char>, Seq<char>)>::empty());
    assert(spec_render(p, s.drop_last()) == p);
    assert(s.last() == (full_ref, value));
    reveal_strlit("{{");
    assert(p.len() > 0);
    assert(crate::text::occurs_at(p, p, 0)) by {
        assert(p.subrange(0, p.len() as int) =~= p);
    }
    assert(crate::textops::replace_from(p, p, value, p.len() as int) =~= Seq::<char>::empty());
    assert(value + Seq::<char>::empty() =~= value);
}

// ---------------------------------------------------------------------------
// Resolving a placeholder
// ---------------------------------------------------------------------------

/// What looking up a secret reference gave.
pub enum LookupOutcome {
    /// No configured provider has that id.
    UnknownProvider,
    /// The provider has no secret of that name in the database.
    NotFound,
    /// The database lookup failed with this message.
    DbError(String),
    /// The secret's value (from the local copy while fresh, else from the
    /// provider), or why it could not be had.
    Fetched(Result<String, String>),
}

/// What resolving a placeholder does next.
pub enum ResolveStep {
    /// Look up this secret and call again with the outcome appended.
    Lookup { provider_id: String, name: String },
    /// The placeholder's value.
    Resolved(String),
    /// Every candidate failed: the report for this placeholder.
    Failed(String),
}

/// The next step, in the abstract.
pub enum StepView {
    Lookup(Seq<char>, Seq<char>),
    Resolved(Seq<char>),
    Failed(Seq<char>),
    /// A lone `"` candidate was reached (where slicing out a literal's value fails).
    Stuck,
}

/// Resolution from candidate `i` on, with outcome `k` the next to use and
/// `errs` the errors of the candidates passed over: the first literal gives its
/// value; a candidate that is not a reference is recorded as invalid; a reference
/// is looked up (when its outcome is not known yet), and the lookup's value is
/// taken or its error recorded; when no candidate is left, the placeholder fails
/// with all the errors.
pub open spec fn resolve_from(
    cands: Seq<Seq<char>>,
    i: int,
    default_provider: Option<Seq<char>>,
    outcomes: Seq<LookupOutcome>,
    k: int,
    errs: Seq<Seq<char>>,
    full_ref: Seq<char>,
) -> StepView
    decreases cands.len() - i,
{
    if i < 0 || i >= cands.len() {
        StepView::Failed(spec_placeholder_failure(full_ref, errs))
    } else {
        let c = cands[i];
        if c == "\""@ {
            StepView::Stuck
        } else {
            match spec_literal(c) {
                Some(v) => StepView::Resolved(v),
                None => match crate::refs::spec_parse_secret_ref(c, default_provider) {
                    Err(_) => resolve_from(
                        cands,
                        i + 1,
                        default_provider,
                        outcomes,
                        k,
                        errs.push("Invalid format: "@ + c),
                        full_ref,
                    ),
                    Ok((p, n)) => if k < 0 || k >= outcomes.len() {
                        StepView::Lookup(p, n)
                    } else {
                        match outcomes[k] {
                            LookupOutcome::Fetched(Ok(v)) => StepView::Resolved(v@),
                            LookupOutcome::UnknownProvider => resolve_from(
                                cands,
                                i + 1,
                                default_provider,
                                outcomes,
                                k + 1,
                                errs.push("Unknown provider: "@ + p),
                                full_ref,
                            ),
                            LookupOutcome::NotFound => resolve_from(
                                cands,
                                i + 1,
                                default_provider,
                                outcomes,
                                k + 1,
                                errs.push("Secret not found: "@ + p + "://"@ + n),
                                full_ref,
                            ),
                            LookupOutcome::DbError(e) => resolve_from(
                                cands,
                                i + 1,
                                default_provider,
                                outcomes,
                                k + 1,
                                errs.push("DB error: "@ + e@),
                                full_ref,
                            ),
                            LookupOutcome::Fetched(Err(e)) => resolve_from(
                                cands,
                                i + 1,
                                default_provider,
                                outcomes,
                                k + 1,
                                errs.push(e@),
                                full_ref,
                            ),
                        }
                    },
                },
            }
        }
    }
}

/// How a placeholder resolves, given the outcomes of the lookups made so far.
pub open spec fn spec_resolve(
    full_ref: Seq<char>,
    default_provider: Option<Seq<char>>,
    outcomes: Seq<LookupOutcome>,
) -> StepView {
    resolve_from(spec_candidates(full_ref), 0, default_provider, outcomes, 0, Seq::empty(), full_ref)
}

/// The step matches its abstract form.
pub open spec fn step_is(r: ResolveStep, s: StepView) -> bool {
    match (r, s) {
        (ResolveStep::Lookup { provider_id, name }, StepView::Lookup(p, n)) => provider_id@ == p && name@ == n,
        (ResolveStep::Resolved(v), StepView::Resolved(sv)) => v@ == sv,
        (ResolveStep::Failed(m), StepView::Failed(sm)) => m@ == sm,
        _ => false,
    }
}

fn push_error(errs: &mut Vec<String>, v: Vec<char>)
    ensures
        string_views(final(errs)@) == string_views(old(errs)@).push(v@),
{
    let ghost before = string_views(errs@);
    errs.push(string_from(v.as_slice()));
    assert(string_views(errs@) =~= before.push(v@));
}

/// The next step in resolving the placeholder `full_ref`, given the outcomes of
/// the lookups asked for so far, in order. The caller performs each `Lookup` and
/// calls again with its outcome appended, until the placeholder is resolved or fails.
pub fn resolve_placeholder(full_ref: &str, default_provider: Option<&str>, outcomes: &Vec<LookupOutcome>) -> (r:
    ResolveStep)
    requires
        !(spec_resolve(full_ref@, match default_provider {
            Some(d) => Some(d@),
            None => None,
        }, outcomes@) is Stuck),
    ensures
        step_is(r, spec_resolve(full_ref@, match default_provider {
            Some(d) => Some(d@),
            None => None,
        }, outcomes@)),
{
    proof {
        reveal_strlit("\"");
    }
    let ghost dp = match default_provider {
        Some(d) => Some(d@),
        None => None,
    };
    let cands = split_candidates(full_ref);
    let ghost cv = string_views(cands@);
    let mut errs: Vec<String> = Vec::new();
    assert(string_views(errs@) =~= Seq::<Seq<char>>::empty());
    let mut i: usize = 0;
    let mut k: usize = 0;
    while i < cands.len()
        invariant
            i <= cands@.len(),
            k <= outcomes@.len(),
            dp == match default_provider {
                Some(d) => Some(d@),
                None => None::<Seq<char>>,
            },
            cv == string_views(cands@),
            cv == spec_candidates(full_ref@),
            resolve_from(cv, i as int, dp, outcomes@, k as int, string_views(errs@), full_ref@) == spec_resolve(
                full_ref@,
                dp,
                outcomes@,
            ),
            !(spec_resolve(full_ref@, dp, outcomes@) is Stuck),
        decreases cands@.len() - i,
    {
        let c = cands[i].as_str();
        assert(c@ == cv[i as int]);
        assert(c@ != "\""@);
        match literal_value(c) {
            Some(v) => {
                return ResolveStep::Resolved(v);
            },
            None => {},
        }
        match crate::refs::parse_secret_ref(c, default_provider) {
            Err(_) => {
                let mut v = chars_of("Invalid format: ");
                push_str(&mut v, c);
                push_error(&mut errs, v);
                i = i + 1;
            },
            Ok((p, n)) => {
                if k >= outcomes.len() {
                    return ResolveStep::Lookup { provider_id: p, name: n };
                }
                match &outcomes[k] {
                    LookupOutcome::Fetched(Ok(value)) => {
                        return ResolveStep::Resolved(crate::config::owned(value.as_str()));
                    },
                    LookupOutcome::UnknownProvider => {
                        let mut v = chars_of("Unknown provider: ");
                        push_str(&mut v, p.as_str());
                        push_error(&mut errs, v);
                    },
                    LookupOutcome::NotFound => {
                        let mut v = chars_of("Secret not found: ");
                        push_str(&mut v, p.as_str());
                        push_str(&mut v, "://");
                        push_str(&mut v, n.as_str());
                        push_error(&mut errs, v);
                    },
                    LookupOutcome::DbError(e) => {
                        let mut v = chars_of("DB error: ");
                        push_str(&mut v, e.as_str());
                        push_error(&mut errs, v);
                    },
                    LookupOutcome::Fetched(Err(e)) => {
                        push_error(&mut errs, chars_of(e.as_str()));
                    },
                }
                k = k + 1;
                i = i + 1;
            },
        }
    }
    placeholder_failure_owned(full_ref, &errs)
}

fn placeholder_failure_owned(full_ref: &str, errs: &Vec<String>) -> (r: ResolveStep)
    ensures
        r matches ResolveStep::Failed(m) && m@ == spec_placeholder_failure(full_ref@, string_views(errs@)),
{
    ResolveStep::Failed(placeholder_failure(full_ref, errs))
}

/// What `pull --inject` reports on standard error after writing the output file:
/// how many values it put in, or that the template had no placeholder.
pub fn inject_written_message(injected: u64, output_path: &str) -> (r: String)
    ensures
        r@ == if injected == 0 {
            "No secret placeholders found. Output written to: "@ + output_path@
        } else {
            "Injected "@ + crate::text::decimal(injected as nat) + " value(s). Output written to: "@ + output_path@
        },
{
    if injected == 0 {
        let mut v = chars_of("No secret placeholders found. Output written to: ");
        push_str(&mut v, output_path);
        string_from(v.as_slice())
    } else {
        let mut v = chars_of("Injected ");
        crate::text::push_decimal(&mut v, injected);
        push_str(&mut v, " value(s). Output written to: ");
        push_str(&mut v, output_path);
        string_from(v.as_slice())
    }
}

// ---------------------------------------------------------------------------
// Finishing an injection
// ---------------------------------------------------------------------------

/// The failure reports among the first `n` steps, in order.
pub open spec fn reports_upto(steps: Seq<ResolveStep>, n: int) -> Seq<Seq<char>>
    decreases n,
{
    if n <= 0 {
        Seq::empty()
    } else {
        let prev = reports_upto(steps, n - 1);
        match steps[n - 1] {
            ResolveStep::Failed(m) => prev.push(m@),
            _ => prev,
        }
    }
}

/// The (placeholder, value) pairs resolved among the first `n` steps, in order.
pub open spec fn pairs_upto(refs: Seq<String>, steps: Seq<ResolveStep>, n: int) -> Seq<(Seq<char>, Seq<char>)>
    decreases n,
{
    if n <= 0 {
        Seq::empty()
    } else {
        let prev = pairs_upto(refs, steps, n - 1);
        match steps[n - 1] {
            ResolveStep::Resolved(v) => prev.push((refs[n - 1]@, v@)),
            _ => prev,
        }
    }
}

/// The end of `pull --inject`, once every placeholder `refs[i]` has reached its
/// final step `steps[i]`: if any failed, the error that reports them all (and
/// nothing is written); otherwise the template with every value put in, and how
/// many values that was.
pub fn finish_injection(template: &str, refs: &Vec<String>, steps: &Vec<ResolveStep>) -> (r: Result<
    (String, u64),
    String,
>)
    requires
        refs@.len() == steps@.len(),
        forall|i: int| 0 <= i < steps@.len() ==> !(#[trigger] steps@[i] is Lookup),
    ensures
        reports_upto(steps@, steps@.len() as int).len() > 0 ==> (r matches Err(e) && e@ == spec_inject_failure(
            reports_upto(steps@, steps@.len() as int),
        )),
        reports_upto(steps@, steps@.len() as int).len() == 0 ==> (r matches Ok((t, n)) && t@ == spec_render(
            template@,
            pairs_upto(refs@, steps@, steps@.len() as int),
        ) && n == refs@.len()),
{
    let mut reports: Vec<String> = Vec::new();
    let mut pairs: Vec<(String, String)> = Vec::new();
    let mut i: usize = 0;
    while i < steps.len()
        invariant
            i <= steps@.len(),
            refs@.len() == steps@.len(),
            string_views(reports@) == reports_upto(steps@, i as int),
            pair_views(pairs@) == pairs_upto(refs@, steps@, i as int),
        decreases steps@.len() - i,
    {
        match &steps[i] {
            ResolveStep::Failed(m) => {
                let ghost before = string_views(reports@);
                reports.push(crate::config::owned(m.as_str()));
                assert(string_views(reports@) =~= before.push(m@));
            },
            ResolveStep::Resolved(v) => {
                let ghost before = pair_views(pairs@);
                pairs.push((crate::config::owned(refs[i].as_str()), crate::config::owned(v.as_str())));
                assert(pair_views(pairs@) =~= before.push((refs@[i as int]@, v@)));
            },
            ResolveStep::Lookup { .. } => {},
        }
        i = i + 1;
    }
    if reports.len() > 0 {
        Err(inject_failure(&reports))
    } else {
        Ok((render_template(template, &pairs), refs.len() as u64))
    }
}

/// Resolution from candidate `i` on never fails outright while a literal candidate
/// is still ahead: whatever the lookups before it gave.
proof fn lemma_literal_ahead(
    cands: Seq<Seq<char>>,
    i: int,
    j: int,
    default_provider: Option<Seq<char>>,
    outcomes: Seq<LookupOutcome>,
    k: int,
    errs: Seq<Seq<char>>,
    full_ref: Seq<char>,
)
    requires
        0 <= i <= j < cands.len(),
        spec_literal(cands[j]) is Some,
    ensures
        !(resolve_from(cands, i, default_provider, outcomes, k, errs, full_ref) is Failed),
    decreases cands.len() - i,
{
    let c = cands[i];
    if c == "\""@ || spec_literal(c) is Some {
    } else {
        assert(i < j);
        match crate::refs::spec_parse_secret_ref(c, default_provider) {
            Err(_) => {
                lemma_literal_ahead(
                    cands,
                    i + 1,
                    j,
                    default_provider,
                    outcomes,
                    k,
                    errs.push("Invalid format: "@ + c),
                    full_ref,
                );
            },
            Ok((p, n)) => {
                if 0 <= k < outcomes.len() {
                    match outcomes[k] {
                        LookupOutcome::Fetched(Ok(v)) => {},
                        LookupOutcome::UnknownProvider => {
                            lemma_literal_ahead(cands, i + 1, j, default_provider, outcomes, k + 1,
                                errs.push("Unknown provider: "@ + p), full_ref);
                        },
                        LookupOutcome::NotFound => {
                            lemma_literal_ahead(cands, i + 1, j, default_provider, outcomes, k + 1,
                                errs.push("Secret not found: "@ + p + "://"@ + n), full_ref);
                        },
                        LookupOutcome::DbError(e) => {
                            lemma_literal_ahead(cands, i + 1, j, default_provider, outcomes, k + 1,
                                errs.push("DB error: "@ + e@), full_ref);
                        },
                        LookupOutcome::Fetched(Err(e)) => {
                            lemma_literal_ahead(cands, i + 1, j, default_provider, outcomes, k + 1,
                                errs.push(e@), full_ref);
                        },
                    }
                }
            },
        }
    }
}

/// A placeholder fails only when every candidate failed: when any candidate is a
/// quoted literal, no lookup outcome before it (an unknown provider, a secret not
/// found, a database error or a failed fetch) makes the placeholder fail; the
/// resolution goes on to the next candidate after each.
pub proof fn law_fallback_literal_never_fails(
    full_ref: Seq<char>,
    default_provider: Option<Seq<char>>,
    outcomes: Seq<LookupOutcome>,
    j: int,
)
    requires
        0 <= j < spec_candidates(full_ref).len(),
        spec_literal(spec_candidates(full_ref)[j]) is Some,
    ensures
        !(spec_resolve(full_ref, default_provider, outcomes) is Failed),
{
    lemma_literal_ahead(spec_candidates(full_ref), 0, j, default_provider, outcomes, 0, Seq::empty(), full_ref);
}

/// A failed lookup hands over to the next candidate: when the first candidate is a
/// reference whose lookup failed (in any way) and the second is a quoted literal,
/// the placeholder resolves to that literal's value.
pub proof fn law_failed_lookup_moves_on(
    full_ref: Seq<char>,
    default_provider: Option<Seq<char>>,
    outcomes: Seq<LookupOutcome>,
)
    requires
        spec_candidates(full_ref).len() >= 2,
        crate::refs::spec_parse_secret_ref(spec_candidates(full_ref)[0], default_provider) is Ok,
        spec_candidates(full_ref)[0] != "\""@,
        spec_literal(spec_candidates(full_ref)[0]) is None,
        outcomes.len() >= 1,
        !(outcomes[0] matches LookupOutcome::Fetched(Ok(_))),
        spec_literal(spec_candidates(full_ref)[1]) matches Some(v) && spec_candidates(full_ref)[1] != "\""@,
    ensures
        spec_resolve(full_ref, default_provider, outcomes) == StepView::Resolved(
            spec_literal(spec_candidates(full_ref)[1])->0,
        ),
{
    reveal_with_fuel(resolve_from, 2);
}

} // verus!
