//! What `save` and `push` report, and how `create` and the preview pick their target.

use vstd::prelude::*;
use crate::text::{
    chars_of, contains, decimal, find_from, is_first_occurrence_from, no_occurrence_from,
    occurs_at, push_decimal, push_str, slice_of, string_from, trim, trim_chars,
};
use crate::textops::{push_signed_decimal, signed_decimal, string_views};

verus! {

/// What saving one working file did.
pub enum SaveOutcome {
    Created { provider_id: String, name: String, version: i32 },
    Updated { provider_id: String, name: String, from_version: i32, to_version: i32 },
    Unchanged { provider_id: String, name: String },
}

/// What pushing one saved version did.
pub enum PushOutcome {
    Pushed { provider_id: String, name: String, version: i32 },
    UpToDate { provider_id: String, name: String },
    Conflict { provider_id: String, name: String, reason: String },
    Failed { provider_id: String, name: String, error: String },
}

/// `{provider}://{name}`.
pub open spec fn ref_text(p: Seq<char>, n: Seq<char>) -> Seq<char> {
    p + "://"@ + n
}

// ---------------------------------------------------------------------------
// save
// ---------------------------------------------------------------------------

/// The line `save` prints for one outcome.
pub open spec fn save_line(o: SaveOutcome) -> Seq<char> {
    match o {
        SaveOutcome::Created { provider_id, name, version } => "  created "@ + ref_text(provider_id@, name@)
            + " v"@ + signed_decimal(version as int),
        SaveOutcome::Updated { provider_id, name, from_version, to_version } => "  updated "@ + ref_text(
            provider_id@,
            name@,
        ) + " v"@ + signed_decimal(from_version as int) + " → v"@ + signed_decimal(to_version as int),
        SaveOutcome::Unchanged { provider_id, name } => "  unchanged "@ + ref_text(provider_id@, name@),
    }
}

/// How many outcomes are of each kind: (created, updated, unchanged).
pub open spec fn save_counts(os: Seq<SaveOutcome>) -> (nat, nat, nat)
    decreases os.len(),
{
    if os.len() == 0 {
        (0, 0, 0)
    } else {
        let (c, u, n) = save_counts(os.drop_last());
        match os.last() {
            SaveOutcome::Created { .. } => ((c + 1) as nat, u, n),
            SaveOutcome::Updated { .. } => (c, (u + 1) as nat, n),
            SaveOutcome::Unchanged { .. } => (c, u, (n + 1) as nat),
        }
    }
}

/// The lines of the `save` report.
pub open spec fn spec_save_report(os: Seq<SaveOutcome>) -> Seq<Seq<char>> {
    let lines = os.map_values(|o: SaveOutcome| save_line(o));
    if os.len() == 0 {
        seq![
            "No secrets found under secrets/. Create one with `mkdir -p .secrets/secrets/jaws && $EDITOR .secrets/secrets/jaws/my-secret`, then run `jaws save`."@,
        ]
    } else {
        let (c, u, n) = save_counts(os);
        lines + seq![
            "\nSave complete: "@ + decimal(c) + " created, "@ + decimal(u) + " updated, "@ + decimal(n)
                + " unchanged"@,
        ]
    }
}

fn push_ref(v: &mut Vec<char>, p: &String, n: &String)
    ensures
        final(v)@ == old(v)@ + ref_text(p@, n@),
{
    push_str(v, p.as_str());
    push_str(v, "://");
    push_str(v, n.as_str());
    assert(final(v)@ =~= old(v)@ + ref_text(p@, n@));
}

fn save_line_of(o: &SaveOutcome) -> (r: String)
    ensures
        r@ == save_line(*o),
{
    let mut v: Vec<char>;
    match o {
        SaveOutcome::Created { provider_id, name, version } => {
            v = chars_of("  created ");
            push_ref(&mut v, provider_id, name);
            push_str(&mut v, " v");
            push_signed_decimal(&mut v, *version as i64);
        },
        SaveOutcome::Updated { provider_id, name, from_version, to_version } => {
            v = chars_of("  updated ");
            push_ref(&mut v, provider_id, name);
            push_str(&mut v, " v");
            push_signed_decimal(&mut v, *from_version as i64);
            push_str(&mut v, " → v");
            push_signed_decimal(&mut v, *to_version as i64);
        },
        SaveOutcome::Unchanged { provider_id, name } => {
            v = chars_of("  unchanged ");
            push_ref(&mut v, provider_id, name);
        },
    }
    assert(v@ =~= save_line(*o));
    string_from(v.as_slice())
}

/// The lines `save` prints.
pub fn save_report(outcomes: &Vec<SaveOutcome>) -> (r: Vec<String>)
    ensures
        string_views(r@) == spec_save_report(outcomes@),
{
    let mut out: Vec<String> = Vec::new();
    if outcomes.len() == 0 {
        out.push(string_from(chars_of("No secrets found under secrets/. Create one with `mkdir -p .secrets/secrets/jaws && $EDITOR .secrets/secrets/jaws/my-secret`, then run `jaws save`.").as_slice()));
        assert(string_views(out@) =~= spec_save_report(outcomes@));
        return out;
    }
    let mut c: u64 = 0;
    let mut u: u64 = 0;
    let mut n: u64 = 0;
    let mut i: usize = 0;
    while i < outcomes.len()
        invariant
            i <= outcomes@.len(),
            out@.len() == i,
            forall|k: int| 0 <= k < i ==> (#[trigger] out@[k])@ == save_line(outcomes@[k]),
            (c as nat, u as nat, n as nat) == save_counts(outcomes@.subrange(0, i as int)),
            c + u + n == i,
        decreases outcomes@.len() - i,
    {
        proof {
            assert(outcomes@.subrange(0, i + 1).drop_last() =~= outcomes@.subrange(0, i as int));
        }
        out.push(save_line_of(&outcomes[i]));
        match &outcomes[i] {
            SaveOutcome::Created { .. } => c = c + 1,
            SaveOutcome::Updated { .. } => u = u + 1,
            SaveOutcome::Unchanged { .. } => n = n + 1,
        }
        i = i + 1;
    }
    assert(outcomes@.subrange(0, outcomes@.len() as int) =~= outcomes@);
    let ghost before = string_views(out@);
    assert(before =~= outcomes@.map_values(|o: SaveOutcome| save_line(o)));
    let mut t = chars_of("\nSave complete: ");
    push_decimal(&mut t, c);
    push_str(&mut t, " created, ");
    push_decimal(&mut t, u);
    push_str(&mut t, " updated, ");
    push_decimal(&mut t, n);
    push_str(&mut t, " unchanged");
    out.push(string_from(t.as_slice()));
    assert(string_views(out@) =~= spec_save_report(outcomes@));
    out
}

// ---------------------------------------------------------------------------
// push
// ---------------------------------------------------------------------------

/// A line of the `push` report, and whether it goes to standard error.
pub open spec fn push_line(o: PushOutcome) -> Option<(bool, Seq<char>)> {
    match o {
        PushOutcome::Pushed { provider_id, name, version } => Some(
            (false, "  pushed "@ + ref_text(provider_id@, name@) + " v"@ + signed_decimal(version as int) + " -> remote"@),
        ),
        PushOutcome::UpToDate { .. } => None,
        PushOutcome::Conflict { provider_id, name, reason } => Some(
            (true, "  CONFLICT "@ + ref_text(provider_id@, name@) + ": "@ + reason@),
        ),
        PushOutcome::Failed { provider_id, name, error } => Some(
            (true, "  FAILED "@ + ref_text(provider_id@, name@) + ": "@ + error@),
        ),
    }
}

/// The text of an outcome's line (empty when it prints none).
pub open spec fn push_line_text(o: PushOutcome) -> Seq<char> {
    match push_line(o) {
        Some((_, t)) => t,
        None => Seq::empty(),
    }
}

/// The printed lines of the outcomes, in order.
pub open spec fn push_lines(os: Seq<PushOutcome>) -> Seq<(bool, Seq<char>)>
    decreases os.len(),
{
    if os.len() == 0 {
        Seq::empty()
    } else {
        match push_line(os.last()) {
            Some(l) => push_lines(os.drop_last()).push(l),
            None => push_lines(os.drop_last()),
        }
    }
}

/// How many were pushed, in conflict, and failed.
pub open spec fn push_counts(os: Seq<PushOutcome>) -> (nat, nat, nat)
    decreases os.len(),
{
    if os.len() == 0 {
        (0, 0, 0)
    } else {
        let (p, c, f) = push_counts(os.drop_last());
        match os.last() {
            PushOutcome::Pushed { .. } => ((p + 1) as nat, c, f),
            PushOutcome::UpToDate { .. } => (p, c, f),
            PushOutcome::Conflict { .. } => (p, (c + 1) as nat, f),
            PushOutcome::Failed { .. } => (p, c, (f + 1) as nat),
        }
    }
}

/// The `push` report: `(to standard error, line)` pairs.
pub open spec fn spec_push_report(os: Seq<PushOutcome>) -> Seq<(bool, Seq<char>)> {
    if os.len() == 0 {
        seq![(false, "Nothing to push — all local edits already synced."@)]
    } else {
        let (p, c, f) = push_counts(os);
        push_lines(os) + seq![
            (false, "\nPush complete: "@ + decimal(p) + " pushed, "@ + decimal(c) + " conflicts, "@ + decimal(f)
                + " failed"@),
        ]
    }
}

fn push_line_of(o: &PushOutcome) -> (r: Option<(bool, String)>)
    ensures
        match (r, push_line(*o)) {
            (Some((e, s)), Some((se, ss))) => e == se && s@ == ss,
            (None, None) => true,
            _ => false,
        },
{
    match o {
        PushOutcome::Pushed { provider_id, name, version } => {
            let mut v = chars_of("  pushed ");
            push_ref(&mut v, provider_id, name);
            push_str(&mut v, " v");
            push_signed_decimal(&mut v, *version as i64);
            push_str(&mut v, " -> remote");
            assert(v@ =~= push_line_text(*o));
            Some((false, string_from(v.as_slice())))
        },
        PushOutcome::UpToDate { .. } => None,
        PushOutcome::Conflict { provider_id, name, reason } => {
            let mut v = chars_of("  CONFLICT ");
            push_ref(&mut v, provider_id, name);
            push_str(&mut v, ": ");
            push_str(&mut v, reason.as_str());
            assert(v@ =~= push_line_text(*o));
            Some((true, string_from(v.as_slice())))
        },
        PushOutcome::Failed { provider_id, name, error } => {
            let mut v = chars_of("  FAILED ");
            push_ref(&mut v, provider_id, name);
            push_str(&mut v, ": ");
            push_str(&mut v, error.as_str());
            assert(v@ =~= push_line_text(*o));
            Some((true, string_from(v.as_slice())))
        },
    }
}

/// The views of report lines.
pub open spec fn report_views(v: Seq<(bool, String)>) -> Seq<(bool, Seq<char>)> {
    v.map_values(|l: (bool, String)| (l.0, l.1@))
}

/// The lines `push` prints, each with whether it goes to standard error.
pub fn push_report(outcomes: &Vec<PushOutcome>) -> (r: Vec<(bool, String)>)
    ensures
        report_views(r@) == spec_push_report(outcomes@),
{
    let mut out: Vec<(bool, String)> = Vec::new();
    if outcomes.len() == 0 {
        out.push((false, string_from(chars_of("Nothing to push — all local edits already synced.").as_slice())));
        assert(report_views(out@) =~= spec_push_report(outcomes@));
        return out;
    }
    let mut p: u64 = 0;
    let mut c: u64 = 0;
    let mut f: u64 = 0;
    let mut i: usize = 0;
    while i < outcomes.len()
        invariant
            i <= outcomes@.len(),
            report_views(out@) == push_lines(outcomes@.subrange(0, i as int)),
            (p as nat, c as nat, f as nat) == push_counts(outcomes@.subrange(0, i as int)),
            p + c + f <= i,
        decreases outcomes@.len() - i,
    {
        proof {
            assert(outcomes@.subrange(0, i + 1).drop_last() =~= outcomes@.subrange(0, i as int));
        }
        let ghost before = report_views(out@);
        match push_line_of(&outcomes[i]) {
            Some(l) => {
                let ghost lv = (l.0, l.1@);
                out.push(l);
                assert(report_views(out@) =~= before.push(lv));
            },
            None => {},
        }
        match &outcomes[i] {
            PushOutcome::Pushed { .. } => p = p + 1,
            PushOutcome::UpToDate { .. } => {},
            PushOutcome::Conflict { .. } => c = c + 1,
            PushOutcome::Failed { .. } => f = f + 1,
        }
        i = i + 1;
    }
    assert(outcomes@.subrange(0, outcomes@.len() as int) =~= outcomes@);
    let ghost before = report_views(out@);
    let mut t = chars_of("\nPush complete: ");
    push_decimal(&mut t, p);
    push_str(&mut t, " pushed, ");
    push_decimal(&mut t, c);
    push_str(&mut t, " conflicts, ");
    push_decimal(&mut t, f);
    push_str(&mut t, " failed");
    let ghost tv = t@;
    out.push((false, string_from(t.as_slice())));
    assert(report_views(out@) =~= before.push((false, tv)));
    assert(report_views(out@) =~= spec_push_report(outcomes@));
    out
}

/// The line `push` prints for a save it made first, if any.
pub open spec fn saved_line(o: SaveOutcome) -> Option<Seq<char>> {
    match o {
        SaveOutcome::Created { provider_id, name, version } => Some(
            "  saved "@ + ref_text(provider_id@, name@) + " v"@ + signed_decimal(version as int) + " (new)"@,
        ),
        SaveOutcome::Updated { provider_id, name, from_version, to_version } => Some(
            "  saved "@ + ref_text(provider_id@, name@) + " v"@ + signed_decimal(from_version as int) + " → v"@
                + signed_decimal(to_version as int),
        ),
        SaveOutcome::Unchanged { .. } => None,
    }
}

/// The lines for the saves, in order.
pub open spec fn saved_lines(os: Seq<SaveOutcome>) -> Seq<Seq<char>>
    decreases os.len(),
{
    if os.len() == 0 {
        Seq::empty()
    } else {
        match saved_line(os.last()) {
            Some(l) => saved_lines(os.drop_last()).push(l),
            None => saved_lines(os.drop_last()),
        }
    }
}

/// What `push` prints about the saves it made first: one line per created or
/// updated secret, then a blank line if there was any.
pub open spec fn spec_saved_summary(os: Seq<SaveOutcome>) -> Seq<Seq<char>> {
    let l = saved_lines(os);
    if l.len() > 0 {
        l.push(Seq::empty())
    } else {
        l
    }
}

/// The lines `push` prints about the saves it made first.
pub fn saved_summary(outcomes: &Vec<SaveOutcome>) -> (r: Vec<String>)
    ensures
        string_views(r@) == spec_saved_summary(outcomes@),
{
    let mut out: Vec<String> = Vec::new();
    let mut i: usize = 0;
    while i < outcomes.len()
        invariant
            i <= outcomes@.len(),
            string_views(out@) == saved_lines(outcomes@.subrange(0, i as int)),
        decreases outcomes@.len() - i,
    {
        proof {
            assert(outcomes@.subrange(0, i + 1).drop_last() =~= outcomes@.subrange(0, i as int));
        }
        let ghost before = string_views(out@);
        let line: Option<Vec<char>> = match &outcomes[i] {
            SaveOutcome::Created { provider_id, name, version } => {
                let mut v = chars_of("  saved ");
                push_ref(&mut v, provider_id, name);
                push_str(&mut v, " v");
                push_signed_decimal(&mut v, *version as i64);
                push_str(&mut v, " (new)");
                Some(v)
            },
            SaveOutcome::Updated { provider_id, name, from_version, to_version } => {
                let mut v = chars_of("  saved ");
                push_ref(&mut v, provider_id, name);
                push_str(&mut v, " v");
                push_signed_decimal(&mut v, *from_version as i64);
                push_str(&mut v, " → v");
                push_signed_decimal(&mut v, *to_version as i64);
                Some(v)
            },
            SaveOutcome::Unchanged { .. } => None,
        };
        match line {
            Some(v) => {
                assert(v@ =~= saved_line(outcomes@[i as int])->0);
                out.push(string_from(v.as_slice()));
                assert(string_views(out@) =~= before.push(v@));
            },
            None => {},
        }
        i = i + 1;
    }
    assert(outcomes@.subrange(0, outcomes@.len() as int) =~= outcomes@);
    if out.len() > 0 {
        let ghost before = string_views(out@);
        out.push(string_from(Vec::<char>::new().as_slice()));
        assert(string_views(out@) =~= before.push(Seq::<char>::empty()));
    }
    out
}

// ---------------------------------------------------------------------------
// create and preview
// ---------------------------------------------------------------------------

/// Where a new secret goes.
pub enum CreateTarget {
    /// To this provider, under this name.
    Known { provider_id: String, name: String },
    /// The user picks the provider; the name is as given.
    AskProvider { name: String },
}

/// A typed secret name: trimmed, and not empty.
pub fn secret_name_from_input(input: &str) -> (r: Result<String, String>)
    ensures
        trim(input@).len() > 0 ==> (r matches Ok(s) && s@ == trim(input@)),
        trim(input@).len() == 0 ==> (r matches Err(e) && e@ == "Secret name cannot be empty"@),
{
    let t = trim_chars(chars_of(input).as_slice());
    if t.len() == 0 {
        Err(string_from(chars_of("Secret name cannot be empty").as_slice()))
    } else {
        Ok(string_from(t.as_slice()))
    }
}

/// A new secret's value must hold something besides white space.
pub fn check_secret_value(value: &str) -> (r: Result<(), String>)
    ensures
        r is Ok <==> trim(value@).len() > 0,
        r matches Err(e) ==> e@ == "Secret value cannot be empty"@,
{
    let t = trim_chars(chars_of(value).as_slice());
    if t.len() == 0 {
        Err(string_from(chars_of("Secret value cannot be empty").as_slice()))
    } else {
        Ok(())
    }
}

/// Where a new secret named `name` goes: the reference's provider when the name
/// holds `://`; else the default provider; else the user is asked.
pub fn create_target(name: &str, default_provider: Option<&str>) -> (r: Result<CreateTarget, String>)
    ensures
        contains(name@, "://"@) ==> match crate::refs::spec_parse_secret_ref(name@, None) {
            Ok((p, n)) => r matches Ok(CreateTarget::Known { provider_id, name: nm }) && provider_id@ == p
                && nm@ == n,
            Err(e) => r matches Err(m) && m@ == e,
        },
        !contains(name@, "://"@) ==> match default_provider {
            Some(d) => r matches Ok(CreateTarget::Known { provider_id, name: nm }) && provider_id@ == d@
                && nm@ == name@,
            None => r matches Ok(CreateTarget::AskProvider { name: nm }) && nm@ == name@,
        },
{
    proof {
        reveal_strlit("://");
    }
    let c = chars_of(name);
    let sep = chars_of("://");
    if crate::text::has_substring(c.as_slice(), sep.as_slice()) {
        match crate::refs::parse_secret_ref(name, None) {
            Ok((p, n)) => Ok(CreateTarget::Known { provider_id: p, name: n }),
            Err(e) => Err(e),
        }
    } else {
        match default_provider {
            Some(d) => Ok(
                CreateTarget::Known {
                    provider_id: string_from(chars_of(d).as_slice()),
                    name: string_from(c.as_slice()),
                },
            ),
            None => Ok(CreateTarget::AskProvider { name: string_from(c.as_slice()) }),
        }
    }
}

/// The picker line of a provider for a new secret: `{id} [{kind}]`.
pub fn provider_choice_item(id: &str, kind: &str) -> (r: String)
    ensures
        r@ == id@ + " ["@ + kind@ + "]"@,
{
    let mut v = chars_of(id);
    push_str(&mut v, " [");
    push_str(&mut v, kind);
    push_str(&mut v, "]");
    string_from(v.as_slice())
}

/// The message when a new secret could go to no provider.
pub open spec fn no_providers_message() -> Seq<char> {
    "No providers configured. Run 'jaws config generate --interactive' to set up providers."@
}

/// The provider a new secret goes to when there is a choice to make: none
/// configured is an error; a single provider is taken; otherwise the user picks.
pub fn single_provider(ids: &Vec<String>) -> (r: Result<Option<String>, String>)
    ensures
        ids@.len() == 0 ==> (r matches Err(e) && e@ == no_providers_message()),
        ids@.len() == 1 ==> (r matches Ok(Some(id)) && id@ == ids@[0]@),
        ids@.len() > 1 ==> r matches Ok(None),
{
    if ids.len() == 0 {
        Err(string_from(chars_of("No providers configured. Run 'jaws config generate --interactive' to set up providers.").as_slice()))
    } else if ids.len() == 1 {
        Ok(Some(string_from(chars_of(ids[0].as_str()).as_slice())))
    } else {
        Ok(None)
    }
}

/// The text before the first ` [` of a picked provider line (all of it when there is none).
pub open spec fn spec_before_bracket(s: Seq<char>) -> Seq<char> {
    if contains(s, " ["@) {
        s.subrange(0, choose|i: int| is_first_occurrence_from(s, " ["@, 0, i))
    } else {
        s
    }
}

/// The provider id a picked `{id} [{kind}]` line names.
pub fn provider_of_choice(choice: &str) -> (r: String)
    ensures
        r@ == spec_before_bracket(choice@),
{
    proof {
        reveal_strlit(" [");
    }
    let c = chars_of(choice);
    let sep = chars_of(" [");
    match find_from(c.as_slice(), sep.as_slice(), 0) {
        Some(i) => {
            proof {
                assert(contains(c@, " ["@));
                let k = choose|k: int| is_first_occurrence_from(c@, " ["@, 0, k);
                if k < i {
                    assert(!occurs_at(c@, sep@, k));
                }
                if i < k {
                    assert(!occurs_at(c@, " ["@, i as int));
                }
            }
            string_from(slice_of(c.as_slice(), 0, i).as_slice())
        },
        None => {
            assert(!contains(c@, " ["@)) by {
                assert forall|j: int| !occurs_at(c@, " ["@, j) by {
                    if j >= 0 {
                        assert(no_occurrence_from(c@, sep@, 0));
                    }
                }
            }
            string_from(c.as_slice())
        },
    }
}

/// What the preview is asked for: a picker line `{provider} | {name}` (both
/// trimmed), or else a secret reference.
pub fn preview_target(item: &str, default_provider: Option<&str>) -> (r: Result<(String, String), String>)
    ensures
        match crate::deletion::spec_split_bar(item@) {
            Some((p, n)) => r matches Ok((a, b)) && a@ == trim(p) && b@ == trim(n),
            None => match (r, crate::refs::spec_parse_secret_ref(item@, match default_provider {
                Some(d) => Some(d@),
                None => None,
            })) {
                (Ok((a, b)), Ok((sa, sb))) => a@ == sa && b@ == sb,
                (Err(e), Err(se)) => e@ == se,
                _ => false,
            },
        },
{
    match crate::deletion::split_bar(item) {
        Some((p, n)) => {
            let a = string_from(trim_chars(chars_of(p.as_str()).as_slice()).as_slice());
            let b = string_from(trim_chars(chars_of(n.as_str()).as_slice()).as_slice());
            Ok((a, b))
        },
        None => crate::refs::parse_secret_ref(item, default_provider),
    }
}

} // verus!
