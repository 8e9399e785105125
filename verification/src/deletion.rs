//! What `delete` offers, decides and reports.

use vstd::prelude::*;
use crate::cli::DeleteScope;
use crate::refs::spec_picker_label;
use crate::text::{
    chars_of, contains, find_from, has_prefix, is_first_occurrence_from, no_occurrence_from,
    occurs_at, push_decimal, push_str, slice_of, starts_with, ends_with, string_from, decimal,
};
use crate::versions::{is_local_provider, local_provider};

verus! {

/// The scopes offered for deleting a secret of `provider_id`, in order: local
/// when a local copy exists; remote unless the provider is local-only; both
/// when both apply. A local-only secret without a local copy cannot be deleted.
pub open spec fn spec_scope_options(provider_id: Seq<char>, has_local: bool) -> Result<Seq<DeleteScope>, Seq<char>> {
    let local = if has_local { seq![DeleteScope::Local] } else { Seq::empty() };
    let remote = if provider_id != local_provider() { seq![DeleteScope::Remote] } else { Seq::empty() };
    if has_local && provider_id != local_provider() {
        Ok(local + remote + seq![DeleteScope::Both])
    } else if provider_id == local_provider() && !has_local {
        Err("Secret not found locally"@)
    } else if (local + remote).len() == 0 {
        Err("No delete options available for this secret"@)
    } else {
        Ok(local + remote)
    }
}

/// The scopes to offer for deleting a secret.
pub fn scope_options(provider_id: &str, has_local: bool) -> (r: Result<Vec<DeleteScope>, String>)
    ensures
        match (r, spec_scope_options(provider_id@, has_local)) {
            (Ok(v), Ok(sv)) => v@ == sv,
            (Err(e), Err(se)) => e@ == se,
            _ => false,
        },
{
    let local_only = is_local_provider(provider_id);
    let mut options: Vec<DeleteScope> = Vec::new();
    if has_local {
        options.push(DeleteScope::Local);
    }
    if !local_only {
        options.push(DeleteScope::Remote);
    }
    if has_local && !local_only {
        options.push(DeleteScope::Both);
    } else if local_only && !has_local {
        return Err(string_from(chars_of("Secret not found locally").as_slice()));
    }
    if options.len() == 0 {
        return Err(string_from(chars_of("No delete options available for this secret").as_slice()));
    }
    proof {
        let ghost local = if has_local { seq![DeleteScope::Local] } else { Seq::<DeleteScope>::empty() };
        let ghost remote = if !local_only { seq![DeleteScope::Remote] } else { Seq::<DeleteScope>::empty() };
        if has_local && !local_only {
            assert(options@ =~= local + remote + seq![DeleteScope::Both]);
        } else {
            assert(options@ =~= local + remote);
        }
    }
    Ok(options)
}

/// The picker line of a scope.
pub open spec fn spec_scope_label(s: DeleteScope) -> Seq<char> {
    match s {
        DeleteScope::Local => "local - Delete local cached files only"@,
        DeleteScope::Remote => "remote - Delete from remote provider only"@,
        DeleteScope::Both => "both - Delete from both local and remote"@,
    }
}

/// The line shown for a scope in the picker.
pub fn scope_label(s: DeleteScope) -> (r: String)
    ensures
        r@ == spec_scope_label(s),
{
    let mut v = match s {
        DeleteScope::Local => chars_of("local"),
        DeleteScope::Remote => chars_of("remote"),
        DeleteScope::Both => chars_of("both"),
    };
    push_str(&mut v, " - ");
    match s {
        DeleteScope::Local => push_str(&mut v, "Delete local cached files only"),
        DeleteScope::Remote => push_str(&mut v, "Delete from remote provider only"),
        DeleteScope::Both => push_str(&mut v, "Delete from both local and remote"),
    }
    proof {
        reveal_strlit("local");
        reveal_strlit("remote");
        reveal_strlit("both");
        reveal_strlit(" - ");
        reveal_strlit("Delete local cached files only");
        reveal_strlit("Delete from remote provider only");
        reveal_strlit("Delete from both local and remote");
        reveal_strlit("local - Delete local cached files only");
        reveal_strlit("remote - Delete from remote provider only");
        reveal_strlit("both - Delete from both local and remote");
        assert(v@ =~= spec_scope_label(s));
    }
    string_from(v.as_slice())
}

/// The scope a picked line names, by its first word.
pub open spec fn spec_scope_from_choice(choice: Seq<char>) -> Result<DeleteScope, Seq<char>> {
    if starts_with(choice, "local"@) {
        Ok(DeleteScope::Local)
    } else if starts_with(choice, "remote"@) {
        Ok(DeleteScope::Remote)
    } else if starts_with(choice, "both"@) {
        Ok(DeleteScope::Both)
    } else {
        Err("Invalid selection"@)
    }
}

/// The scope a picked line names.
pub fn scope_from_choice(choice: &str) -> (r: Result<DeleteScope, String>)
    ensures
        match (r, spec_scope_from_choice(choice@)) {
            (Ok(a), Ok(b)) => a == b,
            (Err(e), Err(se)) => e@ == se,
            _ => false,
        },
{
    let c = chars_of(choice);
    if has_prefix(c.as_slice(), chars_of("local").as_slice()) {
        Ok(DeleteScope::Local)
    } else if has_prefix(c.as_slice(), chars_of("remote").as_slice()) {
        Ok(DeleteScope::Remote)
    } else if has_prefix(c.as_slice(), chars_of("both").as_slice()) {
        Ok(DeleteScope::Both)
    } else {
        Err(string_from(chars_of("Invalid selection").as_slice()))
    }
}

/// Picking the line of a scope gives back that scope.
pub proof fn law_scope_label_round_trip(s: DeleteScope)
    ensures
        spec_scope_from_choice(spec_scope_label(s)) == Ok::<DeleteScope, Seq<char>>(s),
{
    reveal_strlit("local");
    reveal_strlit("remote");
    reveal_strlit("both");
    reveal_strlit("local - Delete local cached files only");
    reveal_strlit("remote - Delete from remote provider only");
    reveal_strlit("both - Delete from both local and remote");
    let l = spec_scope_label(s);
    match s {
        DeleteScope::Local => {
            assert(l.subrange(0, 5) =~= "local"@);
        },
        DeleteScope::Remote => {
            assert(l.subrange(0, 5) != "local"@) by {
                assert(l.subrange(0, 5)[0] == 'r');
            }
            assert(l.subrange(0, 6) =~= "remote"@);
        },
        DeleteScope::Both => {
            assert(l.subrange(0, 5) != "local"@) by {
                assert(l.subrange(0, 5)[0] == 'b');
            }
            assert(l.subrange(0, 6) != "remote"@) by {
                assert(l.subrange(0, 6)[0] == 'b');
            }
            assert(l.subrange(0, 4) =~= "both"@);
        },
    }
}

/// What deleting with a scope does, in order: the remote deletion (if any) comes
/// before the local one, and the local one only happens when there is a local copy.
pub struct DeletionSteps {
    pub remote: bool,
    pub local: bool,
}

/// The steps of a deletion.
pub fn deletion_steps(scope: DeleteScope, has_local: bool) -> (r: DeletionSteps)
    ensures
        r.remote == (scope == DeleteScope::Remote || scope == DeleteScope::Both),
        r.local == (scope == DeleteScope::Local || (scope == DeleteScope::Both && has_local)),
{
    match scope {
        DeleteScope::Local => DeletionSteps { remote: false, local: true },
        DeleteScope::Remote => DeletionSteps { remote: true, local: false },
        DeleteScope::Both => DeletionSteps { remote: true, local: has_local },
    }
}

// ---------------------------------------------------------------------------
// Picked lines `{provider} | {name}`
// ---------------------------------------------------------------------------

/// Where the first ` | ` of `s` starts.
pub open spec fn bar_at(s: Seq<char>) -> int {
    choose|i: int| is_first_occurrence_from(s, " | "@, 0, i)
}

/// A picked line split at ` | `: it must hold exactly one ` | `.
pub open spec fn spec_parse_picked(s: Seq<char>) -> Result<(Seq<char>, Seq<char>), Seq<char>> {
    if contains(s, " | "@) {
        let i = bar_at(s);
        let rest = s.subrange(i + 3, s.len() as int);
        if contains(rest, " | "@) {
            Err("Failed to parse selection"@)
        } else {
            Ok((s.subrange(0, i), rest))
        }
    } else {
        Err("Failed to parse selection"@)
    }
}

fn find_bar(s: &[char]) -> (r: Option<usize>)
    ensures
        match r {
            Some(i) => contains(s@, " | "@) && i == bar_at(s@) && i + 3 <= s@.len(),
            None => !contains(s@, " | "@),
        },
{
    proof {
        reveal_strlit(" | ");
    }
    let p = chars_of(" | ");
    match find_from(s, p.as_slice(), 0) {
        Some(i) => {
            proof {
                assert(contains(s@, " | "@));
                let c = bar_at(s@);
                if c < i {
                    assert(!occurs_at(s@, p@, c));
                }
                if i < c {
                    assert(!occurs_at(s@, " | "@, i as int));
                }
            }
            Some(i)
        },
        None => {
            assert(!contains(s@, " | "@)) by {
                assert forall|j: int| !occurs_at(s@, " | "@, j) by {
                    if j >= 0 {
                        assert(no_occurrence_from(s@, p@, 0));
                    }
                }
            }
            None
        },
    }
}

/// Split a picked `{provider} | {name}` line.
pub fn parse_picked(line: &str) -> (r: Result<(String, String), String>)
    ensures
        match (r, spec_parse_picked(line@)) {
            (Ok((p, n)), Ok((sp, sn))) => p@ == sp && n@ == sn,
            (Err(e), Err(se)) => e@ == se,
            _ => false,
        },
{
    let s = chars_of(line);
    match find_bar(s.as_slice()) {
        None => Err(string_from(chars_of("Failed to parse selection").as_slice())),
        Some(i) => {
            assert(s@.len() == s.len());
            let rest = slice_of(s.as_slice(), i + 3, s.len());
            match find_bar(rest.as_slice()) {
                Some(_) => Err(string_from(chars_of("Failed to parse selection").as_slice())),
                None => {
                    let p = slice_of(s.as_slice(), 0, i);
                    Ok((string_from(p.as_slice()), string_from(rest.as_slice())))
                },
            }
        },
    }
}

/// Reading back a picker line gives the provider and name it was made from,
/// when neither holds ` | ` and the provider does not end with ` |` (where the
/// separator would be found one character early).
pub proof fn law_picked_round_trip(provider_id: Seq<char>, name: Seq<char>)
    requires
        !contains(provider_id, " | "@),
        !contains(name, " | "@),
        !ends_with(provider_id, " |"@),
    ensures
        spec_parse_picked(spec_picker_label(provider_id, name)) == Ok::<(Seq<char>, Seq<char>), Seq<char>>(
            (provider_id, name),
        ),
{
    reveal_strlit(" | ");
    reveal_strlit(" |");
    let s = spec_picker_label(provider_id, name);
    let l = provider_id.len() as int;
    assert(s =~= provider_id + (" | "@ + name));
    assert(occurs_at(s, " | "@, l)) by {
        assert(s.subrange(l, l + 3) =~= " | "@);
    }
    assert forall|j: int| 0 <= j < l implies !occurs_at(s, " | "@, j) by {
        if occurs_at(s, " | "@, j) {
            let w = s.subrange(j, j + 3);
            assert(w[0] == ' ' && w[1] == '|' && w[2] == ' ');
            if j + 3 <= l {
                assert(w =~= provider_id.subrange(j, j + 3));
                assert(occurs_at(provider_id, " | "@, j));
            } else if j == l - 1 {
                assert(w[1] == s[l]);
            } else {
                assert(j == l - 2);
                assert(w[0] == provider_id[l - 2] && w[1] == provider_id[l - 1]);
                assert(provider_id.subrange(l - 2, l) =~= " |"@);
            }
        }
    }
    assert(is_first_occurrence_from(s, " | "@, 0, l));
    let c = bar_at(s);
    if c < l {
        assert(!occurs_at(s, " | "@, c));
    }
    if l < c {
        assert(!occurs_at(s, " | "@, l));
    }
    assert(s.subrange(l + 3, s.len() as int) =~= name);
    assert(s.subrange(0, l) =~= provider_id);
}

// ---------------------------------------------------------------------------
// Messages
// ---------------------------------------------------------------------------

/// `Delete local '{name}' and {n} version(s)? [y/N]: `
pub open spec fn spec_delete_local_question(name: Seq<char>, versions: nat) -> Seq<char> {
    "Delete local '"@ + name + "' and "@ + decimal(versions) + " version(s)? [y/N]: "@
}

/// The question asked before deleting the local copy of a secret.
pub fn delete_local_question(name: &str, versions: u64) -> (r: String)
    ensures
        r@ == spec_delete_local_question(name@, versions as nat),
{
    let mut v = chars_of("Delete local '");
    push_str(&mut v, name);
    push_str(&mut v, "' and ");
    push_decimal(&mut v, versions);
    push_str(&mut v, " version(s)? [y/N]: ");
    assert(v@ =~= spec_delete_local_question(name@, versions as nat));
    string_from(v.as_slice())
}

/// `Deleted local '{name}' ({f} file(s), {v} version record(s))`
pub open spec fn spec_deleted_local(name: Seq<char>, files: nat, versions: nat) -> Seq<char> {
    "Deleted local '"@ + name + "' ("@ + decimal(files) + " file(s), "@ + decimal(versions)
        + " version record(s))"@
}

/// The report after deleting the local copy of a secret.
pub fn deleted_local_message(name: &str, files: u64, versions: u64) -> (r: String)
    ensures
        r@ == spec_deleted_local(name@, files as nat, versions as nat),
{
    let mut v = chars_of("Deleted local '");
    push_str(&mut v, name);
    push_str(&mut v, "' (");
    push_decimal(&mut v, files);
    push_str(&mut v, " file(s), ");
    push_decimal(&mut v, versions);
    push_str(&mut v, " version record(s))");
    assert(v@ =~= spec_deleted_local(name@, files as nat, versions as nat));
    string_from(v.as_slice())
}

/// The report after deleting a secret on its provider.
pub open spec fn spec_deleted_remote(provider_id: Seq<char>, name: Seq<char>, force: bool) -> Seq<char> {
    provider_id + "://"@ + name + if force {
        " deleted from remote (force)"@
    } else {
        " deleted from remote (recovery period: 7-30 days)"@
    }
}

/// What is printed after a remote deletion.
pub fn deleted_remote_message(provider_id: &str, name: &str, force: bool) -> (r: String)
    ensures
        r@ == spec_deleted_remote(provider_id@, name@, force),
{
    let mut v = chars_of(provider_id);
    push_str(&mut v, "://");
    push_str(&mut v, name);
    if force {
        push_str(&mut v, " deleted from remote (force)");
    } else {
        push_str(&mut v, " deleted from remote (recovery period: 7-30 days)");
    }
    assert(v@ =~= spec_deleted_remote(provider_id@, name@, force));
    string_from(v.as_slice())
}

/// A line split at its first ` | ` (what `split_once(" | ")` gives).
pub open spec fn spec_split_bar(s: Seq<char>) -> Option<(Seq<char>, Seq<char>)> {
    if contains(s, " | "@) {
        let i = bar_at(s);
        Some((s.subrange(0, i), s.subrange(i + 3, s.len() as int)))
    } else {
        None
    }
}

/// Split a line at its first ` | `.
pub fn split_bar(line: &str) -> (r: Option<(String, String)>)
    ensures
        match (r, spec_split_bar(line@)) {
            (Some((a, b)), Some((sa, sb))) => a@ == sa && b@ == sb,
            (None, None) => true,
            _ => false,
        },
{
    let s = chars_of(line);
    match find_bar(s.as_slice()) {
        None => None,
        Some(i) => {
            assert(s@.len() == s.len());
            let a = slice_of(s.as_slice(), 0, i);
            let b = slice_of(s.as_slice(), i + 3, s.len());
            Some((string_from(a.as_slice()), string_from(b.as_slice())))
        },
    }
}

} // verus!
