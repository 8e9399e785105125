//! What `history --remote` and `rollback --remote` decide and print, given the
//! configured providers as `(id, kind)` pairs.

use vstd::prelude::*;
use crate::text::{chars_of, push_str, str_eq, string_from};
use crate::textops::string_views;
use crate::versions::{history_rule, spec_history_rule};

verus! {

/// The kind of the first provider with this id.
pub open spec fn kind_of_provider(providers: Seq<(String, String)>, id: Seq<char>) -> Option<Seq<char>>
    decreases providers.len(),
{
    if providers.len() == 0 {
        None
    } else if providers[0].0@ == id {
        Some(providers[0].1@)
    } else {
        kind_of_provider(providers.drop_first(), id)
    }
}

/// The kind of the first provider with this id, if any.
pub fn provider_kind(providers: &Vec<(String, String)>, id: &str) -> (r: Option<String>)
    ensures
        match (r, kind_of_provider(providers@, id@)) {
            (Some(k), Some(sk)) => k@ == sk,
            (None, None) => true,
            _ => false,
        },
{
    let mut j: usize = 0;
    assert(providers@.subrange(0, providers@.len() as int) =~= providers@);
    while j < providers.len()
        invariant
            j <= providers@.len(),
            kind_of_provider(providers@, id@) == kind_of_provider(providers@.subrange(j as int, providers@.len() as int), id@),
        decreases providers@.len() - j,
    {
        let ghost rest = providers@.subrange(j as int, providers@.len() as int);
        assert(rest.drop_first() =~= providers@.subrange(j + 1, providers@.len() as int));
        if str_eq(providers[j].0.as_str(), id) {
            return Some(string_from(chars_of(providers[j].1.as_str()).as_slice()));
        }
        j = j + 1;
    }
    None
}

// ---------------------------------------------------------------------------
// history --remote
// ---------------------------------------------------------------------------

/// What is said about the remote history of a provider of this kind.
pub open spec fn remote_history_notes(kind: Seq<char>) -> Seq<Seq<char>> {
    if kind == "jaws"@ {
        seq!["  'jaws' is a local-only provider. Use 'jaws history' without --remote."@]
    } else if kind == "aws"@ {
        seq![
            "  Remote version history for AWS Secrets Manager is available via the AWS Console."@,
            "  Use 'jaws rollback --remote' to restore a previous version."@,
            Seq::empty(),
            "  Tip: AWS maintains AWSCURRENT and AWSPREVIOUS version labels."@,
            "  When you update a secret, the previous value becomes AWSPREVIOUS."@,
        ]
    } else if kind == "onepassword"@ {
        seq![
            "  1Password item history is available via the 1Password app or web interface."@,
            "  The op CLI and service accounts have limited version history support."@,
        ]
    } else if kind == "bitwarden"@ {
        seq![
            "  Bitwarden Secrets Manager does not currently support version history."@,
            "  Use local history ('jaws history' without --remote) to track your changes."@,
        ]
    } else {
        seq!["  Remote version history is not yet implemented for this provider."@]
    }
}

/// The block printed for one secret: its reference, the underline, and the notes.
pub open spec fn remote_history_block(provider_id: Seq<char>, secret: Seq<char>, kind: Seq<char>) -> Seq<
    Seq<char>,
> {
    seq!["\n"@ + provider_id + "://"@ + secret, spec_history_rule(provider_id, secret)] + remote_history_notes(
        kind,
    )
}

/// The message when a selected secret names no configured provider.
pub open spec fn provider_missing_message(id: Seq<char>) -> Seq<char> {
    "Provider '"@ + id + "' not found"@
}

/// The blocks for the selected `(provider, secret)` pairs in order, stopping at the
/// first whose provider is not configured (with its error).
pub open spec fn remote_history_blocks(selected: Seq<(String, String)>, providers: Seq<(String, String)>) -> (
    Seq<Seq<char>>,
    Option<Seq<char>>,
)
    decreases selected.len(),
{
    if selected.len() == 0 {
        (Seq::empty(), None)
    } else {
        let (prev, err) = remote_history_blocks(selected.drop_last(), providers);
        let (p, s) = selected.last();
        if err is Some {
            (prev, err)
        } else {
            match kind_of_provider(providers, p@) {
                None => (prev, Some(provider_missing_message(p@))),
                Some(k) => (prev + remote_history_block(p@, s@, k), None),
            }
        }
    }
}

/// What `history --remote` prints for the selected secrets, and the error it
/// stops with, if any. Nothing is printed when nothing was selected.
pub open spec fn spec_remote_history(selected: Seq<(String, String)>, providers: Seq<(String, String)>) -> (
    Seq<Seq<char>>,
    Option<Seq<char>>,
) {
    if selected.len() == 0 {
        (Seq::empty(), None)
    } else {
        let (lines, err) = remote_history_blocks(selected, providers);
        if err is Some {
            (lines, err)
        } else {
            (
                lines + seq![
                    Seq::empty(),
                    "Hint: Use 'jaws history' (without --remote) to view local version history."@,
                ],
                None,
            )
        }
    }
}

fn push_line(out: &mut Vec<String>, s: &str)
    ensures
        string_views(final(out)@) == string_views(old(out)@).push(s@),
{
    let ghost before = string_views(out@);
    out.push(string_from(chars_of(s).as_slice()));
    assert(string_views(out@) =~= before.push(s@));
}

fn push_notes(out: &mut Vec<String>, kind: &str)
    ensures
        string_views(final(out)@) == string_views(old(out)@) + remote_history_notes(kind@),
{
    proof {
        reveal_strlit("jaws");
        reveal_strlit("aws");
        reveal_strlit("onepassword");
        reveal_strlit("bitwarden");
    }
    let ghost start = string_views(out@);
    if str_eq(kind, "jaws") {
        push_line(out, "  'jaws' is a local-only provider. Use 'jaws history' without --remote.");
    } else if str_eq(kind, "aws") {
        push_line(out, "  Remote version history for AWS Secrets Manager is available via the AWS Console.");
        push_line(out, "  Use 'jaws rollback --remote' to restore a previous version.");
        let ghost before = string_views(out@);
        out.push(string_from(Vec::<char>::new().as_slice()));
        assert(string_views(out@) =~= before.push(Seq::empty()));
        push_line(out, "  Tip: AWS maintains AWSCURRENT and AWSPREVIOUS version labels.");
        push_line(out, "  When you update a secret, the previous value becomes AWSPREVIOUS.");
    } else if str_eq(kind, "onepassword") {
        push_line(out, "  1Password item history is available via the 1Password app or web interface.");
        push_line(out, "  The op CLI and service accounts have limited version history support.");
    } else if str_eq(kind, "bitwarden") {
        push_line(out, "  Bitwarden Secrets Manager does not currently support version history.");
        push_line(out, "  Use local history ('jaws history' without --remote) to track your changes.");
    } else {
        push_line(out, "  Remote version history is not yet implemented for this provider.");
    }
    assert(string_views(out@) =~= start + remote_history_notes(kind@));
}

/// What `history --remote` prints for the selected `(provider, secret)` pairs,
/// given the configured `(id, kind)` providers, and the error it stops with.
pub fn remote_history(selected: &Vec<(String, String)>, providers: &Vec<(String, String)>) -> (r: (
    Vec<String>,
    Option<String>,
))
    ensures
        string_views(r.0@) == spec_remote_history(selected@, providers@).0,
        match (r.1, spec_remote_history(selected@, providers@).1) {
            (Some(e), Some(se)) => e@ == se,
            (None, None) => true,
            _ => false,
        },
{
    let mut out: Vec<String> = Vec::new();
    if selected.len() == 0 {
        assert(string_views(out@) =~= Seq::<Seq<char>>::empty());
        return (out, None);
    }
    let mut i: usize = 0;
    while i < selected.len()
        invariant
            i <= selected@.len(),
            remote_history_blocks(selected@.subrange(0, i as int), providers@).1 is None,
            string_views(out@) == remote_history_blocks(selected@.subrange(0, i as int), providers@).0,
        decreases selected@.len() - i,
    {
        proof {
            assert(selected@.subrange(0, i + 1).drop_last() =~= selected@.subrange(0, i as int));
        }
        let p = selected[i].0.as_str();
        let s = selected[i].1.as_str();
        match provider_kind(providers, p) {
            None => {
                let mut m = chars_of("Provider '");
                push_str(&mut m, p);
                push_str(&mut m, "' not found");
                proof {
                    lemma_blocks_stop(selected@, providers@, i as int);
                }
                return (out, Some(string_from(m.as_slice())));
            },
            Some(k) => {
                let ghost start = string_views(out@);
                let mut head = chars_of("\n");
                push_str(&mut head, p);
                push_str(&mut head, "://");
                push_str(&mut head, s);
                let ghost hv = head@;
                out.push(string_from(head.as_slice()));
                let rule = history_rule(p, s);
                let ghost rv = rule@;
                out.push(rule);
                assert(string_views(out@) =~= start + seq![hv, rv]);
                push_notes(&mut out, k.as_str());
                assert(string_views(out@) =~= start + remote_history_block(p@, s@, k@));
            },
        }
        i = i + 1;
    }
    assert(selected@.subrange(0, selected@.len() as int) =~= selected@);
    let ghost before = string_views(out@);
    out.push(string_from(Vec::<char>::new().as_slice()));
    push_line(&mut out, "Hint: Use 'jaws history' (without --remote) to view local version history.");
    assert(string_views(out@) =~= before + seq![
        Seq::<char>::empty(),
        "Hint: Use 'jaws history' (without --remote) to view local version history."@,
    ]);
    (out, None)
}

/// Once the pair at `i` names no provider, the run stops there with its error.
proof fn lemma_blocks_stop(selected: Seq<(String, String)>, providers: Seq<(String, String)>, i: int)
    requires
        0 <= i < selected.len(),
        remote_history_blocks(selected.subrange(0, i), providers).1 is None,
        kind_of_provider(providers, selected[i].0@) is None,
    ensures
        remote_history_blocks(selected, providers) == (
            remote_history_blocks(selected.subrange(0, i), providers).0,
            Some(provider_missing_message(selected[i].0@)),
        ),
    decreases selected.len() - i,
{
    if i + 1 == selected.len() {
        assert(selected.drop_last() =~= selected.subrange(0, i));
    } else {
        let shorter = selected.drop_last();
        assert(shorter.subrange(0, i) =~= selected.subrange(0, i));
        assert(shorter[i] == selected[i]);
        lemma_blocks_stop(shorter, providers, i);
    }
}

// ---------------------------------------------------------------------------
// rollback --remote
// ---------------------------------------------------------------------------

/// The note printed, in place of a rollback, for the local-only provider.
pub open spec fn local_only_rollback_note() -> Seq<char> {
    "Note: 'jaws' is a local-only provider. Use 'jaws rollback' without --remote for local rollback."@
}

/// Before a remote rollback: the provider must be configured (else the command
/// fails with this message), and the local-only provider is passed over with a note.
pub fn remote_rollback_check(provider_id: &str, providers: &Vec<(String, String)>) -> (r: Result<
    Option<String>,
    String,
>)
    ensures
        kind_of_provider(providers@, provider_id@) is None ==> (r matches Err(e) && e@ == "Provider "@
            + provider_id@ + " not found"@),
        kind_of_provider(providers@, provider_id@) is Some ==> (r matches Ok(n) && (n is Some <==> provider_id@
            == "jaws"@) && (n matches Some(t) ==> t@ == local_only_rollback_note())),
{
    proof {
        reveal_strlit("jaws");
    }
    match provider_kind(providers, provider_id) {
        None => {
            let mut m = chars_of("Provider ");
            push_str(&mut m, provider_id);
            push_str(&mut m, " not found");
            Err(string_from(m.as_slice()))
        },
        Some(_) => {
            if str_eq(provider_id, "jaws") {
                Ok(
                    Some(
                        string_from(
                            chars_of(
                                "Note: 'jaws' is a local-only provider. Use 'jaws rollback' without --remote for local rollback.",
                            ).as_slice(),
                        ),
                    ),
                )
            } else {
                Ok(None)
            }
        },
    }
}

/// What a remote rollback reports: where it went, or (on standard error) why it failed.
pub open spec fn spec_remote_rollback_line(
    provider_id: Seq<char>,
    secret: Seq<char>,
    version_id: Option<Seq<char>>,
    outcome: Result<Seq<char>, Seq<char>>,
) -> (bool, Seq<char>) {
    match outcome {
        Ok(res) => (false, provider_id + "://"@ + secret + match version_id {
            Some(v) => " rolled back to version "@ + v,
            None => " rolled back to previous version"@,
        } + " -> "@ + res),
        Err(e) => (true, "Error rolling back "@ + secret + " in "@ + provider_id + ": "@ + e),
    }
}

/// The line a remote rollback prints, with whether it goes to standard error.
pub fn remote_rollback_line(
    provider_id: &str,
    secret: &str,
    version_id: Option<&str>,
    outcome: &Result<String, String>,
) -> (r: (bool, String))
    ensures
        (r.0, r.1@) == spec_remote_rollback_line(provider_id@, secret@, match version_id {
            Some(v) => Some(v@),
            None => None,
        }, match outcome {
            Ok(s) => Ok(s@),
            Err(e) => Err(e@),
        }),
{
    match outcome {
        Ok(res) => {
            let mut v = chars_of(provider_id);
            push_str(&mut v, "://");
            push_str(&mut v, secret);
            match version_id {
                Some(id) => {
                    push_str(&mut v, " rolled back to version ");
                    push_str(&mut v, id);
                },
                None => push_str(&mut v, " rolled back to previous version"),
            }
            push_str(&mut v, " -> ");
            push_str(&mut v, res.as_str());
            proof {
                let sv = match version_id {
                    Some(x) => Some(x@),
                    None => None,
                };
                assert(v@ =~= spec_remote_rollback_line(provider_id@, secret@, sv, Ok(res@)).1);
            }
            (false, string_from(v.as_slice()))
        },
        Err(e) => {
            let mut v = chars_of("Error rolling back ");
            push_str(&mut v, secret);
            push_str(&mut v, " in ");
            push_str(&mut v, provider_id);
            push_str(&mut v, ": ");
            push_str(&mut v, e.as_str());
            (true, string_from(v.as_slice()))
        },
    }
}

} // verus!
