//! What `clean` reports, asks and removes.
//!
//! Secrets of the local-only provider `jaws` exist nowhere else: a full clean
//! warns about them and asks for confirmation, and `--keep-local` spares them.

use vstd::prelude::*;
use crate::models::{DbDownload, DbSecret};
use crate::text::{
    chars_of, decimal, ends_with, has_suffix, push_decimal, push_str, str_eq, string_from, trim,
    trim_chars, unicode_lowercase,
};
use crate::textops::string_views;
use crate::versions::{is_local_provider, local_provider};

verus! {

/// How many of the secrets belong to the local-only provider.
pub open spec fn count_local(s: Seq<DbSecret>) -> nat
    decreases s.len(),
{
    if s.len() == 0 {
        0
    } else {
        count_local(s.drop_last()) + if s.last().provider_id@ == local_provider() { 1nat } else { 0 }
    }
}

/// How many of the downloaded secrets belong to the local-only provider.
pub open spec fn count_local_downloads(s: Seq<(DbSecret, DbDownload)>) -> nat
    decreases s.len(),
{
    if s.len() == 0 {
        0
    } else {
        count_local_downloads(s.drop_last()) + if s.last().0.provider_id@ == local_provider() {
            1nat
        } else {
            0
        }
    }
}

/// One warning line per local secret, in order: `  - jaws://{name}`.
pub open spec fn local_warning_lines(s: Seq<DbSecret>) -> Seq<Seq<char>>
    decreases s.len(),
{
    if s.len() == 0 {
        Seq::empty()
    } else if s.last().provider_id@ == local_provider() {
        local_warning_lines(s.drop_last()).push("  - jaws://"@ + s.last().display_name@)
    } else {
        local_warning_lines(s.drop_last())
    }
}

proof fn lemma_count_le(s: Seq<DbSecret>)
    ensures
        count_local(s) <= s.len(),
    decreases s.len(),
{
    if s.len() > 0 {
        lemma_count_le(s.drop_last());
    }
}

proof fn lemma_count_downloads_le(s: Seq<(DbSecret, DbDownload)>)
    ensures
        count_local_downloads(s) <= s.len(),
    decreases s.len(),
{
    if s.len() > 0 {
        lemma_count_downloads_le(s.drop_last());
    }
}

/// The summary `clean` prints before acting, with the dry-run notice when asked.
pub open spec fn spec_clean_summary(
    secrets: Seq<DbSecret>,
    downloads: Seq<(DbSecret, DbDownload)>,
    file_count: nat,
    secrets_path: Seq<char>,
    keep_local: bool,
    dry_run: bool,
) -> Seq<Seq<char>> {
    let j = count_local(secrets);
    let r = (secrets.len() - j) as nat;
    let jd = count_local_downloads(downloads);
    let rd = (downloads.len() - jd) as nat;
    let head = seq!["Secrets directory: "@ + secrets_path, Seq::empty()];
    let body = if keep_local {
        seq![
            "Mode: --keep-local (preserving local jaws secrets)"@,
            Seq::empty(),
            "Will delete:"@,
            "  - "@ + decimal(r) + " remote provider secret(s) from database"@,
            "  - "@ + decimal(rd) + " remote secret file(s)"@,
            Seq::empty(),
            "Will keep:"@,
            "  - "@ + decimal(j) + " local jaws secret(s)"@,
            "  - "@ + decimal(jd) + " local jaws file(s)"@,
        ]
    } else {
        seq![
            "Will delete:"@,
            "  - "@ + decimal(secrets.len()) + " secret(s) from database ("@ + decimal(j) + " local jaws, "@
                + decimal(r) + " remote)"@,
            "  - "@ + decimal(file_count) + " secret file(s)"@,
            "  - Database file (jaws.db)"@,
        ] + if j > 0 {
            seq![
                Seq::empty(),
                "WARNING: "@ + decimal(j) + " local jaws secret(s) will be PERMANENTLY deleted:"@,
            ] + local_warning_lines(secrets) + seq![
                Seq::empty(),
                "These secrets are stored locally and cannot be recovered from any remote provider!"@,
            ]
        } else {
            Seq::empty()
        }
    };
    let tail = if dry_run {
        seq![Seq::empty(), "(dry run - no changes made)"@]
    } else {
        Seq::empty()
    };
    head + body + tail
}

/// What `clean` decides before touching anything.
pub struct CleanPlan {
    /// There is nothing to clean: no secret in the database and no file.
    pub nothing_to_clean: bool,
    /// The lines to print.
    pub lines: Vec<String>,
    /// Whether to stop after printing (a dry run, or nothing to clean).
    pub stop: bool,
    /// Whether the user must type `yes` first.
    pub needs_confirmation: bool,
}

fn push_line(out: &mut Vec<String>, v: &Vec<char>)
    ensures
        string_views(final(out)@) == string_views(old(out)@).push(v@),
{
    out.push(string_from(v.as_slice()));
    assert(string_views(final(out)@) =~= string_views(old(out)@).push(v@));
}

fn push_text(out: &mut Vec<String>, t: &str)
    ensures
        string_views(final(out)@) == string_views(old(out)@).push(t@),
{
    push_line(out, &chars_of(t));
}

/// Plan a `clean` over the secrets in the database, the downloaded secrets, and
/// the number of files under the secrets directory.
pub fn plan_clean(
    secrets: &Vec<DbSecret>,
    downloads: &Vec<(DbSecret, DbDownload)>,
    file_count: u64,
    secrets_path: &str,
    keep_local: bool,
    dry_run: bool,
    force: bool,
) -> (r: CleanPlan)
    ensures
        r.nothing_to_clean == (secrets@.len() == 0 && file_count == 0),
        r.nothing_to_clean ==> string_views(r.lines@) == seq![
            "Nothing to clean. Secrets directory is already empty."@,
        ] && r.stop && !r.needs_confirmation,
        !r.nothing_to_clean ==> string_views(r.lines@) == spec_clean_summary(
            secrets@,
            downloads@,
            file_count as nat,
            secrets_path@,
            keep_local,
            dry_run,
        ) && r.stop == dry_run && r.needs_confirmation == (!dry_run && count_local(secrets@) > 0
            && !keep_local && !force),
{
    let mut out: Vec<String> = Vec::new();
    if secrets.len() == 0 && file_count == 0 {
        push_text(&mut out, "Nothing to clean. Secrets directory is already empty.");
        return CleanPlan { nothing_to_clean: true, lines: out, stop: true, needs_confirmation: false };
    }
    // Count local and remote secrets and downloads.
    let mut j: usize = 0;
    let mut i: usize = 0;
    while i < secrets.len()
        invariant
            i <= secrets@.len(),
            j == count_local(secrets@.subrange(0, i as int)),
            j <= i,
        decreases secrets@.len() - i,
    {
        proof {
            assert(secrets@.subrange(0, i + 1).drop_last() =~= secrets@.subrange(0, i as int));
        }
        if is_local_provider(secrets[i].provider_id.as_str()) {
            j = j + 1;
        }
        i = i + 1;
    }
    assert(secrets@.subrange(0, secrets@.len() as int) =~= secrets@);
    let mut jd: usize = 0;
    let mut k: usize = 0;
    while k < downloads.len()
        invariant
            k <= downloads@.len(),
            jd == count_local_downloads(downloads@.subrange(0, k as int)),
            jd <= k,
        decreases downloads@.len() - k,
    {
        proof {
            assert(downloads@.subrange(0, k + 1).drop_last() =~= downloads@.subrange(0, k as int));
        }
        if is_local_provider(downloads[k].0.provider_id.as_str()) {
            jd = jd + 1;
        }
        k = k + 1;
    }
    assert(downloads@.subrange(0, downloads@.len() as int) =~= downloads@);
    let r = secrets.len() - j;
    let rd = downloads.len() - jd;

    let mut v = chars_of("Secrets directory: ");
    push_str(&mut v, secrets_path);
    push_line(&mut out, &v);
    push_line(&mut out, &Vec::new());
    let ghost head = string_views(out@);
    if keep_local {
        push_text(&mut out, "Mode: --keep-local (preserving local jaws secrets)");
        push_line(&mut out, &Vec::new());
        push_text(&mut out, "Will delete:");
        let mut a = chars_of("  - ");
        push_decimal(&mut a, r as u64);
        push_str(&mut a, " remote provider secret(s) from database");
        push_line(&mut out, &a);
        let mut b = chars_of("  - ");
        push_decimal(&mut b, rd as u64);
        push_str(&mut b, " remote secret file(s)");
        push_line(&mut out, &b);
        push_line(&mut out, &Vec::new());
        push_text(&mut out, "Will keep:");
        let mut c = chars_of("  - ");
        push_decimal(&mut c, j as u64);
        push_str(&mut c, " local jaws secret(s)");
        push_line(&mut out, &c);
        let mut d = chars_of("  - ");
        push_decimal(&mut d, jd as u64);
        push_str(&mut d, " local jaws file(s)");
        push_line(&mut out, &d);
    } else {
        push_text(&mut out, "Will delete:");
        let mut a = chars_of("  - ");
        push_decimal(&mut a, secrets.len() as u64);
        push_str(&mut a, " secret(s) from database (");
        push_decimal(&mut a, j as u64);
        push_str(&mut a, " local jaws, ");
        push_decimal(&mut a, r as u64);
        push_str(&mut a, " remote)");
        push_line(&mut out, &a);
        let mut b = chars_of("  - ");
        push_decimal(&mut b, file_count);
        push_str(&mut b, " secret file(s)");
        push_line(&mut out, &b);
        push_text(&mut out, "  - Database file (jaws.db)");
        if j > 0 {
            push_line(&mut out, &Vec::new());
            let mut w = chars_of("WARNING: ");
            push_decimal(&mut w, j as u64);
            push_str(&mut w, " local jaws secret(s) will be PERMANENTLY deleted:");
            push_line(&mut out, &w);
            let ghost before = string_views(out@);
            let mut q: usize = 0;
            while q < secrets.len()
                invariant
                    q <= secrets@.len(),
                    string_views(out@) == before + local_warning_lines(secrets@.subrange(0, q as int)),
                decreases secrets@.len() - q,
            {
                proof {
                    assert(secrets@.subrange(0, q + 1).drop_last() =~= secrets@.subrange(0, q as int));
                }
                if is_local_provider(secrets[q].provider_id.as_str()) {
                    let mut l = chars_of("  - jaws://");
                    push_str(&mut l, secrets[q].display_name.as_str());
                    push_line(&mut out, &l);
                }
                q = q + 1;
                assert(string_views(out@) =~= before + local_warning_lines(secrets@.subrange(0, q as int)));
            }
            push_line(&mut out, &Vec::new());
            push_text(
                &mut out,
                "These secrets are stored locally and cannot be recovered from any remote provider!",
            );
        }
    }
    if dry_run {
        push_line(&mut out, &Vec::new());
        push_text(&mut out, "(dry run - no changes made)");
    }
    proof {
        assert(string_views(out@) =~= spec_clean_summary(
            secrets@,
            downloads@,
            file_count as nat,
            secrets_path@,
            keep_local,
            dry_run,
        ));
    }
    CleanPlan {
        nothing_to_clean: false,
        lines: out,
        stop: dry_run,
        needs_confirmation: !dry_run && j > 0 && !keep_local && !force,
    }
}

/// The user confirmed: the answer, trimmed and lowercased, is `yes`.
pub fn confirmation_accepted(answer: &str) -> (r: bool)
    ensures
        r == (unicode_lowercase(trim(answer@)) == "yes"@),
{
    let v = chars_of(answer);
    let t = string_from(trim_chars(v.as_slice()).as_slice());
    let l = crate::text::to_lowercase(t.as_str());
    str_eq(l.as_str(), "yes")
}

/// A file at the root of the secrets directory that belongs to the database
/// (the database itself, or its journal, WAL or shared-memory file) and is kept.
pub open spec fn spec_is_database_file(name: Seq<char>) -> bool {
    ends_with(name, ".db"@) || ends_with(name, "-journal"@) || ends_with(name, "-wal"@) || ends_with(
        name,
        "-shm"@,
    )
}

/// Whether a root-level file is part of the database and must survive a clean.
pub fn is_database_file(name: &str) -> (r: bool)
    ensures
        r == spec_is_database_file(name@),
{
    let n = chars_of(name);
    has_suffix(n.as_slice(), chars_of(".db").as_slice()) || has_suffix(
        n.as_slice(),
        chars_of("-journal").as_slice(),
    ) || has_suffix(n.as_slice(), chars_of("-wal").as_slice()) || has_suffix(
        n.as_slice(),
        chars_of("-shm").as_slice(),
    )
}

/// The remote providers whose secrets a `--keep-local` clean deletes: every
/// provider id other than `jaws` that occurs, each once, in order of first occurrence.
pub fn remote_provider_ids(secrets: &Vec<DbSecret>) -> (r: Vec<String>)
    ensures
        forall|a: int, b: int| 0 <= a < b < r@.len() ==> (#[trigger] r@[a])@ != (#[trigger] r@[b])@,
        forall|x: Seq<char>|
            #[trigger] string_views(r@).contains(x) <==> (x != local_provider() && exists|i: int|
                0 <= i < secrets@.len() && (#[trigger] secrets@[i]).provider_id@ == x),
{
    let mut out: Vec<String> = Vec::new();
    let mut i: usize = 0;
    while i < secrets.len()
        invariant
            i <= secrets@.len(),
            forall|a: int, b: int| 0 <= a < b < out@.len() ==> (#[trigger] out@[a])@ != (#[trigger] out@[b])@,
            forall|x: Seq<char>|
                #[trigger] string_views(out@).contains(x) <==> (x != local_provider() && exists|k: int|
                    0 <= k < i && (#[trigger] secrets@[k]).provider_id@ == x),
        decreases secrets@.len() - i,
    {
        let id = &secrets[i].provider_id;
        let mut seen = false;
        let mut q: usize = 0;
        while q < out.len()
            invariant
                q <= out@.len(),
                seen == exists|k: int| 0 <= k < q && (#[trigger] out@[k])@ == id@,
            decreases out@.len() - q,
        {
            if str_eq(out[q].as_str(), id.as_str()) {
                seen = true;
            }
            q = q + 1;
        }
        let ghost before = out@;
        if !seen && !is_local_provider(id.as_str()) {
            out.push(string_from(chars_of(id.as_str()).as_slice()));
            proof {
                assert forall|a: int, b: int| 0 <= a < b < out@.len() implies (#[trigger] out@[a])@
                    != (#[trigger] out@[b])@ by {
                    if b == out@.len() - 1 {
                        assert(out@[a] == before[a]);
                    } else {
                        assert(out@[a] == before[a] && out@[b] == before[b]);
                    }
                }
            }
        }
        proof {
            assert forall|x: Seq<char>|
                #[trigger] string_views(out@).contains(x) <==> (x != local_provider() && exists|k: int|
                    0 <= k < i + 1 && (#[trigger] secrets@[k]).provider_id@ == x) by {
                if string_views(out@).contains(x) {
                    let p = choose|p: int| 0 <= p < string_views(out@).len() && string_views(out@)[p] == x;
                    if p < before.len() {
                        assert(string_views(before)[p] == x);
                        assert(string_views(before).contains(x));
                        let k = choose|k: int| 0 <= k < i && (#[trigger] secrets@[k]).provider_id@ == x;
                        assert(0 <= k < i + 1 && secrets@[k].provider_id@ == x);
                    } else {
                        assert(0 <= i < i + 1 && secrets@[i as int].provider_id@ == x);
                    }
                }
                if x != local_provider() && exists|k: int|
                    0 <= k < i + 1 && (#[trigger] secrets@[k]).provider_id@ == x {
                    let k = choose|k: int| 0 <= k < i + 1 && (#[trigger] secrets@[k]).provider_id@ == x;
                    if k < i {
                        assert(string_views(before).contains(x));
                        let p = choose|p: int| 0 <= p < string_views(before).len() && string_views(before)[p] == x;
                        assert(string_views(out@)[p] == x);
                    } else if seen {
                        let p = choose|p: int| 0 <= p < before.len() && (#[trigger] before[p])@ == id@;
                        assert(string_views(out@)[p] == x);
                    } else {
                        assert(string_views(out@)[before.len() as int] == x);
                    }
                }
            }
        }
        i = i + 1;
    }
    out
}

/// `Deleted {n} remote secret(s) and {m} file(s).` / `Kept {j} local jaws secret(s).`
pub open spec fn spec_keep_local_result(deleted: nat, files: nat, kept: nat) -> Seq<Seq<char>> {
    seq![
        Seq::empty(),
        "Deleted "@ + decimal(deleted) + " remote secret(s) and "@ + decimal(files) + " file(s)."@,
        "Kept "@ + decimal(kept) + " local jaws secret(s)."@,
    ]
}

/// `Deleted {n} secret(s) and {m} file(s).`
pub open spec fn spec_full_result(deleted: nat, files: nat) -> Seq<Seq<char>> {
    seq![Seq::empty(), "Deleted "@ + decimal(deleted) + " secret(s) and "@ + decimal(files) + " file(s)."@]
}

/// The lines printed after a clean.
pub fn clean_result(keep_local: bool, deleted_secrets: u64, deleted_files: u64, kept: u64) -> (r: Vec<String>)
    ensures
        string_views(r@) == if keep_local {
            spec_keep_local_result(deleted_secrets as nat, deleted_files as nat, kept as nat)
        } else {
            spec_full_result(deleted_secrets as nat, deleted_files as nat)
        },
{
    let mut out: Vec<String> = Vec::new();
    push_line(&mut out, &Vec::new());
    let mut a = chars_of("Deleted ");
    push_decimal(&mut a, deleted_secrets);
    if keep_local {
        push_str(&mut a, " remote secret(s) and ");
    } else {
        push_str(&mut a, " secret(s) and ");
    }
    push_decimal(&mut a, deleted_files);
    push_str(&mut a, " file(s).");
    push_line(&mut out, &a);
    if keep_local {
        let mut b = chars_of("Kept ");
        push_decimal(&mut b, kept);
        push_str(&mut b, " local jaws secret(s).");
        push_line(&mut out, &b);
    }
    proof {
        if keep_local {
            assert(string_views(out@) =~= spec_keep_local_result(deleted_secrets as nat, deleted_files as nat, kept as nat));
        } else {
            assert(string_views(out@) =~= spec_full_result(deleted_secrets as nat, deleted_files as nat));
        }
    }
    out
}

// ---------------------------------------------------------------------------
// What a --keep-local clean removes
// ---------------------------------------------------------------------------

/// The positions of the downloaded secrets of remote providers, in order.
pub open spec fn remote_positions(s: Seq<(DbSecret, DbDownload)>) -> Seq<int>
    decreases s.len(),
{
    if s.len() == 0 {
        Seq::empty()
    } else {
        let prev = remote_positions(s.drop_last());
        if s.last().0.provider_id@ == local_provider() {
            prev
        } else {
            prev.push(s.len() - 1)
        }
    }
}

/// The downloaded secrets whose files a `--keep-local` clean removes: those of
/// every provider but the local-only one, by position, in order.
pub fn remote_downloads(downloaded: &Vec<(DbSecret, DbDownload)>) -> (r: Vec<usize>)
    ensures
        r@.map_values(|x: usize| x as int) == remote_positions(downloaded@),
{
    let mut out: Vec<usize> = Vec::new();
    let mut i: usize = 0;
    while i < downloaded.len()
        invariant
            i <= downloaded@.len(),
            out@.map_values(|x: usize| x as int) == remote_positions(downloaded@.subrange(0, i as int)),
        decreases downloaded@.len() - i,
    {
        proof {
            assert(downloaded@.subrange(0, i + 1).drop_last() =~= downloaded@.subrange(0, i as int));
        }
        let ghost before = out@.map_values(|x: usize| x as int);
        if !is_local_provider(downloaded[i].0.provider_id.as_str()) {
            out.push(i);
            assert(out@.map_values(|x: usize| x as int) =~= before.push(i as int));
        }
        i = i + 1;
    }
    assert(downloaded@.subrange(0, downloaded@.len() as int) =~= downloaded@);
    out
}

/// The files removed for the secrets a `--keep-local` clean visits: for each, its
/// working file when it was there, and every archived version.
pub open spec fn removed_files(working: Seq<bool>, versions: Seq<u64>) -> nat
    decreases working.len(),
{
    if working.len() == 0 || versions.len() == 0 {
        0
    } else {
        removed_files(working.drop_last(), versions.drop_last()) + (versions.last() as nat) + if working.last() {
            1nat
        } else {
            0
        }
    }
}

/// How many files a `--keep-local` clean removed, given for each remote secret
/// whether its working file was there and how many versions it had.
pub fn removed_file_count(working: &Vec<bool>, versions: &Vec<u64>) -> (r: u64)
    requires
        working@.len() == versions@.len(),
        removed_files(working@, versions@) <= u64::MAX,
    ensures
        r == removed_files(working@, versions@),
{
    let mut total: u64 = 0;
    let mut i: usize = 0;
    while i < working.len()
        invariant
            i <= working@.len(),
            working@.len() == versions@.len(),
            total == removed_files(working@.subrange(0, i as int), versions@.subrange(0, i as int)),
            removed_files(working@, versions@) <= u64::MAX,
        decreases working@.len() - i,
    {
        proof {
            assert(working@.subrange(0, i + 1).drop_last() =~= working@.subrange(0, i as int));
            assert(versions@.subrange(0, i + 1).drop_last() =~= versions@.subrange(0, i as int));
            lemma_removed_files_prefix(working@, versions@, i + 1);
        }
        total = total + versions[i] + if working[i] { 1u64 } else { 0u64 };
        i = i + 1;
    }
    assert(working@.subrange(0, i as int) =~= working@);
    assert(versions@.subrange(0, i as int) =~= versions@);
    total
}

proof fn lemma_removed_files_prefix(working: Seq<bool>, versions: Seq<u64>, n: int)
    requires
        working.len() == versions.len(),
        0 <= n <= working.len(),
    ensures
        removed_files(working.subrange(0, n), versions.subrange(0, n)) <= removed_files(working, versions),
    decreases working.len() - n,
{
    if n < working.len() {
        lemma_removed_files_prefix(working, versions, n + 1);
        assert(working.subrange(0, n + 1).drop_last() =~= working.subrange(0, n));
        assert(versions.subrange(0, n + 1).drop_last() =~= versions.subrange(0, n));
    } else {
        assert(working.subrange(0, n) =~= working);
        assert(versions.subrange(0, n) =~= versions);
    }
}

} // verus!
