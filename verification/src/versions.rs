//! Local versions of secrets: when a working file becomes a new version, which
//! old versions are pruned, what `rollback` and `history` decide and print, and
//! when cached listings and downloads are stale.

use vstd::prelude::*;
use vstd::string::StringSliceAdditionalSpecFns;
use crate::models::{DbDownload, DbSecret};
use crate::text::{chars_of, decimal, push_decimal, push_str, str_eq, string_from};
use crate::textops::{push_signed_decimal, signed_decimal, string_views};

verus! {

/// The provider id of secrets kept only on this machine.
pub open spec fn local_provider() -> Seq<char> {
    "jaws"@
}

/// Whether a provider id is the local-only provider.
pub fn is_local_provider(provider_id: &str) -> (r: bool)
    ensures
        r == (provider_id@ == local_provider()),
{
    str_eq(provider_id, "jaws")
}

// ---------------------------------------------------------------------------
// Snapshots of edited working files
// ---------------------------------------------------------------------------

/// The outcome of checking one working file.
#[derive(Debug)]
pub struct SnapshotResult {
    pub secret_name: String,
    pub provider_id: String,
    pub new_version: Option<i32>,
    pub was_modified: bool,
}

/// The hash a download records, or the empty text when it records none.
pub open spec fn stored_hash(d: DbDownload) -> Seq<char> {
    match d.file_hash {
        Some(h) => h@,
        None => Seq::empty(),
    }
}

/// Whether a working file with content hash `working_hash` (`None`: missing or
/// unreadable) differs from what `download` recorded.
pub open spec fn spec_is_dirty(working_hash: Option<Seq<char>>, d: DbDownload) -> bool {
    match working_hash {
        Some(h) => h != stored_hash(d),
        None => false,
    }
}

/// A version recorded with the working file's hash leaves that file clean: once
/// saved, an unedited file is not saved again.
pub proof fn law_recorded_version_is_clean(h: Seq<char>, d: DbDownload)
    requires
        d.file_hash matches Some(s) && s@ == h,
    ensures
        !spec_is_dirty(Some(h), d),
{
}

/// A working file is dirty when it exists, could be read, and its content hash
/// differs from the one the latest download recorded. `working_hash` is that
/// hash, or `None` when the file is missing or unreadable.
pub fn is_dirty(working_hash: Option<&str>, download: &DbDownload) -> (r: bool)
    ensures
        r == spec_is_dirty(match working_hash {
            Some(h) => Some(h@),
            None => None,
        }, *download),
{
    match working_hash {
        None => false,
        Some(h) => match &download.file_hash {
            Some(s) => !str_eq(h, s.as_str()),
            None => {
                let e = h.is_empty();
                proof {
                    if e {
                        assert(h@ =~= Seq::<char>::empty());
                    }
                }
                !e
            },
        },
    }
}

/// What recording an edited working file does.
pub struct SnapshotPlan {
    /// The number of the new version.
    pub version: i32,
    /// Whether the new version counts as pushed at once (a local secret has no remote).
    pub pushed_now: bool,
    /// The details of the `auto_save` log entry.
    pub log_details: String,
}

/// `{"version": N}`.
pub open spec fn spec_version_details(v: int) -> Seq<char> {
    "{\"version\": "@ + signed_decimal(v) + "}"@
}

/// Decide whether the working file (whose content hash is `working_hash`, `None`
/// when there is no working file) becomes a new version after `download`.
pub fn plan_snapshot(secret: &DbSecret, download: &DbDownload, working_hash: Option<&str>) -> (r: Option<SnapshotPlan>)
    requires
        download.version < i32::MAX,
    ensures
        match r {
            None => !(working_hash matches Some(h) && h@ != stored_hash(*download)),
            Some(p) => (working_hash matches Some(h) && h@ != stored_hash(*download)) && p.version
                == download.version + 1 && p.pushed_now == (secret.provider_id@ == local_provider())
                && p.log_details@ == spec_version_details(p.version as int),
        },
{
    if !is_dirty(working_hash, download) {
        return None;
    }
    let version = download.version + 1;
    let mut v = chars_of("{\"version\": ");
    push_signed_decimal(&mut v, version as i64);
    push_str(&mut v, "}");
    assert(v@ =~= spec_version_details(version as int));
    Some(SnapshotPlan {
        version,
        pushed_now: is_local_provider(secret.provider_id.as_str()),
        log_details: string_from(v.as_slice()),
    })
}

/// The versions that pruning removes from a newest-first list: all after the
/// first `max_versions`, or none when the limit is zero.
pub open spec fn spec_pruned(downloads: Seq<DbDownload>, max_versions: nat) -> Seq<DbDownload> {
    if max_versions == 0 || downloads.len() <= max_versions {
        Seq::empty()
    } else {
        downloads.subrange(max_versions as int, downloads.len() as int)
    }
}

/// The ids of the versions to prune from a newest-first list of downloads.
pub fn versions_to_prune(downloads: &Vec<DbDownload>, max_versions: u32) -> (r: Vec<i64>)
    ensures
        r@ == spec_pruned(downloads@, max_versions as nat).map_values(|d: DbDownload| d.id),
{
    let mut out: Vec<i64> = Vec::new();
    if max_versions == 0 || downloads.len() <= max_versions as usize {
        assert(out@ =~= spec_pruned(downloads@, max_versions as nat).map_values(|d: DbDownload| d.id));
        return out;
    }
    let start = max_versions as usize;
    let mut i = start;
    while i < downloads.len()
        invariant
            start == max_versions as usize,
            start <= i <= downloads@.len(),
            out@.len() == i - start,
            forall|k: int| 0 <= k < out@.len() ==> #[trigger] out@[k] == downloads@[start + k].id,
        decreases downloads@.len() - i,
    {
        out.push(downloads[i].id);
        i = i + 1;
    }
    assert(out@ =~= spec_pruned(downloads@, max_versions as nat).map_values(|d: DbDownload| d.id));
    out
}

/// Pruning keeps the newest `max_versions` versions: what it removes and what
/// stays make up the whole list, and exactly `max_versions` stay when there were more.
pub proof fn law_prune_keeps_newest(downloads: Seq<DbDownload>, max_versions: nat)
    requires
        max_versions > 0,
    ensures
        downloads.subrange(0, downloads.len() - spec_pruned(downloads, max_versions).len())
            + spec_pruned(downloads, max_versions) == downloads,
        downloads.len() > max_versions ==> downloads.len() - spec_pruned(downloads, max_versions).len()
            == max_versions,
        downloads.len() <= max_versions ==> spec_pruned(downloads, max_versions).len() == 0,
{
    assert(downloads.subrange(0, downloads.len() - spec_pruned(downloads, max_versions).len())
        + spec_pruned(downloads, max_versions) =~= downloads);
}

/// The ids pruned right after a version was saved, from the newest-first list of
/// versions that now holds it: pruning under the configured limit, or nothing when
/// no limit is set.
pub fn pruned_after_save(downloads: &Vec<DbDownload>, max_versions: Option<u32>) -> (r: Vec<i64>)
    ensures
        r@ == match max_versions {
            Some(m) => spec_pruned(downloads@, m as nat).map_values(|d: DbDownload| d.id),
            None => Seq::<i64>::empty(),
        },
{
    match max_versions {
        Some(m) => versions_to_prune(downloads, m),
        None => Vec::new(),
    }
}

/// Pruning right after a save never removes the version just saved (the newest),
/// and leaves at most `max_versions` versions.
pub proof fn law_save_keeps_saved_version(downloads: Seq<DbDownload>, max_versions: nat)
    requires
        max_versions > 0,
        downloads.len() > 0,
    ensures
        spec_pruned(downloads, max_versions).len() < downloads.len(),
        spec_pruned(downloads, max_versions) == downloads.subrange(
            downloads.len() - spec_pruned(downloads, max_versions).len(),
            downloads.len() as int,
        ),
        downloads.len() - spec_pruned(downloads, max_versions).len() <= max_versions,
{
    assert(spec_pruned(downloads, max_versions) =~= downloads.subrange(
        downloads.len() - spec_pruned(downloads, max_versions).len(),
        downloads.len() as int,
    ));
}

/// `{provider}://{name}`.
pub open spec fn spec_ref_text(provider_id: Seq<char>, name: Seq<char>) -> Seq<char> {
    provider_id + "://"@ + name
}

/// ` (v{N})`, with 0 for a missing version.
pub open spec fn version_tag(v: Option<i32>) -> Seq<char> {
    " (v"@ + signed_decimal(match v { Some(n) => n as int, None => 0 }) + ")"@
}

/// The summary lines after snapshotting.
pub open spec fn spec_snapshot_summary(results: Seq<SnapshotResult>) -> Seq<Seq<char>> {
    if results.len() == 0 {
        Seq::empty()
    } else if results.len() == 1 {
        seq![
            "Saved: "@ + spec_ref_text(results[0].provider_id@, results[0].secret_name@) + version_tag(
                results[0].new_version,
            ),
        ]
    } else {
        seq!["Saved "@ + decimal(results.len()) + " version(s):"@] + Seq::new(
            results.len(),
            |i: int|
                "  "@ + spec_ref_text(results[i].provider_id@, results[i].secret_name@) + version_tag(
                    results[i].new_version,
                ),
        )
    }
}

fn push_tagged_ref(v: &mut Vec<char>, r: &SnapshotResult)
    ensures
        final(v)@ == old(v)@ + spec_ref_text(r.provider_id@, r.secret_name@) + version_tag(r.new_version),
{
    push_str(v, r.provider_id.as_str());
    push_str(v, "://");
    push_str(v, r.secret_name.as_str());
    push_str(v, " (v");
    let n: i32 = match r.new_version {
        Some(n) => n,
        None => 0,
    };
    push_signed_decimal(v, n as i64);
    push_str(v, ")");
    assert(final(v)@ =~= old(v)@ + spec_ref_text(r.provider_id@, r.secret_name@) + version_tag(r.new_version));
}

/// The lines printed after snapshotting (none when nothing was saved).
pub fn snapshot_summary(results: &Vec<SnapshotResult>) -> (r: Vec<String>)
    ensures
        string_views(r@) == spec_snapshot_summary(results@),
{
    let mut out: Vec<String> = Vec::new();
    if results.len() == 0 {
        assert(string_views(out@) =~= spec_snapshot_summary(results@));
        return out;
    }
    if results.len() == 1 {
        let mut v = chars_of("Saved: ");
        push_tagged_ref(&mut v, &results[0]);
        out.push(string_from(v.as_slice()));
        assert(string_views(out@) =~= spec_snapshot_summary(results@));
        return out;
    }
    let mut h = chars_of("Saved ");
    push_decimal(&mut h, results.len() as u64);
    push_str(&mut h, " version(s):");
    out.push(string_from(h.as_slice()));
    let mut i: usize = 0;
    while i < results.len()
        invariant
            results@.len() > 1,
            i <= results@.len(),
            out@.len() == i + 1,
            out@[0]@ == "Saved "@ + decimal(results@.len()) + " version(s):"@,
            forall|k: int|
                0 <= k < i ==> (#[trigger] out@[k + 1])@ == "  "@ + spec_ref_text(
                    results@[k].provider_id@,
                    results@[k].secret_name@,
                ) + version_tag(results@[k].new_version),
        decreases results@.len() - i,
    {
        let mut v = chars_of("  ");
        push_tagged_ref(&mut v, &results[i]);
        out.push(string_from(v.as_slice()));
        i = i + 1;
    }
    let ghost want = spec_snapshot_summary(results@);
    assert forall|k: int| 0 <= k < out@.len() implies #[trigger] string_views(out@)[k]
        == want[k] by {
        if k > 0 {
            assert(out@[(k - 1) + 1] == out@[k]);
        }
    }
    assert(string_views(out@) =~= want);
    out
}

// ---------------------------------------------------------------------------
// Rollback
// ---------------------------------------------------------------------------

/// What `rollback` does once the version to restore is known.
pub enum RollbackOutcome {
    /// The restored content equals the current version's: nothing changes.
    Unchanged(String),
    /// The content becomes a new current version.
    NewVersion { version: i32, message: String, log_details: String },
}

/// `No changes - content identical to v{N}.`
pub open spec fn unchanged_message(target: int) -> Seq<char> {
    "No changes - content identical to v"@ + signed_decimal(target) + "."@
}

/// `Rolled back '{name}' from v{A} -> v{B} (new current)`
pub open spec fn rolled_back_message(name: Seq<char>, from: int, to: int) -> Seq<char> {
    "Rolled back '"@ + name + "' from v"@ + signed_decimal(from) + " -> v"@ + signed_decimal(to)
        + " (new current)"@
}

/// `{"from_version": A, "to_version": B}`
pub open spec fn rollback_details(from: int, to: int) -> Seq<char> {
    "{\"from_version\": "@ + signed_decimal(from) + ", \"to_version\": "@ + signed_decimal(to) + "}"@
}

/// Restoring `target` over `latest`: nothing happens when the restored content has the
/// hash the current version recorded; otherwise it becomes version `latest + 1`.
pub fn rollback_outcome(display_name: &str, latest: &DbDownload, target: &DbDownload, target_content_hash: &str) -> (r: RollbackOutcome)
    requires
        latest.version < i32::MAX,
    ensures
        match r {
            RollbackOutcome::Unchanged(m) => (latest.file_hash matches Some(h) && h@ == target_content_hash@)
                && m@ == unchanged_message(target.version as int),
            RollbackOutcome::NewVersion { version, message, log_details } => !(latest.file_hash matches Some(
                h,
            ) && h@ == target_content_hash@) && version == latest.version + 1 && message@
                == rolled_back_message(display_name@, target.version as int, version as int)
                && log_details@ == rollback_details(target.version as int, version as int),
        },
{
    let same = match &latest.file_hash {
        Some(h) => str_eq(h.as_str(), target_content_hash),
        None => false,
    };
    if same {
        let mut v = chars_of("No changes - content identical to v");
        push_signed_decimal(&mut v, target.version as i64);
        push_str(&mut v, ".");
        assert(v@ =~= unchanged_message(target.version as int));
        return RollbackOutcome::Unchanged(string_from(v.as_slice()));
    }
    let version = latest.version + 1;
    let mut m = chars_of("Rolled back '");
    push_str(&mut m, display_name);
    push_str(&mut m, "' from v");
    push_signed_decimal(&mut m, target.version as i64);
    push_str(&mut m, " -> v");
    push_signed_decimal(&mut m, version as i64);
    push_str(&mut m, " (new current)");
    assert(m@ =~= rolled_back_message(display_name@, target.version as int, version as int));
    let mut d = chars_of("{\"from_version\": ");
    push_signed_decimal(&mut d, target.version as i64);
    push_str(&mut d, ", \"to_version\": ");
    push_signed_decimal(&mut d, version as i64);
    push_str(&mut d, "}");
    assert(d@ =~= rollback_details(target.version as int, version as int));
    RollbackOutcome::NewVersion {
        version,
        message: string_from(m.as_slice()),
        log_details: string_from(d.as_slice()),
    }
}

/// `Only one version exists for '{name}'. Nothing to rollback to.`
pub open spec fn single_version_message(name: Seq<char>) -> Seq<char> {
    "Only one version exists for '"@ + name + "'. Nothing to rollback to."@
}

/// The message when a secret has no older version to restore.
pub fn single_version_notice(display_name: &str) -> (r: String)
    ensures
        r@ == single_version_message(display_name@),
{
    let mut v = chars_of("Only one version exists for '");
    push_str(&mut v, display_name);
    push_str(&mut v, "'. Nothing to rollback to.");
    string_from(v.as_slice())
}

/// `Version {v} not found for '{name}'`
pub open spec fn version_missing_message(v: int, name: Seq<char>) -> Seq<char> {
    "Version "@ + signed_decimal(v) + " not found for '"@ + name + "'"@
}

/// The message when the requested version does not exist.
pub fn version_missing(version: i32, display_name: &str) -> (r: String)
    ensures
        r@ == version_missing_message(version as int, display_name@),
{
    let mut v = chars_of("Version ");
    push_signed_decimal(&mut v, version as i64);
    push_str(&mut v, " not found for '");
    push_str(&mut v, display_name);
    push_str(&mut v, "'");
    assert(v@ =~= version_missing_message(version as int, display_name@));
    string_from(v.as_slice())
}

/// `Version {v} file not found at: {path}\nThe file may have been deleted.`
pub open spec fn version_file_missing_message(v: int, path: Seq<char>) -> Seq<char> {
    "Version "@ + signed_decimal(v) + " file not found at: "@ + path + "\nThe file may have been deleted."@
}

/// The message when the archive of the requested version is gone.
pub fn version_file_missing(version: i32, path: &str) -> (r: String)
    ensures
        r@ == version_file_missing_message(version as int, path@),
{
    let mut v = chars_of("Version ");
    push_signed_decimal(&mut v, version as i64);
    push_str(&mut v, " file not found at: ");
    push_str(&mut v, path);
    push_str(&mut v, "\nThe file may have been deleted.");
    assert(v@ =~= version_file_missing_message(version as int, path@));
    string_from(v.as_slice())
}

// ---------------------------------------------------------------------------
// History
// ---------------------------------------------------------------------------

/// The underline of a history header: one `-` per byte of `{provider}://{name}`, at most 60.
pub open spec fn spec_history_rule(provider_id: Seq<char>, name: Seq<char>) -> Seq<char> {
    let n = (vstd::utf8::encode_utf8(provider_id).len() as usize) + (vstd::utf8::encode_utf8(name).len() as usize) + 3;
    Seq::new(if n < 60 { n as nat } else { 60 }, |i: int| '-')
}

/// The underline printed below a secret's history header.
pub fn history_rule(provider_id: &str, display_name: &str) -> (r: String)
    ensures
        r@ == spec_history_rule(provider_id@, display_name@),
{
    let a = provider_id.len();
    let b = display_name.len();

    let n: usize = if a >= 60 || b >= 60 || a + b + 3 >= 60 { 60 } else { a + b + 3 };
    let mut v: Vec<char> = Vec::new();
    let mut i: usize = 0;
    while i < n
        invariant
            i <= n,
            v@ =~= Seq::new(i as nat, |k: int| '-'),
        decreases n - i,
    {
        v.push('-');
        i = i + 1;
    }
    assert(v@ =~= spec_history_rule(provider_id@, display_name@));
    string_from(v.as_slice())
}

/// A line of the history of one secret: the version, what to show for it (its age,
/// or the date, hash and file when verbose), and ` (current)` on the first line.
pub open spec fn spec_history_line(version: int, shown: Seq<char>, first: bool) -> Seq<char> {
    "  v"@ + signed_decimal(version) + ": "@ + shown + if first {
        " (current)"@
    } else {
        Seq::empty()
    }
}

/// The history line of one version.
pub fn history_line(version: i32, shown: &str, first: bool) -> (r: String)
    ensures
        r@ == spec_history_line(version as int, shown@, first),
{
    let mut v = chars_of("  v");
    push_signed_decimal(&mut v, version as i64);
    push_str(&mut v, ": ");
    push_str(&mut v, shown);
    if first {
        push_str(&mut v, " (current)");
    }
    assert(v@ =~= spec_history_line(version as int, shown@, first));
    string_from(v.as_slice())
}

/// What a verbose history line shows of a version: `{date} | {hash or "no hash"} | {filename}`.
pub open spec fn spec_verbose_details(date: Seq<char>, d: DbDownload) -> Seq<char> {
    date + " | "@ + match d.file_hash {
        Some(h) => h@,
        None => "no hash"@,
    } + " | "@ + d.filename@
}

/// The details a verbose history line shows of a version, given its formatted date.
pub fn verbose_details(date: &str, download: &DbDownload) -> (r: String)
    ensures
        r@ == spec_verbose_details(date@, *download),
{
    let mut v = chars_of(date);
    push_str(&mut v, " | ");
    match &download.file_hash {
        Some(h) => push_str(&mut v, h.as_str()),
        None => push_str(&mut v, "no hash"),
    }
    push_str(&mut v, " | ");
    push_str(&mut v, download.filename.as_str());
    assert(v@ =~= spec_verbose_details(date@, *download));
    string_from(v.as_slice())
}

/// How chrono-humanize words a duration of `secs` seconds (negative for the past).
pub uninterp spec fn humanized_duration(secs: int) -> Seq<char>;

/// `HumanTime::from(Duration::seconds(secs))` of chrono-humanize, displayed with
/// its default rough wording (such as `2 hours ago` or `in a day`). `Duration::seconds`
/// panics beyond `i64::MAX / 1000` seconds either way, so those are left out.
#[verifier::external_body]
fn humanized(secs: i64) -> (r: String)
    requires
        -(i64::MAX / 1000) <= secs <= i64::MAX / 1000,
    ensures
        r@ == humanized_duration(secs as int),
{
    chrono_humanize::HumanTime::from(chrono::Duration::seconds(secs)).to_string()
}

/// How long ago (or ahead of `now`) the moment `then` is, worded as `history`,
/// `log` and the version picker show it. Both are Unix seconds.
pub fn age_text(then: i64, now: i64) -> (r: String)
    requires
        -(i64::MAX / 1000) <= then - now <= i64::MAX / 1000,
    ensures
        r@ == humanized_duration(then - now),
{
    humanized(then - now)
}

/// The Unix seconds of an RFC 3339 timestamp, as chrono reads it, or `None` when
/// the text is not one.
pub uninterp spec fn rfc3339_seconds(text: Seq<char>) -> Option<int>;

/// chrono's `DateTime::parse_from_rfc3339`, then `timestamp`.
#[verifier::external_body]
fn parse_rfc3339(text: &str) -> (r: Option<i64>)
    ensures
        match (r, rfc3339_seconds(text@)) {
            (Some(a), Some(b)) => a == b,
            (None, None) => true,
            _ => false,
        },
{
    match chrono::DateTime::parse_from_rfc3339(text) {
        Ok(d) => Some(d.timestamp()),
        Err(_) => None,
    }
}

/// The Unix seconds of a `%Y-%m-%d %H:%M:%S` UTC timestamp (SQLite's own form), as
/// chrono reads it, or `None` when the text is not one.
pub uninterp spec fn sqlite_utc_seconds(text: Seq<char>) -> Option<int>;

/// chrono's `NaiveDateTime::parse_from_str` with `%Y-%m-%d %H:%M:%S`, taken as UTC.
#[verifier::external_body]
fn parse_sqlite_time(text: &str) -> (r: Option<i64>)
    ensures
        match (r, sqlite_utc_seconds(text@)) {
            (Some(a), Some(b)) => a == b,
            (None, None) => true,
            _ => false,
        },
{
    match chrono::NaiveDateTime::parse_from_str(text, "%Y-%m-%d %H:%M:%S") {
        Ok(n) => Some(n.and_utc().timestamp()),
        Err(_) => None,
    }
}

/// A timestamp stored in the database, in Unix seconds: read as RFC 3339 first,
/// else in SQLite's own form; `None` when it is neither.
pub fn stored_timestamp(text: &str) -> (r: Option<i64>)
    ensures
        match rfc3339_seconds(text@) {
            Some(t) => r matches Some(x) && x == t,
            None => match sqlite_utc_seconds(text@) {
                Some(t) => r matches Some(x) && x == t,
                None => r is None,
            },
        },
{
    match parse_rfc3339(text) {
        Some(t) => Some(t),
        None => parse_sqlite_time(text),
    }
}

/// The UTC date and time of a Unix timestamp written `%Y-%m-%d %H:%M:%S`, or
/// `None` when the timestamp lies outside the dates chrono represents.
pub uninterp spec fn utc_timestamp_text(secs: int) -> Option<Seq<char>>;

/// chrono's `DateTime::<Utc>::from_timestamp(secs, 0)`, formatted with
/// `%Y-%m-%d %H:%M:%S`; `None` where chrono returns none.
#[verifier::external_body]
fn utc_date_text(secs: i64) -> (r: Option<String>)
    ensures
        match (r, utc_timestamp_text(secs as int)) {
            (Some(s), Some(t)) => s@ == t,
            (None, None) => true,
            _ => false,
        },
{
    match chrono::DateTime::from_timestamp(secs, 0) {
        Some(d) => Some(d.format("%Y-%m-%d %H:%M:%S").to_string()),
        None => None,
    }
}

/// The text of a timestamp: its UTC date and time, or nothing when chrono cannot
/// represent it.
pub open spec fn spec_timestamp_text(secs: int) -> Seq<char> {
    match utc_timestamp_text(secs) {
        Some(t) => t,
        None => Seq::empty(),
    }
}

/// A timestamp as `history` and `log` show it: `%Y-%m-%d %H:%M:%S` in UTC.
pub fn timestamp_text(secs: i64) -> (r: String)
    ensures
        r@ == spec_timestamp_text(secs as int),
{
    match utc_date_text(secs) {
        Some(t) => t,
        None => string_from(Vec::<char>::new().as_slice()),
    }
}

/// The details a verbose history line shows of a version, its download time
/// written as `timestamp_text` writes it.
pub fn verbose_history_details(download: &DbDownload) -> (r: String)
    ensures
        r@ == spec_verbose_details(spec_timestamp_text(download.downloaded_at as int), *download),
{
    let date = timestamp_text(download.downloaded_at);
    verbose_details(date.as_str(), download)
}

/// How many versions `history` shows: all, or at most `limit`.
pub fn shown_count(available: usize, limit: Option<usize>) -> (r: usize)
    ensures
        r == match limit {
            Some(n) => if n < available { n } else { available },
            None => available,
        },
{
    match limit {
        Some(n) => if n < available { n } else { available },
        None => available,
    }
}

// ---------------------------------------------------------------------------
// Staleness
// ---------------------------------------------------------------------------

/// A provider's cached listing must be refreshed when it was never synced, or
/// when its last sync plus the TTL is before `now` (Unix seconds).
pub open spec fn spec_needs_refresh(last_sync_at: Option<int>, ttl: int, now: int) -> bool {
    match last_sync_at {
        None => true,
        Some(t) => t + ttl < now,
    }
}

/// `cache_ttl as i64`: the TTL read as a signed number of seconds (wrapping past `i64::MAX`).
pub open spec fn ttl_as_signed(ttl: int) -> int {
    if ttl <= i64::MAX {
        ttl
    } else {
        ttl - 18446744073709551616
    }
}

/// `cache_ttl as i64`.
fn signed_ttl(cache_ttl: u64) -> (r: i64)
    ensures
        r == ttl_as_signed(cache_ttl as int),
{
    if cache_ttl <= i64::MAX as u64 {
        cache_ttl as i64
    } else {
        (cache_ttl - 9223372036854775808u64) as i64 - 9223372036854775807i64 - 1
    }
}

/// The TTL, read as signed seconds, makes a duration (`Duration::seconds` panics
/// beyond `i64::MAX / 1000` seconds either way).
pub open spec fn ttl_in_range(cache_ttl: u64) -> bool {
    -(i64::MAX / 1000) <= ttl_as_signed(cache_ttl as int) <= i64::MAX / 1000
}

/// Whether a provider's listing must be refreshed, given its last sync time (if any);
/// the TTL is read as `cache_ttl as i64`.
pub fn needs_refresh(last_sync_at: Option<i64>, cache_ttl: u64, now: i64) -> (r: bool)
    requires
        ttl_in_range(cache_ttl),
        last_sync_at matches Some(t) ==> i64::MIN <= t + ttl_as_signed(cache_ttl as int) <= i64::MAX,
    ensures
        r == spec_needs_refresh(match last_sync_at { Some(t) => Some(t as int), None => None }, ttl_as_signed(cache_ttl as int), now as int),
{
    match last_sync_at {
        None => true,
        Some(t) => t + signed_ttl(cache_ttl) < now,
    }
}

/// Whether a provider's listing must be refreshed, given what looking the provider up
/// returned: a failed lookup refreshes too.
pub fn should_refresh_cache(lookup: &Result<Option<crate::models::DbProvider>, String>, cache_ttl: u64, now: i64) -> (r: bool)
    requires
        ttl_in_range(cache_ttl),
        lookup matches Ok(Some(p)) ==> (p.last_sync_at matches Some(t) ==> i64::MIN <= t + ttl_as_signed(cache_ttl as int) <= i64::MAX),
    ensures
        r == match lookup {
            Ok(Some(p)) => spec_needs_refresh(
                match p.last_sync_at { Some(t) => Some(t as int), None => None },
                ttl_as_signed(cache_ttl as int),
                now as int,
            ),
            _ => true,
        },
{
    match lookup {
        Ok(Some(p)) => needs_refresh(p.last_sync_at, cache_ttl, now),
        _ => true,
    }
}

/// A downloaded copy may be used instead of fetching when it is younger than the TTL.
pub fn download_is_fresh(now: i64, downloaded_at: i64, cache_ttl: u64) -> (r: bool)
    requires
        i64::MIN <= now - downloaded_at <= i64::MAX,
    ensures
        r == (now - downloaded_at < ttl_as_signed(cache_ttl as int)),
{
    let age: i64 = now - downloaded_at;
    age < signed_ttl(cache_ttl)
}

/// The number of the next version after the latest download (1 for the first).
pub fn next_version(latest: Option<&DbDownload>) -> (r: i32)
    requires
        latest matches Some(d) ==> d.version < i32::MAX,
    ensures
        r == match latest {
            Some(d) => d.version + 1,
            None => 1,
        },
{
    match latest {
        Some(d) => d.version + 1,
        None => 1,
    }
}

/// What `pull` prints after downloading.
pub open spec fn spec_download_summary(succeeded: nat, failed: nat, total: nat) -> Seq<char> {
    if failed == 0 {
        "Downloaded "@ + decimal(succeeded) + " secret(s)"@
    } else {
        "Downloaded "@ + decimal(succeeded) + " of "@ + decimal(total) + " secret(s) ("@ + decimal(failed)
            + " failed)"@
    }
}

/// The summary line of a `pull`.
pub fn download_summary(succeeded: u64, failed: u64, total: u64) -> (r: String)
    ensures
        r@ == spec_download_summary(succeeded as nat, failed as nat, total as nat),
{
    let mut v = chars_of("Downloaded ");
    push_decimal(&mut v, succeeded);
    if failed == 0 {
        push_str(&mut v, " secret(s)");
    } else {
        push_str(&mut v, " of ");
        push_decimal(&mut v, total);
        push_str(&mut v, " secret(s) (");
        push_decimal(&mut v, failed);
        push_str(&mut v, " failed)");
    }
    assert(v@ =~= spec_download_summary(succeeded as nat, failed as nat, total as nat));
    string_from(v.as_slice())
}

/// `Unknown provider: '{id}'. Available providers: {ids}`
pub open spec fn spec_unknown_provider(id: Seq<char>, available: Seq<Seq<char>>) -> Seq<char> {
    "Unknown provider: '"@ + id + "'. Available providers: "@ + crate::textops::join(available, ", "@)
}

/// The error for a reference to a provider that is not configured.
pub fn unknown_provider_message(id: &str, available: &Vec<String>) -> (r: String)
    ensures
        r@ == spec_unknown_provider(id@, string_views(available@)),
{
    let mut ids: Vec<Vec<char>> = Vec::new();
    let mut i: usize = 0;
    while i < available.len()
        invariant
            i <= available@.len(),
            ids@.len() == i,
            forall|k: int| 0 <= k < i ==> (#[trigger] ids@[k])@ == available@[k]@,
        decreases available@.len() - i,
    {
        ids.push(chars_of(available[i].as_str()));
        i = i + 1;
    }
    assert(crate::textops::views(ids@) =~= string_views(available@));
    let mut v = chars_of("Unknown provider: '");
    push_str(&mut v, id);
    push_str(&mut v, "'. Available providers: ");
    crate::textops::push_joined(&mut v, &ids, chars_of(", ").as_slice());
    assert(v@ =~= spec_unknown_provider(id@, string_views(available@)));
    string_from(v.as_slice())
}

/// The error for a secret that is not in the local listing of its provider; with
/// `hint`, a line pointing to `list` follows.
pub open spec fn spec_not_synced(name: Seq<char>, provider_id: Seq<char>, hint: bool) -> Seq<char> {
    "Secret '"@ + name + "' not found in provider '"@ + provider_id
        + "'. Run 'jaws sync' first or check the name."@ + if hint {
        "\nHint: Use 'jaws list --provider "@ + provider_id + "' to see available secrets."@
    } else {
        Seq::empty()
    }
}

/// The error for a secret missing from the local listing.
pub fn not_synced_message(name: &str, provider_id: &str, hint: bool) -> (r: String)
    ensures
        r@ == spec_not_synced(name@, provider_id@, hint),
{
    let mut v = chars_of("Secret '");
    push_str(&mut v, name);
    push_str(&mut v, "' not found in provider '");
    push_str(&mut v, provider_id);
    push_str(&mut v, "'. Run 'jaws sync' first or check the name.");
    if hint {
        push_str(&mut v, "\nHint: Use 'jaws list --provider ");
        push_str(&mut v, provider_id);
        push_str(&mut v, "' to see available secrets.");
    }
    assert(v@ =~= spec_not_synced(name@, provider_id@, hint));
    string_from(v.as_slice())
}

} // verus!
