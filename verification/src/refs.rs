//! Secret references (`PROVIDER://SECRET_NAME`), finding downloaded secrets by
//! name, and the labels of the version picker.

use vstd::prelude::*;
use crate::config::{defaults_or_empty, Config};
use crate::models::{DbDownload, DbSecret};
use crate::paths::opt_view;
use crate::text::{
    decimal, ends_with,
    chars_of, contains, find_from, has_prefix, has_substring, is_first_occurrence_from,
    no_occurrence_from, occurs_at, push_str, slice_of, starts_with, string_from, to_lowercase,
    unicode_lowercase,
};
use crate::textops::{
    int_error_message, int_error_text, lemma_decimal_digits, lemma_parse_signed_decimal,
    parse_i32_chars, parse_int, push_signed_decimal, signed_decimal, IntErrorKind,
};

verus! {

// ---------------------------------------------------------------------------
// PROVIDER://SECRET_NAME
// ---------------------------------------------------------------------------

/// The separator between provider and secret name.
pub open spec fn ref_sep() -> Seq<char> {
    "://"@
}

/// Where the first separator of `r` starts.
pub open spec fn ref_sep_at(r: Seq<char>) -> int {
    choose|i: int| is_first_occurrence_from(r, ref_sep(), 0, i)
}

/// The message for a reference that names no provider or no secret.
pub open spec fn invalid_ref_message(r: Seq<char>) -> Seq<char> {
    "Invalid secret reference '"@ + r + "'. Expected PROVIDER://SECRET_NAME"@
}

/// Reading a secret reference: `PROVIDER://NAME` splits at the first `://`, both
/// parts non-empty; a bare name belongs to the default provider, if there is one.
pub open spec fn spec_parse_secret_ref(r: Seq<char>, default_provider: Option<Seq<char>>) -> Result<
    (Seq<char>, Seq<char>),
    Seq<char>,
> {
    if contains(r, ref_sep()) {
        let i = ref_sep_at(r);
        let p = r.subrange(0, i);
        let n = r.subrange(i + 3, r.len() as int);
        if p.len() > 0 && n.len() > 0 {
            Ok((p, n))
        } else {
            Err(invalid_ref_message(r))
        }
    } else {
        match default_provider {
            Some(d) => Ok((d, r)),
            None => Err(invalid_ref_message(r)),
        }
    }
}

proof fn lemma_first_occurrence_unique(s: Seq<char>, p: Seq<char>, i: int, j: int)
    requires
        is_first_occurrence_from(s, p, 0, i),
        is_first_occurrence_from(s, p, 0, j),
    ensures
        i == j,
{
    if i < j {
        assert(!occurs_at(s, p, i));
    } else if j < i {
        assert(!occurs_at(s, p, j));
    }
}

/// Read a secret reference, falling back to `default_provider` for a bare name.
pub fn parse_secret_ref(reference: &str, default_provider: Option<&str>) -> (r: Result<(String, String), String>)
    ensures
        match (r, spec_parse_secret_ref(reference@, match default_provider { Some(d) => Some(d@), None => None })) {
            (Ok((p, n)), Ok((sp, sn))) => p@ == sp && n@ == sn,
            (Err(e), Err(se)) => e@ == se,
            _ => false,
        },
{
    proof {
        reveal_strlit("://");
    }
    let s = chars_of(reference);
    let sep = chars_of("://");
    let ghost dflt: Option<Seq<char>> = match default_provider { Some(d) => Some(d@), None => None };
    let mut msg: Vec<char> = chars_of("Invalid secret reference '");
    push_str(&mut msg, reference);
    push_str(&mut msg, "'. Expected PROVIDER://SECRET_NAME");
    assert(msg@ =~= invalid_ref_message(reference@));
    match find_from(s.as_slice(), sep.as_slice(), 0) {
        Some(i) => {
            proof {
                assert(contains(s@, ref_sep()));
                lemma_first_occurrence_unique(s@, ref_sep(), i as int, ref_sep_at(s@));
            }
            assert(sep@.len() == 3);
            assert(i + 3 <= s@.len());
            if i > 0 && s.len() - i > 3 {
                let p = slice_of(s.as_slice(), 0, i);
                let n = slice_of(s.as_slice(), i + 3, s.len());
                Ok((string_from(p.as_slice()), string_from(n.as_slice())))
            } else {
                Err(string_from(msg.as_slice()))
            }
        },
        None => {
            assert(!contains(s@, ref_sep())) by {
                assert forall|j: int| !occurs_at(s@, ref_sep(), j) by {
                    if j >= 0 {
                        assert(no_occurrence_from(s@, sep@, 0));
                    }
                }
            }
            match default_provider {
                Some(d) => Ok((string_from(chars_of(d).as_slice()), string_from(s.as_slice()))),
                None => Err(string_from(msg.as_slice())),
            }
        },
    }
}

/// The provider and name filters of a `push` argument: a reference filters on both,
/// anything else is a name filter.
pub open spec fn spec_parse_filters(name: Option<Seq<char>>, default_provider: Option<Seq<char>>) -> (
    Option<Seq<char>>,
    Option<Seq<char>>,
) {
    match name {
        None => (None, None),
        Some(s) => match spec_parse_secret_ref(s, default_provider) {
            Ok((p, n)) => (Some(p), Some(n)),
            Err(_) => (None, Some(s)),
        },
    }
}

/// Provider and name filters for `push`.
pub fn parse_filters(name: Option<&str>, config: &Config) -> (r: (Option<String>, Option<String>))
    ensures
        (opt_view(r.0), opt_view(r.1)) == spec_parse_filters(
            match name { Some(s) => Some(s@), None => None },
            defaults_or_empty(config@).default_provider,
        ),
{
    match name {
        None => (None, None),
        Some(s) => {
            let d = config.default_provider();
            let parsed = match &d {
                Some(dp) => parse_secret_ref(s, Some(dp.as_str())),
                None => parse_secret_ref(s, None),
            };
            match parsed {
                Ok((p, n)) => (Some(p), Some(n)),
                Err(_) => (None, Some(string_from(chars_of(s).as_slice()))),
            }
        },
    }
}

// ---------------------------------------------------------------------------
// Finding downloaded secrets by name
// ---------------------------------------------------------------------------

/// A downloaded secret answers to `name`: exactly, when `name` is a full reference;
/// otherwise when its display name contains `name` ignoring case, or its hash starts with it.
pub open spec fn matches_query(provider_id: Seq<char>, display_name: Seq<char>, hash: Seq<char>, name: Seq<char>) -> bool {
    match spec_parse_secret_ref(name, None) {
        Ok((p, n)) => provider_id == p && display_name == n,
        Err(_) => contains(unicode_lowercase(display_name), unicode_lowercase(name)) || starts_with(
            hash,
            name,
        ),
    }
}

/// `matches_query` on a database row.
pub open spec fn secret_matches(s: DbSecret, name: Seq<char>) -> bool {
    matches_query(s.provider_id@, s.display_name@, s.hash@, name)
}

/// `idx` lists, in increasing order, exactly the positions of `items` whose secret matches `name`.
pub open spec fn is_match_list(items: Seq<(DbSecret, DbDownload)>, name: Seq<char>, idx: Seq<usize>) -> bool {
    &&& forall|k: int| 0 <= k < idx.len() ==> (#[trigger] idx[k]) < items.len() && secret_matches(
        items[idx[k] as int].0,
        name,
    )
    &&& forall|k: int, l: int| 0 <= k < l < idx.len() ==> (#[trigger] idx[k]) < (#[trigger] idx[l])
    &&& forall|j: int|
        0 <= j < items.len() && secret_matches(#[trigger] items[j].0, name) ==> idx.contains(j as usize)
}

proof fn lemma_match_list_complete(items: Seq<(DbSecret, DbDownload)>, name: Seq<char>, idx: Seq<usize>, j: int)
    requires
        is_match_list(items, name, idx),
        0 <= j < items.len(),
        secret_matches(items[j].0, name),
    ensures
        idx.contains(j as usize),
{
}

/// Whether one downloaded secret answers to `name`.
pub fn secret_matches_name(secret: &DbSecret, name: &str) -> (r: bool)
    ensures
        r == secret_matches(*secret, name@),
{
    match parse_secret_ref(name, None) {
        Ok((p, n)) => str_eq_owned(&secret.provider_id, &p) && str_eq_owned(&secret.display_name, &n),
        Err(_) => {
            let dl = to_lowercase(secret.display_name.as_str());
            let nl = to_lowercase(name);
            let a = chars_of(dl.as_str());
            let b = chars_of(nl.as_str());
            let h = chars_of(secret.hash.as_str());
            let q = chars_of(name);
            has_substring(a.as_slice(), b.as_slice()) || has_prefix(h.as_slice(), q.as_slice())
        },
    }
}

fn str_eq_owned(a: &String, b: &String) -> (r: bool)
    ensures
        r == (a@ == b@),
{
    crate::text::str_eq(a.as_str(), b.as_str())
}

/// The positions of the downloaded secrets that answer to `name`, in order.
pub fn find_matching(downloaded: &Vec<(DbSecret, DbDownload)>, name: &str) -> (r: Vec<usize>)
    ensures
        is_match_list(downloaded@, name@, r@),
{
    let mut out: Vec<usize> = Vec::new();
    let mut j: usize = 0;
    while j < downloaded.len()
        invariant
            j <= downloaded@.len(),
            forall|k: int| 0 <= k < out@.len() ==> (#[trigger] out@[k]) < j && secret_matches(
                downloaded@[out@[k] as int].0,
                name@,
            ),
            forall|k: int, l: int| 0 <= k < l < out@.len() ==> (#[trigger] out@[k]) < (#[trigger] out@[l]),
            forall|i: int|
                0 <= i < j && secret_matches(#[trigger] downloaded@[i].0, name@) ==> out@.contains(
                    i as usize,
                ),
        decreases downloaded@.len() - j,
    {
        if secret_matches_name(&downloaded[j].0, name) {
            let ghost before = out@;
            out.push(j);
            assert forall|i: int|
                0 <= i < j + 1 && secret_matches(#[trigger] downloaded@[i].0, name@) implies out@.contains(
                i as usize,
            ) by {
                if i < j {
                    let k = choose|k: int| 0 <= k < before.len() && before[k] == i as usize;
                    assert(out@[k] == i as usize);
                } else {
                    assert(out@[before.len() as int] == j);
                }
            }
        }
        j = j + 1;
    }
    out
}

/// The message when nothing answers to `name`.
pub open spec fn no_match_message(name: Seq<char>) -> Seq<char> {
    "No secret found matching '"@ + name + "'"@
}

/// The message when several secrets answer to `name`.
pub open spec fn ambiguous_message(name: Seq<char>) -> Seq<char> {
    "Multiple secrets match '"@ + name + "'. Be more specific."@
}

/// The one downloaded secret that answers to `name` (as `rollback` needs it).
pub fn find_single_match(downloaded: &Vec<(DbSecret, DbDownload)>, name: &str) -> (r: Result<usize, String>)
    ensures
        match r {
            Ok(i) => i < downloaded@.len() && secret_matches(downloaded@[i as int].0, name@)
                && forall|j: int|
                0 <= j < downloaded@.len() && secret_matches(#[trigger] downloaded@[j].0, name@) ==> j
                == i,
            Err(e) => {
                let n = Set::new(
                    |j: int| 0 <= j < downloaded@.len() && secret_matches(downloaded@[j].0, name@),
                );
                (n.is_empty() && e@ == no_match_message(name@)) || (exists|a: int, b: int|
                    #![trigger n.contains(a), n.contains(b)]
                    a != b && n.contains(a) && n.contains(b)) && e@ == ambiguous_message(name@)
            },
        },
{
    let m = find_matching(downloaded, name);
    if m.len() == 0 {
        let mut v = chars_of("No secret found matching '");
        push_str(&mut v, name);
        push_str(&mut v, "'");
        proof {
            let n = Set::new(
                |j: int| 0 <= j < downloaded@.len() && secret_matches(downloaded@[j].0, name@),
            );
            assert forall|j: int| !n.contains(j) by {
                if n.contains(j) {
                    lemma_match_list_complete(downloaded@, name@, m@, j);
                }
            }
            assert(n =~= Set::<int>::empty());
        }
        assert(v@ =~= no_match_message(name@));
        Err(string_from(v.as_slice()))
    } else if m.len() > 1 {
        let mut v = chars_of("Multiple secrets match '");
        push_str(&mut v, name);
        push_str(&mut v, "'. Be more specific.");
        proof {
            let n = Set::new(
                |j: int| 0 <= j < downloaded@.len() && secret_matches(downloaded@[j].0, name@),
            );
            assert(m@[0] < m@[1]);
            assert(n.contains(m@[0] as int) && n.contains(m@[1] as int));
        }
        assert(v@ =~= ambiguous_message(name@));
        Err(string_from(v.as_slice()))
    } else {
        let i = m[0];
        assert forall|j: int|
            0 <= j < downloaded@.len() && secret_matches(#[trigger] downloaded@[j].0, name@) implies j
            == i by {
            lemma_match_list_complete(downloaded@, name@, m@, j);
            let k = choose|k: int| 0 <= k < m@.len() && m@[k] == j as usize;
            assert(m@.len() == 1);
            assert(k == 0);
            assert(m@[0] == i);
            assert(downloaded@.len() == downloaded.len());
            assert(j as usize == i);
        }
        Ok(i)
    }
}

/// The picker line of a secret: `{provider_id} | {display_name}`.
pub open spec fn spec_picker_label(provider_id: Seq<char>, display_name: Seq<char>) -> Seq<char> {
    provider_id + " | "@ + display_name
}

/// The line shown for a secret in the interactive picker.
pub fn picker_label(provider_id: &str, display_name: &str) -> (r: String)
    ensures
        r@ == spec_picker_label(provider_id@, display_name@),
{
    let mut v = chars_of(provider_id);
    push_str(&mut v, " | ");
    push_str(&mut v, display_name);
    string_from(v.as_slice())
}

/// What `history` prints when nothing matched.
pub open spec fn spec_no_history_message(name: Option<Seq<char>>) -> Seq<char> {
    match name {
        Some(n) => "No matching secrets found"@ + " for '"@ + n + "'"@,
        None => "No matching secrets found"@,
    }
}

/// The message `history` prints when no secret matched.
pub fn no_history_message(name: Option<&str>) -> (r: String)
    ensures
        r@ == spec_no_history_message(match name { Some(n) => Some(n@), None => None }),
{
    let mut v = chars_of("No matching secrets found");
    match name {
        Some(n) => {
            push_str(&mut v, " for '");
            push_str(&mut v, n);
            push_str(&mut v, "'");
        },
        None => {},
    }
    assert(v@ =~= spec_no_history_message(match name { Some(n) => Some(n@), None => None }));
    string_from(v.as_slice())
}

// ---------------------------------------------------------------------------
// Version picker lines: `v{version} - {age} - {hash prefix}`
// ---------------------------------------------------------------------------

/// The first eight bytes of a hash, as text.
pub open spec fn hash_prefix(h: &str) -> Seq<char> {
    vstd::utf8::decode_utf8(vstd::utf8::encode_utf8(h@).subrange(0, 8))
}

/// The picker line of a version.
pub open spec fn spec_version_label(version: int, age: Seq<char>, hash: Option<Seq<char>>) -> Seq<char> {
    "v"@ + signed_decimal(version) + " - "@ + age + " - "@ + match hash {
        Some(h) => h,
        None => "?"@,
    }
}

/// The picker line of a version whose content hash is `file_hash` (eight bytes of it are shown).
pub fn version_label(version: i32, age: &str, file_hash: Option<&str>) -> (r: String)
    requires
        match file_hash {
            Some(h) => vstd::utf8::is_char_boundary(vstd::utf8::encode_utf8(h@), 8),
            None => true,
        },
    ensures
        r@ == spec_version_label(version as int, age@, match file_hash {
            Some(h) => Some(hash_prefix(h)),
            None => None,
        }),
{
    let mut v = chars_of("v");
    push_signed_decimal(&mut v, version as i64);
    push_str(&mut v, " - ");
    push_str(&mut v, age);
    push_str(&mut v, " - ");
    match file_hash {
        Some(h) => {
            let (head, _) = h.split_at(8);
            proof {
                vstd::utf8::encode_utf8_decode_utf8(head@);
            }
            push_str(&mut v, head);
        },
        None => push_str(&mut v, "?"),
    }
    string_from(v.as_slice())
}

/// The number a version line starts with: after a leading `v`, up to the first ` - `.
pub open spec fn spec_parse_version_label(label: Seq<char>) -> Result<int, Seq<char>> {
    if !starts_with(label, "v"@) {
        Err("Failed to parse version"@)
    } else {
        let rest = label.drop_first();
        let head = if contains(rest, " - "@) {
            rest.subrange(0, choose|i: int| is_first_occurrence_from(rest, " - "@, 0, i))
        } else {
            rest
        };
        match parse_int(head, i32::MIN as int, i32::MAX as int) {
            Ok(v) => Ok(v),
            Err(k) => Err(int_error_text(k)),
        }
    }
}

/// Read back the version number from a picker line.
pub fn parse_version_label(label: &str) -> (r: Result<i32, String>)
    ensures
        match (r, spec_parse_version_label(label@)) {
            (Ok(v), Ok(sv)) => v as int == sv,
            (Err(e), Err(se)) => e@ == se,
            _ => false,
        },
{
    proof {
        reveal_strlit("v");
        reveal_strlit(" - ");
    }
    let s = chars_of(label);
    let vp = chars_of("v");
    if !has_prefix(s.as_slice(), vp.as_slice()) {
        return Err(string_from(chars_of("Failed to parse version").as_slice()));
    }
    let rest = slice_of(s.as_slice(), 1, s.len());
    assert(rest@ =~= label@.drop_first());
    let sep = chars_of(" - ");
    let head = match find_from(rest.as_slice(), sep.as_slice(), 0) {
        Some(i) => {
            proof {
                assert(contains(rest@, " - "@));
                let c = choose|k: int| is_first_occurrence_from(rest@, " - "@, 0, k);
                lemma_first_occurrence_unique(rest@, " - "@, i as int, c);
            }
            slice_of(rest.as_slice(), 0, i)
        },
        None => {
            assert(!contains(rest@, " - "@)) by {
                assert forall|j: int| !occurs_at(rest@, " - "@, j) by {
                    if j >= 0 {
                        assert(no_occurrence_from(rest@, sep@, 0));
                    }
                }
            }
            rest
        },
    };
    match parse_i32_chars(head.as_slice()) {
        Ok(v) => Ok(v),
        Err(k) => Err(string_from(chars_of(int_error_message(k)).as_slice())),
    }
}

/// Reading back the line of a version gives that version, whatever the age text
/// and the hash shown.
pub proof fn law_version_label_round_trip(version: i32, age: Seq<char>, hash: Option<Seq<char>>)
    ensures
        spec_parse_version_label(spec_version_label(version as int, age, hash)) == Ok::<int, Seq<char>>(
            version as int,
        ),
{
    reveal_strlit("v");
    reveal_strlit(" - ");
    let sd = signed_decimal(version as int);
    let tail = age + " - "@ + match hash {
        Some(h) => h,
        None => "?"@,
    };
    let label = spec_version_label(version as int, age, hash);
    assert(label =~= "v"@ + (sd + (" - "@ + tail)));
    assert(starts_with(label, "v"@));
    let rest = label.drop_first();
    assert(rest =~= sd + (" - "@ + tail));
    // The digits (and sign) of `sd` hold no space, so the first ` - ` follows them.
    let m: nat = if version < 0 { (-version) as nat } else { version as nat };
    lemma_decimal_digits(m);
    assert forall|j: int| 0 <= j < sd.len() implies #[trigger] sd[j] != ' ' by {
        if version < 0 {
            if j > 0 {
                assert(sd[j] == decimal(m)[j - 1]);
                assert(crate::text::is_digit(decimal(m)[j - 1]));
            }
        } else {
            assert(crate::text::is_digit(decimal(m)[j]));
        }
    }
    let l = sd.len() as int;
    assert(occurs_at(rest, " - "@, l)) by {
        assert(rest.subrange(l, l + 3) =~= " - "@);
    }
    assert(is_first_occurrence_from(rest, " - "@, 0, l)) by {
        assert forall|j: int| 0 <= j < l implies !occurs_at(rest, " - "@, j) by {
            assert(rest[j] == sd[j]);
            if occurs_at(rest, " - "@, j) {
                assert(rest.subrange(j, j + 3)[0] == rest[j]);
            }
        }
    }
    assert(contains(rest, " - "@));
    let c = choose|i: int| is_first_occurrence_from(rest, " - "@, 0, i);
    lemma_first_occurrence_unique(rest, " - "@, l, c);
    assert(rest.subrange(0, l) =~= sd);
    lemma_parse_signed_decimal(version as int);
}

/// The text of `s` before its first ` - ` (all of it when there is none).
pub open spec fn spec_version_head(s: Seq<char>) -> Seq<char> {
    if contains(s, " - "@) {
        s.subrange(0, choose|i: int| is_first_occurrence_from(s, " - "@, 0, i))
    } else {
        s
    }
}

/// The text before the first ` - `, trimmed.
pub fn head_before_dash(s: &str) -> (r: String)
    ensures
        r@ == crate::text::trim(spec_version_head(s@)),
{
    proof {
        reveal_strlit(" - ");
    }
    let c = chars_of(s);
    let sep = chars_of(" - ");
    let head = match find_from(c.as_slice(), sep.as_slice(), 0) {
        Some(i) => {
            proof {
                assert(contains(c@, " - "@));
                let k = choose|k: int| is_first_occurrence_from(c@, " - "@, 0, k);
                lemma_first_occurrence_unique(c@, " - "@, i as int, k);
            }
            slice_of(c.as_slice(), 0, i)
        },
        None => {
            assert(!contains(c@, " - "@)) by {
                assert forall|j: int| !occurs_at(c@, " - "@, j) by {
                    if j >= 0 {
                        assert(no_occurrence_from(c@, sep@, 0));
                    }
                }
            }
            c
        },
    };
    string_from(crate::text::trim_chars(head.as_slice()).as_slice())
}

/// A reference written as `{provider}://{name}` reads back as that provider and
/// name, when the provider holds no `://` and does not end with `:` or `:/`
/// (where the separator would be found early), and both are non-empty.
pub proof fn law_secret_ref_round_trip(provider_id: Seq<char>, name: Seq<char>, default_provider: Option<Seq<char>>)
    requires
        provider_id.len() > 0,
        name.len() > 0,
        !contains(provider_id, "://"@),
        !ends_with(provider_id, ":"@),
        !ends_with(provider_id, ":/"@),
    ensures
        spec_parse_secret_ref(provider_id + "://"@ + name, default_provider) == Ok::<(Seq<char>, Seq<char>), Seq<char>>(
            (provider_id, name),
        ),
{
    reveal_strlit("://");
    reveal_strlit(":");
    reveal_strlit(":/");
    let s = provider_id + "://"@ + name;
    let l = provider_id.len() as int;
    assert(occurs_at(s, ref_sep(), l)) by {
        assert(s.subrange(l, l + 3) =~= "://"@);
    }
    assert forall|j: int| 0 <= j < l implies !occurs_at(s, ref_sep(), j) by {
        if occurs_at(s, ref_sep(), j) {
            let w = s.subrange(j, j + 3);
            assert(w[0] == ':' && w[1] == '/' && w[2] == '/');
            if j + 3 <= l {
                assert(w =~= provider_id.subrange(j, j + 3));
                assert(occurs_at(provider_id, "://"@, j));
            } else if j == l - 1 {
                assert(w[0] == provider_id[l - 1]);
                assert(provider_id.subrange(l - 1, l) =~= ":"@);
            } else {
                assert(j == l - 2);
                assert(w[0] == provider_id[l - 2] && w[1] == provider_id[l - 1]);
                assert(provider_id.subrange(l - 2, l) =~= ":/"@);
            }
        }
    }
    assert(is_first_occurrence_from(s, ref_sep(), 0, l));
    assert(contains(s, ref_sep()));
    lemma_first_occurrence_unique(s, ref_sep(), l, ref_sep_at(s));
    assert(s.subrange(0, l) =~= provider_id);
    assert(s.subrange(l + 3, s.len() as int) =~= name);
}

/// Finding a downloaded secret by name ignores case on both sides: when its display
/// name, lowercased, holds the query lowercased, the secret answers to that query and
/// to every other query with the same lowercase form (the same word typed in capitals,
/// say). Full `provider://name` references are matched exactly instead, so both
/// queries here are ones that do not read as a reference.
pub proof fn law_name_match_ignores_case(
    provider_id: Seq<char>,
    display_name: Seq<char>,
    hash: Seq<char>,
    name: Seq<char>,
    other: Seq<char>,
)
    requires
        spec_parse_secret_ref(name, None) is Err,
        spec_parse_secret_ref(other, None) is Err,
        unicode_lowercase(other) == unicode_lowercase(name),
        contains(unicode_lowercase(display_name), unicode_lowercase(name)),
    ensures
        matches_query(provider_id, display_name, hash, name),
        matches_query(provider_id, display_name, hash, other),
{
}

/// A query that reads as a full reference matches exactly the secret it names,
/// whatever the case of other secrets' names.
pub proof fn law_reference_matches_exactly(
    provider_id: Seq<char>,
    display_name: Seq<char>,
    hash: Seq<char>,
    name: Seq<char>,
)
    requires
        spec_parse_secret_ref(name, None) is Ok,
    ensures
        matches_query(provider_id, display_name, hash, name) <==> spec_parse_secret_ref(name, None) == Ok::<
            (Seq<char>, Seq<char>),
            Seq<char>,
        >((provider_id, display_name)),
{
}

} // verus!
