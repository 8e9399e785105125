//! Export archives: finding the SSH public key to encrypt to, and human-readable sizes.

use vstd::prelude::*;
use crate::paths::{opt_view, path_exists};
use crate::text::{
    chars_of, contains, decimal, digit, digit_char, has_substring, push_decimal, push_str, str_eq,
    string_from,
};

verus! {

/// One kibibyte.
pub const KB: u64 = 1024;

/// One mebibyte.
pub const MB: u64 = 1048576;

/// 2^53: integers below it are exactly representable as `f64`.
pub const F64_EXACT_LIMIT: u64 = 9007199254740992;

/// 2 to the power `k`.
pub open spec fn two_pow(k: nat) -> nat
    decreases k,
{
    if k == 0 {
        1
    } else {
        2 * two_pow((k - 1) as nat)
    }
}

/// `n / d` rounded to the nearest integer, ties to the even one.
pub open spec fn round_half_even(n: nat, d: nat) -> nat
    recommends
        d > 0,
{
    let q = n / d;
    let r = n % d;
    if 2 * r > d || (2 * r == d && q % 2 == 1) {
        q + 1
    } else {
        q
    }
}

/// How many low bits of `b` an `f64` cannot hold: the least `k` with `b < 2^(53 + k)`.
pub open spec fn f64_shift(b: nat) -> nat
    decreases b,
{
    if b < F64_EXACT_LIMIT {
        0
    } else {
        1 + f64_shift(b / 2)
    }
}

/// The value of `b as f64`: `b` rounded to 53 significant bits, ties to even.
pub open spec fn f64_value(b: nat) -> nat {
    let d = two_pow(f64_shift(b));
    round_half_even(b, d) * d
}

/// A number of tenths written with one decimal place.
pub open spec fn one_decimal(tenths: nat) -> Seq<char> {
    decimal(tenths / 10).push('.').push(digit_char((tenths % 10) as int))
}

/// The text of `format_size(bytes)`: whole bytes below 1 KB, else the size in KB or MB
/// to one decimal place, the way `{:.1}` prints the `f64` quotient (ties to even).
pub open spec fn format_size_text(bytes: u64) -> Seq<char> {
    if bytes >= MB {
        one_decimal(round_half_even(f64_value(bytes as nat) * 10, MB as nat)) + " MB"@
    } else if bytes >= KB {
        one_decimal(round_half_even(bytes as nat * 10, KB as nat)) + " KB"@
    } else {
        decimal(bytes as nat) + " bytes"@
    }
}

proof fn lemma_two_pow_pos(k: nat)
    ensures
        two_pow(k) >= 1,
    decreases k,
{
    if k > 0 {
        lemma_two_pow_pos((k - 1) as nat);
    }
}

proof fn lemma_two_pow_11()
    ensures
        two_pow(11) == 2048,
{
    reveal_with_fuel(two_pow, 12);
}

proof fn lemma_shift_bound(b: nat, j: nat)
    requires
        b < F64_EXACT_LIMIT * two_pow(j),
    ensures
        f64_shift(b) <= j,
    decreases j,
{
    if b >= F64_EXACT_LIMIT {
        if j == 0 {
            assert(two_pow(0) == 1);
        } else {
            let t = two_pow((j - 1) as nat);
            assert(b < F64_EXACT_LIMIT * (2 * t));
            assert(b / 2 < F64_EXACT_LIMIT * t) by (nonlinear_arith)
                requires
                    b < F64_EXACT_LIMIT * (2 * t),
            ;
            lemma_shift_bound(b / 2, (j - 1) as nat);
        }
    }
}

/// `f64_shift(b)`.
fn shift_of(b: u64) -> (k: u64)
    ensures
        k as nat == f64_shift(b as nat),
        k <= 11,
    decreases b,
{
    proof {
        lemma_two_pow_11();
        lemma_shift_bound(b as nat, 11);
    }
    if b < F64_EXACT_LIMIT {
        0
    } else {
        1 + shift_of(b / 2)
    }
}

/// `round_half_even(n, d)`.
fn round_half_even_u128(n: u128, d: u128) -> (r: u128)
    requires
        d > 0,
        n < 0x1_0000_0000_0000_0000_0000_0000,
    ensures
        r as nat == round_half_even(n as nat, d as nat),
{
    let q = n / d;
    let rem = n % d;
    assert(q <= n) by (nonlinear_arith)
        requires
            d > 0,
            q == n / d,
    ;
    if rem > d - rem || (rem == d - rem && q % 2 == 1) {
        q + 1
    } else {
        q
    }
}

/// The exact value of `b as f64`.
fn f64_value_of(b: u64) -> (r: u128)
    ensures
        r as nat == f64_value(b as nat),
        r <= 0x1_0000_0000_0000_0800,
{
    let k = shift_of(b);
    let mut d: u128 = 1;
    let mut i: u64 = 0;
    while i < k
        invariant
            i <= k <= 11,
            d as nat == two_pow(i as nat),
            d <= 2048,
        decreases k - i,
    {
        proof {
            assert(two_pow((i + 1) as nat) == 2 * two_pow(i as nat));
            lemma_two_pow_11();
            lemma_two_pow_mono(i as nat + 1, 11);
        }
        d = d * 2;
        i = i + 1;
    }
    proof {
        lemma_two_pow_pos(k as nat);
    }
    let qq = (b as u128) / d;
    assert(qq * d <= b as u128) by (nonlinear_arith)
        requires
            d > 0,
            qq == (b as u128) / d,
    ;
    let q = round_half_even_u128(b as u128, d);
    assert(q <= qq + 1);
    assert(q * d <= qq * d + d) by (nonlinear_arith)
        requires
            q <= qq + 1,
            d >= 1,
    ;
    q * d
}

proof fn lemma_two_pow_mono(i: nat, j: nat)
    requires
        i <= j,
    ensures
        two_pow(i) <= two_pow(j),
    decreases j,
{
    if i < j {
        lemma_two_pow_mono(i, (j - 1) as nat);
        lemma_two_pow_pos((j - 1) as nat);
    }
}

/// Append `tenths` written with one decimal place.
fn push_one_decimal(out: &mut Vec<char>, tenths: u64)
    ensures
        final(out)@ == old(out)@ + one_decimal(tenths as nat),
{
    push_decimal(out, tenths / 10);
    out.push('.');
    out.push(digit(tenths % 10));
    assert(final(out)@ =~= old(out)@ + one_decimal(tenths as nat));
}

/// A byte count in human-readable form: `500 bytes`, `1.0 KB`, `1.5 MB`.
pub fn format_size(bytes: u64) -> (r: String)
    ensures
        r@ == format_size_text(bytes),
{
    let mut out: Vec<char> = Vec::new();
    if bytes >= MB {
        let v = f64_value_of(bytes);
        let t = round_half_even_u128(v * 10, MB as u128);
        assert(t <= v * 10) by (nonlinear_arith)
            requires
                t as nat == round_half_even((v * 10) as nat, MB as nat),
        {
            assert(((v * 10) as nat) / (MB as nat) <= (v * 10) as nat);
        }
        push_one_decimal(&mut out, t as u64);
        push_str(&mut out, " MB");
    } else if bytes >= KB {
        let t = round_half_even_u128(bytes as u128 * 10, KB as u128);
        assert(t <= bytes as u128 * 10) by (nonlinear_arith)
            requires
                t as nat == round_half_even((bytes as u128 * 10) as nat, KB as nat),
        {
            assert(((bytes as u128 * 10) as nat) / (KB as nat) <= (bytes as u128 * 10) as nat);
        }
        push_one_decimal(&mut out, t as u64);
        push_str(&mut out, " KB");
    } else {
        push_decimal(&mut out, bytes);
        push_str(&mut out, " bytes");
    }
    string_from(out.as_slice())
}

// ---------------------------------------------------------------------------
// SSH public keys
// ---------------------------------------------------------------------------

/// The extension of the last component of a path (`Path::extension`), as text.
pub uninterp spec fn path_extension(p: Seq<char>) -> Option<Seq<char>>;

/// The path with the extension of its last component replaced (`Path::with_extension`).
pub uninterp spec fn path_with_extension(p: Seq<char>, ext: Seq<char>) -> Seq<char>;

/// `Path::extension`: what follows the last `.` of the file name (none for a
/// name without one, or one that only starts with a dot); named by `path_extension`.
#[verifier::external_body]
fn extension_of(path: &str) -> (r: Option<String>)
    ensures
        opt_view(r) == path_extension(path@),
{
    std::path::Path::new(path).extension().map(|e| e.to_string_lossy().into_owned())
}

/// `Path::with_extension`: the path with its extension set to `ext`; named by
/// `path_with_extension`. `PathBuf::set_extension` panics when the extension holds
/// a path separator, so such extensions are left out.
#[verifier::external_body]
fn with_extension(path: &str, ext: &str) -> (r: String)
    requires
        !ext@.contains('/'),
    ensures
        r@ == path_with_extension(path@, ext@),
{
    std::path::Path::new(path).with_extension(ext).to_string_lossy().into_owned()
}

/// Whether the path has an extension other than `pub`, so that the path with its
/// extension replaced by `pub` is tried.
pub open spec fn replaceable_extension(p: Seq<char>) -> bool {
    path_extension(p) matches Some(e) && e != "pub"@
}

/// The public key chosen for the private key at `p`: `{p}.pub` if it exists; else
/// `p` with its extension replaced by `pub`, where `p` has an extension other than
/// `pub` and that file exists; else `{p}.pub` all the same (for the error message).
pub open spec fn spec_choose_public_key(p: Seq<char>, appended_exists: bool, replaced_exists: bool) -> Seq<
    char,
> {
    if appended_exists {
        p + ".pub"@
    } else if replaceable_extension(p) && replaced_exists {
        path_with_extension(p, "pub"@)
    } else {
        p + ".pub"@
    }
}

/// The public key for the private key at `private_key_path`, given whether
/// `{path}.pub` exists and whether the path with its extension replaced by `pub` exists.
pub fn choose_public_key(private_key_path: &str, appended_exists: bool, replaced_exists: bool) -> (r: String)
    ensures
        r@ == spec_choose_public_key(private_key_path@, appended_exists, replaced_exists),
{
    proof {
        reveal_strlit("pub");
    }
    let mut v = chars_of(private_key_path);
    push_str(&mut v, ".pub");
    if !appended_exists && replaced_exists {
        match extension_of(private_key_path) {
            Some(ext) => {
                if !str_eq(ext.as_str(), "pub") {
                    return with_extension(private_key_path, "pub");
                }
            },
            None => {},
        }
    }
    string_from(v.as_slice())
}

/// Whether the path has an extension other than `pub`.
fn has_replaceable_extension(path: &str) -> (r: bool)
    ensures
        r == replaceable_extension(path@),
{
    match extension_of(path) {
        Some(ext) => !str_eq(ext.as_str(), "pub"),
        None => false,
    }
}

/// The public key that goes with a private key, looked up on disk as
/// `choose_public_key` describes (the replaced path is only looked up when
/// `{path}.pub` is missing and the extension is not `pub`).
pub fn find_public_key_path(private_key_path: &str) -> (r: Option<String>)
    ensures
        r matches Some(q) && exists|a: bool, b: bool|
            q@ == #[trigger] spec_choose_public_key(private_key_path@, a, b),
{
    proof {
        reveal_strlit("pub");
    }
    let mut v = chars_of(private_key_path);
    push_str(&mut v, ".pub");
    let appended = string_from(v.as_slice());
    let appended_exists = path_exists(appended.as_str());
    let replaced_exists = if !appended_exists && has_replaceable_extension(private_key_path) {
        let replaced = with_extension(private_key_path, "pub");
        path_exists(replaced.as_str())
    } else {
        false
    };
    let r = choose_public_key(private_key_path, appended_exists, replaced_exists);
    assert(r@ == spec_choose_public_key(private_key_path@, appended_exists, replaced_exists));
    Some(r)
}

/// Where the key to encrypt to comes from.
pub enum PublicKeySource {
    /// The file the user named holds a public key: use its text.
    AsGiven,
    /// The user named a private key; use the public key at this path.
    Derived(String),
}

/// The message when the user named a private key whose public key is missing.
pub open spec fn private_key_given_message(given: Seq<char>, tried: Seq<char>) -> Seq<char> {
    "Expected an SSH public key for encryption, but you provided a private key.\nProvided: "@ + given
        + "\nTry: "@ + tried + " (file not found)"@
}

/// What the source of the key is when the user named a private key whose public
/// key is looked for at `pub_path`: that path if it exists, else an error.
pub open spec fn derived_outcome(
    r: Result<PublicKeySource, String>,
    key_path: Seq<char>,
    pub_path: Seq<char>,
    pub_exists: bool,
) -> bool {
    if pub_exists {
        r matches Ok(PublicKeySource::Derived(q)) && q@ == pub_path
    } else {
        r matches Err(m) && m@ == private_key_given_message(key_path, pub_path)
    }
}

/// The key to encrypt to when the user named the private key at `key_path`, whose
/// public key is looked for at `pub_path`, given whether that file exists.
pub fn derived_key_source(key_path: &str, pub_path: String, pub_exists: bool) -> (r: Result<
    PublicKeySource,
    String,
>)
    ensures
        derived_outcome(r, key_path@, pub_path@, pub_exists),
{
    if pub_exists {
        Ok(PublicKeySource::Derived(pub_path))
    } else {
        let mut v = chars_of("Expected an SSH public key for encryption, but you provided a private key.\nProvided: ");
        push_str(&mut v, key_path);
        push_str(&mut v, "\nTry: ");
        push_str(&mut v, pub_path.as_str());
        push_str(&mut v, " (file not found)");
        assert(v@ =~= private_key_given_message(key_path@, pub_path@));
        Err(string_from(v.as_slice()))
    }
}

/// Decide which key to encrypt to, given the path the user named and that file's
/// text: a public key is used as given; for a private key, its public key is found
/// as `find_public_key_path` finds it, and used if it exists.
pub fn public_key_source(key_path: &str, key_content: &str) -> (r: Result<PublicKeySource, String>)
    ensures
        !contains(key_content@, "PRIVATE KEY"@) ==> r matches Ok(PublicKeySource::AsGiven),
        contains(key_content@, "PRIVATE KEY"@) ==> exists|a: bool, b: bool, e: bool|
            #[trigger] derived_outcome(r, key_path@, spec_choose_public_key(key_path@, a, b), e),
{
    let c = chars_of(key_content);
    let marker = chars_of("PRIVATE KEY");
    if !has_substring(c.as_slice(), marker.as_slice()) {
        return Ok(PublicKeySource::AsGiven);
    }
    match find_public_key_path(key_path) {
        Some(p) => {
            let ghost pv = p@;
            let e = path_exists(p.as_str());
            let r = derived_key_source(key_path, p, e);
            proof {
                let (a, b) = choose|a: bool, b: bool| pv == spec_choose_public_key(key_path@, a, b);
                assert(derived_outcome(r, key_path@, spec_choose_public_key(key_path@, a, b), e));
            }
            r
        },
        None => {
            let mut v = chars_of("Expected an SSH public key for encryption, but you provided a private key.\nProvided: ");
            push_str(&mut v, key_path);
            push_str(&mut v, "\nTry using the corresponding .pub file");
            Err(string_from(v.as_slice()))
        },
    }
}

// ---------------------------------------------------------------------------
// Passphrases and the export summary
// ---------------------------------------------------------------------------

/// A typed passphrase is refused when empty.
pub fn check_passphrase(passphrase: &str) -> (r: Result<(), String>)
    ensures
        r is Ok <==> passphrase@.len() > 0,
        r matches Err(e) ==> e@ == "Passphrase cannot be empty"@,
{
    if passphrase.is_empty() {
        Err(string_from(chars_of("Passphrase cannot be empty").as_slice()))
    } else {
        Ok(())
    }
}

/// A new passphrase must be non-empty and typed the same twice.
pub fn check_new_passphrase(first: &str, second: &str) -> (r: Result<(), String>)
    ensures
        r is Ok <==> (first@.len() > 0 && first@ == second@),
        r matches Err(e) ==> (first@.len() == 0 && e@ == "Passphrase cannot be empty"@) || (first@.len()
            > 0 && first@ != second@ && e@ == "Passphrases do not match"@),
{
    if first.is_empty() {
        return Err(string_from(chars_of("Passphrase cannot be empty").as_slice()));
    }
    if !str_eq(first, second) {
        return Err(string_from(chars_of("Passphrases do not match").as_slice()));
    }
    Ok(())
}

/// `Exported {secrets} to {output} ({size})`
pub open spec fn spec_export_summary(secrets: Seq<char>, output: Seq<char>, size: u64) -> Seq<char> {
    "Exported "@ + secrets + " to "@ + output + " ("@ + format_size_text(size) + ")"@
}

/// What `export` prints after writing an archive of `size` bytes.
pub fn export_summary(secrets_path: &str, output_path: &str, size: u64) -> (r: String)
    ensures
        r@ == spec_export_summary(secrets_path@, output_path@, size),
{
    let mut v = chars_of("Exported ");
    push_str(&mut v, secrets_path);
    push_str(&mut v, " to ");
    push_str(&mut v, output_path);
    push_str(&mut v, " (");
    let s = format_size(size);
    push_str(&mut v, s.as_str());
    push_str(&mut v, ")");
    assert(v@ =~= spec_export_summary(secrets_path@, output_path@, size));
    string_from(v.as_slice())
}

} // verus!
