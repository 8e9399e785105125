//! Enrolling with a remote jaws server: trusting its certificate, naming the
//! connection, and what is printed along the way.

use vstd::prelude::*;
use crate::text::{chars_of, push_str, str_eq, string_from, trim, trim_chars};
use crate::textops::{join, push_joined, views, string_views};

verus! {

/// The client name used when the host name cannot be read.
pub open spec fn default_client_name() -> Seq<char> {
    "jaws-client"@
}

/// The name this client enrolls under: the host name, if known.
pub fn client_name(hostname: Option<String>) -> (r: String)
    ensures
        r@ == match hostname {
            Some(h) => h@,
            None => default_client_name(),
        },
{
    match hostname {
        Some(h) => h,
        None => string_from(chars_of("jaws-client").as_slice()),
    }
}

/// What to do about the server's certificate fingerprint.
pub enum FingerprintCheck {
    /// It matches the one the user gave.
    Verified,
    /// It differs from the one the user gave: abort with this message.
    Mismatch(String),
    /// No fingerprint was given: ask the user to trust it.
    AskUser,
    /// The server's fingerprint could not be read: warn and go on.
    Unknown,
}

/// The message for a fingerprint that differs from the expected one.
pub open spec fn mismatch_message(expected: Seq<char>, received: Seq<char>) -> Seq<char> {
    "Server fingerprint mismatch!\nExpected: SHA256:"@ + expected + "\nReceived: SHA256:"@ + received
}

/// Check the server's fingerprint (`received`) against the one the user expects, if any.
pub fn check_fingerprint(expected: Option<&str>, received: Option<&str>) -> (r: FingerprintCheck)
    ensures
        match received {
            None => r is Unknown,
            Some(got) => match expected {
                None => r is AskUser,
                Some(want) => if want@ == got@ {
                    r is Verified
                } else {
                    r matches FingerprintCheck::Mismatch(m) && m@ == mismatch_message(want@, got@)
                },
            },
        },
{
    match received {
        None => FingerprintCheck::Unknown,
        Some(got) => match expected {
            None => FingerprintCheck::AskUser,
            Some(want) => {
                if str_eq(want, got) {
                    FingerprintCheck::Verified
                } else {
                    let mut v = chars_of("Server fingerprint mismatch!\nExpected: SHA256:");
                    push_str(&mut v, want);
                    push_str(&mut v, "\nReceived: SHA256:");
                    push_str(&mut v, got);
                    FingerprintCheck::Mismatch(string_from(v.as_slice()))
                }
            },
        },
    }
}

/// `c` lowercased when it is an ASCII capital letter.
pub open spec fn ascii_lower(c: char) -> char {
    if 'A' <= c && c <= 'Z' {
        ((c as u32) + 32) as char
    } else {
        c
    }
}

/// `a` and `b` are equal ignoring ASCII case (what `eq_ignore_ascii_case` tests).
pub open spec fn eq_ignore_ascii_case(a: Seq<char>, b: Seq<char>) -> bool {
    a.len() == b.len() && forall|i: int| 0 <= i < a.len() ==> ascii_lower(#[trigger] a[i]) == ascii_lower(b[i])
}

fn lower_char(c: char) -> (r: char)
    ensures
        r == ascii_lower(c),
{
    if 'A' <= c && c <= 'Z' {
        let u = (c as u32) + 32;
        proof {
            vstd::utf8::char_u32_cast(c, c as u32);
        }
        if u == 'a' as u32 { 'a' } else if u == 'b' as u32 { 'b' } else if u == 'c' as u32 { 'c' }
        else if u == 'd' as u32 { 'd' } else if u == 'e' as u32 { 'e' } else if u == 'f' as u32 { 'f' }
        else if u == 'g' as u32 { 'g' } else if u == 'h' as u32 { 'h' } else if u == 'i' as u32 { 'i' }
        else if u == 'j' as u32 { 'j' } else if u == 'k' as u32 { 'k' } else if u == 'l' as u32 { 'l' }
        else if u == 'm' as u32 { 'm' } else if u == 'n' as u32 { 'n' } else if u == 'o' as u32 { 'o' }
        else if u == 'p' as u32 { 'p' } else if u == 'q' as u32 { 'q' } else if u == 'r' as u32 { 'r' }
        else if u == 's' as u32 { 's' } else if u == 't' as u32 { 't' } else if u == 'u' as u32 { 'u' }
        else if u == 'v' as u32 { 'v' } else if u == 'w' as u32 { 'w' } else if u == 'x' as u32 { 'x' }
        else if u == 'y' as u32 { 'y' } else { 'z' }
    } else {
        c
    }
}

fn same_ignoring_ascii_case(a: &[char], b: &[char]) -> (r: bool)
    ensures
        r == eq_ignore_ascii_case(a@, b@),
{
    if a.len() != b.len() {
        return false;
    }
    let mut i: usize = 0;
    while i < a.len()
        invariant
            a@.len() == b@.len(),
            i <= a@.len(),
            forall|k: int| 0 <= k < i ==> ascii_lower(#[trigger] a@[k]) == ascii_lower(b@[k]),
        decreases a@.len() - i,
    {
        if lower_char(a[i]) != lower_char(b[i]) {
            return false;
        }
        i = i + 1;
    }
    true
}

/// The user trusts the server when the answer, trimmed, is `y` or `yes` in any ASCII case.
pub fn trust_accepted(answer: &str) -> (r: bool)
    ensures
        r == (eq_ignore_ascii_case(trim(answer@), "y"@) || eq_ignore_ascii_case(trim(answer@), "yes"@)),
{
    let t = trim_chars(chars_of(answer).as_slice());
    same_ignoring_ascii_case(t.as_slice(), chars_of("y").as_slice()) || same_ignoring_ascii_case(
        t.as_slice(),
        chars_of("yes").as_slice(),
    )
}

/// The connection's name: the one asked for, or the name the server gave.
pub fn connection_name(requested: Option<String>, server_name: String) -> (r: String)
    ensures
        r == match requested {
            Some(n) => n,
            None => server_name,
        },
{
    match requested {
        Some(n) => n,
        None => server_name,
    }
}

/// The config block to add by hand when no config file exists.
pub open spec fn spec_server_snippet(name: Seq<char>, url: Seq<char>, ca: Seq<char>, cert: Seq<char>, key: Seq<char>) -> Seq<Seq<char>> {
    seq![
        "  server \""@ + name + "\" {"@,
        "      url         = \""@ + url + "\""@,
        "      ca_cert     = \""@ + ca + "\""@,
        "      client_cert = \""@ + cert + "\""@,
        "      client_key  = \""@ + key + "\""@,
        "  }"@,
    ]
}

fn quoted_line(prefix: &str, value: &str) -> (r: String)
    ensures
        r@ == prefix@ + value@ + "\""@,
{
    let mut v = chars_of(prefix);
    push_str(&mut v, value);
    push_str(&mut v, "\"");
    string_from(v.as_slice())
}

/// The lines of the server block to add to the config file by hand.
pub fn server_snippet(name: &str, url: &str, ca_cert: &str, client_cert: &str, client_key: &str) -> (r: Vec<String>)
    ensures
        string_views(r@) == spec_server_snippet(name@, url@, ca_cert@, client_cert@, client_key@),
{
    let mut out: Vec<String> = Vec::new();
    let mut h = chars_of("  server \"");
    push_str(&mut h, name);
    push_str(&mut h, "\" {");
    out.push(string_from(h.as_slice()));
    out.push(quoted_line("      url         = \"", url));
    out.push(quoted_line("      ca_cert     = \"", ca_cert));
    out.push(quoted_line("      client_cert = \"", client_cert));
    out.push(quoted_line("      client_key  = \"", client_key));
    out.push(string_from(chars_of("  }").as_slice()));
    assert(string_views(out@) =~= spec_server_snippet(name@, url@, ca_cert@, client_cert@, client_key@));
    out
}

/// `Server '{name}' not found in configuration. Known servers: {names, or (none)}`
pub open spec fn spec_unknown_server(name: Seq<char>, known: Seq<Seq<char>>) -> Seq<char> {
    "Server '"@ + name + "' not found in configuration. Known servers: "@ + if known.len() == 0 {
        "(none)"@
    } else {
        join(known, ", "@)
    }
}

/// The error when disconnecting from a server that is not configured.
pub fn unknown_server_message(name: &str, known: &Vec<String>) -> (r: String)
    ensures
        r@ == spec_unknown_server(name@, string_views(known@)),
{
    let mut ids: Vec<Vec<char>> = Vec::new();
    let mut i: usize = 0;
    while i < known.len()
        invariant
            i <= known@.len(),
            ids@.len() == i,
            forall|k: int| 0 <= k < i ==> (#[trigger] ids@[k])@ == known@[k]@,
        decreases known@.len() - i,
    {
        ids.push(chars_of(known[i].as_str()));
        i = i + 1;
    }
    assert(views(ids@) =~= string_views(known@));
    let mut v = chars_of("Server '");
    push_str(&mut v, name);
    push_str(&mut v, "' not found in configuration. Known servers: ");
    if known.len() == 0 {
        push_str(&mut v, "(none)");
    } else {
        push_joined(&mut v, &ids, chars_of(", ").as_slice());
    }
    assert(v@ =~= spec_unknown_server(name@, string_views(known@)));
    string_from(v.as_slice())
}

} // verus!
