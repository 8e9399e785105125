//! Remote-server client: URL handling, certificate locations and error mapping.

use vstd::prelude::*;
use crate::config::owned;
use crate::error::JawsError;
use crate::paths::{join, join_path, path_exists};
use crate::text::{
    chars_of, has_prefix, parse_unsigned, parse_unsigned_chars, push_all, push_str, starts_with,
    string_from,
};

verus! {

/// Position of the first `c` in `s`.
pub open spec fn first_pos(s: Seq<char>, c: char) -> Option<int>
    decreases s.len(),
{
    if s.len() == 0 {
        None
    } else if s[0] == c {
        Some(0)
    } else {
        match first_pos(s.drop_first(), c) {
            Some(i) => Some(i + 1),
            None => None,
        }
    }
}

/// Position of the last `c` in `s`.
pub open spec fn last_pos(s: Seq<char>, c: char) -> Option<int>
    decreases s.len(),
{
    if s.len() == 0 {
        None
    } else if s.last() == c {
        Some(s.len() - 1)
    } else {
        last_pos(s.drop_last(), c)
    }
}

/// The part of `s` before its first `c` (all of `s` when there is none):
/// what `s.split(c).next()` yields.
pub open spec fn before_first(s: Seq<char>, c: char) -> Seq<char> {
    match first_pos(s, c) {
        Some(i) => s.subrange(0, i),
        None => s,
    }
}

/// `url` without a leading `https://` or `http://`.
pub open spec fn strip_scheme(url: Seq<char>) -> Seq<char> {
    if starts_with(url, "https://"@) {
        url.subrange(8, url.len() as int)
    } else if starts_with(url, "http://"@) {
        url.subrange(7, url.len() as int)
    } else {
        url
    }
}

/// The host named by a URL, for TLS domain verification.
pub open spec fn spec_extract_domain(url: Seq<char>) -> Seq<char> {
    before_first(before_first(strip_scheme(url), ':'), '/')
}

/// The host and port named by a URL; the port is 443 when absent or not a valid `u16`.
pub open spec fn spec_extract_host_port(url: Seq<char>) -> (Seq<char>, u16) {
    let authority = before_first(strip_scheme(url), '/');
    match last_pos(authority, ':') {
        Some(i) => {
            let port = match parse_unsigned(authority.subrange(i + 1, authority.len() as int), 65535) {
                Some(p) => p as u16,
                None => 443,
            };
            (authority.subrange(0, i), port)
        },
        None => (authority, 443),
    }
}

/// The URL with `https://` put in front unless it already names a scheme.
pub open spec fn spec_normalize_url(url: Seq<char>) -> Seq<char> {
    if starts_with(url, "https://"@) || starts_with(url, "http://"@) {
        url
    } else {
        "https://"@ + url
    }
}

proof fn lemma_first_pos(s: Seq<char>, c: char, i: int)
    requires
        0 <= i <= s.len(),
        forall|j: int| 0 <= j < i ==> s[j] != c,
    ensures
        i < s.len() && s[i] == c ==> first_pos(s, c) == Some(i),
        i == s.len() ==> first_pos(s, c) is None,
    decreases i,
{
    if i > 0 {
        lemma_first_pos(s.drop_first(), c, i - 1);
    } else if s.len() > 0 && s[0] != c {
    }
}

proof fn lemma_last_pos(s: Seq<char>, c: char, i: int)
    requires
        0 <= i <= s.len(),
        forall|j: int| i <= j < s.len() ==> s[j] != c,
    ensures
        i > 0 && s[i - 1] == c ==> last_pos(s, c) == Some(i - 1),
        i == 0 ==> last_pos(s, c) is None,
    decreases s.len() - i,
{
    if i < s.len() {
        lemma_last_pos(s.drop_last(), c, i);
    }
}

/// `s.split(c).next()`: the characters before the first `c`.
fn before_first_chars(s: &[char], c: char) -> (r: Vec<char>)
    ensures
        r@ == before_first(s@, c),
{
    let mut out: Vec<char> = Vec::new();
    let mut i: usize = 0;
    while i < s.len() && s[i] != c
        invariant
            i <= s@.len(),
            out@ == s@.subrange(0, i as int),
            forall|j: int| 0 <= j < i ==> s@[j] != c,
        decreases s@.len() - i,
    {
        out.push(s[i]);
        i = i + 1;
        assert(out@ =~= s@.subrange(0, i as int));
    }
    proof {
        lemma_first_pos(s@, c, i as int);
        if i == s.len() {
            assert(s@.subrange(0, i as int) =~= s@);
        }
    }
    out
}

/// `url` without its scheme prefix.
fn strip_scheme_chars(url: &[char]) -> (r: Vec<char>)
    ensures
        r@ == strip_scheme(url@),
{
    let https = chars_of("https://");
    let http = chars_of("http://");
    let mut out: Vec<char> = Vec::new();
    let mut from: usize = 0;
    if has_prefix(url, https.as_slice()) {
        proof {
            reveal_strlit("https://");
        }
        from = 8;
    } else if has_prefix(url, http.as_slice()) {
        proof {
            reveal_strlit("http://");
        }
        from = 7;
    }
    let mut i = from;
    while i < url.len()
        invariant
            from <= i <= url@.len(),
            out@ == url@.subrange(from as int, i as int),
        decreases url@.len() - i,
    {
        out.push(url[i]);
        i = i + 1;
        assert(out@ =~= url@.subrange(from as int, i as int));
    }
    assert(url@.subrange(0, url@.len() as int) =~= url@);
    out
}

/// The host named by a URL (`https://host:443/x` gives `host`).
pub fn extract_domain(url: &str) -> (r: String)
    ensures
        r@ == spec_extract_domain(url@),
{
    let u = chars_of(url);
    let ws = strip_scheme_chars(u.as_slice());
    let a = before_first_chars(ws.as_slice(), ':');
    let h = before_first_chars(a.as_slice(), '/');
    string_from(h.as_slice())
}

/// The host and port named by a URL, port 443 by default.
pub fn extract_host_port(url: &str) -> (r: (String, u16))
    ensures
        (r.0@, r.1) == spec_extract_host_port(url@),
{
    let u = chars_of(url);
    let ws = strip_scheme_chars(u.as_slice());
    let auth = before_first_chars(ws.as_slice(), '/');
    let mut i: usize = auth.len();
    while i > 0 && auth[i - 1] != ':'
        invariant
            i <= auth@.len(),
            forall|j: int| i <= j < auth@.len() ==> auth@[j] != ':',
        decreases i,
    {
        i = i - 1;
    }
    proof {
        lemma_last_pos(auth@, ':', i as int);
    }
    if i == 0 {
        return (string_from(auth.as_slice()), 443);
    }
    let mut host: Vec<char> = Vec::new();
    let mut k: usize = 0;
    while k < i - 1
        invariant
            k <= i - 1,
            i <= auth@.len(),
            host@ == auth@.subrange(0, k as int),
        decreases i - 1 - k,
    {
        host.push(auth[k]);
        k = k + 1;
        assert(host@ =~= auth@.subrange(0, k as int));
    }
    let mut port_text: Vec<char> = Vec::new();
    let mut m: usize = i;
    while m < auth.len()
        invariant
            i <= m <= auth@.len(),
            port_text@ == auth@.subrange(i as int, m as int),
        decreases auth@.len() - m,
    {
        port_text.push(auth[m]);
        m = m + 1;
        assert(port_text@ =~= auth@.subrange(i as int, m as int));
    }
    let port: u16 = match parse_unsigned_chars(port_text.as_slice(), 65535) {
        Some(p) => p as u16,
        None => 443,
    };
    (string_from(host.as_slice()), port)
}

/// The URL with an `https://` scheme unless it already has `https://` or `http://`.
pub fn normalize_url(url: &str) -> (r: String)
    ensures
        r@ == spec_normalize_url(url@),
{
    let u = chars_of(url);
    let https = chars_of("https://");
    let http = chars_of("http://");
    if has_prefix(u.as_slice(), https.as_slice()) || has_prefix(u.as_slice(), http.as_slice()) {
        string_from(u.as_slice())
    } else {
        let mut out = https;
        push_all(&mut out, u.as_slice());
        string_from(out.as_slice())
    }
}

/// All three certificate files are there.
pub open spec fn spec_all_present(ca: bool, cert: bool, key: bool) -> bool {
    ca && cert && key
}

/// Whether the CA certificate, the client certificate and the client key are all present.
pub fn all_present(ca: bool, cert: bool, key: bool) -> (r: bool)
    ensures
        r == spec_all_present(ca, cert, key),
{
    ca && cert && key
}

/// Where the certificates for one enrolled server are kept.
pub struct ClientPaths {
    pub dir: String,
    pub ca_cert: String,
    pub client_cert: String,
    pub client_key: String,
}

/// `config_dir/clients/server_name`.
pub open spec fn client_dir(config_dir: Seq<char>, server_name: Seq<char>) -> Seq<char> {
    join(join(config_dir, "clients"@), server_name)
}

impl ClientPaths {
    /// The certificate paths for server `server_name` under `config_dir`.
    pub fn new(config_dir: &str, server_name: &str) -> (r: Self)
        ensures
            r.dir@ == client_dir(config_dir@, server_name@),
            r.ca_cert@ == join(r.dir@, "ca.pem"@),
            r.client_cert@ == join(r.dir@, "client.pem"@),
            r.client_key@ == join(r.dir@, "client-key.pem"@),
    {
        let clients = join_path(config_dir, "clients");
        let dir = join_path(clients.as_str(), server_name);
        let ca_cert = join_path(dir.as_str(), "ca.pem");
        let client_cert = join_path(dir.as_str(), "client.pem");
        let client_key = join_path(dir.as_str(), "client-key.pem");
        ClientPaths { dir, ca_cert, client_cert, client_key }
    }

    /// Whether all three certificate files exist: `all_present` of the three disk
    /// checks, made in order and stopping at the first file missing. What the disk
    /// reports is not stated.
    pub fn files_exist(&self) -> bool {
        let ca = path_exists(self.ca_cert.as_str());
        let cert = if ca { path_exists(self.client_cert.as_str()) } else { false };
        let key = if cert { path_exists(self.client_key.as_str()) } else { false };
        all_present(ca, cert, key)
    }
}

/// A provider of an enrolled server, as the client names it: `{server}/{id}`, of
/// kind `remote:{kind}`. (The connection it talks over stays with the caller.)
pub struct RemoteProvider {
    id: String,
    remote_provider_id: String,
    kind: String,
    rollback_support: bool,
    remote_history_support: bool,
}

impl RemoteProvider {
    /// The id the client gives a provider of server `server_name`.
    pub open spec fn spec_id(server_name: Seq<char>, remote_provider_id: Seq<char>) -> Seq<char> {
        server_name + "/"@ + remote_provider_id
    }

    /// The kind the client gives a remote provider of kind `kind`.
    pub open spec fn spec_kind(kind: Seq<char>) -> Seq<char> {
        "remote:"@ + kind
    }

    pub closed spec fn view_id(&self) -> Seq<char> {
        self.id@
    }

    pub closed spec fn view_remote_id(&self) -> Seq<char> {
        self.remote_provider_id@
    }

    pub closed spec fn view_kind(&self) -> Seq<char> {
        self.kind@
    }

    pub closed spec fn view_rollback(&self) -> bool {
        self.rollback_support
    }

    pub closed spec fn view_remote_history(&self) -> bool {
        self.remote_history_support
    }

    /// A provider `remote_provider_id` of server `server_name`, as the server describes it.
    pub fn new(
        server_name: &str,
        remote_provider_id: String,
        kind: String,
        rollback_support: bool,
        remote_history_support: bool,
    ) -> (r: Self)
        ensures
            r.view_id() == Self::spec_id(server_name@, remote_provider_id@),
            r.view_remote_id() == remote_provider_id@,
            r.view_kind() == Self::spec_kind(kind@),
            r.view_rollback() == rollback_support,
            r.view_remote_history() == remote_history_support,
    {
        let mut id = chars_of(server_name);
        push_str(&mut id, "/");
        push_str(&mut id, remote_provider_id.as_str());
        let mut k = chars_of("remote:");
        push_str(&mut k, kind.as_str());
        RemoteProvider {
            id: string_from(id.as_slice()),
            remote_provider_id,
            kind: string_from(k.as_slice()),
            rollback_support,
            remote_history_support,
        }
    }

    /// The client-side id, `{server}/{remote id}`.
    pub fn id(&self) -> (r: &str)
        ensures
            r@ == self.view_id(),
    {
        self.id.as_str()
    }

    /// The provider's id on its server, which requests name.
    pub fn remote_provider_id(&self) -> (r: &str)
        ensures
            r@ == self.view_remote_id(),
    {
        self.remote_provider_id.as_str()
    }

    /// `remote:{kind}`.
    pub fn kind(&self) -> (r: &str)
        ensures
            r@ == self.view_kind(),
    {
        self.kind.as_str()
    }

    /// Whether the server can roll this provider's secrets back.
    pub fn supports_rollback(&self) -> (r: bool)
        ensures
            r == self.view_rollback(),
    {
        self.rollback_support
    }

    /// Whether the server keeps this provider's remote history.
    pub fn supports_remote_history(&self) -> (r: bool)
        ensures
            r == self.view_remote_history(),
    {
        self.remote_history_support
    }
}

/// The providers of server `server_name`, from the `(id, kind, rollback,
/// remote history)` descriptions its provider listing returned, in order.
pub fn remote_providers(server_name: &str, listing: &Vec<(String, String, bool, bool)>) -> (r: Vec<RemoteProvider>)
    ensures
        r@.len() == listing@.len(),
        forall|i: int|
            0 <= i < r@.len() ==> {
                let (id, kind, rb, rh) = #[trigger] listing@[i];
                &&& r@[i].view_id() == RemoteProvider::spec_id(server_name@, id@)
                &&& r@[i].view_remote_id() == id@
                &&& r@[i].view_kind() == RemoteProvider::spec_kind(kind@)
                &&& r@[i].view_rollback() == rb
                &&& r@[i].view_remote_history() == rh
            },
{
    let mut out: Vec<RemoteProvider> = Vec::new();
    let mut j: usize = 0;
    while j < listing.len()
        invariant
            j <= listing@.len(),
            out@.len() == j,
            forall|i: int|
                0 <= i < j ==> {
                    let (id, kind, rb, rh) = #[trigger] listing@[i];
                    &&& out@[i].view_id() == RemoteProvider::spec_id(server_name@, id@)
                    &&& out@[i].view_remote_id() == id@
                    &&& out@[i].view_kind() == RemoteProvider::spec_kind(kind@)
                    &&& out@[i].view_rollback() == rb
                    &&& out@[i].view_remote_history() == rh
                },
        decreases listing@.len() - j,
    {
        let e = &listing[j];
        let p = RemoteProvider::new(server_name, owned(e.0.as_str()), owned(e.1.as_str()), e.2, e.3);
        out.push(p);
        j = j + 1;
    }
    out
}

/// The status codes of a gRPC reply.
pub enum GrpcCode {
    Success,
    Cancelled,
    Unknown,
    InvalidArgument,
    DeadlineExceeded,
    NotFound,
    AlreadyExists,
    PermissionDenied,
    ResourceExhausted,
    FailedPrecondition,
    Aborted,
    OutOfRange,
    Unimplemented,
    Internal,
    Unavailable,
    DataLoss,
    Unauthenticated,
}

/// The error a failed gRPC call of `operation` becomes, given the status code,
/// the text the code displays, and the status message.
pub open spec fn spec_grpc_error(
    code: GrpcCode,
    code_text: Seq<char>,
    message: Seq<char>,
    operation: Seq<char>,
) -> (Seq<char>, Seq<char>) {
    match code {
        GrpcCode::NotFound => ("not_found"@, message),
        GrpcCode::PermissionDenied => ("remote"@, "Permission denied: "@ + message),
        GrpcCode::Unavailable => (
            "remote"@,
            "Server unavailable ("@ + operation + "): "@ + message,
        ),
        GrpcCode::Unimplemented => ("unsupported"@, message),
        _ => ("remote"@, operation + " failed: "@ + message + " ("@ + code_text + ")"@),
    }
}

/// Map a failed gRPC call to an error: not found, unsupported, or a `remote`
/// provider error whose message names the operation.
pub fn map_grpc_error(code: GrpcCode, code_text: &str, message: &str, operation: &str) -> (r:
    JawsError)
    ensures
        match code {
            GrpcCode::NotFound => r matches JawsError::NotFound(m) && m@ == message@,
            GrpcCode::Unimplemented => r matches JawsError::Unsupported(m) && m@ == message@,
            _ => r matches JawsError::Provider { provider, message: m } && provider@ == "remote"@
                && m@ == spec_grpc_error(code, code_text@, message@, operation@).1,
        },
{
    match code {
        GrpcCode::NotFound => JawsError::NotFound(owned(message)),
        GrpcCode::Unimplemented => JawsError::Unsupported(owned(message)),
        GrpcCode::PermissionDenied => {
            let mut m: Vec<char> = Vec::new();
            push_str(&mut m, "Permission denied: ");
            push_str(&mut m, message);
            JawsError::Provider { provider: owned("remote"), message: string_from(m.as_slice()) }
        },
        GrpcCode::Unavailable => {
            let mut m: Vec<char> = Vec::new();
            push_str(&mut m, "Server unavailable (");
            push_str(&mut m, operation);
            push_str(&mut m, "): ");
            push_str(&mut m, message);
            JawsError::Provider { provider: owned("remote"), message: string_from(m.as_slice()) }
        },
        _ => {
            let mut m: Vec<char> = Vec::new();
            push_str(&mut m, operation);
            push_str(&mut m, " failed: ");
            push_str(&mut m, message);
            push_str(&mut m, " (");
            push_str(&mut m, code_text);
            push_str(&mut m, ")");
            JawsError::Provider { provider: owned("remote"), message: string_from(m.as_slice()) }
        },
    }
}

} // verus!
