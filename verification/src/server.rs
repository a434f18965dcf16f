//! The rules of the REST server: roles and their order (RBAC), API keys and
//! how a request is let in.

use vstd::prelude::*;
use crate::model::Project;
use crate::docs::html::{cmark_html_of, page_spec};
use crate::docs::markdown::markdown_spec;
use crate::docs::wiki::wiki_spec;
use crate::text::{has_prefix, owned, str_eq, starts_with, string_of_range, to_chars};

verus! {

/// Role of a user, in increasing order of privilege.
#[derive(Clone, Copy, Debug, PartialEq, Eq, Structural)]
pub enum Role {
    Viewer,
    Editor,
    Admin,
}

pub open spec fn role_level(r: Role) -> u8 {
    match r {
        Role::Viewer => 1,
        Role::Editor => 2,
        Role::Admin => 3,
    }
}

pub open spec fn role_of(s: Seq<char>) -> Option<Role> {
    if s == "viewer"@ {
        Some(Role::Viewer)
    } else if s == "editor"@ {
        Some(Role::Editor)
    } else if s == "admin"@ {
        Some(Role::Admin)
    } else {
        None
    }
}

pub open spec fn role_text(r: Role) -> Seq<char> {
    match r {
        Role::Viewer => "viewer"@,
        Role::Editor => "editor"@,
        Role::Admin => "admin"@,
    }
}

impl Role {
    pub fn level(self) -> (r: u8)
        ensures
            r == role_level(self),
    {
        match self {
            Role::Viewer => 1,
            Role::Editor => 2,
            Role::Admin => 3,
        }
    }

    pub fn parse(s: &str) -> (r: Option<Role>)
        ensures
            r == role_of(s@),
    {
        if str_eq(s, "viewer") {
            Some(Role::Viewer)
        } else if str_eq(s, "editor") {
            Some(Role::Editor)
        } else if str_eq(s, "admin") {
            Some(Role::Admin)
        } else {
            None
        }
    }

    /// The name under which a role is stored.
    pub fn name(self) -> (r: &'static str)
        ensures
            r@ == role_text(self),
    {
        match self {
            Role::Viewer => "viewer",
            Role::Editor => "editor",
            Role::Admin => "admin",
        }
    }
}

/// A refused request: an HTTP status and its message.
pub struct Refusal {
    pub status: u16,
    pub message: String,
}

/// Checks that a role is enough: `403 privilegi insufficienti` otherwise.
pub fn require(role: Role, min: Role) -> (r: Result<(), Refusal>)
    ensures
        r is Ok <==> role_level(role) >= role_level(min),
        r matches Err(x) ==> x.status == 403 && x.message@ == "privilegi insufficienti"@,
{
    if role.level() >= min.level() {
        Ok(())
    } else {
        Err(Refusal { status: 403, message: owned("privilegi insufficienti") })
    }
}

// ---------------------------------------------------------------------------
// API keys
// ---------------------------------------------------------------------------

/// A lower-case hexadecimal digit.
pub open spec fn hex_digit(d: u8) -> char {
    if d < 10 {
        (48 + d) as char
    } else {
        (87 + d) as char
    }
}

/// Each byte as two lower-case hexadecimal digits (`{:02x}`).
pub open spec fn hex_spec(bytes: Seq<u8>) -> Seq<char>
    decreases bytes.len(),
{
    if bytes.len() == 0 {
        Seq::empty()
    } else {
        hex_spec(bytes.drop_last()) + seq![hex_digit(bytes.last() / 16), hex_digit(bytes.last() % 16)]
    }
}

fn hex_char(d: u8) -> (c: char)
    requires
        d < 16,
    ensures
        c == hex_digit(d),
{
    if d < 10 {
        (48u8 + d) as char
    } else {
        (87u8 + d) as char
    }
}

/// The bytes in hexadecimal (see [`hex_spec`]).
pub fn hex(bytes: &Vec<u8>) -> (r: String)
    ensures
        r@ == hex_spec(bytes@),
{
    let mut r = String::new();
    for i in 0..bytes.len()
        invariant
            r@ == hex_spec(bytes@.take(i as int)),
    {
        let b = bytes[i];
        assert(bytes@.take(i + 1).drop_last() =~= bytes@.take(i as int));
        crate::text::push_char(&mut r, hex_char(b / 16));
        crate::text::push_char(&mut r, hex_char(b % 16));
        assert(r@ =~= hex_spec(bytes@.take(i + 1)));
    }
    assert(bytes@.take(bytes.len() as int) =~= bytes@);
    r
}

/// What SHA-256 gives of some bytes.
pub uninterp spec fn sha256_of(data: Seq<u8>) -> Seq<u8>;

/// Computes `sha2::Sha256::digest`; the digest is named `sha256_of` and has
/// 32 bytes.
#[verifier::external_body]
fn sha256(data: &[u8]) -> (r: Vec<u8>)
    ensures
        r@ == sha256_of(data@),
        r@.len() == 32,
{
    <sha2::Sha256 as sha2::Digest>::digest(data).to_vec()
}

/// The SHA-256 of a key's UTF-8 bytes, in hexadecimal: the database never
/// holds a key in clear.
pub fn hash_key(key: &str) -> (r: String)
    ensures
        r@ == hex_spec(sha256_of(vstd::utf8::encode_utf8(key@))),
        r@.len() == 64,
{
    let d = sha256(key.as_bytes());
    proof {
        lemma_hex_len(d@);
    }
    hex(&d)
}

pub proof fn lemma_hex_len(b: Seq<u8>)
    ensures
        hex_spec(b).len() == 2 * b.len(),
    decreases b.len(),
{
    if b.len() > 0 {
        lemma_hex_len(b.drop_last());
    }
}

/// The key a request carries: the `x-api-key` header, or else the token of
/// an `authorization: Bearer ...` header.
pub open spec fn api_key_spec(x_api_key: Option<Seq<char>>, authorization: Option<Seq<char>>) -> Option<Seq<char>> {
    match x_api_key {
        Some(k) => Some(k),
        None => match authorization {
            Some(a) => if has_prefix(a, "Bearer "@) {
                Some(a.subrange(7, a.len() as int))
            } else {
                None
            },
            None => None,
        },
    }
}

pub fn api_key(x_api_key: Option<String>, authorization: Option<String>) -> (r: Option<String>)
    ensures
        crate::text::opt_view(r) == api_key_spec(
            crate::text::opt_view(x_api_key),
            crate::text::opt_view(authorization),
        ),
{
    match x_api_key {
        Some(k) => Some(k),
        None => match authorization {
            Some(a) => {
                if starts_with(a.as_str(), "Bearer ") {
                    proof {
                        reveal_strlit("Bearer ");
                    }
                    let v = to_chars(a.as_str());
                    Some(string_of_range(&v, 7, v.len()))
                } else {
                    None
                }
            },
            None => None,
        },
    }
}

/// Who is asking: a role and the label of the key.
pub struct AuthCtx {
    pub role: Role,
    pub label: String,
}

/// How a request is admitted.
pub enum Admission {
    /// `/health`: no key needed.
    Open,
    /// Let in, on behalf of this key.
    Pass(AuthCtx),
    /// Refused.
    Refused(Refusal),
}

/// Lets a request in: `/health` is open; any other path needs a key whose
/// stored role is known (`stored` is the role and label found for the
/// key's hash), else `401 chiave API mancante o non valida`.
pub fn authenticate(path: &str, stored: Option<(String, String)>) -> (r: Admission)
    ensures
        path@ == "/health"@ ==> r is Open,
        path@ != "/health"@ ==> match stored {
            Some(s) => match role_of(s.0@) {
                Some(role) => r matches Admission::Pass(c) && c.role == role && c.label@ == s.1@,
                None => r matches Admission::Refused(x) && x.status == 401 && x.message@
                    == "chiave API mancante o non valida"@,
            },
            None => r matches Admission::Refused(x) && x.status == 401 && x.message@
                == "chiave API mancante o non valida"@,
        },
{
    if str_eq(path, "/health") {
        return Admission::Open;
    }
    match stored {
        Some((role, label)) => match Role::parse(role.as_str()) {
            Some(r) => Admission::Pass(AuthCtx { role: r, label }),
            None => Admission::Refused(
                Refusal { status: 401, message: owned("chiave API mancante o non valida") },
            ),
        },
        None => Admission::Refused(
            Refusal { status: 401, message: owned("chiave API mancante o non valida") },
        ),
    }
}

/// A row of the audit log: who asked, the method, the path and the status
/// of the response (the time is the server's).
pub struct AuditRow {
    pub actor: String,
    pub method: String,
    pub path: String,
    pub status: u16,
}

/// The audit of a request once answered: a request let in on behalf of a
/// key gets exactly one row (the key's label, the method, the path, the
/// response status); `/health` and a refused request get none.
pub fn audit_row(admission: &Admission, method: &str, path: &str, status: u16) -> (r: Option<AuditRow>)
    ensures
        match admission {
            Admission::Pass(c) => r matches Some(row) && row.actor@ == c.label@ && row.method@ == method@
                && row.path@ == path@ && row.status == status,
            _ => r is None,
        },
{
    match admission {
        Admission::Pass(c) => Some(
            AuditRow { actor: c.label.clone(), method: owned(method), path: owned(path), status },
        ),
        _ => None,
    }
}

/// The role of a new key: `400 ruolo non valido (viewer|editor|admin)` when
/// unknown.
pub fn new_key_role(role: &str) -> (r: Result<Role, Refusal>)
    ensures
        match role_of(role@) {
            Some(x) => r == Ok::<Role, Refusal>(x),
            None => r matches Err(x) && x.status == 400 && x.message@
                == "ruolo non valido (viewer|editor|admin)"@,
        },
{
    match Role::parse(role) {
        Some(r) => Ok(r),
        None => Err(Refusal { status: 400, message: owned("ruolo non valido (viewer|editor|admin)") }),
    }
}

/// The default format of a document request.
pub fn default_md() -> (r: String)
    ensures
        r@ == "md"@,
{
    owned("md")
}

/// The default format of a diagram request.
pub fn default_mermaid() -> (r: String)
    ensures
        r@ == "mermaid"@,
{
    owned("mermaid")
}

/// The endpoints of the server, each with the role it needs.
#[derive(Clone, Copy, Debug, PartialEq, Eq, Structural)]
pub enum Route {
    ListProjects,
    CreateProject,
    AnalyzeProject,
    GetDoc,
    GetDiagram,
    Ask,
    GetSnapshots,
    GetDiff,
    CreateKey,
}

pub open spec fn route_role_spec(r: Route) -> Role {
    match r {
        Route::CreateProject | Route::CreateKey => Role::Admin,
        Route::AnalyzeProject => Role::Editor,
        _ => Role::Viewer,
    }
}

impl Route {
    /// The least role the endpoint admits: registering projects and keys is
    /// for admins, analysing for editors, every reading for viewers.
    pub fn min_role(self) -> (r: Role)
        ensures
            r == route_role_spec(self),
    {
        match self {
            Route::CreateProject | Route::CreateKey => Role::Admin,
            Route::AnalyzeProject => Role::Editor,
            _ => Role::Viewer,
        }
    }
}

/// The document of a project in a requested format: `html`, `wiki`, and
/// Markdown for any other format.
pub open spec fn document_spec(p: crate::model::ProjectV, format: Seq<char>) -> Seq<char> {
    if format == "html"@ {
        page_spec(p.name, cmark_html_of(markdown_spec(p)))
    } else if format == "wiki"@ {
        wiki_spec(p)
    } else {
        markdown_spec(p)
    }
}

/// The document of a project in a requested format (see [`document_spec`]).
pub fn document(p: &Project, format: &str) -> (r: String)
    ensures
        r@ == document_spec(p@, format@),
{
    if str_eq(format, "html") {
        crate::docs::html::render(p)
    } else if str_eq(format, "wiki") {
        crate::docs::wiki::render(p)
    } else {
        crate::docs::markdown::render(p)
    }
}

} // verus!
