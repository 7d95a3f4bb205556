//! How requests to providers are authorized.
use vstd::prelude::*;

use crate::text;

verus! {

/// What kind of secret a provider is asked with.
#[derive(Debug, Clone, Copy, PartialEq, Eq, Structural)]
pub enum ProviderAuthKind {
    ApiKey,
    BearerToken,
    SessionToken,
    Unknown,
}

/// A `secrecy::SecretString`: a text that is not shown when it is printed for debugging,
/// and that is wiped when it is dropped.
#[verifier::external_body]
pub struct Secret {
    inner: secrecy::SecretString,
}

/// The text that a secret holds.
pub uninterp spec fn secret_text(secret: Secret) -> Seq<char>;

/// `secrecy::ExposeSecret::expose_secret`: the text that a secret holds.
#[verifier::external_body]
fn secret_str(secret: &Secret) -> (r: &str)
    ensures
        r@ == secret_text(*secret),
{
    secrecy::ExposeSecret::expose_secret(&secret.inner)
}

/// The conversion of a `String` into a `secrecy::SecretString`, which keeps the text.
#[verifier::external_body]
fn secret_of(s: String) -> (r: Secret)
    ensures
        secret_text(r) == s@,
{
    Secret { inner: secrecy::SecretString::from(s) }
}

/// What a provider is asked with.
pub struct ProviderAuth {
    kind: ProviderAuthKind,
    secret: Secret,
}

/// The content of a `ProviderAuth`.
pub struct AuthView {
    pub kind: ProviderAuthKind,
    pub secret: Seq<char>,
}

impl View for ProviderAuth {
    type V = AuthView;

    closed spec fn view(&self) -> AuthView {
        AuthView { kind: self.kind, secret: secret_text(self.secret) }
    }
}

pub open spec fn kind_name(kind: ProviderAuthKind) -> Seq<char> {
    match kind {
        ProviderAuthKind::ApiKey => "ApiKey"@,
        ProviderAuthKind::BearerToken => "BearerToken"@,
        ProviderAuthKind::SessionToken => "SessionToken"@,
        ProviderAuthKind::Unknown => "Unknown"@,
    }
}

/// How authorizations of a kind are shown for debugging: without the secret.
pub open spec fn shown_auth(kind: ProviderAuthKind) -> Seq<char> {
    "ProviderAuth { kind: "@ + kind_name(kind) + ", secret: \"<redacted>\" }"@
}

impl ProviderAuth {
    /// The authorization with the text as its secret.
    pub fn new(kind: ProviderAuthKind, secret: String) -> (r: ProviderAuth)
        ensures
            r@ == (AuthView { kind, secret: secret@ }),
    {
        ProviderAuth { kind, secret: secret_of(secret) }
    }

    pub fn kind(&self) -> (r: ProviderAuthKind)
        ensures
            r == self@.kind,
    {
        self.kind
    }

    pub fn expose_secret(&self) -> (r: &str)
        ensures
            r@ == self@.secret,
    {
        secret_str(&self.secret)
    }

    /// How the authorization is shown for debugging: without its secret.
    pub fn debug_text(&self) -> (r: String)
        ensures
            r@ == shown_auth(self@.kind),
    {
        let name = match self.kind {
            ProviderAuthKind::ApiKey => "ApiKey",
            ProviderAuthKind::BearerToken => "BearerToken",
            ProviderAuthKind::SessionToken => "SessionToken",
            ProviderAuthKind::Unknown => "Unknown",
        };
        text::cat3("ProviderAuth { kind: ", name, ", secret: \"<redacted>\" }")
    }
}

// ---------------------------------------------------------------------------
// Headers
// ---------------------------------------------------------------------------

/// `http::HeaderValue`, as `reqwest` gives it out.
#[verifier::external_type_specification]
#[verifier::external_body]
pub struct ExHeaderValue(reqwest::header::HeaderValue);

/// The text of a header's value.
pub uninterp spec fn header_text(value: reqwest::header::HeaderValue) -> Seq<char>;

/// Whether a header's value is marked as one that is not to be shown
/// (`HeaderValue::is_sensitive`).
pub uninterp spec fn header_hidden(value: reqwest::header::HeaderValue) -> bool;

/// Whether a character may stand in a header's value.
pub open spec fn header_char(c: char) -> bool {
    (c as u32 >= 32 && c as u32 != 127) || c == '\t'
}

pub open spec fn header_chars(s: Seq<char>) -> bool {
    forall|i: int| 0 <= i < s.len() ==> header_char(#[trigger] s[i])
}

/// `HeaderValue::from_str` and `HeaderValue::set_sensitive`: the value of a header with
/// the given text, marked as not to be shown. There is one if the text holds no control characters
/// but tabs.
#[verifier::external_body]
fn sensitive_value(s: &str) -> (r: Option<reqwest::header::HeaderValue>)
    ensures
        match r {
            Some(v) => header_chars(s@) && header_text(v) == s@ && header_hidden(v),
            None => !header_chars(s@),
        },
{
    let mut value = reqwest::header::HeaderValue::from_str(s).ok()?;
    value.set_sensitive(true);
    Some(value)
}

/// The value of the header that authorizes a request, with the word that tells the scheme,
/// marked as not to be shown; nothing if the secret cannot stand in a header.
pub fn authorization(scheme: &str, secret: &str) -> (r: Option<reqwest::header::HeaderValue>)
    ensures
        match r {
            Some(v) => header_chars(scheme@ + " "@ + secret@) && header_text(v) == scheme@ + " "@
                + secret@ && header_hidden(v),
            None => !header_chars(scheme@ + " "@ + secret@),
        },
{
    let s = text::cat3(scheme, " ", secret);
    sensitive_value(s.as_str())
}

/// The header with which a provider is asked that takes bearer tokens.
pub fn bearer_header(auth: &ProviderAuth) -> (r: Option<reqwest::header::HeaderValue>)
    ensures
        match r {
            Some(v) => header_chars("Bearer"@ + " "@ + auth@.secret) && header_text(v) == "Bearer"@
                + " "@ + auth@.secret && header_hidden(v),
            None => !header_chars("Bearer"@ + " "@ + auth@.secret),
        },
{
    authorization("Bearer", auth.expose_secret())
}

/// Of a credential only its kind is shown, under its name.
pub proof fn the_secret_is_not_shown(kind: ProviderAuthKind)
    ensures
        shown_auth(kind) == "ProviderAuth { kind: "@ + (match kind {
            ProviderAuthKind::ApiKey => "ApiKey"@,
            ProviderAuthKind::BearerToken => "BearerToken"@,
            ProviderAuthKind::SessionToken => "SessionToken"@,
            ProviderAuthKind::Unknown => "Unknown"@,
        }) + ", secret: \"<redacted>\" }"@,
{
}

/// A text fits in a header exactly if each of its pieces does, and a single character does
/// exactly if it is a tab or visible.
pub proof fn headers_hold_visible_characters(a: Seq<char>, b: Seq<char>, c: char)
    ensures
        header_chars(a + b) <==> header_chars(a) && header_chars(b),
        header_chars(seq![c]) <==> c == '\t' || (' ' <= c && c != '\u{7f}'),
{
    if header_chars(a + b) {
        assert forall|i: int| 0 <= i < a.len() implies header_char(#[trigger] a[i]) by {
            assert((a + b)[i] == a[i]);
        }
        assert forall|i: int| 0 <= i < b.len() implies header_char(#[trigger] b[i]) by {
            assert((a + b)[a.len() + i] == b[i]);
        }
    }
    assert(seq![c][0] == c);
}

} // verus!
