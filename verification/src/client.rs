//! How the client of the issue tracker is configured, and what it sends:
//! the header that says who asks, and the paths that it asks for.

use crate::text::{decimal, push_decimal};
use crate::types::IssueKey;
use base64::Engine;
use vstd::prelude::*;
use vstd::string::StringExecFns;

verus! {

/// How the client proves who it is.
#[derive(Debug, Clone)]
pub enum Credential {
    /// No proof: the request carries no `Authorization` header.
    Anonymous,
    /// A login and a token: `Authorization: Basic`, with both in base64.
    ApiToken { login: String, token: String },
    /// A personal access token: `Authorization: Bearer`, with the token.
    PersonalAccessToken(String),
}

/// What the client needs when it is made.
#[derive(Debug, Clone)]
pub struct JiraClientConfig {
    pub credential: Credential,
    pub max_query_results: u32,
    pub url: String,
    pub timeout: u64,
    pub tls_accept_invalid_certs: bool,
}

/// What `encode` of the engine `STANDARD_NO_PAD` returns for the bytes of
/// `text` in UTF-8: their base64 form in the standard alphabet, without
/// padding.
pub uninterp spec fn base64_no_pad(text: Seq<char>) -> Seq<char>;

/// `Engine::encode` on `base64::engine::general_purpose::STANDARD_NO_PAD`.
/// The call fails only where the length of the result does not fit in a
/// `usize`, which needs an input of more than half of what a `usize` holds,
/// and no string is that long.
#[verifier::external_body]
fn encode_base64(text: &str) -> (r: String)
    ensures
        r@ == base64_no_pad(text@),
{
    base64::engine::general_purpose::STANDARD_NO_PAD.encode(text)
}

/// The value of the `Authorization` header for a login and a token whose
/// base64 form is `encoded`.
pub fn basic_authorization(encoded: &str) -> (r: String)
    ensures
        r@ == "Basic "@ + encoded@,
{
    let mut value = "Basic ".to_owned();
    value.append(encoded);
    value
}

impl Credential {
    /// The value of the `Authorization` header, if a header is sent.
    pub open spec fn authorization_text(&self) -> Option<Seq<char>> {
        match self {
            Credential::Anonymous => None,
            Credential::ApiToken { login, token } => Some(
                "Basic "@ + base64_no_pad(login@ + ":"@ + token@),
            ),
            Credential::PersonalAccessToken(token) => Some("Bearer "@ + token@),
        }
    }

    /// The value of the `Authorization` header: none for an anonymous
    /// client; `Basic` and the base64 form of login, colon and token; or
    /// `Bearer` and the personal access token.
    pub fn authorization(&self) -> (r: Option<String>)
        ensures
            match r {
                Some(value) => self.authorization_text() == Some(value@),
                None => self.authorization_text() is None,
            },
    {
        match self {
            Credential::Anonymous => None,
            Credential::ApiToken { login, token } => {
                let mut pair = login.clone();
                pair.append(":");
                pair.append(token.as_str());
                Some(basic_authorization(encode_base64(pair.as_str()).as_str()))
            },
            Credential::PersonalAccessToken(token) => {
                let mut value = "Bearer ".to_owned();
                value.append(token.as_str());
                Some(value)
            },
        }
    }
}

/// The path of a resource of an issue, such as its comments.
pub fn issue_path(issue_key: &IssueKey, resource: &str) -> (r: String)
    ensures
        r@ == "/rest/api/latest/issue/"@ + issue_key@ + "/"@ + resource@,
{
    let mut path = "/rest/api/latest/issue/".to_owned();
    path.append(issue_key.0.as_str());
    path.append("/");
    path.append(resource);
    path
}

/// The path under which a browser shows an issue.
pub fn browse_path(issue_key: &IssueKey) -> (r: String)
    ensures
        r@ == "/browse/"@ + issue_key@,
{
    let mut path = "/browse/".to_owned();
    path.append(issue_key.0.as_str());
    path
}

/// The query of a search for filters: with their queries expanded, the most
/// results, and the name of the filter where one is given.
pub fn filter_search_query(max_results: u32, filter: Option<String>) -> (r: String)
    ensures
        r@ == "expand=jql&maxResults="@ + decimal(max_results as nat) + (match filter {
            Some(name) => "&filterName="@ + name@,
            None => Seq::empty(),
        }),
{
    let mut query = "expand=jql&maxResults=".to_owned();
    push_decimal(&mut query, max_results as u64);
    let ghost before = query@;
    match &filter {
        Some(name) => {
            query.append("&filterName=");
            query.append(name.as_str());
            assert(query@ =~= before + ("&filterName="@ + name@));
        },
        None => {
            assert(query@ =~= before + Seq::<char>::empty());
        },
    }
    query
}

} // verus!
