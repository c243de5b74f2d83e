//! The source-control host: the records of a commit comparison, the claims of
//! the application's signed assertion, and the checks on the host's replies.

use vstd::prelude::*;
use crate::{failure_status, is_failure_status, Reply};

verus! {

/// The account that authored a commit.
#[derive(Debug, Clone, PartialEq, Eq)]
pub struct Actor {
    pub login: String,
    pub id: i64,
    pub html_url: String,
    pub avatar_url: String,
}

/// Author metadata of a commit: its RFC 3339 date.
#[derive(Debug, Clone, PartialEq, Eq)]
pub struct CommitAuthor {
    pub date: String,
}

/// The git commit inside a comparison entry.
#[derive(Debug, Clone, PartialEq, Eq)]
pub struct Commit {
    pub message: String,
    pub url: String,
    pub author: CommitAuthor,
}

/// One commit of a comparison, with the account that authored it.
#[derive(Debug, Clone, PartialEq, Eq)]
pub struct CommitNode {
    pub sha: String,
    pub commit: Commit,
    pub author: Actor,
    pub html_url: String,
}

/// The commits between two revisions, in the host's order.
#[derive(Debug, Clone, PartialEq, Eq)]
pub struct CommitComparison {
    pub url: String,
    pub html_url: String,
    pub permalink_url: String,
    pub commits: Vec<CommitNode>,
}

/// What can go wrong while talking to the source-control host.
#[derive(Debug, Clone, PartialEq, Eq)]
pub enum GitHubError {
    /// The private key could not be read or the assertion could not be signed.
    JsonWebTokenCreation(String),
    /// The host could not be reached (connection, name lookup, timeout).
    Transport(String),
    /// The host answered the token exchange with a failure status.
    AccessToken { status: u16, body: String },
    /// The host answered the comparison with a failure status.
    Compare { status: u16, body: String },
    /// A successful reply whose body is not the expected document.
    Decode(String),
}

/// How long a signed assertion stays valid, in seconds.
pub const ASSERTION_LIFETIME_SECS: u64 = 600;

/// The claims of the application's signed assertion.
#[derive(Debug, Clone, PartialEq, Eq)]
pub struct Claim {
    /// Issued at, in Unix seconds.
    pub iat: u64,
    /// Expires at, in Unix seconds.
    pub exp: u64,
    /// The application that issues it.
    pub iss: String,
}

/// The claims of an assertion issued by `app_identifier` at `now` (Unix
/// seconds): valid from `now` for `ASSERTION_LIFETIME_SECS`.
pub fn jwt_claims(app_identifier: &str, now: u64) -> (r: Claim)
    requires
        now <= u64::MAX - ASSERTION_LIFETIME_SECS,
    ensures
        r.iat == now,
        r.exp == now + ASSERTION_LIFETIME_SECS,
        r.iss@ == app_identifier@,
{
    Claim { iat: now, exp: now + ASSERTION_LIFETIME_SECS, iss: String::from_str(app_identifier) }
}

/// The RS256-signed token (a JWT) of the claims `iat`, `exp` and `iss`, under
/// an RSA private key given in PEM.
pub uninterp spec fn rs256_jwt(private_key: Seq<char>, iat: u64, exp: u64, iss: Seq<char>) -> Seq<
    char,
>;

/// Relies on jsonwebtoken's `EncodingKey::from_rsa_pem` and `encode` with an
/// RS256 header: the claims are signed under the key (RSA PKCS#1 v1.5, which
/// gives one signature for one input); an error where the key cannot be read
/// or signing fails.
#[verifier::external_body]
pub fn sign_claims(private_key: &str, claims: &Claim) -> (r: Result<String, String>)
    ensures
        r matches Ok(t) ==> t@ == rs256_jwt(private_key@, claims.iat, claims.exp, claims.iss@),
{
    let key = match jsonwebtoken::EncodingKey::from_rsa_pem(private_key.as_bytes()) {
        Ok(k) => k,
        Err(e) => return Err(e.to_string()),
    };
    let mut map = serde_json::Map::new();
    map.insert("iat".to_string(), serde_json::Value::from(claims.iat));
    map.insert("exp".to_string(), serde_json::Value::from(claims.exp));
    map.insert("iss".to_string(), serde_json::Value::from(claims.iss.clone()));
    let header = jsonwebtoken::Header::new(jsonwebtoken::Algorithm::RS256);
    jsonwebtoken::encode(&header, &map, &key).map_err(|e| e.to_string())
}

/// Signs an assertion that the application `app_identifier` issues at `now`
/// (Unix seconds), valid for `ASSERTION_LIFETIME_SECS`, with the application's
/// private key.
pub fn generate_jwt(private_key: &str, app_identifier: &str, now: u64) -> (r: Result<
    String,
    GitHubError,
>)
    requires
        now <= u64::MAX - ASSERTION_LIFETIME_SECS,
    ensures
        r matches Ok(t) ==> t@ == rs256_jwt(
            private_key@,
            now,
            (now + ASSERTION_LIFETIME_SECS) as u64,
            app_identifier@,
        ),
        r matches Err(e) ==> e is JsonWebTokenCreation,
{
    let claims = jwt_claims(app_identifier, now);
    match sign_claims(private_key, &claims) {
        Ok(t) => Ok(t),
        Err(m) => Err(GitHubError::JsonWebTokenCreation(m)),
    }
}

/// What a comparison is asked for with.
pub struct Compare<'a> {
    pub private_key: &'a str,
    pub app_id: &'a str,
    pub install_id: &'a str,
    pub org: &'a str,
    pub repo: &'a str,
    pub base: &'a str,
    pub head: &'a str,
}

/// The endpoint that exchanges an assertion for an installation's token.
pub open spec fn access_token_endpoint(install_id: Seq<char>) -> Seq<char> {
    "https://api.github.com/app/installations/"@ + install_id + "/access_tokens"@
}

/// The endpoint that compares two revisions of a repository.
pub open spec fn compare_endpoint(
    org: Seq<char>,
    repo: Seq<char>,
    base: Seq<char>,
    head: Seq<char>,
) -> Seq<char> {
    "https://api.github.com/repos/"@ + org + "/"@ + repo + "/compare/"@ + base + "..."@ + head
}

/// The endpoint that exchanges an assertion for an installation's token.
pub fn access_token_url(install_id: &str) -> (r: String)
    ensures
        r@ == access_token_endpoint(install_id@),
{
    let mut url = String::from_str("https://api.github.com/app/installations/");
    url.append(install_id);
    url.append("/access_tokens");
    url
}

/// The endpoint that compares the two revisions of a request.
pub fn compare_url(params: &Compare) -> (r: String)
    ensures
        r@ == compare_endpoint(params.org@, params.repo@, params.base@, params.head@),
{
    let mut url = String::from_str("https://api.github.com/repos/");
    url.append(params.org);
    url.append("/");
    url.append(params.repo);
    url.append("/compare/");
    url.append(params.base);
    url.append("...");
    url.append(params.head);
    url
}

/// An installation access token.
#[derive(Debug, Clone, PartialEq, Eq)]
pub struct AccessToken {
    pub token: String,
    pub expires_at: String,
    pub repository_selection: String,
}

/// What a reply to the token exchange amounts to.
pub open spec fn access_token_outcome(reply: Reply<AccessToken>) -> Result<AccessToken, GitHubError> {
    match reply {
        Reply::Unreachable(m) => Err(GitHubError::Transport(m)),
        Reply::Answered { status, body, document } => {
            if failure_status(status) {
                Err(GitHubError::AccessToken { status, body })
            } else {
                match document {
                    Some(t) => Ok(t),
                    None => Err(GitHubError::Decode(body)),
                }
            }
        },
    }
}

/// What a reply to a comparison request amounts to.
pub open spec fn comparison_outcome(reply: Reply<CommitComparison>) -> Result<
    CommitComparison,
    GitHubError,
> {
    match reply {
        Reply::Unreachable(m) => Err(GitHubError::Transport(m)),
        Reply::Answered { status, body, document } => {
            if failure_status(status) {
                Err(GitHubError::Compare { status, body })
            } else {
                match document {
                    Some(c) => Ok(c),
                    None => Err(GitHubError::Decode(body)),
                }
            }
        },
    }
}

/// Reads the reply to the token exchange: the token, or why there is none.
pub fn access_token_from_reply(reply: Reply<AccessToken>) -> (r: Result<AccessToken, GitHubError>)
    ensures
        r == access_token_outcome(reply),
{
    match reply {
        Reply::Unreachable(m) => Err(GitHubError::Transport(m)),
        Reply::Answered { status, body, document } => {
            if is_failure_status(status) {
                Err(GitHubError::AccessToken { status, body })
            } else {
                match document {
                    Some(t) => Ok(t),
                    None => Err(GitHubError::Decode(body)),
                }
            }
        },
    }
}

/// Reads the reply to a comparison request: the comparison, or why there is
/// none.
pub fn comparison_from_reply(reply: Reply<CommitComparison>) -> (r: Result<
    CommitComparison,
    GitHubError,
>)
    ensures
        r == comparison_outcome(reply),
{
    match reply {
        Reply::Unreachable(m) => Err(GitHubError::Transport(m)),
        Reply::Answered { status, body, document } => {
            if is_failure_status(status) {
                Err(GitHubError::Compare { status, body })
            } else {
                match document {
                    Some(c) => Ok(c),
                    None => Err(GitHubError::Decode(body)),
                }
            }
        },
    }
}

} // verus!
