//! The hosting platform: its release records, and what a release event asks
//! of the service.

use vstd::prelude::*;
use crate::text::same_text;

verus! {

/// The slug a release was built from.
#[derive(Debug, Clone, PartialEq, Eq)]
pub struct HerokuReleaseSlug {
    pub id: String,
}

/// A release of an application.
#[derive(Debug, Clone, PartialEq, Eq)]
pub struct HerokuRelease {
    pub slug: HerokuReleaseSlug,
}

/// A slug: the commit it was built from.
#[derive(Debug, Clone, PartialEq, Eq)]
pub struct HerokuSlug {
    pub commit: String,
}

/// What can go wrong while talking to the hosting platform.
#[derive(Debug, Clone, PartialEq, Eq)]
pub enum HerokuError {
    /// The platform could not be reached, or answered with a failure status.
    HttpError(String),
}

/// What to do with a release event.
#[derive(Debug, Clone, Copy, PartialEq, Eq, Structural)]
pub enum ReleaseEventDecision {
    /// The request does not carry the service's secret.
    Unauthorized,
    /// The event is not an update of a release: nothing to do.
    Ignore,
    /// Notify for the release: the previous release tells the base revision.
    Notify { previous_version: i64 },
    /// An update of the lowest version there can be: no release precedes it.
    NoPreviousRelease,
}

/// What a release event asks of the service: it must carry the secret, only
/// updates matter, and the base revision is that of the release before.
pub open spec fn release_event_decision(
    auth_token: Seq<char>,
    secret: Seq<char>,
    action: Seq<char>,
    version: i64,
) -> ReleaseEventDecision {
    if auth_token != secret {
        ReleaseEventDecision::Unauthorized
    } else if action != "update"@ {
        ReleaseEventDecision::Ignore
    } else if version == i64::MIN {
        ReleaseEventDecision::NoPreviousRelease
    } else {
        ReleaseEventDecision::Notify { previous_version: (version - 1) as i64 }
    }
}

/// Decides what to do with a release event of version `version`.
pub fn decide_release_event(auth_token: &str, secret: &str, action: &str, version: i64) -> (r:
    ReleaseEventDecision)
    ensures
        r == release_event_decision(auth_token@, secret@, action@, version),
{
    if !same_text(auth_token, secret) {
        ReleaseEventDecision::Unauthorized
    } else if !same_text(action, "update") {
        ReleaseEventDecision::Ignore
    } else if version == i64::MIN {
        ReleaseEventDecision::NoPreviousRelease
    } else {
        ReleaseEventDecision::Notify { previous_version: version - 1 }
    }
}

/// The decimal digits of a natural number.
pub open spec fn digits_text(n: nat) -> Seq<char>
    decreases n,
{
    if n < 10 {
        seq![('0' as int + n) as char]
    } else {
        digits_text(n / 10) + seq![('0' as int + n % 10) as char]
    }
}

/// The decimal numeral of an integer, with a `-` where it is negative.
pub open spec fn decimal_text(v: int) -> Seq<char> {
    if v < 0 {
        seq!['-'] + digits_text((-v) as nat)
    } else {
        digits_text(v as nat)
    }
}

/// Relies on the `Display` of `i64` (through `ToString`): the decimal numeral,
/// with a `-` where the value is negative.
#[verifier::external_body]
fn i64_text(v: i64) -> (r: String)
    ensures
        r@ == decimal_text(v as int),
{
    v.to_string()
}

/// The label of a release: `v` and its version number.
pub fn release_label(version: i64) -> (r: String)
    ensures
        r@ == seq!['v'] + decimal_text(version as int),
{
    let mut label = String::from_str("v");
    label.append(i64_text(version).as_str());
    proof {
        reveal_strlit("v");
    }
    label
}

} // verus!
