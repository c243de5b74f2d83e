//! Configuration: the values a deployment is configured with, read from text.

use vstd::prelude::*;
use std::collections::HashMap;
use crate::text::same_text;

verus! {

broadcast use vstd::std_specs::hash::group_hash_axioms;

/// A numeric account identity on the source-control host.
pub type GitHubUserId = i64;

/// A recipient identity on the messaging platform.
pub type SlackUserId = String;

/// Whether a character is an ASCII decimal digit.
pub open spec fn is_digit(c: char) -> bool {
    '0' <= c <= '9'
}

/// Whether `s` is a non-empty run of decimal digits.
pub open spec fn all_digits(s: Seq<char>) -> bool {
    s.len() > 0 && forall|i: int| 0 <= i < s.len() ==> is_digit(#[trigger] s[i])
}

/// The value of a run of decimal digits.
pub open spec fn digits_value(s: Seq<char>) -> int
    decreases s.len(),
{
    if s.len() == 0 {
        0
    } else {
        digits_value(s.drop_last()) * 10 + (s.last() as int - '0' as int)
    }
}

/// The value of a decimal numeral with an optional `+` or `-` sign.
pub open spec fn signed_decimal(s: Seq<char>) -> Option<int> {
    if s.len() > 0 && s[0] == '-' && all_digits(s.drop_first()) {
        Some(-digits_value(s.drop_first()))
    } else if s.len() > 0 && s[0] == '+' && all_digits(s.drop_first()) {
        Some(digits_value(s.drop_first()))
    } else if all_digits(s) {
        Some(digits_value(s))
    } else {
        None
    }
}

/// The value of a decimal numeral with an optional `+` sign.
pub open spec fn unsigned_decimal(s: Seq<char>) -> Option<int> {
    if s.len() > 0 && s[0] == '+' && all_digits(s.drop_first()) {
        Some(digits_value(s.drop_first()))
    } else if all_digits(s) {
        Some(digits_value(s))
    } else {
        None
    }
}

/// Relies on `<i64 as FromStr>::from_str`: an optional sign followed by
/// decimal digits only, whose value fits.
#[verifier::external_body]
fn parse_i64(s: &str) -> (r: Option<i64>)
    ensures
        r is Some <==> (signed_decimal(s@) matches Some(v) && i64::MIN <= v <= i64::MAX),
        r matches Some(v) ==> v == signed_decimal(s@)->0,
{
    s.parse::<i64>().ok()
}

/// Relies on `<u16 as FromStr>::from_str`: an optional `+` followed by decimal
/// digits only, whose value fits.
#[verifier::external_body]
fn parse_u16(s: &str) -> (r: Option<u16>)
    ensures
        r is Some <==> (unsigned_decimal(s@) matches Some(v) && v <= u16::MAX),
        r matches Some(v) ==> v == unsigned_decimal(s@)->0,
{
    s.parse::<u16>().ok()
}

/// Whether a character has Unicode's White_Space property.
pub open spec fn white_space(c: char) -> bool {
    ||| '\u{9}' <= c <= '\u{d}'
    ||| c == ' '
    ||| c == '\u{85}'
    ||| c == '\u{a0}'
    ||| c == '\u{1680}'
    ||| '\u{2000}' <= c <= '\u{200a}'
    ||| c == '\u{2028}'
    ||| c == '\u{2029}'
    ||| c == '\u{202f}'
    ||| c == '\u{205f}'
    ||| c == '\u{3000}'
}

/// Whether a character has Unicode's White_Space property.
pub fn is_white_space(c: char) -> (r: bool)
    ensures
        r == white_space(c),
{
    ('\u{9}' <= c && c <= '\u{d}') || c == ' ' || c == '\u{85}' || c == '\u{a0}' || c
        == '\u{1680}' || ('\u{2000}' <= c && c <= '\u{200a}') || c == '\u{2028}' || c
        == '\u{2029}' || c == '\u{202f}' || c == '\u{205f}' || c == '\u{3000}'
}

/// Scanning text for words: the words completed so far, and the word being read.
pub open spec fn scan_words(s: Seq<char>) -> (Seq<Seq<char>>, Seq<char>)
    decreases s.len(),
{
    if s.len() == 0 {
        (Seq::empty(), Seq::empty())
    } else {
        let (done, word) = scan_words(s.drop_last());
        if !white_space(s.last()) {
            (done, word.push(s.last()))
        } else if word.len() > 0 {
            (done.push(word), Seq::empty())
        } else {
            (done, word)
        }
    }
}

/// The maximal runs of characters without white space, in order.
pub open spec fn words(s: Seq<char>) -> Seq<Seq<char>> {
    let (done, word) = scan_words(s);
    if word.len() > 0 {
        done.push(word)
    } else {
        done
    }
}

/// Splits text at white space, dropping empty words.
pub fn split_words(s: &str) -> (r: Vec<String>)
    ensures
        r@.map_values(|w: String| w@) == words(s@),
{
    let n = s.unicode_len();
    let mut done: Vec<String> = Vec::new();
    let mut word = String::new();
    let mut i: usize = 0;
    while i < n
        invariant
            n == s@.len(),
            i <= n,
            (done@.map_values(|w: String| w@), word@) == scan_words(s@.take(i as int)),
        decreases n - i,
    {
        let c = s.get_char(i);
        let ghost before = done@;
        proof {
            assert(s@.take(i + 1).drop_last() == s@.take(i as int));
        }
        if !is_white_space(c) {
            crate::text::push_char(&mut word, c);
        } else if !word.as_str().is_empty() {
            let ghost w = word@;
            done.push(word);
            word = String::new();
            proof {
                assert(done@.map_values(|w: String| w@) =~= before.map_values(|w: String| w@).push(w));
            }
        }
        i = i + 1;
    }
    proof {
        assert(s@.take(n as int) == s@);
    }
    if !word.as_str().is_empty() {
        let ghost before = done@;
        let ghost w = word@;
        done.push(word);
        proof {
            assert(done@.map_values(|w: String| w@) =~= before.map_values(|w: String| w@).push(w));
        }
    }
    done
}

/// Why a list of identity mappings could not be read.
#[derive(Debug, Clone, PartialEq, Eq)]
pub enum ParseGithubSlackIdError {
    /// A mapping without `=`; holds the whole list.
    MissingEquals(String),
    /// A mapping whose key is not a numeric identity; holds the key.
    GitHubIdParseErr(String),
}

impl ParseGithubSlackIdError {
    /// The sentence that describes the error.
    pub open spec fn message_of(&self) -> Seq<char> {
        match self {
            ParseGithubSlackIdError::MissingEquals(s) => "invalid KEY=value: no `=` found in `"@
                + s@ + "`"@,
            ParseGithubSlackIdError::GitHubIdParseErr(s) => "could not parse GitHub ID from `"@
                + s@ + "`"@,
        }
    }

    /// The sentence that describes the error.
    pub fn message(&self) -> (r: String)
        ensures
            r@ == self.message_of(),
    {
        let (mut out, s) = match self {
            ParseGithubSlackIdError::MissingEquals(s) => (
                String::from_str("invalid KEY=value: no `=` found in `"),
                s,
            ),
            ParseGithubSlackIdError::GitHubIdParseErr(s) => (
                String::from_str("could not parse GitHub ID from `"),
                s,
            ),
        };
        out.append(s.as_str());
        out.append("`");
        out
    }
}

/// Where the first `=` of a mapping stands, if it holds one.
pub open spec fn equals_at(t: Seq<char>) -> Option<int>
    decreases t.len(),
{
    if t.len() == 0 {
        None
    } else if t[0] == '=' {
        Some(0)
    } else {
        match equals_at(t.drop_first()) {
            Some(p) => Some(p + 1),
            None => None,
        }
    }
}

/// What reading a list of mappings amounts to.
pub enum MappingsParse {
    Users(Map<i64, Seq<char>>),
    MissingEquals,
    BadId(Seq<char>),
}

/// Reads mappings `key=value` in order: each key a numeric identity, each value
/// a recipient; a later mapping of a key replaces an earlier one. The first
/// mapping that cannot be read decides the error.
pub open spec fn parse_mappings(ws: Seq<Seq<char>>) -> MappingsParse
    decreases ws.len(),
{
    if ws.len() == 0 {
        MappingsParse::Users(Map::empty())
    } else {
        match parse_mappings(ws.drop_last()) {
            MappingsParse::Users(m) => {
                let t = ws.last();
                match equals_at(t) {
                    None => MappingsParse::MissingEquals,
                    Some(p) => match signed_decimal(t.take(p)) {
                        Some(v) => if i64::MIN <= v <= i64::MAX {
                            MappingsParse::Users(m.insert(v as i64, t.skip(p + 1)))
                        } else {
                            MappingsParse::BadId(t.take(p))
                        },
                        None => MappingsParse::BadId(t.take(p)),
                    },
                }
            },
            e => e,
        }
    }
}

proof fn lemma_equals_at(t: Seq<char>, i: int)
    requires
        0 <= i <= t.len(),
        forall|j: int| 0 <= j < i ==> t[j] != '=',
    ensures
        i < t.len() && t[i] == '=' ==> equals_at(t) == Some(i),
        i == t.len() ==> equals_at(t) is None,
    decreases i,
{
    if i > 0 {
        lemma_equals_at(t.drop_first(), i - 1);
    }
}

proof fn lemma_parse_error_sticks(ws: Seq<Seq<char>>, k: int)
    requires
        0 <= k <= ws.len(),
        !(parse_mappings(ws.take(k)) is Users),
    ensures
        parse_mappings(ws) == parse_mappings(ws.take(k)),
    decreases ws.len() - k,
{
    if k < ws.len() {
        assert(ws.take(k + 1).drop_last() == ws.take(k));
        lemma_parse_error_sticks(ws, k + 1);
    } else {
        assert(ws.take(k) == ws);
    }
}

/// Where the first `=` of a text stands, if it holds one.
fn find_equals(t: &str) -> (r: Option<usize>)
    ensures
        match equals_at(t@) {
            Some(p) => r == Some(p as usize),
            None => r is None,
        },
        r matches Some(p) ==> p < t@.len() && equals_at(t@) == Some(p as int),
{
    let n = t.unicode_len();
    let mut i: usize = 0;
    while i < n && t.get_char(i) != '='
        invariant
            n == t@.len(),
            i <= n,
            forall|j: int| 0 <= j < i ==> t@[j] != '=',
        decreases n - i,
    {
        i = i + 1;
    }
    proof {
        lemma_equals_at(t@, i as int);
    }
    if i < n {
        Some(i)
    } else {
        None
    }
}

/// The values of a map of recipients.
pub open spec fn users_view(m: Map<i64, String>) -> Map<i64, Seq<char>> {
    m.map_values(|v: String| v@)
}

/// Whether `r` is what reading the list of mappings `s` gives.
pub open spec fn reads_mappings(
    r: Result<HashMap<GitHubUserId, SlackUserId>, ParseGithubSlackIdError>,
    s: Seq<char>,
) -> bool {
    match parse_mappings(words(s)) {
        MappingsParse::Users(m) => r matches Ok(users) && users_view(users@) == m,
        MappingsParse::MissingEquals => r matches Err(ParseGithubSlackIdError::MissingEquals(w))
            && w@ == s,
        MappingsParse::BadId(k) => r matches Err(ParseGithubSlackIdError::GitHubIdParseErr(w))
            && w@ == k,
    }
}

/// Reads a white-space separated list of mappings `github_id=slack_id` into a
/// map from identity to recipient.
pub fn parse_github_id_slack_id_many(s: &str) -> (r: Result<
    HashMap<GitHubUserId, SlackUserId>,
    ParseGithubSlackIdError,
>)
    ensures
        reads_mappings(r, s@),
{
    let mappings = split_words(s);
    let ghost ws = mappings@.map_values(|w: String| w@);
    let mut users: HashMap<GitHubUserId, SlackUserId> = HashMap::new();
    proof {
        assert(ws.take(0) =~= Seq::<Seq<char>>::empty());
        assert(users_view(users@) =~= Map::<i64, Seq<char>>::empty());
    }
    let n = mappings.len();
    let mut i: usize = 0;
    while i < n
        invariant
            n == mappings@.len(),
            ws == mappings@.map_values(|w: String| w@),
            ws == words(s@),
            i <= n,
            parse_mappings(ws.take(i as int)) == MappingsParse::Users(users_view(users@)),
        decreases n - i,
    {
        let mapping = mappings[i].as_str();
        proof {
            assert(ws.take(i + 1).drop_last() == ws.take(i as int));
            assert(ws.take(i + 1).last() == mapping@);
        }
        let pos = match find_equals(mapping) {
            Some(p) => p,
            None => {
                proof {
                    lemma_parse_error_sticks(ws, i + 1);
                }
                return Err(ParseGithubSlackIdError::MissingEquals(String::from_str(s)));
            },
        };
        let key = mapping.substring_char(0, pos);
        assert(key@ == mapping@.take(pos as int));
        let id = match parse_i64(key) {
            Some(id) => id,
            None => {
                proof {
                    lemma_parse_error_sticks(ws, i + 1);
                }
                return Err(ParseGithubSlackIdError::GitHubIdParseErr(String::from_str(key)));
            },
        };
        let len = mapping.unicode_len();
        let slack_id = String::from_str(mapping.substring_char(pos + 1, len));
        assert(slack_id@ == mapping@.skip(pos + 1));
        let ghost before = users@;
        users.insert(id, slack_id);
        proof {
            assert(users_view(users@) =~= users_view(before).insert(id, slack_id@));
        }
        i = i + 1;
    }
    proof {
        assert(ws.take(n as int) == ws);
    }
    Ok(users)
}

/// The value of a boolean flag: `true` or `1`, `false`, `0` or nothing.
pub open spec fn flag_value(s: Seq<char>) -> Option<bool> {
    if s == "true"@ || s == "1"@ {
        Some(true)
    } else if s == "false"@ || s == "0"@ || s == ""@ {
        Some(false)
    } else {
        None
    }
}

/// Reads a boolean flag: `true` or `1`, `false`, `0` or nothing.
pub fn true_or_false(s: &str) -> (r: Result<bool, &'static str>)
    ensures
        match flag_value(s@) {
            Some(b) => r == Ok::<bool, &'static str>(b),
            None => r matches Err(m) && m@ == "expected `true`, `1`, `false` or `0`"@,
        },
{
    if same_text(s, "true") || same_text(s, "1") {
        Ok(true)
    } else if same_text(s, "false") || same_text(s, "0") || same_text(s, "") {
        Ok(false)
    } else {
        Err("expected `true`, `1`, `false` or `0`")
    }
}

/// The configuration of the service.
#[derive(Debug, Clone, PartialEq, Eq)]
pub struct Opt {
    /// A secret token for authenticating requests.
    pub secret: String,
    /// The application's identifier on the source-control host.
    pub github_app_id: String,
    /// The application's private key (PEM).
    pub github_app_private_key: String,
    /// The installation of the application.
    pub github_app_install_id: String,
    /// The hosting platform's API token.
    pub heroku_token: String,
    /// The messaging platform's bearer token.
    pub slack_oauth_token: String,
    /// Identity to recipient mappings.
    pub github_slack_user_ids: HashMap<GitHubUserId, SlackUserId>,
    /// Whether the server runs in development mode.
    pub debug: bool,
    /// The port the server listens on.
    pub port: u16,
}

/// The configuration as text, as given on the command line or in the
/// environment; `None` where a value with a default was not given.
pub struct OptArgs {
    pub secret: String,
    pub github_app_id: String,
    pub github_app_private_key: String,
    pub github_app_install_id: String,
    pub heroku_token: String,
    pub slack_oauth_token: String,
    pub github_slack_user_ids: String,
    pub debug: Option<String>,
    pub port: Option<String>,
}

/// Why a configuration could not be read.
#[derive(Debug, Clone, PartialEq, Eq)]
pub enum ArgsError {
    /// The identity mappings could not be read.
    GithubSlackUserIds(ParseGithubSlackIdError),
    /// The debug flag is not a boolean; holds the text.
    Debug(String),
    /// The port is not a number from 0 to 65535; holds the text.
    Port(String),
}

/// The port used where none is given.
pub const DEFAULT_PORT: u16 = 8000;

/// The text of the debug flag, `false` where none is given.
pub open spec fn debug_text(a: OptArgs) -> Seq<char> {
    match a.debug {
        Some(t) => t@,
        None => "false"@,
    }
}

/// The port, where its text is one.
pub open spec fn port_value(a: OptArgs) -> Option<u16> {
    match a.port {
        Some(t) => match unsigned_decimal(t@) {
            Some(v) => if v <= u16::MAX {
                Some(v as u16)
            } else {
                None
            },
            None => None,
        },
        None => Some(DEFAULT_PORT),
    }
}

/// Reads the configuration: the identity mappings, then the debug flag, then
/// the port; the first value that cannot be read decides the error.
pub fn parse_args(args: OptArgs) -> (r: Result<Opt, ArgsError>)
    ensures
        !(parse_mappings(words(args.github_slack_user_ids@)) is Users) ==> (r matches Err(
            ArgsError::GithubSlackUserIds(e),
        ) && reads_mappings(Err(e), args.github_slack_user_ids@)),
        parse_mappings(words(args.github_slack_user_ids@)) is Users && flag_value(
            debug_text(args),
        ) is None ==> (r matches Err(ArgsError::Debug(t)) && t@ == debug_text(args)),
        parse_mappings(words(args.github_slack_user_ids@)) is Users && flag_value(
            debug_text(args),
        ) is Some && port_value(args) is None ==> (r matches Err(ArgsError::Port(t)) && t@
            == args.port->0@),
        parse_mappings(words(args.github_slack_user_ids@)) is Users && flag_value(
            debug_text(args),
        ) is Some && port_value(args) is Some ==> r is Ok,
        r matches Ok(opt) ==> {
            &&& reads_mappings(Ok(opt.github_slack_user_ids), args.github_slack_user_ids@)
            &&& flag_value(debug_text(args)) == Some(opt.debug)
            &&& port_value(args) == Some(opt.port)
            &&& opt.secret == args.secret
            &&& opt.github_app_id == args.github_app_id
            &&& opt.github_app_private_key == args.github_app_private_key
            &&& opt.github_app_install_id == args.github_app_install_id
            &&& opt.heroku_token == args.heroku_token
            &&& opt.slack_oauth_token == args.slack_oauth_token
        },
{
    let users = match parse_github_id_slack_id_many(args.github_slack_user_ids.as_str()) {
        Ok(u) => u,
        Err(e) => {
            return Err(ArgsError::GithubSlackUserIds(e));
        },
    };
    let debug = match &args.debug {
        Some(t) => match true_or_false(t.as_str()) {
            Ok(b) => b,
            Err(_) => {
                return Err(ArgsError::Debug(t.clone()));
            },
        },
        None => false,
    };
    proof {
        if args.debug is None {
            reveal_strlit("false");
            reveal_strlit("true");
            reveal_strlit("1");
            assert("false"@.len() == 5 && "true"@.len() == 4 && "1"@.len() == 1);
        }
    }
    let port = match &args.port {
        Some(t) => match parse_u16(t.as_str()) {
            Some(p) => p,
            None => {
                return Err(ArgsError::Port(t.clone()));
            },
        },
        None => DEFAULT_PORT,
    };
    Ok(
        Opt {
            secret: args.secret,
            github_app_id: args.github_app_id,
            github_app_private_key: args.github_app_private_key,
            github_app_install_id: args.github_app_install_id,
            heroku_token: args.heroku_token,
            slack_oauth_token: args.slack_oauth_token,
            github_slack_user_ids: users,
            debug,
            port,
        },
    )
}

} // verus!
