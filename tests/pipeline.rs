use std::collections::HashMap;

use eve::github::{
    access_token_from_reply, access_token_url, comparison_from_reply, compare_url, jwt_claims,
    AccessToken, Actor, Commit, CommitAuthor, CommitComparison, CommitNode, Compare, GitHubError,
};
use eve::heroku::{decide_release_event, release_label, ReleaseEventDecision};
use eve::pipeline::{plan_deliveries, Action, DeployRun, Event, HandlePostDeployEvent, Stage};
use eve::aggregate::{AuthorBucket, CommitLine};
use eve::slack::{delivery_from_reply, Block, SlackError};
use eve::{is_failure_status, EveError, Reply};

const NOW: i64 = 1450571997 + 4 * 365 * 86400;

fn node(id: i64, login: &str, message: &str) -> CommitNode {
    CommitNode {
        sha: "56b515000c090c0ba5f285c6e19f9451788413f1".to_string(),
        commit: Commit {
            message: message.to_string(),
            url: "https://api.github.com/commit".to_string(),
            author: CommitAuthor { date: "2015-12-19T16:39:57-08:00".to_string() },
        },
        author: Actor {
            login: login.to_string(),
            id,
            html_url: "https://github.com/ghost".to_string(),
            avatar_url: "https://github.com/avatar".to_string(),
        },
        html_url: "https://github.com/ghost/repo/commit/56b5150".to_string(),
    }
}

fn comparison(commits: Vec<CommitNode>) -> CommitComparison {
    CommitComparison {
        url: "https://api.github.com/repos/ghost/repo/compare/7c68a71...master".to_string(),
        html_url: "https://github.com/repos/ghost/repo/compare/7c68a71...master".to_string(),
        permalink_url: "https://github.com/permalink".to_string(),
        commits,
    }
}

fn ok<T>(document: T) -> Reply<T> {
    Reply::Answered { status: 200, body: "{}".to_string(), document: Some(document) }
}

fn token() -> AccessToken {
    AccessToken {
        token: "ghs_token".to_string(),
        expires_at: "2016-01-01T00:00:00Z".to_string(),
        repository_selection: "all".to_string(),
    }
}

fn params<'a>(users: &'a HashMap<i64, String>) -> HandlePostDeployEvent<'a> {
    HandlePostDeployEvent {
        github_app_private_key: "pem",
        github_app_id: "1234",
        github_app_install_id: "5678",
        github_org: "ghost",
        github_repo: "repo",
        github_ref_base: "7c68a71",
        github_ref_head: "master",
        github_slack_users: users,
        slack_oauth_token: "xoxb",
        heroku_release: "heroku-release-id",
        heroku_app_name: "",
    }
}

/// Runs up to the comparison and returns the run and the action after it.
fn through_fetch(p: &HandlePostDeployEvent, c: CommitComparison) -> (DeployRun, Action) {
    let (mut run, a) = DeployRun::signed(Ok("jwt".to_string()), p, NOW);
    assert!(matches!(a, Action::RequestAccessToken { .. }));
    let a = run.step(p, Event::AccessTokenReceived(ok(token())));
    assert!(matches!(a, Action::FetchComparison { .. }));
    let a = run.step(p, Event::ComparisonReceived(ok(c)));
    (run, a)
}

#[test]
fn run_signs_then_exchanges_then_fetches() {
    let users = HashMap::new();
    let p = params(&users);
    let (mut run, first) = DeployRun::signed(Ok("jwt".to_string()), &p, NOW);
    assert_eq!(
        first,
        Action::RequestAccessToken {
            url: "https://api.github.com/app/installations/5678/access_tokens".to_string(),
            assertion: "jwt".to_string(),
        }
    );
    assert_eq!(
        run.step(&p, Event::AccessTokenReceived(ok(token()))),
        Action::FetchComparison {
            url: "https://api.github.com/repos/ghost/repo/compare/7c68a71...master".to_string(),
            token: "ghs_token".to_string(),
        }
    );
    assert_eq!(run.stage, Stage::Fetching);
}

#[test]
fn one_commit_notifies_its_author() {
    let mut users = HashMap::new();
    users.insert(42, "U123".to_string());
    let p = params(&users);
    let (mut run, a) = through_fetch(&p, comparison(vec![node(42, "ghost", "Fix <Foo/> & some other thing")]));
    match a {
        Action::PostMessage { channel, blocks } => {
            assert_eq!(channel, "U123");
            assert_eq!(blocks.len(), 5);
            assert_eq!(
                blocks[2],
                Block::Section {
                    text: "<https://github.com/ghost/repo/commit/56b5150|Fix &lt;Foo/&gt; &amp; some other thing> `56b5150`\nghost committed 4 years ago".to_string()
                }
            );
            match &blocks[4] {
                Block::Context { elements } => {
                    assert_eq!(elements.len(), 1);
                    assert!(elements[0].contains("https://github.com/repos/ghost/repo/compare/7c68a71...master"));
                    assert!(elements[0].ends_with(" | heroku-release-id"));
                    assert_eq!(elements[0].matches("https://dashboard.heroku.com/apps/").count(), 2);
                },
                _ => panic!("expected a footer"),
            }
        },
        _ => panic!("expected a message"),
    }
    let done = run.step(&p, Event::MessagePosted(ok(())));
    assert_eq!(done, Action::Finish { outcome: Ok(()) });
    assert_eq!(run.stage, Stage::Done);
}

#[test]
fn authors_without_recipient_are_skipped() {
    let mut users = HashMap::new();
    users.insert(2, "U2".to_string());
    let p = params(&users);
    let (mut run, a) = through_fetch(
        &p,
        comparison(vec![node(1, "one", "a"), node(2, "two", "b"), node(3, "three", "c"), node(2, "two", "d")]),
    );
    match a {
        Action::PostMessage { channel, .. } => assert_eq!(channel, "U2"),
        _ => panic!("expected a message"),
    }
    assert_eq!(run.outbox.len(), 1);
    assert_eq!(run.step(&p, Event::MessagePosted(ok(()))), Action::Finish { outcome: Ok(()) });
}

#[test]
fn nobody_with_recipient_means_no_message() {
    let users = HashMap::new();
    let p = params(&users);
    let (run, a) = through_fetch(&p, comparison(vec![node(9, "nine", "a")]));
    assert_eq!(a, Action::Finish { outcome: Ok(()) });
    assert!(run.outbox.is_empty());
}

#[test]
fn empty_range_finishes_without_messages() {
    let mut users = HashMap::new();
    users.insert(42, "U123".to_string());
    let p = params(&users);
    let (run, a) = through_fetch(&p, comparison(vec![]));
    assert_eq!(a, Action::Finish { outcome: Ok(()) });
    assert!(run.outbox.is_empty());
    assert_eq!(run.stage, Stage::Done);
}

#[test]
fn messages_go_out_in_first_seen_order() {
    let mut users = HashMap::new();
    users.insert(1, "U1".to_string());
    users.insert(2, "U2".to_string());
    let p = params(&users);
    let (mut run, a) = through_fetch(&p, comparison(vec![node(2, "two", "a"), node(1, "one", "b"), node(2, "two", "c")]));
    assert!(matches!(a, Action::PostMessage { ref channel, .. } if channel == "U2"));
    let a = run.step(&p, Event::MessagePosted(ok(())));
    assert!(matches!(a, Action::PostMessage { ref channel, .. } if channel == "U1"));
    assert_eq!(run.step(&p, Event::MessagePosted(ok(()))), Action::Finish { outcome: Ok(()) });
}

#[test]
fn first_failed_delivery_ends_run() {
    let mut users = HashMap::new();
    users.insert(1, "U1".to_string());
    users.insert(2, "U2".to_string());
    let p = params(&users);
    let (mut run, _) = through_fetch(&p, comparison(vec![node(1, "one", "a"), node(2, "two", "b")]));
    let a = run.step(
        &p,
        Event::MessagePosted(Reply::Answered { status: 500, body: "oops".to_string(), document: None }),
    );
    assert_eq!(
        a,
        Action::Finish {
            outcome: Err(EveError::SlackError(SlackError::Dispatch { status: 500, body: "oops".to_string() }))
        }
    );
}

#[test]
fn transport_failures_end_run_at_each_stage() {
    let users = HashMap::new();
    let p = params(&users);

    let (mut run, _) = DeployRun::signed(Ok("jwt".to_string()), &p, NOW);
    assert_eq!(
        run.step(&p, Event::AccessTokenReceived(Reply::Unreachable("refused".to_string()))),
        Action::Finish { outcome: Err(EveError::GitHubError(GitHubError::Transport("refused".to_string()))) }
    );

    let (mut run, _) = DeployRun::signed(Ok("jwt".to_string()), &p, NOW);
    run.step(&p, Event::AccessTokenReceived(ok(token())));
    assert_eq!(
        run.step(&p, Event::ComparisonReceived(Reply::Unreachable("timeout".to_string()))),
        Action::Finish { outcome: Err(EveError::GitHubError(GitHubError::Transport("timeout".to_string()))) }
    );

    let mut users = HashMap::new();
    users.insert(42, "U123".to_string());
    let p = params(&users);
    let (mut run, _) = through_fetch(&p, comparison(vec![node(42, "ghost", "x")]));
    assert_eq!(
        run.step(&p, Event::MessagePosted(Reply::Unreachable("dns".to_string()))),
        Action::Finish { outcome: Err(EveError::SlackError(SlackError::Transport("dns".to_string()))) }
    );
}

#[test]
fn signing_failure_ends_run() {
    let users = HashMap::new();
    let p = params(&users);
    let (run, a) = DeployRun::signed(Err(GitHubError::JsonWebTokenCreation("bad key".to_string())), &p, NOW);
    assert_eq!(
        a,
        Action::Finish {
            outcome: Err(EveError::GitHubError(GitHubError::JsonWebTokenCreation("bad key".to_string())))
        }
    );
    assert_eq!(run.stage, Stage::Done);
}

#[test]
fn failure_statuses_are_reported_with_body() {
    let users = HashMap::new();
    let p = params(&users);
    let (mut run, _) = DeployRun::signed(Ok("jwt".to_string()), &p, NOW);
    assert_eq!(
        run.step(&p, Event::AccessTokenReceived(Reply::Answered { status: 401, body: "no".to_string(), document: None })),
        Action::Finish {
            outcome: Err(EveError::GitHubError(GitHubError::AccessToken { status: 401, body: "no".to_string() }))
        }
    );
    let (mut run, _) = DeployRun::signed(Ok("jwt".to_string()), &p, NOW);
    run.step(&p, Event::AccessTokenReceived(ok(token())));
    assert_eq!(
        run.step(&p, Event::ComparisonReceived(Reply::Answered { status: 404, body: "nf".to_string(), document: None })),
        Action::Finish {
            outcome: Err(EveError::GitHubError(GitHubError::Compare { status: 404, body: "nf".to_string() }))
        }
    );
}

#[test]
fn bad_commit_ends_run() {
    let users = HashMap::new();
    let p = params(&users);
    let mut bad = node(1, "a", "m");
    bad.commit.author.date = "yesterday".to_string();
    let (_, a) = through_fetch(&p, comparison(vec![bad]));
    assert_eq!(a, Action::Finish { outcome: Err(EveError::TimestampParse("yesterday".to_string())) });
}

#[test]
fn out_of_order_event_ends_run() {
    let users = HashMap::new();
    let p = params(&users);
    let (mut run, _) = DeployRun::signed(Ok("jwt".to_string()), &p, NOW);
    assert_eq!(
        run.step(&p, Event::MessagePosted(ok(()))),
        Action::Finish { outcome: Err(EveError::UnexpectedEvent) }
    );
    assert_eq!(run.stage, Stage::Done);
    assert_eq!(
        run.step(&p, Event::AccessTokenReceived(ok(token()))),
        Action::Finish { outcome: Err(EveError::UnexpectedEvent) }
    );
}

#[test]
fn replies_are_classified() {
    assert!(is_failure_status(400));
    assert!(is_failure_status(599));
    assert!(is_failure_status(101));
    assert!(is_failure_status(199));
    assert!(is_failure_status(300));
    assert!(is_failure_status(399));
    assert!(is_failure_status(600));
    assert!(!is_failure_status(200));
    assert!(!is_failure_status(299));
    assert_eq!(access_token_from_reply(ok(token())), Ok(token()));
    assert_eq!(
        access_token_from_reply(Reply::Answered { status: 201, body: "junk".to_string(), document: None }),
        Err(GitHubError::Decode("junk".to_string()))
    );
    assert_eq!(
        comparison_from_reply(Reply::Answered { status: 200, body: "junk".to_string(), document: None }),
        Err(GitHubError::Decode("junk".to_string()))
    );
    assert_eq!(delivery_from_reply(Reply::Answered { status: 204, body: String::new(), document: None }), Ok(()));
    assert_eq!(
        delivery_from_reply(Reply::Answered { status: 302, body: "moved".to_string(), document: Some(()) }),
        Err(SlackError::Dispatch { status: 302, body: "moved".to_string() })
    );
    assert_eq!(
        access_token_from_reply(Reply::Answered { status: 300, body: "m".to_string(), document: Some(token()) }),
        Err(GitHubError::AccessToken { status: 300, body: "m".to_string() })
    );
    assert_eq!(
        comparison_from_reply(Reply::Answered { status: 101, body: "u".to_string(), document: None }),
        Err(GitHubError::Compare { status: 101, body: "u".to_string() })
    );
    assert_eq!(
        delivery_from_reply(Reply::Answered { status: 429, body: "slow".to_string(), document: None }),
        Err(SlackError::Dispatch { status: 429, body: "slow".to_string() })
    );
}

#[test]
fn endpoints_and_claims() {
    assert_eq!(access_token_url("9"), "https://api.github.com/app/installations/9/access_tokens");
    let c = Compare {
        private_key: "k",
        app_id: "a",
        install_id: "i",
        org: "o",
        repo: "r",
        base: "b",
        head: "h",
    };
    assert_eq!(compare_url(&c), "https://api.github.com/repos/o/r/compare/b...h");
    let claims = jwt_claims("app", 1000);
    assert_eq!((claims.iat, claims.exp, claims.iss.as_str()), (1000, 1600, "app"));
}

#[test]
fn plan_skips_unmatched_authors() {
    let mut users = HashMap::new();
    users.insert(1, "U1".to_string());
    let line = |id: i64| CommitLine {
        author_id: id,
        author_login: "l".to_string(),
        title: "t".to_string(),
        url: "u".to_string(),
        short_sha: "s".to_string(),
        relative_time: "now".to_string(),
    };
    let buckets = vec![
        AuthorBucket { author_id: 2, commits: vec![line(2)] },
        AuthorBucket { author_id: 1, commits: vec![line(1)] },
    ];
    let plan = plan_deliveries(&buckets, &users, "app", "v1", "c");
    assert_eq!(plan.len(), 1);
    assert_eq!(plan[0].channel, "U1");
}

#[test]
fn release_events_are_decided() {
    assert_eq!(decide_release_event("s", "t", "update", 5), ReleaseEventDecision::Unauthorized);
    assert_eq!(decide_release_event("s", "s", "create", 5), ReleaseEventDecision::Ignore);
    assert_eq!(
        decide_release_event("s", "s", "update", 5),
        ReleaseEventDecision::Notify { previous_version: 4 }
    );
    assert_eq!(decide_release_event("s", "t", "update", i64::MIN), ReleaseEventDecision::Unauthorized);
    assert_eq!(decide_release_event("s", "s", "create", i64::MIN), ReleaseEventDecision::Ignore);
    assert_eq!(decide_release_event("s", "s", "update", i64::MIN), ReleaseEventDecision::NoPreviousRelease);
    assert_eq!(release_label(12), "v12");
    assert_eq!(release_label(-3), "v-3");
}
