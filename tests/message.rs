use eve::aggregate::{aggregate_commits, group_by_author, summarize_commit, CommitLine};
use eve::github::{Actor, Commit, CommitAuthor, CommitComparison, CommitNode};
use eve::slack::{commit_message, get_slack_message, Block, GetSlackMessage};
use eve::text::{commit_title, escape_mrkdwn, short_sha};
use eve::time::relative_time;
use eve::EveError;

const AUTHORED: i64 = 1450571997;
const FOUR_YEARS_LATER: i64 = AUTHORED + 4 * 365 * 86400;

fn node(id: i64, login: &str, sha: &str, message: &str, date: &str) -> CommitNode {
    CommitNode {
        sha: sha.to_string(),
        commit: Commit {
            message: message.to_string(),
            url: "https://api.example.org/commit".to_string(),
            author: CommitAuthor { date: date.to_string() },
        },
        author: Actor {
            login: login.to_string(),
            id,
            html_url: "https://example.org/user".to_string(),
            avatar_url: "https://example.org/avatar".to_string(),
        },
        html_url: "https://example.org".to_string(),
    }
}

fn line(id: i64, title: &str) -> CommitLine {
    CommitLine {
        author_id: id,
        author_login: format!("user{}", id),
        title: title.to_string(),
        url: "u".to_string(),
        short_sha: "abcdefg".to_string(),
        relative_time: "now".to_string(),
    }
}

#[test]
fn test_escaping_slack_messages() {
    let commit = summarize_commit(
        &node(
            42,
            "ghost",
            "56b515000c090c0ba5f285c6e19f9451788413f1",
            "Fix <Foo/> & some other thing",
            "2015-12-19T16:39:57-08:00",
        ),
        FOUR_YEARS_LATER,
    )
    .unwrap();
    let commits = vec![commit];
    let res = get_slack_message(GetSlackMessage {
        heroku_app_name: "",
        commits: &commits,
        release: "heroku-release-id",
        html_compare_url: "https://github.com/repos/ghost/repo/compare/7c68a71a87d12cc2404aed192840674af84f3df4...master",
    });
    assert_eq!(
        res,
        vec![
            Block::Section {
                text: "Your changes have been released to <https://dashboard.heroku.com/apps/|``> on Heroku.".to_string()
            },
            Block::Divider,
            Block::Section {
                text: "<https://example.org|Fix &lt;Foo/&gt; &amp; some other thing> `56b5150`\nghost committed 4 years ago".to_string()
            },
            Block::Divider,
            Block::Context {
                elements: vec!["<https://github.com/repos/ghost/repo/compare/7c68a71a87d12cc2404aed192840674af84f3df4...master|Compare diff> | <https://dashboard.heroku.com/apps//activity/releases/heroku-release-id|Release log> | <https://dashboard.heroku.com/apps/|Release activity> | heroku-release-id".to_string()]
            },
        ]
    );
}

#[test]
fn message_names_app_and_escapes_every_inserted_text() {
    let commits = vec![line(1, "a"), line(1, "b>c")];
    let res = get_slack_message(GetSlackMessage {
        heroku_app_name: "my&app",
        commits: &commits,
        release: "v<3",
        html_compare_url: "https://x/?a=1&b=2",
    });
    assert_eq!(
        res[0],
        Block::Section {
            text: "Your changes have been released to <https://dashboard.heroku.com/apps/my&amp;app|`my&amp;app`> on Heroku.".to_string()
        }
    );
    assert_eq!(
        res[2],
        Block::Section {
            text: "<u|a> `abcdefg`\nuser1 committed now\n<u|b&gt;c> `abcdefg`\nuser1 committed now".to_string()
        }
    );
    assert_eq!(
        res[4],
        Block::Context {
            elements: vec!["<https://x/?a=1&amp;b=2|Compare diff> | <https://dashboard.heroku.com/apps/my&amp;app/activity/releases/v&lt;3|Release log> | <https://dashboard.heroku.com/apps/my&amp;app|Release activity> | v&lt;3".to_string()]
        }
    );
}

#[test]
fn commit_message_has_link_hash_author_and_time() {
    assert_eq!(commit_message(&line(3, "T")), "<u|T> `abcdefg`\nuser3 committed now");
}

#[test]
fn title_is_first_line() {
    assert_eq!(commit_title("Fix bug\n\nDetails here"), "Fix bug");
    assert_eq!(commit_title("Fix bug"), "Fix bug");
    assert_eq!(commit_title("\nbody"), "");
    assert_eq!(commit_title(""), "");
}

#[test]
fn short_sha_is_first_seven_characters() {
    assert_eq!(short_sha("56b515000c090c0ba5f285c6e19f9451788413f1"), Some("56b5150".to_string()));
    assert_eq!(short_sha("1234567"), Some("1234567".to_string()));
    assert_eq!(short_sha("123456"), None);
    assert_eq!(short_sha(""), None);
}

#[test]
fn escaping_replaces_markup_characters() {
    assert_eq!(
        escape_mrkdwn("Fix <Foo/> & some other thing"),
        "Fix &lt;Foo/&gt; &amp; some other thing"
    );
    assert_eq!(escape_mrkdwn("&amp;"), "&amp;amp;");
    assert_eq!(escape_mrkdwn("plain ünïcode"), "plain ünïcode");
}

#[test]
fn relative_time_is_humanized_span() {
    assert_eq!(relative_time(AUTHORED, FOUR_YEARS_LATER), Some("4 years ago".to_string()));
    assert_eq!(relative_time(AUTHORED, AUTHORED + 5), Some("now".to_string()));
    assert_eq!(relative_time(AUTHORED + 3 * 3600, AUTHORED), Some("in 3 hours".to_string()));
    assert_eq!(relative_time(i64::MAX, i64::MIN), None);
}

#[test]
fn short_sha_fails_commit_with_malformed_sha() {
    let n = node(1, "a", "abc", "m", "2015-12-19T16:39:57-08:00");
    assert_eq!(summarize_commit(&n, AUTHORED), Err(EveError::MalformedSha("abc".to_string())));
}

#[test]
fn bad_date_fails_commit() {
    let n = node(1, "a", "56b515000c", "m", "2015-12-19 16:39:57");
    assert_eq!(
        summarize_commit(&n, AUTHORED),
        Err(EveError::TimestampParse("2015-12-19 16:39:57".to_string()))
    );
}

#[test]
fn summary_derives_every_field() {
    let n = node(7, "octo", "0123456789", "Title\nbody", "2015-12-20T00:39:57Z");
    let l = summarize_commit(&n, AUTHORED + 2 * 86400).unwrap();
    assert_eq!(l, CommitLine {
        author_id: 7,
        author_login: "octo".to_string(),
        title: "Title".to_string(),
        url: "https://example.org".to_string(),
        short_sha: "0123456".to_string(),
        relative_time: "2 days ago".to_string(),
    });
}

#[test]
fn grouping_keeps_first_seen_author_order_and_commit_order() {
    let lines = vec![line(2, "a"), line(1, "b"), line(2, "c"), line(3, "d"), line(1, "e")];
    let buckets = group_by_author(lines);
    let keys: Vec<i64> = buckets.iter().map(|b| b.author_id).collect();
    assert_eq!(keys, vec![2, 1, 3]);
    let titles: Vec<Vec<String>> = buckets
        .iter()
        .map(|b| b.commits.iter().map(|c| c.title.clone()).collect())
        .collect();
    assert_eq!(titles, vec![vec!["a", "c"], vec!["b", "e"], vec!["d"]]);
    let total: usize = buckets.iter().map(|b| b.commits.len()).sum();
    assert_eq!(total, 5);
}

#[test]
fn grouping_nothing_gives_no_bucket() {
    assert!(group_by_author(vec![]).is_empty());
}

#[test]
fn aggregation_stops_at_first_bad_commit() {
    let comparison = CommitComparison {
        url: "u".to_string(),
        html_url: "h".to_string(),
        permalink_url: "p".to_string(),
        commits: vec![
            node(1, "a", "0123456789", "m", "2015-12-20T00:39:57Z"),
            node(1, "a", "01", "m", "bad"),
            node(2, "b", "0123456789", "m", "bad"),
        ],
    };
    assert_eq!(aggregate_commits(&comparison, AUTHORED), Err(EveError::MalformedSha("01".to_string())));
}
