//! The messaging platform: message blocks and delivery outcomes.

use vstd::prelude::*;
use crate::aggregate::{CommitLine, CommitLineView};
use crate::text::{escape_mrkdwn, escaped};
use crate::{failure_status, is_failure_status, Reply};

verus! {

/// What can go wrong while delivering a message.
#[derive(Debug, Clone, PartialEq, Eq)]
pub enum SlackError {
    /// The platform could not be reached (connection, name lookup, timeout).
    Transport(String),
    /// The platform answered with a failure status.
    Dispatch { status: u16, body: String },
}

/// What a reply to a posted message amounts to. The body of a successful
/// reply is not read.
pub open spec fn delivery_outcome(reply: Reply<()>) -> Result<(), SlackError> {
    match reply {
        Reply::Unreachable(m) => Err(SlackError::Transport(m)),
        Reply::Answered { status, body, .. } => {
            if failure_status(status) {
                Err(SlackError::Dispatch { status, body })
            } else {
                Ok(())
            }
        },
    }
}

/// Reads the reply to a posted message.
pub fn delivery_from_reply(reply: Reply<()>) -> (r: Result<(), SlackError>)
    ensures
        r == delivery_outcome(reply),
{
    match reply {
        Reply::Unreachable(m) => Err(SlackError::Transport(m)),
        Reply::Answered { status, body, .. } => {
            if is_failure_status(status) {
                Err(SlackError::Dispatch { status, body })
            } else {
                Ok(())
            }
        },
    }
}

/// One block of a message. Texts are in the platform's markup.
#[derive(Debug, Clone, PartialEq, Eq)]
pub enum Block {
    /// A section of text.
    Section { text: String },
    /// A horizontal rule.
    Divider,
    /// A line of small print made of text elements.
    Context { elements: Vec<String> },
}

/// A block as plain values.
pub enum BlockView {
    Section { text: Seq<char> },
    Divider,
    Context { elements: Seq<Seq<char>> },
}

impl View for Block {
    type V = BlockView;

    open spec fn view(&self) -> BlockView {
        match self {
            Block::Section { text } => BlockView::Section { text: text@ },
            Block::Divider => BlockView::Divider,
            Block::Context { elements } => BlockView::Context {
                elements: elements@.map_values(|e: String| e@),
            },
        }
    }
}

/// The views of a sequence of blocks.
pub open spec fn blocks_view(blocks: Seq<Block>) -> Seq<BlockView> {
    blocks.map_values(|b: Block| b@)
}

/// The dashboard page of a hosted application.
pub open spec fn dashboard_url(app: Seq<char>) -> Seq<char> {
    "https://dashboard.heroku.com/apps/"@ + escaped(app)
}

/// The opening sentence: which application the changes were released to.
pub open spec fn intro_text(app: Seq<char>) -> Seq<char> {
    "Your changes have been released to <"@ + dashboard_url(app) + "|`"@ + escaped(app)
        + "`> on Heroku."@
}

/// The text of one commit: a link to it titled by its title, its short hash,
/// and who committed it when.
pub open spec fn commit_text(c: CommitLineView) -> Seq<char> {
    "<"@ + escaped(c.url) + "|"@ + escaped(c.title) + "> `"@ + escaped(c.short_sha) + "`\n"@
        + escaped(c.author_login) + " committed "@ + escaped(c.relative_time)
}

/// The texts of commits, one per line.
pub open spec fn commits_text(cs: Seq<CommitLineView>) -> Seq<char>
    decreases cs.len(),
{
    if cs.len() == 0 {
        Seq::empty()
    } else if cs.len() == 1 {
        commit_text(cs[0])
    } else {
        commits_text(cs.drop_last()) + "\n"@ + commit_text(cs.last())
    }
}

/// The footer: links to the comparison, the release log and the release
/// activity, then the release itself, separated by `" | "`.
pub open spec fn footer_text(compare_url: Seq<char>, app: Seq<char>, release: Seq<char>) -> Seq<
    char,
> {
    "<"@ + escaped(compare_url) + "|Compare diff> | <"@ + dashboard_url(app)
        + "/activity/releases/"@ + escaped(release) + "|Release log> | <"@ + dashboard_url(app)
        + "|Release activity> | "@ + escaped(release)
}

/// The blocks of the message to one author.
pub open spec fn message_blocks(
    app: Seq<char>,
    commits: Seq<CommitLineView>,
    release: Seq<char>,
    compare_url: Seq<char>,
) -> Seq<BlockView> {
    seq![
        BlockView::Section { text: intro_text(app) },
        BlockView::Divider,
        BlockView::Section { text: commits_text(commits) },
        BlockView::Divider,
        BlockView::Context { elements: seq![footer_text(compare_url, app, release)] },
    ]
}

/// The text of one commit line.
pub fn commit_message(commit: &CommitLine) -> (r: String)
    ensures
        r@ == commit_text(commit@),
{
    let mut out = String::from_str("<");
    out.append(escape_mrkdwn(commit.url.as_str()).as_str());
    out.append("|");
    out.append(escape_mrkdwn(commit.title.as_str()).as_str());
    out.append("> `");
    out.append(escape_mrkdwn(commit.short_sha.as_str()).as_str());
    out.append("`\n");
    out.append(escape_mrkdwn(commit.author_login.as_str()).as_str());
    out.append(" committed ");
    out.append(escape_mrkdwn(commit.relative_time.as_str()).as_str());
    out
}

/// The texts of commit lines, one per line, in order.
pub fn commit_messages(commits: &Vec<CommitLine>) -> (r: String)
    ensures
        r@ == commits_text(commits@.map_values(|c: CommitLine| c@)),
{
    let ghost all = commits@.map_values(|c: CommitLine| c@);
    let mut out = String::new();
    let n = commits.len();
    let mut i: usize = 0;
    while i < n
        invariant
            n == commits@.len(),
            all == commits@.map_values(|c: CommitLine| c@),
            i <= n,
            out@ == commits_text(all.take(i as int)),
        decreases n - i,
    {
        proof {
            assert(all.take(i + 1).drop_last() == all.take(i as int));
        }
        if i > 0 {
            out.append("\n");
        } else {
            assert(all.take(1) == seq![all[0]]);
        }
        out.append(commit_message(&commits[i]).as_str());
        i = i + 1;
    }
    proof {
        assert(all.take(n as int) == all);
    }
    out
}

/// The dashboard page of a hosted application.
fn dashboard_link(app: &str) -> (r: String)
    ensures
        r@ == dashboard_url(app@),
{
    let mut out = String::from_str("https://dashboard.heroku.com/apps/");
    out.append(escape_mrkdwn(app).as_str());
    out
}

/// What a message to one author is made of.
pub struct GetSlackMessage<'a> {
    pub heroku_app_name: &'a str,
    pub commits: &'a Vec<CommitLine>,
    pub release: &'a str,
    pub html_compare_url: &'a str,
}

/// Renders the message to one author: an opening sentence naming the
/// application, a divider, the author's commits one per line, a divider and a
/// footer of links. Every inserted text is escaped.
pub fn get_slack_message(params: GetSlackMessage) -> (r: Vec<Block>)
    ensures
        blocks_view(r@) == message_blocks(
            params.heroku_app_name@,
            params.commits@.map_values(|c: CommitLine| c@),
            params.release@,
            params.html_compare_url@,
        ),
{
    let app = params.heroku_app_name;
    let mut intro = String::from_str("Your changes have been released to <");
    intro.append(dashboard_link(app).as_str());
    intro.append("|`");
    intro.append(escape_mrkdwn(app).as_str());
    intro.append("`> on Heroku.");

    let mut footer = String::from_str("<");
    footer.append(escape_mrkdwn(params.html_compare_url).as_str());
    footer.append("|Compare diff> | <");
    footer.append(dashboard_link(app).as_str());
    footer.append("/activity/releases/");
    footer.append(escape_mrkdwn(params.release).as_str());
    footer.append("|Release log> | <");
    footer.append(dashboard_link(app).as_str());
    footer.append("|Release activity> | ");
    footer.append(escape_mrkdwn(params.release).as_str());

    let mut elements: Vec<String> = Vec::new();
    elements.push(footer);
    let mut blocks: Vec<Block> = Vec::new();
    blocks.push(Block::Section { text: intro });
    blocks.push(Block::Divider);
    blocks.push(Block::Section { text: commit_messages(params.commits) });
    blocks.push(Block::Divider);
    blocks.push(Block::Context { elements });
    proof {
        assert(intro@ =~= intro_text(app@));
        assert(footer@ =~= footer_text(params.html_compare_url@, app@, params.release@));
        assert(elements@.map_values(|e: String| e@) =~= seq![footer@]);
        assert(blocks_view(blocks@) =~= message_blocks(
            params.heroku_app_name@,
            params.commits@.map_values(|c: CommitLine| c@),
            params.release@,
            params.html_compare_url@,
        ));
    }
    blocks
}

} // verus!
