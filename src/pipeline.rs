//! The deploy notification run: sign, exchange, fetch, aggregate, then deliver
//! one message per author with a recipient. The run decides; its caller does
//! the signing and the network calls and reports back what came of them.

use vstd::prelude::*;
use std::collections::HashMap;
use crate::aggregate::{
    aggregate_commits, all_lines, all_summarizable, author_ids, authored_by, first_seen,
    lemma_first_seen, lemma_grouping_partitions, buckets_view, first_failure, grouped, summaries,
    summary_error, AuthorBucket, CommitLineView,
};
use crate::github::{
    access_token_endpoint, access_token_from_reply, access_token_outcome, access_token_url,
    compare_endpoint, compare_url, comparison_from_reply, comparison_outcome, generate_jwt, rs256_jwt,
    AccessToken, CommitComparison, CommitNode, Compare, GitHubError, ASSERTION_LIFETIME_SECS,
};
use crate::slack::{
    delivery_from_reply, delivery_outcome, get_slack_message, message_blocks, Block, BlockView,
    GetSlackMessage, blocks_view,
};
use crate::{EveError, Reply};

verus! {

broadcast use vstd::std_specs::hash::group_hash_axioms;

/// A message ready to be posted to one recipient.
#[derive(Debug, Clone, PartialEq, Eq)]
pub struct Delivery {
    pub channel: String,
    pub blocks: Vec<Block>,
}

impl View for Delivery {
    type V = (Seq<char>, Seq<BlockView>);

    open spec fn view(&self) -> (Seq<char>, Seq<BlockView>) {
        (self.channel@, blocks_view(self.blocks@))
    }
}

/// The views of a sequence of deliveries.
pub open spec fn deliveries_view(ds: Seq<Delivery>) -> Seq<(Seq<char>, Seq<BlockView>)> {
    ds.map_values(|d: Delivery| d@)
}

/// The messages owed for a grouping: one per bucket whose author has a
/// recipient, in the order of the buckets, addressed to that recipient.
pub open spec fn planned(
    buckets: Seq<(i64, Seq<CommitLineView>)>,
    users: Map<i64, String>,
    app: Seq<char>,
    release: Seq<char>,
    compare_url: Seq<char>,
) -> Seq<(Seq<char>, Seq<BlockView>)>
    decreases buckets.len(),
{
    if buckets.len() == 0 {
        Seq::empty()
    } else {
        let earlier = planned(buckets.drop_last(), users, app, release, compare_url);
        let b = buckets.last();
        if users.contains_key(b.0) {
            earlier.push((users[b.0]@, message_blocks(app, b.1, release, compare_url)))
        } else {
            earlier
        }
    }
}

/// Renders the message owed to each author with a recipient, in order;
/// authors without one are skipped.
pub fn plan_deliveries(
    buckets: &Vec<AuthorBucket>,
    users: &HashMap<i64, String>,
    heroku_app_name: &str,
    release: &str,
    html_compare_url: &str,
) -> (r: Vec<Delivery>)
    ensures
        deliveries_view(r@) == planned(
            buckets_view(buckets@),
            users@,
            heroku_app_name@,
            release@,
            html_compare_url@,
        ),
{
    let ghost all = buckets_view(buckets@);
    let mut out: Vec<Delivery> = Vec::new();
    let n = buckets.len();
    let mut i: usize = 0;
    while i < n
        invariant
            n == buckets@.len(),
            all == buckets_view(buckets@),
            i <= n,
            deliveries_view(out@) == planned(
                all.take(i as int),
                users@,
                heroku_app_name@,
                release@,
                html_compare_url@,
            ),
        decreases n - i,
    {
        let bucket = &buckets[i];
        let ghost before = out@;
        proof {
            assert(all.take(i + 1).drop_last() == all.take(i as int));
            assert(all.take(i + 1).last() == bucket@);
        }
        match users.get(&bucket.author_id) {
            Some(channel) => {
                let blocks = get_slack_message(
                    GetSlackMessage {
                        heroku_app_name,
                        commits: &bucket.commits,
                        release,
                        html_compare_url,
                    },
                );
                let d = Delivery { channel: channel.clone(), blocks };
                out.push(d);
                proof {
                    assert(deliveries_view(out@) =~= deliveries_view(before).push(d@));
                }
            },
            None => {},
        }
        i = i + 1;
    }
    proof {
        assert(all.take(n as int) == all);
    }
    out
}

/// An author without a recipient is skipped: taking their bucket out of a
/// grouping leaves the messages owed unchanged.
pub proof fn lemma_unmatched_author_skipped(
    before: Seq<(i64, Seq<CommitLineView>)>,
    b: (i64, Seq<CommitLineView>),
    after: Seq<(i64, Seq<CommitLineView>)>,
    users: Map<i64, String>,
    app: Seq<char>,
    release: Seq<char>,
    compare_url: Seq<char>,
)
    requires
        !users.contains_key(b.0),
    ensures
        planned(before + seq![b] + after, users, app, release, compare_url) == planned(
            before + after,
            users,
            app,
            release,
            compare_url,
        ),
    decreases after.len(),
{
    if after.len() == 0 {
        assert(before + seq![b] + after == before.push(b));
        assert((before + seq![b] + after).drop_last() == before);
        assert(before + after == before);
    } else {
        lemma_unmatched_author_skipped(before, b, after.drop_last(), users, app, release, compare_url);
        assert((before + seq![b] + after).drop_last() == before + seq![b] + after.drop_last());
        assert((before + after).drop_last() == before + after.drop_last());
        assert((before + seq![b] + after).last() == after.last());
        assert((before + after).last() == after.last());
    }
}

/// The message owed for one bucket to its author's recipient.
pub open spec fn message_for(
    users: Map<i64, String>,
    app: Seq<char>,
    release: Seq<char>,
    compare_url: Seq<char>,
    b: (i64, Seq<CommitLineView>),
) -> (Seq<char>, Seq<BlockView>) {
    (users[b.0]@, message_blocks(app, b.1, release, compare_url))
}

proof fn lemma_planned_closed_form(
    bs: Seq<(i64, Seq<CommitLineView>)>,
    users: Map<i64, String>,
    app: Seq<char>,
    release: Seq<char>,
    compare_url: Seq<char>,
)
    ensures
        planned(bs, users, app, release, compare_url) == bs.filter(
            |b: (i64, Seq<CommitLineView>)| users.contains_key(b.0),
        ).map_values(|b: (i64, Seq<CommitLineView>)| message_for(users, app, release, compare_url, b)),
        (forall|k: int| 0 <= k < bs.len() ==> users.contains_key(#[trigger] bs[k].0)) ==> planned(
            bs,
            users,
            app,
            release,
            compare_url,
        ).len() == bs.len(),
    decreases bs.len(),
{
    reveal(Seq::filter);
    let p = |b: (i64, Seq<CommitLineView>)| users.contains_key(b.0);
    let f = |b: (i64, Seq<CommitLineView>)| message_for(users, app, release, compare_url, b);
    if bs.len() > 0 {
        let init = bs.drop_last();
        lemma_planned_closed_form(init, users, app, release, compare_url);
        if p(bs.last()) {
            assert(bs.filter(p) == init.filter(p).push(bs.last()));
            assert(bs.filter(p).map_values(f) =~= init.filter(p).map_values(f).push(f(bs.last())));
        } else {
            assert(bs.filter(p) == init.filter(p));
        }
        if forall|k: int| 0 <= k < bs.len() ==> users.contains_key(#[trigger] bs[k].0) {
            assert forall|k: int| 0 <= k < init.len() implies users.contains_key(#[trigger] init[k].0) by {
                assert(init[k] == bs[k]);
            }
        }
    } else {
        assert(bs.filter(p).map_values(f) =~= Seq::<(Seq<char>, Seq<BlockView>)>::empty());
    }
}

/// Over a whole run whose commits all yield a line: the messages owed are,
/// in the order in which authors first appear, one for each distinct author
/// with a recipient, addressed to that recipient and made of that author's
/// lines in their order; an author without a recipient gets none. Where
/// every author has a recipient, there are as many messages as distinct
/// authors, and together they carry every commit exactly once.
pub proof fn lemma_run_messages(
    nodes: Seq<CommitNode>,
    now: i64,
    users: Map<i64, String>,
    app: Seq<char>,
    release: Seq<char>,
    compare_url: Seq<char>,
)
    requires
        all_summarizable(nodes, now),
    ensures
        ({
            let lines = summaries(nodes, now);
            let groups = grouped(lines);
            let owed = planned(groups, users, app, release, compare_url);
            &&& owed == groups.filter(|b: (i64, Seq<CommitLineView>)| users.contains_key(b.0)).map_values(
                |b: (i64, Seq<CommitLineView>)| message_for(users, app, release, compare_url, b),
            )
            &&& forall|j: int|
                0 <= j < groups.len() ==> (#[trigger] groups[j]).1 == authored_by(
                    lines,
                    groups[j].0,
                )
            &&& forall|j: int, k: int| 0 <= j < k < groups.len() ==> groups[j].0 != groups[k].0
            &&& (forall|i: int| 0 <= i < nodes.len() ==> users.contains_key(#[trigger] nodes[i].author.id))
                ==> {
                &&& owed.len() == author_ids(lines).to_set().len()
                &&& forall|j: int|
                    0 <= j < owed.len() ==> #[trigger] owed[j] == message_for(
                        users,
                        app,
                        release,
                        compare_url,
                        groups[j],
                    )
                &&& all_lines(groups) == lines.to_multiset()
            }
        }),
{
    let lines = summaries(nodes, now);
    let groups = grouped(lines);
    lemma_grouping_partitions(lines);
    lemma_planned_closed_form(groups, users, app, release, compare_url);
    if forall|i: int| 0 <= i < nodes.len() ==> users.contains_key(#[trigger] nodes[i].author.id) {
        let ids = author_ids(lines);
        lemma_first_seen(ids);
        assert forall|k: int| 0 <= k < groups.len() implies users.contains_key(#[trigger] groups[k].0) by {
            let keys = first_seen(ids);
            assert(groups[k].0 == keys[k]);
            assert(ids.contains(keys[k]));
            let i = choose|i: int| 0 <= i < ids.len() && ids[i] == keys[k];
            assert(ids[i] == nodes[i].author.id);
        }
        let p = |b: (i64, Seq<CommitLineView>)| users.contains_key(b.0);
        assert(groups.filter(p) == groups) by {
            assert forall|k: int| 0 <= k < groups.len() implies p(groups[k]) by {}
            groups.lemma_filter_len(p);
            lemma_filter_keeps_all(groups, p);
        }
    }
}

proof fn lemma_filter_keeps_all(
    s: Seq<(i64, Seq<CommitLineView>)>,
    p: spec_fn((i64, Seq<CommitLineView>)) -> bool,
)
    requires
        forall|k: int| 0 <= k < s.len() ==> p(s[k]),
    ensures
        s.filter(p) == s,
    decreases s.len(),
{
    reveal(Seq::filter);
    if s.len() > 0 {
        let init = s.drop_last();
        assert forall|k: int| 0 <= k < init.len() implies p(init[k]) by {
            assert(init[k] == s[k]);
        }
        lemma_filter_keeps_all(init, p);
        assert(p(s[s.len() - 1]));
        assert(init.push(s.last()) =~= s);
    }
}

/// A range without commits owes no message: every commit (there is none)
/// yields a line, there is no bucket and no delivery, so the run ends with
/// success as soon as the comparison is in.
pub proof fn lemma_empty_range_owes_nothing(
    nodes: Seq<CommitNode>,
    now: i64,
    users: Map<i64, String>,
    app: Seq<char>,
    release: Seq<char>,
    compare_url: Seq<char>,
)
    requires
        nodes.len() == 0,
    ensures
        all_summarizable(nodes, now),
        grouped(summaries(nodes, now)).len() == 0,
        planned(grouped(summaries(nodes, now)), users, app, release, compare_url).len() == 0,
{
    assert(first_seen(author_ids(summaries(nodes, now))) =~= Seq::<i64>::empty());
}

/// What one run is asked to do, and with which configuration.
pub struct HandlePostDeployEvent<'a> {
    pub github_app_private_key: &'a str,
    pub github_app_id: &'a str,
    pub github_app_install_id: &'a str,
    pub github_org: &'a str,
    pub github_repo: &'a str,
    pub github_ref_base: &'a str,
    pub github_ref_head: &'a str,
    pub github_slack_users: &'a HashMap<i64, String>,
    pub slack_oauth_token: &'a str,
    pub heroku_release: &'a str,
    pub heroku_app_name: &'a str,
}

/// Where a run stands.
#[derive(Debug, Clone, Copy, PartialEq, Eq, Structural)]
pub enum Stage {
    /// Waiting for the installation access token.
    Authenticating,
    /// Waiting for the comparison.
    Fetching,
    /// Waiting for the reply to a posted message.
    Delivering,
    /// Over.
    Done,
}

/// What the caller is to do next.
#[derive(Debug, PartialEq, Eq)]
pub enum Action {
    /// Post the assertion as a bearer credential to `url`, and report
    /// `Event::AccessTokenReceived`.
    RequestAccessToken { url: String, assertion: String },
    /// Get `url` with the token as a bearer credential, and report
    /// `Event::ComparisonReceived`.
    FetchComparison { url: String, token: String },
    /// Post the blocks to the channel with the messaging token, and report
    /// `Event::MessagePosted`.
    PostMessage { channel: String, blocks: Vec<Block> },
    /// Nothing more: the run ended with this outcome.
    Finish { outcome: Result<(), EveError> },
}

/// What came of the last action.
#[derive(Debug, PartialEq, Eq)]
pub enum Event {
    /// The host's reply to the token exchange.
    AccessTokenReceived(Reply<AccessToken>),
    /// The host's reply to the comparison request.
    ComparisonReceived(Reply<CommitComparison>),
    /// The platform's reply to the posted message.
    MessagePosted(Reply<()>),
}

/// One run of the deploy notification pipeline.
pub struct DeployRun {
    /// Where the run stands.
    pub stage: Stage,
    /// The moment of the run, in Unix seconds.
    pub now: i64,
    /// The messages owed, once the comparison is in.
    pub outbox: Vec<Delivery>,
    /// How many of them have been handed out.
    pub sent: usize,
}

/// Whether an action is the posting of a given message.
pub open spec fn posts(a: Action, d: (Seq<char>, Seq<BlockView>)) -> bool {
    a matches Action::PostMessage { channel, blocks } && channel@ == d.0 && blocks_view(blocks@)
        == d.1
}

/// Whether an action ends the run with a given outcome.
pub open spec fn finishes(a: Action, outcome: Result<(), EveError>) -> bool {
    a == Action::Finish { outcome }
}

impl DeployRun {
    /// The run's own invariant: the moment is not before the epoch, and while
    /// delivering, at least one of the messages owed has been handed out.
    pub open spec fn wf(&self) -> bool {
        &&& self.now >= 0
        &&& self.stage == Stage::Delivering ==> 1 <= self.sent <= self.outbox@.len()
    }

    /// Whether the event belongs to the stage the run is in.
    pub open spec fn expects(&self, event: Event) -> bool {
        match event {
            Event::AccessTokenReceived(_) => self.stage == Stage::Authenticating,
            Event::ComparisonReceived(_) => self.stage == Stage::Fetching,
            Event::MessagePosted(_) => self.stage == Stage::Delivering,
        }
    }

    /// Starts a run at `now` (Unix seconds): signs an assertion for the
    /// application, valid for ten minutes, and goes on as `signed` says.
    pub fn start(params: &HandlePostDeployEvent, now: i64) -> (r: (DeployRun, Action))
        requires
            now >= 0,
        ensures
            r.0.wf(),
            r.0.now == now,
            r.0.outbox@.len() == 0,
            r.0.sent == 0,
            r.0.stage == Stage::Authenticating ==> (r.1 matches Action::RequestAccessToken {
                url,
                assertion,
            } && url@ == access_token_endpoint(params.github_app_install_id@) && assertion@
                == rs256_jwt(
                params.github_app_private_key@,
                now as u64,
                (now + ASSERTION_LIFETIME_SECS) as u64,
                params.github_app_id@,
            )),
            r.0.stage != Stage::Authenticating ==> (r.0.stage == Stage::Done && r.1 matches Action::Finish {
                outcome: Err(EveError::GitHubError(GitHubError::JsonWebTokenCreation(_))),
            }),
    {
        let assertion = generate_jwt(params.github_app_private_key, params.github_app_id, now as u64);
        DeployRun::signed(assertion, params, now)
    }

    /// Starts a run at `now` from the outcome of signing its assertion: with
    /// an assertion, the next thing to do is to exchange it for an access
    /// token; without one, the run ends with that error.
    pub fn signed(assertion: Result<String, GitHubError>, params: &HandlePostDeployEvent, now: i64) -> (r: (
        DeployRun,
        Action,
    ))
        requires
            now >= 0,
        ensures
            r.0.wf(),
            r.0.now == now,
            r.0.outbox@.len() == 0,
            r.0.sent == 0,
            match assertion {
                Ok(jwt) => {
                    &&& r.0.stage == Stage::Authenticating
                    &&& r.1 matches Action::RequestAccessToken { url, assertion } && url@
                        == access_token_endpoint(params.github_app_install_id@) && assertion@
                        == jwt@
                },
                Err(e) => r.0.stage == Stage::Done && finishes(r.1, Err(EveError::GitHubError(e))),
            },
    {
        let mut run = DeployRun { stage: Stage::Authenticating, now, outbox: Vec::new(), sent: 0 };
        match assertion {
            Ok(jwt) => {
                let a = Action::RequestAccessToken {
                    url: access_token_url(params.github_app_install_id),
                    assertion: jwt,
                };
                (run, a)
            },
            Err(e) => {
                let a = run.finish(Err(EveError::GitHubError(e)));
                (run, a)
            },
        }
    }

    /// Takes what came of the last action and decides the next one. The run
    /// stops at the first failure and reports it; once the comparison is in,
    /// it hands out the messages owed one by one, and ends with success after
    /// the last one was delivered. A failed delivery ends the run too: the
    /// authors after it are not notified.
    pub fn step(&mut self, params: &HandlePostDeployEvent, event: Event) -> (r: Action)
        requires
            old(self).wf(),
        ensures
            final(self).wf(),
            final(self).now == old(self).now,
            !(event is ComparisonReceived) ==> final(self).outbox == old(self).outbox,
            !old(self).expects(event) ==> final(self).stage == Stage::Done && finishes(
                r,
                Err(EveError::UnexpectedEvent),
            ),
            old(self).expects(event) ==> match event {
                Event::AccessTokenReceived(reply) => match access_token_outcome(reply) {
                    Ok(t) => {
                        &&& final(self).stage == Stage::Fetching
                        &&& r matches Action::FetchComparison { url, token } && url@
                            == compare_endpoint(
                            params.github_org@,
                            params.github_repo@,
                            params.github_ref_base@,
                            params.github_ref_head@,
                        ) && token@ == t.token@
                    },
                    Err(e) => final(self).stage == Stage::Done && finishes(
                        r,
                        Err(EveError::GitHubError(e)),
                    ),
                },
                Event::ComparisonReceived(reply) => match comparison_outcome(reply) {
                    Err(e) => final(self).stage == Stage::Done && finishes(
                        r,
                        Err(EveError::GitHubError(e)),
                    ),
                    Ok(c) => {
                        &&& forall|i: int|
                            first_failure(c.commits@, old(self).now, i) ==> final(self).stage
                                == Stage::Done && finishes(
                                r,
                                Err(summary_error(#[trigger] c.commits@[i])),
                            )
                        &&& all_summarizable(c.commits@, old(self).now) ==> {
                            let owed = planned(
                                grouped(summaries(c.commits@, old(self).now)),
                                params.github_slack_users@,
                                params.heroku_app_name@,
                                params.heroku_release@,
                                c.html_url@,
                            );
                            &&& deliveries_view(final(self).outbox@) == owed
                            &&& owed.len() == 0 ==> final(self).stage == Stage::Done && finishes(
                                r,
                                Ok(()),
                            )
                            &&& owed.len() > 0 ==> final(self).stage == Stage::Delivering
                                && final(self).sent == 1 && posts(r, owed[0])
                        }
                    },
                },
                Event::MessagePosted(reply) => match delivery_outcome(reply) {
                    Err(e) => final(self).stage == Stage::Done && finishes(
                        r,
                        Err(EveError::SlackError(e)),
                    ),
                    Ok(_) => {
                        &&& old(self).sent < old(self).outbox@.len() ==> {
                            &&& final(self).stage == Stage::Delivering
                            &&& final(self).sent == old(self).sent + 1
                            &&& posts(r, deliveries_view(old(self).outbox@)[old(self).sent as int])
                        }
                        &&& old(self).sent == old(self).outbox@.len() ==> final(self).stage
                            == Stage::Done && finishes(r, Ok(()))
                    },
                },
            },
    {
        match event {
            Event::AccessTokenReceived(reply) => {
                if self.stage != Stage::Authenticating {
                    return self.finish(Err(EveError::UnexpectedEvent));
                }
                match access_token_from_reply(reply) {
                    Ok(t) => {
                        self.stage = Stage::Fetching;
                        let url = compare_url(
                            &Compare {
                                private_key: params.github_app_private_key,
                                app_id: params.github_app_id,
                                install_id: params.github_app_install_id,
                                org: params.github_org,
                                repo: params.github_repo,
                                base: params.github_ref_base,
                                head: params.github_ref_head,
                            },
                        );
                        Action::FetchComparison { url, token: t.token }
                    },
                    Err(e) => self.finish(Err(EveError::GitHubError(e))),
                }
            },
            Event::ComparisonReceived(reply) => {
                if self.stage != Stage::Fetching {
                    return self.finish(Err(EveError::UnexpectedEvent));
                }
                let c = match comparison_from_reply(reply) {
                    Ok(c) => c,
                    Err(e) => {
                        return self.finish(Err(EveError::GitHubError(e)));
                    },
                };
                let buckets = match aggregate_commits(&c, self.now) {
                    Ok(b) => b,
                    Err(e) => {
                        return self.finish(Err(e));
                    },
                };
                self.outbox = plan_deliveries(
                    &buckets,
                    params.github_slack_users,
                    params.heroku_app_name,
                    params.heroku_release,
                    c.html_url.as_str(),
                );
                self.sent = 0;
                self.deliver_next()
            },
            Event::MessagePosted(reply) => {
                if self.stage != Stage::Delivering {
                    return self.finish(Err(EveError::UnexpectedEvent));
                }
                match delivery_from_reply(reply) {
                    Ok(()) => self.deliver_next(),
                    Err(e) => self.finish(Err(EveError::SlackError(e))),
                }
            },
        }
    }

    fn finish(&mut self, outcome: Result<(), EveError>) -> (r: Action)
        requires
            old(self).wf(),
        ensures
            final(self).wf(),
            final(self).stage == Stage::Done,
            final(self).now == old(self).now,
            final(self).outbox == old(self).outbox,
            final(self).sent == old(self).sent,
            finishes(r, outcome),
    {
        self.stage = Stage::Done;
        Action::Finish { outcome }
    }

    /// Hands out the next message owed, or ends the run with success once all
    /// have been handed out.
    fn deliver_next(&mut self) -> (r: Action)
        requires
            old(self).now >= 0,
            old(self).sent <= old(self).outbox@.len(),
        ensures
            final(self).wf(),
            final(self).now == old(self).now,
            final(self).outbox == old(self).outbox,
            old(self).sent < old(self).outbox@.len() ==> {
                &&& final(self).stage == Stage::Delivering
                &&& final(self).sent == old(self).sent + 1
                &&& posts(r, deliveries_view(old(self).outbox@)[old(self).sent as int])
            },
            old(self).sent == old(self).outbox@.len() ==> final(self).stage == Stage::Done
                && finishes(r, Ok(())),
    {
        if self.sent < self.outbox.len() {
            let d = &self.outbox[self.sent];
            let a = Action::PostMessage { channel: d.channel.clone(), blocks: clone_blocks(&d.blocks) };
            self.sent = self.sent + 1;
            self.stage = Stage::Delivering;
            a
        } else {
            self.stage = Stage::Done;
            Action::Finish { outcome: Ok(()) }
        }
    }
}

fn clone_blocks(blocks: &Vec<Block>) -> (r: Vec<Block>)
    ensures
        blocks_view(r@) == blocks_view(blocks@),
{
    let mut out: Vec<Block> = Vec::new();
    let n = blocks.len();
    let mut i: usize = 0;
    while i < n
        invariant
            n == blocks@.len(),
            i <= n,
            blocks_view(out@) == blocks_view(blocks@.take(i as int)),
        decreases n - i,
    {
        let b = match &blocks[i] {
            Block::Section { text } => Block::Section { text: text.clone() },
            Block::Divider => Block::Divider,
            Block::Context { elements } => Block::Context { elements: clone_texts(elements) },
        };
        let ghost before = out@;
        out.push(b);
        proof {
            assert(blocks@.take(i + 1) == blocks@.take(i as int).push(blocks@[i as int]));
            assert(blocks_view(out@) =~= blocks_view(before).push(b@));
            assert(blocks_view(blocks@.take(i + 1)) =~= blocks_view(blocks@.take(i as int)).push(
                blocks@[i as int]@,
            ));
        }
        i = i + 1;
    }
    proof {
        assert(blocks@.take(n as int) == blocks@);
    }
    out
}

fn clone_texts(texts: &Vec<String>) -> (r: Vec<String>)
    ensures
        r@ == texts@,
{
    let mut out: Vec<String> = Vec::new();
    let n = texts.len();
    let mut i: usize = 0;
    while i < n
        invariant
            n == texts@.len(),
            i <= n,
            out@ == texts@.take(i as int),
        decreases n - i,
    {
        out.push(texts[i].clone());
        proof {
            assert(texts@.take(i + 1) == texts@.take(i as int).push(texts@[i as int]));
        }
        i = i + 1;
    }
    proof {
        assert(texts@.take(n as int) == texts@);
    }
    out
}

} // verus!
