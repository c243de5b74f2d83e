//! Commit aggregation: one derived line per commit, grouped by author in the
//! order in which each author first appears.

use vstd::prelude::*;
use vstd::multiset::Multiset;
use crate::github::{CommitComparison, CommitNode};
use crate::text::{commit_title, short_sha, title_of, SHORT_SHA_LEN};
use crate::time::{humanized, parse_rfc3339, relative_time, rfc3339_seconds, span_in_range};
use crate::EveError;

verus! {

/// The derived line of one commit.
#[derive(Debug, Clone, PartialEq, Eq)]
pub struct CommitLine {
    pub author_id: i64,
    pub author_login: String,
    pub title: String,
    pub url: String,
    pub short_sha: String,
    pub relative_time: String,
}

/// A `CommitLine` as plain values.
pub struct CommitLineView {
    pub author_id: i64,
    pub author_login: Seq<char>,
    pub title: Seq<char>,
    pub url: Seq<char>,
    pub short_sha: Seq<char>,
    pub relative_time: Seq<char>,
}

impl View for CommitLine {
    type V = CommitLineView;

    open spec fn view(&self) -> CommitLineView {
        CommitLineView {
            author_id: self.author_id,
            author_login: self.author_login@,
            title: self.title@,
            url: self.url@,
            short_sha: self.short_sha@,
            relative_time: self.relative_time@,
        }
    }
}

/// The commits of one author, in the order of the comparison.
#[derive(Debug, Clone, PartialEq, Eq)]
pub struct AuthorBucket {
    pub author_id: i64,
    pub commits: Vec<CommitLine>,
}

impl View for AuthorBucket {
    type V = (i64, Seq<CommitLineView>);

    open spec fn view(&self) -> (i64, Seq<CommitLineView>) {
        (self.author_id, self.commits@.map_values(|c: CommitLine| c@))
    }
}

/// The views of a sequence of lines.
pub open spec fn lines_view(lines: Seq<CommitLine>) -> Seq<CommitLineView> {
    lines.map_values(|c: CommitLine| c@)
}

/// The views of a sequence of buckets.
pub open spec fn buckets_view(buckets: Seq<AuthorBucket>) -> Seq<(i64, Seq<CommitLineView>)> {
    buckets.map_values(|b: AuthorBucket| b@)
}

/// The authored date of a commit in Unix seconds, where it parses.
pub open spec fn authored_at(n: CommitNode) -> Option<i64> {
    rfc3339_seconds(n.commit.author.date@)
}

/// Whether a line can be derived for a commit at the moment `now`: its hash is
/// long enough, its date parses and lies within reach of `now`.
pub open spec fn summarizable(n: CommitNode, now: i64) -> bool {
    &&& n.sha@.len() >= SHORT_SHA_LEN
    &&& authored_at(n) is Some
    &&& span_in_range(authored_at(n)->0, now)
}

/// The line derived for a commit at the moment `now`.
pub open spec fn summary_of(n: CommitNode, now: i64) -> CommitLineView {
    CommitLineView {
        author_id: n.author.id,
        author_login: n.author.login@,
        title: title_of(n.commit.message@),
        url: n.html_url@,
        short_sha: n.sha@.take(SHORT_SHA_LEN as int),
        relative_time: humanized((authored_at(n)->0 - now) as i64),
    }
}

/// The error for a commit from which no line can be derived: the hash is
/// checked before the date.
pub open spec fn summary_error(n: CommitNode) -> EveError {
    if n.sha@.len() < SHORT_SHA_LEN {
        EveError::MalformedSha(n.sha)
    } else {
        EveError::TimestampParse(n.commit.author.date)
    }
}

/// Derives the line of one commit: its title, abbreviated hash and the time
/// since it was authored, seen from `now` (Unix seconds).
pub fn summarize_commit(node: &CommitNode, now: i64) -> (r: Result<CommitLine, EveError>)
    ensures
        summarizable(*node, now) ==> (r matches Ok(l) && l@ == summary_of(*node, now)),
        !summarizable(*node, now) ==> r == Err::<CommitLine, EveError>(summary_error(*node)),
{
    let sha = match short_sha(node.sha.as_str()) {
        Some(s) => s,
        None => {
            return Err(EveError::MalformedSha(node.sha.clone()));
        },
    };
    let at = match parse_rfc3339(node.commit.author.date.as_str()) {
        Some(t) => t,
        None => {
            return Err(EveError::TimestampParse(node.commit.author.date.clone()));
        },
    };
    let when = match relative_time(at, now) {
        Some(w) => w,
        None => {
            return Err(EveError::TimestampParse(node.commit.author.date.clone()));
        },
    };
    Ok(CommitLine {
        author_id: node.author.id,
        author_login: node.author.login.clone(),
        title: commit_title(node.commit.message.as_str()),
        url: node.html_url.clone(),
        short_sha: sha,
        relative_time: when,
    })
}

/// The distinct values of `ids`, each where it first appears.
pub open spec fn first_seen(ids: Seq<i64>) -> Seq<i64>
    decreases ids.len(),
{
    if ids.len() == 0 {
        Seq::empty()
    } else {
        let earlier = first_seen(ids.drop_last());
        if earlier.contains(ids.last()) {
            earlier
        } else {
            earlier.push(ids.last())
        }
    }
}

/// The author of each line, in order.
pub open spec fn author_ids(lines: Seq<CommitLineView>) -> Seq<i64> {
    lines.map_values(|l: CommitLineView| l.author_id)
}

/// The lines of one author, in their relative order.
pub open spec fn authored_by(lines: Seq<CommitLineView>, id: i64) -> Seq<CommitLineView> {
    lines.filter(|l: CommitLineView| l.author_id == id)
}

/// The lines grouped by author: one entry per distinct author, in the order of
/// first appearance, holding that author's lines in their relative order.
pub open spec fn grouped(lines: Seq<CommitLineView>) -> Seq<(i64, Seq<CommitLineView>)> {
    first_seen(author_ids(lines)).map_values(|id: i64| (id, authored_by(lines, id)))
}

/// The authors in order of first appearance are exactly the authors, each once.
pub proof fn lemma_first_seen(ids: Seq<i64>)
    ensures
        first_seen(ids).no_duplicates(),
        forall|a: i64| first_seen(ids).contains(a) <==> ids.contains(a),
    decreases ids.len(),
{
    if ids.len() > 0 {
        let init = ids.drop_last();
        lemma_first_seen(init);
        assert forall|a: i64| ids.contains(a) <==> (init.contains(a) || a == ids.last()) by {
            if ids.contains(a) {
                let k = choose|k: int| 0 <= k < ids.len() && ids[k] == a;
                if k < ids.len() - 1 {
                    assert(init[k] == a);
                }
            }
            if init.contains(a) {
                let k = choose|k: int| 0 <= k < init.len() && init[k] == a;
                assert(ids[k] == a);
            }
            if a == ids.last() {
                assert(ids[ids.len() - 1] == a);
            }
        }
        let earlier = first_seen(init);
        if !earlier.contains(ids.last()) {
            let pushed = earlier.push(ids.last());
            assert forall|a: i64| pushed.contains(a) <==> (earlier.contains(a) || a == ids.last()) by {
                if pushed.contains(a) {
                    let k = choose|k: int| 0 <= k < pushed.len() && pushed[k] == a;
                    if k < earlier.len() {
                        assert(earlier[k] == a);
                    }
                }
                if earlier.contains(a) {
                    let k = choose|k: int| 0 <= k < earlier.len() && earlier[k] == a;
                    assert(pushed[k] == a);
                }
                if a == ids.last() {
                    assert(pushed[earlier.len() as int] == a);
                }
            }
        }
    }
}

proof fn lemma_filter_push(s: Seq<CommitLineView>, x: CommitLineView, id: i64)
    ensures
        authored_by(s.push(x), id) == if x.author_id == id {
            authored_by(s, id).push(x)
        } else {
            authored_by(s, id)
        },
{
    reveal(Seq::filter);
    assert(s.push(x).drop_last() == s);
}

proof fn lemma_filter_absent(s: Seq<CommitLineView>, id: i64)
    requires
        !author_ids(s).contains(id),
    ensures
        authored_by(s, id).len() == 0,
    decreases s.len(),
{
    if s.len() > 0 {
        let init = s.drop_last();
        assert(s == init.push(s.last()));
        assert(author_ids(s)[s.len() - 1] == s.last().author_id);
        assert forall|k: int| 0 <= k < init.len() implies author_ids(init)[k] != id by {
            assert(author_ids(s)[k] == author_ids(init)[k]);
        }
        lemma_filter_absent(init, id);
        lemma_filter_push(init, s.last(), id);
    }
}

/// How the grouping grows by one line.
proof fn lemma_grouped_push(s: Seq<CommitLineView>, x: CommitLineView)
    ensures
        first_seen(author_ids(s)).contains(x.author_id) ==> {
            let j = first_seen(author_ids(s)).index_of(x.author_id);
            grouped(s.push(x)) == grouped(s).update(j, (x.author_id, grouped(s)[j].1.push(x)))
        },
        !first_seen(author_ids(s)).contains(x.author_id) ==> grouped(s.push(x)) == grouped(
            s,
        ).push((x.author_id, seq![x])),
{
    let ids = author_ids(s);
    let ids2 = author_ids(s.push(x));
    assert(ids2.drop_last() == ids);
    assert(ids2.last() == x.author_id);
    let keys = first_seen(ids);
    lemma_first_seen(ids);
    assert forall|id: i64| #[trigger] authored_by(s.push(x), id) == (if x.author_id == id {
        authored_by(s, id).push(x)
    } else {
        authored_by(s, id)
    }) by {
        lemma_filter_push(s, x, id);
    }
    if keys.contains(x.author_id) {
        let j = keys.index_of(x.author_id);
        assert forall|k: int| 0 <= k < keys.len() && k != j implies keys[k] != x.author_id by {}
        assert(grouped(s.push(x)) =~= grouped(s).update(j, (x.author_id, grouped(s)[j].1.push(x))));
    } else {
        lemma_filter_absent(s, x.author_id);
        assert(authored_by(s, x.author_id) =~= Seq::<CommitLineView>::empty());
        assert(grouped(s.push(x)) =~= grouped(s).push((x.author_id, seq![x])));
    }
}

/// Every line held by a grouping, counted with multiplicity.
pub open spec fn all_lines(groups: Seq<(i64, Seq<CommitLineView>)>) -> Multiset<CommitLineView>
    decreases groups.len(),
{
    if groups.len() == 0 {
        Multiset::empty()
    } else {
        all_lines(groups.drop_last()).add(groups.last().1.to_multiset())
    }
}

proof fn lemma_all_lines_update(
    g: Seq<(i64, Seq<CommitLineView>)>,
    j: int,
    x: CommitLineView,
)
    requires
        0 <= j < g.len(),
    ensures
        all_lines(g.update(j, (g[j].0, g[j].1.push(x)))) == all_lines(g).insert(x),
    decreases g.len(),
{
    let u = g.update(j, (g[j].0, g[j].1.push(x)));
    g[j].1.to_multiset_ensures();
    if j == g.len() - 1 {
        assert(u.drop_last() == g.drop_last());
    } else {
        lemma_all_lines_update(g.drop_last(), j, x);
        assert(u.drop_last() == g.drop_last().update(j, (g[j].0, g[j].1.push(x))));
    }
    assert(all_lines(u) =~= all_lines(g).insert(x));
}

/// Grouping loses and duplicates nothing: there is one entry for each distinct
/// author, no author has two, and the entries together hold exactly the lines
/// that were grouped, each as often as it occurs.
pub proof fn lemma_grouping_partitions(lines: Seq<CommitLineView>)
    ensures
        grouped(lines).len() == author_ids(lines).to_set().len(),
        forall|j: int, k: int|
            0 <= j < k < grouped(lines).len() ==> grouped(lines)[j].0 != grouped(lines)[k].0,
        all_lines(grouped(lines)) == lines.to_multiset(),
    decreases lines.len(),
{
    let ids = author_ids(lines);
    lemma_first_seen(ids);
    assert(first_seen(ids).to_set() =~= ids.to_set());
    first_seen(ids).unique_seq_to_set();
    if lines.len() > 0 {
        let init = lines.drop_last();
        let x = lines.last();
        assert(lines == init.push(x));
        lemma_grouping_partitions(init);
        lemma_grouped_push(init, x);
        init.to_multiset_ensures();
        lemma_first_seen(author_ids(init));
        let g = grouped(init);
        if first_seen(author_ids(init)).contains(x.author_id) {
            let j = first_seen(author_ids(init)).index_of(x.author_id);
            lemma_all_lines_update(g, j, x);
        } else {
            assert(grouped(lines).drop_last() == g);
            assert(seq![x].to_multiset() =~= Multiset::singleton(x)) by {
                Seq::<CommitLineView>::empty().to_multiset_ensures();
                assert(seq![x] == Seq::<CommitLineView>::empty().push(x));
            }
            assert(all_lines(grouped(lines)) =~= all_lines(g).insert(x));
        }
    } else {
        assert(grouped(lines) =~= Seq::<(i64, Seq<CommitLineView>)>::empty());
        assert(lines.to_multiset() =~= Multiset::<CommitLineView>::empty()) by {
            lines.to_multiset_ensures();
        }
    }
}

/// Grouping keeps each author's order: the bucket of an author holds that
/// author's lines in their relative order, so the lines from an earlier part
/// of a range come before those from a later part, and the bucket holds only
/// and all the lines of its author.
pub proof fn lemma_bucket_keeps_order(
    earlier: Seq<CommitLineView>,
    later: Seq<CommitLineView>,
    j: int,
)
    requires
        0 <= j < grouped(earlier + later).len(),
    ensures
        ({
            let (id, bucket) = grouped(earlier + later)[j];
            &&& bucket == authored_by(earlier, id) + authored_by(later, id)
            &&& forall|k: int| 0 <= k < bucket.len() ==> (#[trigger] bucket[k]).author_id == id
            &&& forall|l: CommitLineView|
                (earlier + later).contains(l) && l.author_id == id ==> bucket.contains(l)
        }),
{
    let lines = earlier + later;
    let (id, bucket) = grouped(lines)[j];
    let pred = |l: CommitLineView| l.author_id == id;
    Seq::filter_distributes_over_add(earlier, later, pred);
    assert forall|k: int| 0 <= k < bucket.len() implies (#[trigger] bucket[k]).author_id == id by {
        lines.lemma_filter_pred(pred, k);
    }
    assert forall|l: CommitLineView| lines.contains(l) && l.author_id == id implies bucket.contains(
        l,
    ) by {
        let i = choose|i: int| 0 <= i < lines.len() && lines[i] == l;
        lines.lemma_filter_contains(pred, i);
    }
}

/// Groups lines by author: one bucket per distinct author, in the order in
/// which each first appears, holding that author's lines in their order.
pub fn group_by_author(lines: Vec<CommitLine>) -> (r: Vec<AuthorBucket>)
    ensures
        buckets_view(r@) == grouped(lines_view(lines@)),
{
    let ghost all = lines_view(lines@);
    let mut buckets: Vec<AuthorBucket> = Vec::new();
    for line in it: lines.into_iter()
        invariant
            it.seq() == lines@,
            all == lines_view(lines@),
            buckets_view(buckets@) == grouped(all.take(it.index())),
    {
        let ghost done = all.take(it.index());
        let ghost keys = first_seen(author_ids(done));
        proof {
            assert(all.take(it.index() + 1) == done.push(line@));
            lemma_grouped_push(done, line@);
            lemma_first_seen(author_ids(done));
            assert(buckets_view(buckets@).len() == buckets@.len());
            assert(grouped(done).len() == keys.len());
            assert forall|k: int| 0 <= k < buckets@.len() implies buckets@[k].author_id == keys[k] by {
                assert(buckets_view(buckets@)[k] == grouped(done)[k]);
            }
        }
        let mut j: usize = 0;
        while j < buckets.len() && buckets[j].author_id != line.author_id
            invariant
                j <= buckets@.len(),
                buckets@.len() == keys.len(),
                forall|k: int| 0 <= k < buckets@.len() ==> buckets@[k].author_id == keys[k],
                forall|k: int| 0 <= k < j ==> keys[k] != line.author_id,
            decreases buckets@.len() - j,
        {
            j = j + 1;
        }
        let id = line.author_id;
        let ghost before = buckets@;
        let ghost l = line@;
        if j < buckets.len() {
            let mut b = buckets.remove(j);
            b.commits.push(line);
            buckets.insert(j, b);
            proof {
                assert(keys[j as int] == id);
                assert(keys.contains(id));
                let at = keys.index_of(id);
                assert(keys[at] == id);
                assert(at == j);
                assert(buckets@ =~= before.update(j as int, b));
                assert(b@.1 =~= before[j as int]@.1.push(l));
                assert(buckets_view(buckets@) =~= buckets_view(before).update(
                    j as int,
                    (id, buckets_view(before)[j as int].1.push(l)),
                ));
            }
        } else {
            let mut commits: Vec<CommitLine> = Vec::new();
            commits.push(line);
            let b = AuthorBucket { author_id: id, commits };
            buckets.push(b);
            proof {
                assert(!keys.contains(id));
                assert(b@.1 =~= seq![l]);
                assert(buckets_view(buckets@) =~= buckets_view(before).push((id, seq![l])));
            }
        }
    }
    proof {
        assert(all.take(all.len() as int) == all);
    }
    buckets
}

/// The lines derived for a sequence of commits at the moment `now`.
pub open spec fn summaries(nodes: Seq<CommitNode>, now: i64) -> Seq<CommitLineView> {
    nodes.map_values(|n: CommitNode| summary_of(n, now))
}

/// Whether a line can be derived for every commit.
pub open spec fn all_summarizable(nodes: Seq<CommitNode>, now: i64) -> bool {
    forall|i: int| 0 <= i < nodes.len() ==> summarizable(#[trigger] nodes[i], now)
}

/// Whether `i` is the first commit from which no line can be derived.
pub open spec fn first_failure(nodes: Seq<CommitNode>, now: i64, i: int) -> bool {
    &&& 0 <= i < nodes.len()
    &&& !summarizable(nodes[i], now)
    &&& forall|k: int| 0 <= k < i ==> summarizable(#[trigger] nodes[k], now)
}

/// Derives the line of every commit, in order; stops at the first commit from
/// which none can be derived and returns its error.
pub fn summarize_commits(nodes: &Vec<CommitNode>, now: i64) -> (r: Result<Vec<CommitLine>, EveError>)
    ensures
        all_summarizable(nodes@, now) ==> (r matches Ok(v) && lines_view(v@) == summaries(
            nodes@,
            now,
        )),
        forall|i: int|
            first_failure(nodes@, now, i) ==> r == Err::<Vec<CommitLine>, EveError>(
                summary_error(#[trigger] nodes@[i]),
            ),
{
    let mut lines: Vec<CommitLine> = Vec::new();
    let n = nodes.len();
    let mut i: usize = 0;
    while i < n
        invariant
            n == nodes@.len(),
            i <= n,
            forall|k: int| 0 <= k < i ==> summarizable(#[trigger] nodes@[k], now),
            lines_view(lines@) == summaries(nodes@.take(i as int), now),
        decreases n - i,
    {
        match summarize_commit(&nodes[i], now) {
            Ok(line) => {
                let ghost before = lines@;
                lines.push(line);
                proof {
                    assert(nodes@.take(i + 1) == nodes@.take(i as int).push(nodes@[i as int]));
                    assert(lines_view(lines@) =~= lines_view(before).push(line@));
                    assert(summaries(nodes@.take(i + 1), now) =~= summaries(
                        nodes@.take(i as int),
                        now,
                    ).push(summary_of(nodes@[i as int], now)));
                }
            },
            Err(e) => {
                proof {
                    assert forall|j: int| first_failure(nodes@, now, j) implies j == i by {
                        if j < i {
                            assert(summarizable(nodes@[j], now));
                        }
                        if j > i {
                            assert(summarizable(nodes@[i as int], now));
                        }
                    }
                }
                return Err(e);
            },
        }
        i = i + 1;
    }
    proof {
        assert(nodes@.take(n as int) == nodes@);
        assert forall|j: int| !first_failure(nodes@, now, j) by {}
    }
    Ok(lines)
}

/// Aggregates a comparison at the moment `now`: derives the line of every
/// commit and groups the lines by author. Fails with the error of the first
/// commit from which no line can be derived.
pub fn aggregate_commits(comparison: &CommitComparison, now: i64) -> (r: Result<
    Vec<AuthorBucket>,
    EveError,
>)
    ensures
        all_summarizable(comparison.commits@, now) ==> (r matches Ok(b) && buckets_view(b@)
            == grouped(summaries(comparison.commits@, now))),
        forall|i: int|
            first_failure(comparison.commits@, now, i) ==> r == Err::<Vec<AuthorBucket>, EveError>(
                summary_error(#[trigger] comparison.commits@[i]),
            ),
{
    match summarize_commits(&comparison.commits, now) {
        Ok(lines) => Ok(group_by_author(lines)),
        Err(e) => Err(e),
    }
}

} // verus!
