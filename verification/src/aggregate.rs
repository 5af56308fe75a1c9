//! Folding interactions into a digest grouped by repository and topic.

use vstd::prelude::*;
use crate::action::{Action, ActionSet};
use crate::assoc::{
    ascending, assoc, lemma_ascending_distinct, lemma_ascending_unique, lemma_assoc_at,
    lemma_assoc_insert, lemma_assoc_update, strict_order,
};
use crate::classify::{Interaction, InteractionView};
use crate::text::{
    lemma_lex_irreflexive, lemma_lex_transitive, lex_less, lex_order, Order,
};
use crate::topic::{Repo, RepoView, Topic, TopicView};

verus! {

/// A topic with the kinds of interaction recorded for it.
pub struct TopicGroup {
    pub topic: TopicView,
    pub actions: Set<Action>,
}

/// A repository with the topics recorded in it, by number.
pub struct RepoGroup {
    pub repo: RepoView,
    pub topics: Map<u64, TopicGroup>,
}

/// A digest: the repositories touched, by name.
pub type Digest = Map<Seq<char>, RepoGroup>;

/// The topics of a repository after one more interaction with `topic`.
///
/// A topic seen for the first time enters as it is; one seen before keeps
/// the locator and title it entered with. Either way `action` joins its set
/// of kinds.
pub open spec fn merged_topics(topics: Map<u64, TopicGroup>, topic: TopicView, action: Action) -> Map<
    u64,
    TopicGroup,
> {
    let seen = if topics.dom().contains(topic.number) {
        topics[topic.number]
    } else {
        TopicGroup { topic, actions: Set::empty() }
    };
    topics.insert(topic.number, TopicGroup { topic: seen.topic, actions: seen.actions.insert(action) })
}

/// The digest after one more interaction.
///
/// A repository seen for the first time enters as it is; one seen before
/// keeps the locator it entered with.
pub open spec fn merged(d: Digest, i: InteractionView) -> Digest {
    let seen = if d.dom().contains(i.repo.name) {
        d[i.repo.name]
    } else {
        RepoGroup { repo: i.repo, topics: Map::empty() }
    };
    d.insert(
        i.repo.name,
        RepoGroup { repo: seen.repo, topics: merged_topics(seen.topics, i.topic, i.action) },
    )
}

/// The digest after a sequence of interactions, folded in from the left.
pub open spec fn merged_all(d: Digest, items: Seq<InteractionView>) -> Digest
    decreases items.len(),
{
    if items.len() == 0 {
        d
    } else {
        merged(merged_all(d, items.drop_last()), items.last())
    }
}

/// Folding the same interaction in twice gives what folding it in once
/// gives.
pub proof fn lemma_merge_idempotent(d: Digest, i: InteractionView)
    ensures
        merged(merged(d, i), i) == merged(d, i),
{
    let once = merged(d, i);
    let twice = merged(once, i);
    let t1 = once[i.repo.name].topics;
    let t2 = twice[i.repo.name].topics;
    assert(t1[i.topic.number].actions.insert(i.action) =~= t1[i.topic.number].actions);
    assert(t2 =~= t1);
    assert(twice =~= once);
}

/// A second interaction with a topic already in the digest keeps the
/// topic's entry as it is and adds the new kind to its set: the digest holds
/// one entry for the topic, with both kinds.
pub proof fn lemma_merge_accumulates(d: Digest, i: InteractionView, j: InteractionView)
    requires
        i.repo.name == j.repo.name,
        i.topic.number == j.topic.number,
    ensures
        merged(merged(d, i), j).dom() == merged(d, i).dom(),
        merged(merged(d, i), j)[i.repo.name].repo == merged(d, i)[i.repo.name].repo,
        merged(merged(d, i), j)[i.repo.name].topics.dom() == merged(d, i)[i.repo.name].topics.dom(),
        merged(merged(d, i), j)[i.repo.name].topics[i.topic.number].topic == merged(
            d,
            i,
        )[i.repo.name].topics[i.topic.number].topic,
        merged(merged(d, i), j)[i.repo.name].topics[i.topic.number].actions == merged(
            d,
            i,
        )[i.repo.name].topics[i.topic.number].actions.insert(j.action),
        merged(merged(d, i), j)[i.repo.name].topics[i.topic.number].actions.contains(i.action),
        merged(merged(d, i), j)[i.repo.name].topics[i.topic.number].actions.contains(j.action),
{
    let once = merged(d, i);
    let twice = merged(once, j);
    assert(twice.dom() =~= once.dom());
    assert(twice[i.repo.name].topics.dom() =~= once[i.repo.name].topics.dom());
}

/// Whether two interactions carry the same locators and title wherever they
/// speak of the same repository or the same topic of it.
pub open spec fn agree(i: InteractionView, j: InteractionView) -> bool {
    i.repo.name == j.repo.name ==> i.repo == j.repo && (i.topic.number == j.topic.number
        ==> i.topic == j.topic)
}

/// The order in which two interactions are folded in does not matter, as
/// long as they agree on what rides along with the keys.
pub proof fn lemma_merge_commutes(d: Digest, i: InteractionView, j: InteractionView)
    requires
        agree(i, j),
    ensures
        merged(merged(d, i), j) == merged(merged(d, j), i),
{
    let ij = merged(merged(d, i), j);
    let ji = merged(merged(d, j), i);
    assert(ij.dom() =~= ji.dom());
    if i.repo.name == j.repo.name {
        let a = ij[i.repo.name].topics;
        let b = ji[i.repo.name].topics;
        assert(a.dom() =~= b.dom());
        if i.topic.number == j.topic.number {
            assert(a[i.topic.number].actions =~= b[i.topic.number].actions);
        }
        assert(a =~= b);
    }
    assert(ij =~= ji);
}

/// Exchanging two neighbours in a sequence of interactions does not change
/// the digest they fold to, as long as the two agree on what rides along
/// with the keys. Any reordering is a chain of such exchanges.
pub proof fn lemma_fold_swap(d: Digest, items: Seq<InteractionView>, k: int)
    requires
        0 <= k,
        k + 1 < items.len(),
        agree(items[k], items[k + 1]),
    ensures
        merged_all(d, items) == merged_all(
            d,
            items.update(k, items[k + 1]).update(k + 1, items[k]),
        ),
    decreases items.len(),
{
    let swapped = items.update(k, items[k + 1]).update(k + 1, items[k]);
    if k + 2 == items.len() {
        let head = items.drop_last().drop_last();
        assert(swapped.drop_last().drop_last() =~= head);
        assert(items.drop_last().last() == items[k]);
        assert(swapped.drop_last().last() == items[k + 1]);
        assert(merged_all(d, items.drop_last()) == merged(merged_all(d, head), items[k]));
        assert(merged_all(d, swapped.drop_last()) == merged(merged_all(d, head), items[k + 1]));
        assert(merged_all(d, items) == merged(merged_all(d, items.drop_last()), items[k + 1]));
        assert(merged_all(d, swapped) == merged(merged_all(d, swapped.drop_last()), items[k]));
        lemma_merge_commutes(merged_all(d, head), items[k], items[k + 1]);
    } else {
        let head = items.drop_last();
        assert(swapped.drop_last() =~= head.update(k, head[k + 1]).update(k + 1, head[k]));
        assert(swapped.last() == items.last());
        lemma_fold_swap(d, head, k);
        assert(merged_all(d, swapped) == merged(merged_all(d, swapped.drop_last()), items.last()));
    }
}

/// Whichever way two interactions are folded in, the digest holds the same
/// repositories, the same topics and the same kinds for each topic.
pub proof fn lemma_merge_keys_commute(d: Digest, i: InteractionView, j: InteractionView)
    ensures
        merged(merged(d, i), j).dom() == merged(merged(d, j), i).dom(),
        forall|name: Seq<char>| #[trigger]
            merged(merged(d, i), j).dom().contains(name) ==> merged(merged(d, i), j)[name].topics.dom()
                == merged(merged(d, j), i)[name].topics.dom(),
        forall|name: Seq<char>, n: u64|
            merged(merged(d, i), j).dom().contains(name) && #[trigger] merged(
                merged(d, i),
                j,
            )[name].topics.dom().contains(n) ==> merged(merged(d, i), j)[name].topics[n].actions
                == merged(merged(d, j), i)[name].topics[n].actions,
{
    let ij = merged(merged(d, i), j);
    let ji = merged(merged(d, j), i);
    assert(ij.dom() =~= ji.dom());
    assert forall|name: Seq<char>| #[trigger] ij.dom().contains(name) implies ij[name].topics.dom()
        == ji[name].topics.dom() by {
        assert(ij[name].topics.dom() =~= ji[name].topics.dom());
    }
    assert forall|name: Seq<char>, n: u64|
        ij.dom().contains(name) && #[trigger] ij[name].topics.dom().contains(
            n,
        ) implies ij[name].topics[n].actions == ji[name].topics[n].actions by {
        assert(ij[name].topics[n].actions =~= ji[name].topics[n].actions);
    }
}

/// The order of topic numbers.
pub open spec fn number_less() -> spec_fn(u64, u64) -> bool {
    |a: u64, b: u64| a < b
}

/// The order of repository names.
pub open spec fn name_less() -> spec_fn(Seq<char>, Seq<char>) -> bool {
    |a: Seq<char>, b: Seq<char>| lex_less(a, b)
}

/// Topic numbers are strictly ordered.
pub proof fn lemma_number_order()
    ensures
        strict_order(number_less()),
{
}

/// Repository names are strictly ordered.
pub proof fn lemma_name_order()
    ensures
        strict_order(name_less()),
{
    let less = name_less();
    assert forall|x: Seq<char>| !#[trigger] less(x, x) by {
        lemma_lex_irreflexive(x);
    }
    assert forall|x: Seq<char>, y: Seq<char>, z: Seq<char>| #[trigger]
        less(x, y) && #[trigger] less(y, z) implies less(x, z) by {
        lemma_lex_transitive(x, y, z);
    }
}

/// A repository of a digest, with its topics in display order.
pub struct RepoListing {
    pub repo: RepoView,
    pub topics: Seq<TopicGroup>,
}

/// The numbers of a sequence of topics.
pub open spec fn topic_numbers(l: Seq<TopicGroup>) -> Seq<u64> {
    Seq::new(l.len(), |j: int| l[j].topic.number)
}

/// Whether `l` holds exactly the topics of `m`, by ascending number.
pub open spec fn lists_topics(l: Seq<TopicGroup>, m: Map<u64, TopicGroup>) -> bool {
    &&& ascending(topic_numbers(l), number_less())
    &&& m == assoc(topic_numbers(l), l)
}

/// The topics of `m` by ascending number.
pub open spec fn topics_in_order(m: Map<u64, TopicGroup>) -> Seq<TopicGroup> {
    choose|l: Seq<TopicGroup>| lists_topics(l, m)
}

/// The names of a sequence of repositories.
pub open spec fn repo_names(l: Seq<RepoListing>) -> Seq<Seq<char>> {
    Seq::new(l.len(), |i: int| l[i].repo.name)
}

/// The group that a listed repository stands for.
pub open spec fn group_of(r: RepoListing) -> RepoGroup {
    RepoGroup { repo: r.repo, topics: assoc(topic_numbers(r.topics), r.topics) }
}

/// The groups of a sequence of repositories.
pub open spec fn repo_groups(l: Seq<RepoListing>) -> Seq<RepoGroup> {
    Seq::new(l.len(), |i: int| group_of(l[i]))
}

/// Whether `l` holds exactly the repositories of `d`, by ascending name, and
/// each one's topics by ascending number.
pub open spec fn lists_repos(l: Seq<RepoListing>, d: Digest) -> bool {
    &&& ascending(repo_names(l), name_less())
    &&& forall|i: int|
        0 <= i < l.len() ==> ascending(topic_numbers(#[trigger] l[i].topics), number_less())
    &&& d == assoc(repo_names(l), repo_groups(l))
}

/// The repositories of `d` by ascending name, each with its topics by
/// ascending number: the order in which a digest is displayed.
pub open spec fn repos_in_order(d: Digest) -> Seq<RepoListing> {
    choose|l: Seq<RepoListing>| lists_repos(l, d)
}

/// A set of topics has one listing only.
pub proof fn lemma_topic_listing_unique(a: Seq<TopicGroup>, b: Seq<TopicGroup>, m: Map<u64, TopicGroup>)
    requires
        lists_topics(a, m),
        lists_topics(b, m),
    ensures
        a == b,
{
    let na = topic_numbers(a);
    let nb = topic_numbers(b);
    lemma_number_order();
    lemma_ascending_distinct(na, number_less());
    lemma_ascending_distinct(nb, number_less());
    assert forall|k: u64| na.contains(k) <==> nb.contains(k) by {
        assert(assoc(na, a).dom().contains(k) == na.contains(k));
        assert(assoc(nb, b).dom().contains(k) == nb.contains(k));
    }
    lemma_ascending_unique(na, nb, number_less());
    assert(a.len() == na.len() && b.len() == nb.len());
    assert forall|i: int| 0 <= i < a.len() implies a[i] == b[i] by {
        lemma_assoc_at(na, a, i);
        lemma_assoc_at(nb, b, i);
    }
    assert(a =~= b);
}

/// A digest has one listing only.
pub proof fn lemma_repo_listing_unique(a: Seq<RepoListing>, b: Seq<RepoListing>, d: Digest)
    requires
        lists_repos(a, d),
        lists_repos(b, d),
    ensures
        a == b,
{
    let na = repo_names(a);
    let nb = repo_names(b);
    lemma_name_order();
    lemma_ascending_distinct(na, name_less());
    lemma_ascending_distinct(nb, name_less());
    assert forall|k: Seq<char>| na.contains(k) <==> nb.contains(k) by {
        assert(assoc(na, repo_groups(a)).dom().contains(k) == na.contains(k));
        assert(assoc(nb, repo_groups(b)).dom().contains(k) == nb.contains(k));
    }
    lemma_ascending_unique(na, nb, name_less());
    assert(a.len() == na.len() && b.len() == nb.len());
    assert forall|i: int| 0 <= i < a.len() implies a[i] == b[i] by {
        lemma_assoc_at(na, repo_groups(a), i);
        lemma_assoc_at(nb, repo_groups(b), i);
        assert(group_of(a[i]) == group_of(b[i]));
        lemma_topic_listing_unique(a[i].topics, b[i].topics, group_of(a[i]).topics);
    }
    assert(a =~= b);
}

/// One topic of a repository and the kinds recorded for it.
#[derive(Clone, Debug)]
struct TopicEntry {
    topic: Topic,
    actions: ActionSet,
}

impl View for TopicEntry {
    type V = TopicGroup;

    closed spec fn view(&self) -> TopicGroup {
        TopicGroup { topic: self.topic@, actions: self.actions@ }
    }
}

/// One repository of a digest and the topics recorded in it, held by
/// ascending number.
#[derive(Clone, Debug)]
struct RepoEntry {
    repo: Repo,
    topics: Vec<TopicEntry>,
}

impl RepoEntry {
    /// The topics in the order they are held.
    spec fn groups(&self) -> Seq<TopicGroup> {
        Seq::new(self.topics@.len(), |j: int| self.topics@[j]@)
    }

    /// Whether the topics are held by ascending number.
    spec fn wf(&self) -> bool {
        ascending(topic_numbers(self.groups()), number_less())
    }

    /// The repository with its topics in the order they are held.
    spec fn listing(&self) -> RepoListing {
        RepoListing { repo: self.repo@, topics: self.groups() }
    }

    fn new(repo: Repo) -> (e: RepoEntry)
        ensures
            e.wf(),
            e.listing() == (RepoListing { repo: repo@, topics: Seq::empty() }),
    {
        let e = RepoEntry { repo, topics: Vec::new() };
        assert(e.groups() =~= Seq::empty());
        e
    }

    /// The place of the topic `number`: where it is held, or where it would
    /// have to enter.
    fn locate(&self, number: u64) -> (r: (usize, bool))
        requires
            self.wf(),
        ensures
            r.0 <= self.groups().len(),
            r.1 ==> r.0 < self.groups().len() && self.groups()[r.0 as int].topic.number == number,
            !r.1 ==> !topic_numbers(self.groups()).contains(number),
            forall|j: int| 0 <= j < r.0 ==> self.groups()[j].topic.number < number,
            !r.1 ==> forall|j: int|
                r.0 <= j < self.groups().len() ==> number < self.groups()[j].topic.number,
    {
        let ghost numbers = topic_numbers(self.groups());
        let mut i: usize = 0;
        while i < self.topics.len()
            invariant
                i <= self.topics.len(),
                self.wf(),
                numbers == topic_numbers(self.groups()),
                forall|j: int| 0 <= j < i ==> self.groups()[j].topic.number < number,
            decreases self.topics.len() - i,
        {
            let here = self.topics[i].topic.number;
            assert(here == numbers[i as int]);
            if here == number {
                return (i, true);
            }
            if number < here {
                assert forall|j: int| i <= j < self.groups().len() implies number < self.groups()[j].topic.number by {
                    if i < j {
                        assert(number_less()(numbers[i as int], numbers[j]));
                    }
                }
                assert(!numbers.contains(number)) by {
                    if numbers.contains(number) {
                        let j = numbers.index_of(number);
                        assert(0 <= j < numbers.len() && numbers[j] == number);
                    }
                }
                return (i, false);
            }
            i = i + 1;
        }
        assert(!numbers.contains(number)) by {
            if numbers.contains(number) {
                let j = numbers.index_of(number);
                assert(0 <= j < numbers.len() && numbers[j] == number);
            }
        }
        (i, false)
    }

    /// Records one more interaction with `topic`.
    fn record(&mut self, topic: Topic, action: Action)
        requires
            old(self).wf(),
        ensures
            final(self).wf(),
            final(self).listing().repo == old(self).listing().repo,
            group_of(final(self).listing()).topics == merged_topics(
                group_of(old(self).listing()).topics,
                topic@,
                action,
            ),
    {
        let ghost before = self.groups();
        let ghost numbers = topic_numbers(before);
        proof {
            lemma_number_order();
            lemma_ascending_distinct(numbers, number_less());
        }
        let (i, found) = self.locate(topic.number);
        if found {
            self.topics[i].actions.insert(action);
            proof {
                let now = TopicGroup {
                    topic: before[i as int].topic,
                    actions: before[i as int].actions.insert(action),
                };
                assert(self.groups() =~= before.update(i as int, now));
                assert(topic_numbers(self.groups()) =~= numbers);
                lemma_assoc_at(numbers, before, i as int);
                lemma_assoc_update(numbers, before, i as int, now);
            }
        } else {
            let ghost entered = TopicGroup {
                topic: topic@,
                actions: Set::<Action>::empty().insert(action),
            };
            let entry = TopicEntry { topic, actions: ActionSet::single(action) };
            self.topics.insert(i, entry);
            proof {
                assert(self.groups() =~= before.insert(i as int, entered));
                assert(topic_numbers(self.groups()) =~= numbers.insert(i as int, entered.topic.number));
                lemma_assoc_insert(numbers, before, i as int, entered.topic.number, entered);
                let after = topic_numbers(self.groups());
                assert forall|p: int, q: int| 0 <= p < q < after.len() implies number_less()(
                    #[trigger] after[p],
                    #[trigger] after[q],
                ) by {
                    let pp = if p < i {
                        p
                    } else {
                        p - 1
                    };
                    let qq = if q < i {
                        q
                    } else {
                        q - 1
                    };
                    if p != i && q != i {
                        assert(number_less()(numbers[pp], numbers[qq]));
                    }
                }
            }
        }
    }
}

/// The digest of a run: every repository touched, every topic touched in
/// it, and the kinds of interaction recorded for each topic.
///
/// Repositories are held by ascending name, so that walking the digest
/// does not depend on the order in which interactions came in.
#[derive(Clone, Debug)]
pub struct Aggregator {
    repos: Vec<RepoEntry>,
}

impl View for Aggregator {
    type V = Digest;

    closed spec fn view(&self) -> Digest {
        assoc(repo_names(self.listing()), repo_groups(self.listing()))
    }
}

impl Aggregator {
    /// The repositories in the order they are held.
    pub closed spec fn listing(&self) -> Seq<RepoListing> {
        Seq::new(self.repos@.len(), |i: int| self.repos@[i].listing())
    }

    /// Whether repositories are held by ascending name and the topics of
    /// each by ascending number.
    pub closed spec fn wf(&self) -> bool {
        &&& ascending(repo_names(self.listing()), name_less())
        &&& forall|i: int| 0 <= i < self.repos@.len() ==> (#[trigger] self.repos@[i]).wf()
    }

    /// A well-formed aggregator holds its digest in display order.
    pub proof fn lemma_listing(&self)
        requires
            self.wf(),
        ensures
            lists_repos(self.listing(), self@),
            self.listing() == repos_in_order(self@),
    {
        let l = self.listing();
        assert forall|i: int| 0 <= i < l.len() implies ascending(
            topic_numbers(#[trigger] l[i].topics),
            number_less(),
        ) by {
            assert(self.repos@[i].wf());
        }
        assert(lists_repos(l, self@));
        lemma_repo_listing_unique(l, repos_in_order(self@), self@);
    }

    /// The empty digest.
    pub fn new() -> (agg: Aggregator)
        ensures
            agg.wf(),
            agg@ == Map::<Seq<char>, RepoGroup>::empty(),
    {
        let agg = Aggregator { repos: Vec::new() };
        assert(agg.listing() =~= Seq::empty());
        assert(agg@ =~= Map::<Seq<char>, RepoGroup>::empty());
        agg
    }

    /// The place of the repository `name`: where it is held, or where it
    /// would have to enter.
    fn locate(&self, name: &str) -> (r: (usize, bool))
        requires
            self.wf(),
        ensures
            r.0 <= self.listing().len(),
            r.1 ==> r.0 < self.listing().len() && self.listing()[r.0 as int].repo.name == name@,
            !r.1 ==> !repo_names(self.listing()).contains(name@),
            forall|j: int| 0 <= j < r.0 ==> lex_less(self.listing()[j].repo.name, name@),
            !r.1 ==> forall|j: int|
                r.0 <= j < self.listing().len() ==> lex_less(name@, self.listing()[j].repo.name),
    {
        let ghost names = repo_names(self.listing());
        let mut i: usize = 0;
        while i < self.repos.len()
            invariant
                i <= self.repos.len(),
                self.wf(),
                names == repo_names(self.listing()),
                forall|j: int| 0 <= j < i ==> lex_less(self.listing()[j].repo.name, name@),
            decreases self.repos.len() - i,
        {
            assert(self.repos@[i as int].listing().repo.name == names[i as int]);
            match lex_order(self.repos[i].repo.key(), name) {
                Order::Equal => {
                    return (i, true);
                },
                Order::Greater => {
                    assert forall|j: int| i <= j < self.listing().len() implies lex_less(
                        name@,
                        self.listing()[j].repo.name,
                    ) by {
                        if i < j {
                            assert(name_less()(names[i as int], names[j]));
                            lemma_lex_transitive(name@, names[i as int], names[j]);
                        }
                    }
                    assert(!names.contains(name@)) by {
                        if names.contains(name@) {
                            let j = names.index_of(name@);
                            assert(0 <= j < names.len() && names[j] == name@);
                            lemma_lex_irreflexive(name@);
                        }
                    }
                    return (i, false);
                },
                Order::Less => {},
            }
            i = i + 1;
        }
        assert(!names.contains(name@)) by {
            if names.contains(name@) {
                let j = names.index_of(name@);
                assert(0 <= j < names.len() && names[j] == name@);
                lemma_lex_irreflexive(name@);
            }
        }
        (i, false)
    }

    /// Folds one interaction into the digest.
    pub fn insert(&mut self, item: Interaction)
        requires
            old(self).wf(),
        ensures
            final(self).wf(),
            final(self)@ == merged(old(self)@, item@),
    {
        let ghost before = self.listing();
        let ghost names = repo_names(before);
        let ghost groups = repo_groups(before);
        proof {
            lemma_name_order();
            lemma_ascending_distinct(names, name_less());
        }
        let Interaction { repo, topic, action } = item;
        let (i, found) = self.locate(repo.key());
        if found {
            assert(self.repos@[i as int].wf());
            self.repos[i].record(topic, action);
            proof {
                let now = self.repos@[i as int].listing();
                assert(self.listing() =~= before.update(i as int, now));
                assert(repo_names(self.listing()) =~= names);
                assert(repo_groups(self.listing()) =~= groups.update(i as int, group_of(now)));
                lemma_assoc_at(names, groups, i as int);
                lemma_assoc_update(names, groups, i as int, group_of(now));
                assert forall|j: int| 0 <= j < self.repos@.len() implies (#[trigger] self.repos@[j]).wf() by {
                    if j != i {
                        assert(self.repos@[j] == old(self).repos@[j]);
                    }
                }
            }
        } else {
            let ghost name = repo@.name;
            let mut entry = RepoEntry::new(repo);
            entry.record(topic, action);
            let ghost entered = entry.listing();
            self.repos.insert(i, entry);
            proof {
                assert(self.listing() =~= before.insert(i as int, entered));
                assert(repo_names(self.listing()) =~= names.insert(i as int, name));
                assert(repo_groups(self.listing()) =~= groups.insert(i as int, group_of(entered)));
                lemma_assoc_insert(names, groups, i as int, name, group_of(entered));
                assert(assoc(topic_numbers(Seq::<TopicGroup>::empty()), Seq::<TopicGroup>::empty())
                    =~= Map::<u64, TopicGroup>::empty());
                let after = repo_names(self.listing());
                assert forall|p: int, q: int| 0 <= p < q < after.len() implies name_less()(
                    #[trigger] after[p],
                    #[trigger] after[q],
                ) by {
                    let pp = if p < i {
                        p
                    } else {
                        p - 1
                    };
                    let qq = if q < i {
                        q
                    } else {
                        q - 1
                    };
                    if p != i && q != i {
                        assert(name_less()(names[pp], names[qq]));
                    } else if p == i {
                        assert(after[q] == before[qq].repo.name);
                    } else {
                        assert(after[p] == before[pp].repo.name);
                    }
                }
                assert forall|j: int| 0 <= j < self.repos@.len() implies (#[trigger] self.repos@[j]).wf() by {
                    if j < i {
                        assert(self.repos@[j] == old(self).repos@[j]);
                    } else if j > i {
                        assert(self.repos@[j] == old(self).repos@[j - 1]);
                    }
                }
            }
        }
    }

    /// Number of repositories in the digest.
    pub fn repo_count(&self) -> (n: usize)
        requires
            self.wf(),
        ensures
            n == repos_in_order(self@).len(),
    {
        proof {
            self.lemma_listing();
        }
        self.repos.len()
    }

    /// The repository at place `i` of the display order.
    pub fn repo(&self, i: usize) -> (r: &Repo)
        requires
            self.wf(),
            i < repos_in_order(self@).len(),
        ensures
            r@ == repos_in_order(self@)[i as int].repo,
    {
        proof {
            self.lemma_listing();
        }
        &self.repos[i].repo
    }

    /// Number of topics of the repository at place `i`.
    pub fn topic_count(&self, i: usize) -> (n: usize)
        requires
            self.wf(),
            i < repos_in_order(self@).len(),
        ensures
            n == repos_in_order(self@)[i as int].topics.len(),
    {
        proof {
            self.lemma_listing();
        }
        self.repos[i].topics.len()
    }

    /// The topic at place `j` of the repository at place `i`.
    pub fn topic(&self, i: usize, j: usize) -> (t: &Topic)
        requires
            self.wf(),
            i < repos_in_order(self@).len(),
            j < repos_in_order(self@)[i as int].topics.len(),
        ensures
            t@ == repos_in_order(self@)[i as int].topics[j as int].topic,
    {
        proof {
            self.lemma_listing();
        }
        &self.repos[i].topics[j].topic
    }

    /// The kinds recorded for the topic at place `j` of the repository at
    /// place `i`.
    pub fn actions(&self, i: usize, j: usize) -> (a: ActionSet)
        requires
            self.wf(),
            i < repos_in_order(self@).len(),
            j < repos_in_order(self@)[i as int].topics.len(),
        ensures
            a@ == repos_in_order(self@)[i as int].topics[j as int].actions,
    {
        proof {
            self.lemma_listing();
        }
        self.repos[i].topics[j].actions
    }
}

} // verus!
