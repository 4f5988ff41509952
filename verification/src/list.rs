//! The list of the repositories that were chosen.

use vstd::prelude::*;

use crate::repo::{banned_names, pre_filter_repo, Repository, BANNED_REPOS};
use crate::text::{all_free_of, join, joined, joined_is_unambiguous, views};

verus! {

/// How many repositories to choose.
pub const REPO_COUNT: usize = 1000;

/// What to do next for the list.
#[derive(Debug, Copy, Clone, PartialEq, Eq, Structural)]
pub enum ListAction {
    /// Take the next repository of the search.
    Pull,
    /// Look at the repository more closely.
    Filter,
    /// Stop: the list is done.
    Finish,
    /// Stop: there is no list, because this failed.
    Fail(ListTask),
}

/// What can fail.
#[derive(Debug, Copy, Clone, PartialEq, Eq, Structural)]
pub enum ListTask {
    NextRepo,
    FilterRepo,
}

impl ListTask {
    /// What was being done.
    pub open spec fn description(&self) -> Seq<char> {
        match self {
            ListTask::NextRepo => "Getting next repo"@,
            ListTask::FilterRepo => "Filtering repo"@,
        }
    }

    /// What was being done.
    pub fn describe(&self) -> (r: &'static str)
        ensures
            r@ == self.description(),
            r@ == (match self {
                ListTask::NextRepo => "Getting next repo"@,
                ListTask::FilterRepo => "Filtering repo"@,
            }),
    {
        match self {
            ListTask::NextRepo => "Getting next repo",
            ListTask::FilterRepo => "Filtering repo",
        }
    }
}

/// What has come of taking the next repository of the search.
#[derive(Debug)]
pub enum Pulled {
    /// A repository.
    Repo(Repository),
    /// There are no more.
    End,
    /// It failed.
    Failed,
}

/// What has come of looking at a repository more closely.
#[derive(Debug, Copy, Clone, PartialEq, Eq, Structural)]
pub enum Verdict {
    /// It passes.
    Passed,
    /// It does not pass.
    TurnedDown,
    /// The look at it failed.
    Failed,
}

/// The names of the repositories chosen so far.
#[derive(Debug)]
pub struct RepoList {
    names: Vec<String>,
}

impl View for RepoList {
    type V = Seq<Seq<char>>;

    closed spec fn view(&self) -> Seq<Seq<char>> {
        views(self.names@)
    }
}

/// What to do with a repository of the search.
pub open spec fn action_for_repo(repo: Repository) -> ListAction {
    if !repo.is_archived() && !banned_names().contains(repo.name()) {
        ListAction::Filter
    } else {
        ListAction::Pull
    }
}

/// None of the names is unwanted.
pub open spec fn none_unwanted(names: Seq<Seq<char>>) -> bool {
    forall|i: int| 0 <= i < names.len() ==> !banned_names().contains(#[trigger] names[i])
}

/// What to do with what has been pulled.
pub open spec fn action_for_pulled(pulled: Pulled) -> ListAction {
    match pulled {
        Pulled::Repo(repo) => action_for_repo(repo),
        Pulled::End => ListAction::Finish,
        Pulled::Failed => ListAction::Fail(ListTask::NextRepo),
    }
}

/// The list after a repository has been looked at: it goes on the list if it passed.
pub open spec fn recorded(names: Seq<Seq<char>>, repo: Repository, verdict: Verdict) -> Seq<
    Seq<char>,
> {
    if verdict == Verdict::Passed {
        names.push(repo.name())
    } else {
        names
    }
}

/// What to do after a repository has been looked at, with a list that then has the given length.
pub open spec fn action_for_verdict(verdict: Verdict, length: nat) -> ListAction {
    if verdict == Verdict::Failed {
        ListAction::Fail(ListTask::FilterRepo)
    } else if length >= REPO_COUNT {
        ListAction::Finish
    } else {
        ListAction::Pull
    }
}

impl RepoList {
    /// The list is not longer than it may be, and none of its names is unwanted.
    pub open spec fn well_formed(&self) -> bool {
        self@.len() <= REPO_COUNT && none_unwanted(self@)
    }

    /// An empty list.
    pub fn new() -> (r: RepoList)
        ensures
            r@ == Seq::<Seq<char>>::empty(),
            r.well_formed(),
    {
        let r = RepoList { names: Vec::new() };
        assert(r@ =~= Seq::<Seq<char>>::empty());
        r
    }

    /// How many repositories have been chosen.
    pub fn len(&self) -> (r: usize)
        ensures
            r == self@.len(),
    {
        self.names.len()
    }

    /// Decides what to do with what has been pulled.
    pub fn on_pulled(&self, pulled: &Pulled) -> (r: ListAction)
        ensures
            r == action_for_pulled(*pulled),
            match pulled {
                Pulled::Repo(repo) => r == (if repo.archived != Some(true) && !(exists|i: int|
                    0 <= i < 52 && #[trigger] BANNED_REPOS@[i]@ == (match repo.full_name {
                        Some(name) => name@,
                        None => Seq::<char>::empty(),
                    })) {
                    ListAction::Filter
                } else {
                    ListAction::Pull
                }),
                Pulled::End => r == ListAction::Finish,
                Pulled::Failed => r == ListAction::Fail(ListTask::NextRepo),
            },
    {
        match pulled {
            Pulled::Repo(repo) => if pre_filter_repo(repo) {
                ListAction::Filter
            } else {
                ListAction::Pull
            },
            Pulled::End => ListAction::Finish,
            Pulled::Failed => ListAction::Fail(ListTask::NextRepo),
        }
    }

    /// Puts the repository on the list if it passed, and decides how to go on. Only a repository
    /// that was to be looked at can have a verdict, and one that passed must have a name. Nothing
    /// can be put on a list that is complete.
    pub fn on_verdict(&mut self, repo: &Repository, verdict: Verdict) -> (r: ListAction)
        requires
            old(self)@.len() < REPO_COUNT,
            action_for_repo(*repo) == ListAction::Filter,
            verdict == Verdict::Passed ==> repo.full_name is Some,
        ensures
            final(self)@ == recorded(old(self)@, *repo, verdict),
            r == action_for_verdict(verdict, final(self)@.len()),
            match verdict {
                Verdict::Passed => {
                    &&& final(self)@ == old(self)@.push(repo.full_name->0@)
                    &&& r == (if old(self)@.len() == 999 {
                        ListAction::Finish
                    } else {
                        ListAction::Pull
                    })
                },
                Verdict::TurnedDown => final(self)@ == old(self)@ && r == ListAction::Pull,
                Verdict::Failed => {
                    &&& final(self)@ == old(self)@
                    &&& r == ListAction::Fail(ListTask::FilterRepo)
                },
            },
            old(self).well_formed() ==> final(self).well_formed(),
    {
        match verdict {
            Verdict::Failed => ListAction::Fail(ListTask::FilterRepo),
            Verdict::TurnedDown => ListAction::Pull,
            Verdict::Passed => {
                self.names.push(repo.name_or_empty());
                assert(self@ =~= old(self)@.push(repo.name()));
                if self.names.len() >= REPO_COUNT {
                    ListAction::Finish
                } else {
                    ListAction::Pull
                }
            },
        }
    }

    /// The names on the list.
    pub fn into_names(self) -> (r: Vec<String>)
        ensures
            views(r@) == self@,
    {
        self.names
    }

    /// The names on the list, one on each line.
    pub fn text(&self) -> (r: String)
        ensures
            r@ == joined(self@, "\n"@),
    {
        join(&self.names, "\n")
    }
}

/// What has been pulled, and what comes of looking at it if it is a repository.
pub struct Offer {
    pub pulled: Pulled,
    pub verdict: Verdict,
}

/// The offer is a repository that is looked at more closely.
pub open spec fn is_looked_at(offer: Offer) -> bool {
    action_for_pulled(offer.pulled) == ListAction::Filter
}

/// The offer is a repository that is looked at more closely and passes.
pub open spec fn is_chosen(offer: Offer) -> bool {
    is_looked_at(offer) && offer.verdict == Verdict::Passed
}

/// The repository of an offer that is chosen has no name.
pub open spec fn is_nameless(offer: Offer) -> bool {
    offer.pulled->Repo_0.full_name is None
}

/// How the making of a list ends.
pub enum Outcome {
    /// With a list.
    Listed(Seq<Seq<char>>),
    /// With a failure.
    Failed(ListTask),
    /// With a repository that passed and has no name, so that it cannot be put on the list.
    Nameless,
}

/// The list that comes of the offers, one after the other, until it is complete or something stops
/// it. Where there are no more offers, the search has come to its end.
pub open spec fn collected(names: Seq<Seq<char>>, offers: Seq<Offer>) -> Outcome
    decreases offers.len(),
{
    if offers.len() == 0 {
        outcome_of_pulled(names, Pulled::End)
    } else if is_looked_at(offers[0]) {
        if is_chosen(offers[0]) && is_nameless(offers[0]) {
            Outcome::Nameless
        } else {
            let longer = recorded(names, offers[0].pulled->Repo_0, offers[0].verdict);
            match action_for_verdict(offers[0].verdict, longer.len()) {
                ListAction::Fail(task) => Outcome::Failed(task),
                ListAction::Finish => Outcome::Listed(longer),
                _ => collected(longer, offers.drop_first()),
            }
        }
    } else if action_for_pulled(offers[0].pulled) == ListAction::Pull {
        collected(names, offers.drop_first())
    } else {
        outcome_of_pulled(names, offers[0].pulled)
    }
}

/// The list is made step by step. What has been pulled is skipped, ends the list or makes it fail,
/// or is looked at. In that case the list goes on with what the verdict makes of it, is complete,
/// or fails. Where there is nothing more to pull, the list is as it is.
pub proof fn list_is_made_step_by_step(names: Seq<Seq<char>>, offer: Offer, rest: Seq<Offer>)
    ensures
        collected(names, seq![offer] + rest) == (match action_for_pulled(offer.pulled) {
            ListAction::Pull => collected(names, rest),
            ListAction::Finish => Outcome::Listed(names),
            ListAction::Fail(task) => Outcome::Failed(task),
            ListAction::Filter => {
                let repo = offer.pulled->Repo_0;
                let longer = recorded(names, repo, offer.verdict);
                if offer.verdict == Verdict::Passed && repo.full_name is None {
                    Outcome::Nameless
                } else {
                    match action_for_verdict(offer.verdict, longer.len()) {
                        ListAction::Fail(task) => Outcome::Failed(task),
                        ListAction::Finish => Outcome::Listed(longer),
                        _ => collected(longer, rest),
                    }
                }
            },
        }),
        collected(names, Seq::empty()) == Outcome::Listed(names),
{
    assert((seq![offer] + rest).drop_first() =~= rest);
}

/// How the making of a list ends where no repository has been pulled.
pub open spec fn outcome_of_pulled(names: Seq<Seq<char>>, pulled: Pulled) -> Outcome {
    match action_for_pulled(pulled) {
        ListAction::Fail(task) => Outcome::Failed(task),
        _ => Outcome::Listed(names),
    }
}

/// The offers that are chosen, in order.
pub open spec fn chosen_offers(offers: Seq<Offer>) -> Seq<Offer> {
    offers.filter(|offer: Offer| is_chosen(offer))
}

/// The names of the offers that are chosen, in order.
pub open spec fn chosen_names(offers: Seq<Offer>) -> Seq<Seq<char>> {
    chosen_offers(offers).map_values(|offer: Offer| offer.pulled->Repo_0.name())
}

/// The making of the list stops at this offer, whatever is on the list: it is a failure, the end
/// of the search, or a repository that passes and has no name.
pub open spec fn stops(offer: Offer) -> bool {
    match offer.pulled {
        Pulled::Repo(_) => {
            ||| is_looked_at(offer) && offer.verdict == Verdict::Failed
            ||| is_chosen(offer) && is_nameless(offer)
        },
        _ => true,
    }
}

/// How it ends at an offer at which it stops, with the names that are on the list by then.
pub open spec fn outcome_of_stop(names: Seq<Seq<char>>, offer: Offer) -> Outcome {
    match offer.pulled {
        Pulled::End => Outcome::Listed(names),
        Pulled::Failed => Outcome::Failed(ListTask::NextRepo),
        Pulled::Repo(_) => if offer.verdict == Verdict::Failed {
            Outcome::Failed(ListTask::FilterRepo)
        } else {
            Outcome::Nameless
        },
    }
}

/// How many offers there are before the first one at which the making of the list stops.
pub open spec fn offers_before_stop(offers: Seq<Offer>) -> nat
    decreases offers.len(),
{
    if offers.len() == 0 || stops(offers[0]) {
        0
    } else {
        1 + offers_before_stop(offers.drop_first())
    }
}

/// A sequence cut off after `n` elements.
pub open spec fn at_most<A>(s: Seq<A>, n: nat) -> Seq<A> {
    if s.len() <= n {
        s
    } else {
        s.take(n as int)
    }
}

/// What is chosen of the first offer comes before what is chosen of the others.
proof fn lemma_chosen_of_first(offers: Seq<Offer>)
    requires
        offers.len() > 0,
    ensures
        chosen_offers(offers) == (if is_chosen(offers[0]) {
            seq![offers[0]]
        } else {
            Seq::empty()
        }) + chosen_offers(offers.drop_first()),
        chosen_names(offers) == (if is_chosen(offers[0]) {
            seq![offers[0].pulled->Repo_0.name()]
        } else {
            Seq::empty()
        }) + chosen_names(offers.drop_first()),
{
    let chosen = |offer: Offer| is_chosen(offer);
    let first = seq![offers[0]];
    let rest = offers.drop_first();
    assert(first + rest =~= offers);
    Seq::filter_distributes_over_add(first, rest, chosen);
    assert(first.filter(chosen) =~= (if is_chosen(offers[0]) {
        first
    } else {
        Seq::empty()
    })) by {
        reveal_with_fuel(Seq::filter, 2);
        assert(first.drop_last() =~= Seq::<Offer>::empty());
    }
    assert(chosen_names(offers) =~= first.filter(chosen).map_values(
        |offer: Offer| offer.pulled->Repo_0.name(),
    ) + chosen_names(rest));
}

/// Nothing is chosen of nothing.
proof fn lemma_nothing_chosen(offers: Seq<Offer>)
    requires
        offers.len() == 0,
    ensures
        chosen_offers(offers).len() == 0,
        chosen_names(offers) == Seq::<Seq<char>>::empty(),
{
    reveal_with_fuel(Seq::filter, 1);
    assert(chosen_names(offers) =~= Seq::<Seq<char>>::empty());
}

/// The list goes on with the names of the offers that are chosen, until it is complete or the
/// making of it stops.
proof fn lemma_collected(names: Seq<Seq<char>>, offers: Seq<Offer>)
    requires
        names.len() < REPO_COUNT,
    ensures
        ({
            let n = offers_before_stop(offers);
            let all = names + chosen_names(offers.take(n as int));
            &&& n <= offers.len()
            &&& collected(names, offers) == (if all.len() >= REPO_COUNT || n == offers.len() {
                Outcome::Listed(at_most(all, REPO_COUNT as nat))
            } else {
                outcome_of_stop(all, offers[n as int])
            })
        }),
    decreases offers.len(),
{
    let n = offers_before_stop(offers);
    if n == 0 {
        lemma_nothing_chosen(offers.take(0));
        assert(names + chosen_names(offers.take(0)) =~= names);
    } else {
        let rest = offers.drop_first();
        let before = offers.take(n as int);
        let longer = if is_chosen(offers[0]) {
            names.push(offers[0].pulled->Repo_0.name())
        } else {
            names
        };
        if longer.len() < REPO_COUNT {
            lemma_collected(longer, rest);
        } else {
            lemma_offers_before_stop(rest);
        }
        lemma_chosen_of_first(before);
        assert(before.drop_first() =~= rest.take(n - 1));
        let all = names + chosen_names(before);
        assert(all =~= longer + chosen_names(rest.take(n - 1)));
        if longer.len() >= REPO_COUNT {
            assert(at_most(all, REPO_COUNT as nat) =~= longer);
        }
    }
}

/// There are no more offers before the stop than offers.
proof fn lemma_offers_before_stop(offers: Seq<Offer>)
    ensures
        offers_before_stop(offers) <= offers.len(),
    decreases offers.len(),
{
    if offers.len() > 0 {
        lemma_offers_before_stop(offers.drop_first());
    }
}

/// The list holds the names of the first repositories that are neither archived nor unwanted and
/// that pass, in the order of the search. The making of it stops at the first failure, at the end
/// of the search and at a repository that passes and has no name, unless the list is complete by
/// then: a failure is reported as what failed, and the end leaves the list as it is.
pub proof fn list_holds_the_first_choices(offers: Seq<Offer>)
    ensures
        ({
            let n = offers_before_stop(offers);
            let names = chosen_names(offers.take(n as int));
            &&& n <= offers.len()
            &&& collected(Seq::empty(), offers) == (if names.len() >= REPO_COUNT || n
                == offers.len() {
                Outcome::Listed(at_most(names, REPO_COUNT as nat))
            } else {
                outcome_of_stop(names, offers[n as int])
            })
        }),
{
    lemma_collected(Seq::empty(), offers);
    let names = chosen_names(offers.take(offers_before_stop(offers) as int));
    assert(Seq::<Seq<char>>::empty() + names =~= names);
}

/// The offers are repositories, and the look at none of them fails.
pub open spec fn nothing_fails(offers: Seq<Offer>) -> bool {
    forall|i: int|
        0 <= i < offers.len() ==> (#[trigger] offers[i]).pulled is Repo && offers[i].verdict
            != Verdict::Failed
}

/// One of the first `n` offers that are chosen has no name.
pub open spec fn has_nameless_choice(offers: Seq<Offer>, n: int) -> bool {
    exists|k: int|
        0 <= k < n && k < chosen_offers(offers).len() && is_nameless(
            #[trigger] chosen_offers(offers)[k],
        )
}

/// If nothing fails, there is a list exactly if all of the repositories that would go on it have a
/// name.
pub proof fn only_names_can_be_missing(offers: Seq<Offer>)
    requires
        nothing_fails(offers),
    ensures
        has_nameless_choice(offers, REPO_COUNT as int) ==> collected(Seq::empty(), offers)
            == Outcome::Nameless,
        !has_nameless_choice(offers, REPO_COUNT as int) ==> collected(Seq::empty(), offers)
            == Outcome::Listed(at_most(chosen_names(offers), REPO_COUNT as nat)),
{
    lemma_only_names(Seq::empty(), offers);
    assert(Seq::<Seq<char>>::empty() + chosen_names(offers) =~= chosen_names(offers));
}

/// If nothing fails, the list comes about exactly if all names that are still needed are there.
proof fn lemma_only_names(names: Seq<Seq<char>>, offers: Seq<Offer>)
    requires
        names.len() < REPO_COUNT,
        nothing_fails(offers),
    ensures
        collected(names, offers) == (if has_nameless_choice(offers, REPO_COUNT - names.len()) {
            Outcome::Nameless
        } else {
            Outcome::Listed(at_most(names + chosen_names(offers), REPO_COUNT as nat))
        }),
    decreases offers.len(),
{
    let needed = REPO_COUNT - names.len();
    let chosen = chosen_offers(offers);
    if offers.len() == 0 {
        lemma_nothing_chosen(offers);
        assert(names + chosen_names(offers) =~= names);
    } else {
        let rest = offers.drop_first();
        let later = chosen_offers(rest);
        lemma_chosen_of_first(offers);
        assert forall|i: int| 0 <= i < rest.len() implies (#[trigger] rest[i]).pulled is Repo
            && rest[i].verdict != Verdict::Failed by {
            assert(rest[i] == offers[i + 1]);
        }
        if is_chosen(offers[0]) {
            assert(chosen[0] == offers[0]);
            assert(chosen.drop_first() =~= later);
            if !is_nameless(offers[0]) {
                let longer = names.push(offers[0].pulled->Repo_0.name());
                assert(names + chosen_names(offers) =~= longer + chosen_names(rest));
                assert(has_nameless_choice(offers, needed) == has_nameless_choice(rest, needed - 1))
                    by {
                    if has_nameless_choice(offers, needed) {
                        let k = choose|k: int|
                            0 <= k < needed && k < chosen.len() && is_nameless(#[trigger] chosen[k]);
                        assert(later[k - 1] == chosen[k]);
                    }
                    if has_nameless_choice(rest, needed - 1) {
                        let k = choose|k: int|
                            0 <= k < needed - 1 && k < later.len() && is_nameless(
                                #[trigger] later[k],
                            );
                        assert(chosen[k + 1] == later[k]);
                    }
                }
                if longer.len() < REPO_COUNT {
                    lemma_only_names(longer, rest);
                } else {
                    assert(at_most(longer + chosen_names(rest), REPO_COUNT as nat) =~= longer);
                }
            }
        } else {
            lemma_only_names(names, rest);
            assert(chosen =~= later);
            assert(chosen_names(offers) =~= chosen_names(rest));
        }
    }
}

/// A list never grows beyond `REPO_COUNT` names, and never gets a name that is unwanted.
pub proof fn list_stays_short_and_wanted(names: Seq<Seq<char>>, offers: Seq<Offer>)
    requires
        names.len() < REPO_COUNT,
        none_unwanted(names),
    ensures
        collected(names, offers) matches Outcome::Listed(list) ==> list.len() <= REPO_COUNT
            && none_unwanted(list),
    decreases offers.len(),
{
    if offers.len() > 0 {
        let offer = offers[0];
        let rest = offers.drop_first();
        if is_looked_at(offer) {
            let longer = recorded(names, offer.pulled->Repo_0, offer.verdict);
            assert(none_unwanted(longer));
            if longer.len() < REPO_COUNT {
                list_stays_short_and_wanted(longer, rest);
            }
        } else {
            list_stays_short_and_wanted(names, rest);
        }
    }
}

/// The text of a list tells the names on it, as long as there is one and none of them holds a line
/// break.
pub proof fn text_tells_the_names(names: Seq<Seq<char>>, others: Seq<Seq<char>>)
    requires
        names.len() > 0,
        others.len() > 0,
        all_free_of(names, '\n'),
        all_free_of(others, '\n'),
        joined(names, "\n"@) == joined(others, "\n"@),
    ensures
        names == others,
{
    reveal_strlit("\n");
    assert("\n"@ =~= seq!['\n']);
    joined_is_unambiguous(names, others, '\n');
}

/// A repository is looked at exactly if it is not said to be archived and its name is not, as a
/// whole, one of those that are not wanted. Otherwise the next one is taken. Without a repository,
/// the list is done or fails.
pub proof fn repositories_are_looked_at_by_their_fields(repo: Repository)
    ensures
        action_for_pulled(Pulled::Repo(repo)) == ListAction::Filter <==> repo.archived != Some(true)
            && !(exists|i: int|
            0 <= i < 52 && #[trigger] BANNED_REPOS@[i]@ == (match repo.full_name {
                Some(name) => name@,
                None => Seq::<char>::empty(),
            })),
        action_for_pulled(Pulled::Repo(repo)) == ListAction::Filter || action_for_pulled(
            Pulled::Repo(repo),
        ) == ListAction::Pull,
        action_for_pulled(Pulled::End) == ListAction::Finish,
        action_for_pulled(Pulled::Failed) == ListAction::Fail(ListTask::NextRepo),
{
}

/// A repository that passes comes last on the list, after all that were there, and the list is
/// complete with a thousand of them. One that does not pass leaves the list as it is, and so does a
/// failure, after which there is no list.
pub proof fn verdicts_are_recorded_in_order(
    names: Seq<Seq<char>>,
    repo: Repository,
    verdict: Verdict,
    length: nat,
)
    requires
        verdict == Verdict::Passed ==> repo.full_name is Some,
    ensures
        ({
            let longer = recorded(names, repo, verdict);
            &&& verdict == Verdict::Passed ==> {
                &&& longer.len() == names.len() + 1
                &&& longer.last() == repo.full_name->0@
                &&& longer.drop_last() == names
            }
            &&& verdict != Verdict::Passed ==> longer == names
        }),
        action_for_verdict(verdict, length) == ListAction::Fail(ListTask::FilterRepo) <==> verdict
            == Verdict::Failed,
        action_for_verdict(verdict, length) == ListAction::Finish <==> verdict != Verdict::Failed
            && length >= 1000,
        action_for_verdict(verdict, length) == ListAction::Pull <==> verdict != Verdict::Failed
            && length < 1000,
{
    assert(recorded(names, repo, Verdict::Passed).drop_last() =~= names);
}

} // verus!
