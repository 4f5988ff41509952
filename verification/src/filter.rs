//! Looking at a repository more closely.
//!
//! Whoever does so starts with `FilterState::start` and then does what each step asks for, until
//! it says that it is done. What the step asked for is answered in the next one.

use vstd::prelude::*;

use crate::link::{
    link_page, page_in_link, page_of_a_link_is_in_its_query, parsed_url, url_query_pairs, LinkError,
};
use crate::repo::Repository;
use crate::response::RateLimitInfo;
use crate::share::small_sizes_are_compared_exactly;
use crate::text::parsed_u32;
use crate::tree::Tree;

verus! {

/// A repository with fewer commits than this is pointed out.
pub const FEW_COMMITS: u32 = 10;

/// A page of the commits of a repository, the latest one first.
#[derive(Debug)]
pub struct CommitPage {
    /// The hashes of the commits.
    pub shas: Vec<String>,
    /// The link to the last page, if there is one.
    pub last: Option<String>,
}

/// How far the look at a repository has come.
#[derive(Debug)]
pub enum FilterState {
    /// It waits for its turn to ask for the commits.
    CommitsTurn { name: String },
    /// It waits for the commits.
    Commits { name: String },
    /// It waits for its turn to ask for the tree.
    TreeTurn { name: String, sha: String },
    /// It waits for the tree.
    Tree,
    /// It waits for the rate limiter to catch up.
    CatchUp { tree: Tree },
    /// It is over.
    Done,
}

/// What has come of what a step asked for.
#[derive(Debug)]
pub enum FilterEvent {
    /// The rate limiter let it through.
    Permitted,
    /// The commits have come.
    Commits(CommitPage),
    /// The tree has come.
    Tree(RateLimitInfo<Tree>),
    /// It failed.
    Failed,
}

/// What a step asks for.
#[derive(Debug)]
pub enum FilterAction {
    /// Wait until the rate limiter lets one request through.
    AwaitPermit,
    /// Get the commits at this route.
    GetCommits(String),
    /// Get the tree at this route.
    GetTree(String),
    /// Wait until the rate limiter lets this many requests through.
    AwaitPermits(u32),
    /// Nothing more: the repository passes, or it does not.
    Finish(bool),
    /// Nothing more: what was asked for last failed.
    Fail(FilterTask),
}

/// What a step asks for, as a value.
pub enum FilterActionView {
    AwaitPermit,
    GetCommits(Seq<char>),
    GetTree(Seq<char>),
    AwaitPermits(u32),
    Finish(bool),
    Fail(FilterTask),
}

impl View for FilterAction {
    type V = FilterActionView;

    open spec fn view(&self) -> FilterActionView {
        match self {
            FilterAction::AwaitPermit => FilterActionView::AwaitPermit,
            FilterAction::GetCommits(route) => FilterActionView::GetCommits(route@),
            FilterAction::GetTree(route) => FilterActionView::GetTree(route@),
            FilterAction::AwaitPermits(n) => FilterActionView::AwaitPermits(*n),
            FilterAction::Finish(passed) => FilterActionView::Finish(*passed),
            FilterAction::Fail(task) => FilterActionView::Fail(*task),
        }
    }
}

/// What can fail.
#[derive(Debug, Copy, Clone, PartialEq, Eq, Structural)]
pub enum FilterTask {
    GetCommits,
    GetTree,
    CatchUp,
}

impl FilterTask {
    /// What was being done.
    pub open spec fn description(&self) -> Seq<char> {
        match self {
            FilterTask::GetCommits => "Getting commits"@,
            FilterTask::GetTree => "Getting the tree"@,
            FilterTask::CatchUp => "Waiting for rate limit"@,
        }
    }

    /// What was being done.
    pub fn describe(&self) -> (r: &'static str)
        ensures
            r@ == self.description(),
            r@ == (match self {
                FilterTask::GetCommits => "Getting commits"@,
                FilterTask::GetTree => "Getting the tree"@,
                FilterTask::CatchUp => "Waiting for rate limit"@,
            }),
    {
        match self {
            FilterTask::GetCommits => "Getting commits",
            FilterTask::GetTree => "Getting the tree",
            FilterTask::CatchUp => "Waiting for rate limit",
        }
    }
}

/// What there is to point out of a repository.
#[derive(Debug, Copy, Clone, PartialEq, Eq, Structural)]
pub enum FilterNotice {
    /// It has few commits.
    FewCommits,
    /// It has too little Rust.
    LittleRust,
}

/// An answer with which the look at a repository cannot go on.
#[derive(Debug, Copy, Clone, PartialEq, Eq, Structural)]
pub enum FilterFault {
    /// The commits have no link to their last page.
    NoLastPage,
    /// The link to the last page of the commits does not name a page.
    BadLastPage(LinkError),
    /// There are no commits.
    NoCommits,
    /// The tree came without a request having been counted.
    NothingUsed,
    /// The sizes in the tree do not fit.
    SizesTooLarge,
    /// The answer is not to what was asked for.
    OutOfTurn,
}

/// A step: how far it has come, what it asks for, and what there is to point out.
#[derive(Debug)]
pub struct FilterStep {
    pub state: FilterState,
    pub action: FilterAction,
    pub notice: Option<FilterNotice>,
}

/// A step as a value.
pub struct FilterStepView {
    pub state: FilterState,
    pub action: FilterActionView,
    pub notice: Option<FilterNotice>,
}

impl View for FilterStep {
    type V = FilterStepView;

    open spec fn view(&self) -> FilterStepView {
        FilterStepView { state: self.state, action: self.action@, notice: self.notice }
    }
}

/// Where to get one commit of a repository, the latest one.
pub open spec fn commits_route(name: Seq<char>) -> Seq<char> {
    "/repos/"@ + name + "/commits?per_page=1"@
}

/// Where to get the tree of a commit, with all that is below it.
pub open spec fn tree_route(name: Seq<char>, sha: Seq<char>) -> Seq<char> {
    "/repos/"@ + name + "/git/trees/"@ + sha + "?recursive=true"@
}

/// How many commits there are, if there is one on each page: as many as pages.
pub open spec fn commit_count(page: CommitPage) -> Result<u32, FilterFault> {
    match page.last {
        None => Err(FilterFault::NoLastPage),
        Some(link) => match page_in_link(link@) {
            Err(error) => Err(FilterFault::BadLastPage(error)),
            Ok(count) => Ok(count),
        },
    }
}

/// The commits have come: few of them are pointed out, but not held against the repository.
pub open spec fn after_commits(name: String, page: CommitPage) -> Result<
    FilterStepView,
    FilterFault,
> {
    match commit_count(page) {
        Err(fault) => Err(fault),
        Ok(count) => if page.shas@.len() == 0 {
            Err(FilterFault::NoCommits)
        } else {
            Ok(
                FilterStepView {
                    state: FilterState::TreeTurn { name, sha: page.shas@[0] },
                    action: FilterActionView::AwaitPermit,
                    notice: if count < FEW_COMMITS {
                        Some(FilterNotice::FewCommits)
                    } else {
                        None
                    },
                },
            )
        },
    }
}

/// The repository is judged by its tree: it passes unless it has too little Rust.
pub open spec fn judged(tree: Tree) -> Result<FilterStepView, FilterFault> {
    if tree.all_bytes() > u64::MAX {
        Err(FilterFault::SizesTooLarge)
    } else {
        Ok(
            FilterStepView {
                state: FilterState::Done,
                action: FilterActionView::Finish(!tree.lacks_rust()),
                notice: if tree.lacks_rust() {
                    Some(FilterNotice::LittleRust)
                } else {
                    None
                },
            },
        )
    }
}

/// The tree has come. All requests that were counted, but for this one, have to be let through
/// before the repository is judged.
pub open spec fn after_tree(info: RateLimitInfo<Tree>) -> Result<FilterStepView, FilterFault> {
    if info.used == 0 {
        Err(FilterFault::NothingUsed)
    } else if info.used == 1 {
        judged(info.content)
    } else {
        Ok(
            FilterStepView {
                state: FilterState::CatchUp { tree: info.content },
                action: FilterActionView::AwaitPermits((info.used - 1) as u32),
                notice: None,
            },
        )
    }
}

/// The end, because what was asked for last failed.
pub open spec fn failed(task: FilterTask) -> FilterStepView {
    FilterStepView {
        state: FilterState::Done,
        action: FilterActionView::Fail(task),
        notice: None,
    }
}

/// The step is the end, with a verdict on the tree: it passes if at least 51 percent of it are
/// Rust, as long as it is not so large that sizes are rounded.
pub open spec fn is_judged_by(step: FilterStep, tree: Tree) -> bool {
    &&& step.state is Done
    &&& step.action == FilterAction::Finish(step.notice is None)
    &&& step.notice is None || step.notice == Some(FilterNotice::LittleRust)
    &&& step.notice is None <==> !tree.lacks_rust()
    &&& 84 * tree.all_bytes() < 0x40_0000_0000_0000 ==> (step.notice is None <==> 100
        * tree.rust_bytes() >= 51 * tree.all_bytes())
}

impl FilterState {
    /// The step that follows, or why there is none.
    pub open spec fn next(self, event: FilterEvent) -> Result<FilterStepView, FilterFault> {
        match (self, event) {
            (FilterState::CommitsTurn { name }, FilterEvent::Permitted) => Ok(
                FilterStepView {
                    state: FilterState::Commits { name },
                    action: FilterActionView::GetCommits(commits_route(name@)),
                    notice: None,
                },
            ),
            (FilterState::Commits { name }, FilterEvent::Commits(page)) => after_commits(
                name,
                page,
            ),
            (FilterState::Commits { .. }, FilterEvent::Failed) => Ok(
                failed(FilterTask::GetCommits),
            ),
            (FilterState::TreeTurn { name, sha }, FilterEvent::Permitted) => Ok(
                FilterStepView {
                    state: FilterState::Tree,
                    action: FilterActionView::GetTree(tree_route(name@, sha@)),
                    notice: None,
                },
            ),
            (FilterState::Tree, FilterEvent::Tree(info)) => after_tree(info),
            (FilterState::Tree, FilterEvent::Failed) => Ok(failed(FilterTask::GetTree)),
            (FilterState::CatchUp { tree }, FilterEvent::Permitted) => judged(tree),
            (FilterState::CatchUp { .. }, FilterEvent::Failed) => Ok(failed(FilterTask::CatchUp)),
            _ => Err(FilterFault::OutOfTurn),
        }
    }

    /// Starts to look at a repository.
    pub fn start(repo: &Repository) -> (r: FilterStep)
        ensures
            r.state matches FilterState::CommitsTurn { name } && name@ == repo.name(),
            r.state matches FilterState::CommitsTurn { name } && (match repo.full_name {
                Some(given) => name@ == given@,
                None => name@.len() == 0,
            }),
            r.action == FilterAction::AwaitPermit,
            r.notice is None,
    {
        FilterStep {
            state: FilterState::CommitsTurn { name: repo.name_or_empty() },
            action: FilterAction::AwaitPermit,
            notice: None,
        }
    }

    /// Goes on with what has come of the last step: an answer to what it asked for, with which the
    /// look at the repository can go on.
    pub fn step(self, event: FilterEvent) -> (r: FilterStep)
        requires
            self.next(event) is Ok,
        ensures
            self.next(event) == Ok::<_, FilterFault>(r@),
            match (self, event) {
                (FilterState::CommitsTurn { name }, FilterEvent::Permitted) => {
                    &&& r.state == FilterState::Commits { name }
                    &&& r.action matches FilterAction::GetCommits(route) && route@ == "/repos/"@
                        + name@ + "/commits?per_page=1"@
                    &&& r.notice is None
                },
                (FilterState::Commits { name }, FilterEvent::Commits(page)) => {
                    &&& r.state == FilterState::TreeTurn { name, sha: page.shas@[0] }
                    &&& r.action is AwaitPermit
                    &&& r.notice == (if page_in_link(page.last->0@)->Ok_0 < 10 {
                        Some(FilterNotice::FewCommits)
                    } else {
                        None
                    })
                },
                (FilterState::Commits { .. }, FilterEvent::Failed) => {
                    &&& r.state is Done
                    &&& r.action == FilterAction::Fail(FilterTask::GetCommits)
                    &&& r.notice is None
                },
                (FilterState::TreeTurn { name, sha }, FilterEvent::Permitted) => {
                    &&& r.state is Tree
                    &&& r.action matches FilterAction::GetTree(route) && route@ == "/repos/"@
                        + name@ + "/git/trees/"@ + sha@ + "?recursive=true"@
                    &&& r.notice is None
                },
                (FilterState::Tree, FilterEvent::Tree(info)) => if info.used == 1 {
                    is_judged_by(r, info.content)
                } else {
                    &&& r.state == FilterState::CatchUp { tree: info.content }
                    &&& r.action matches FilterAction::AwaitPermits(n) && n == info.used - 1
                    &&& r.notice is None
                },
                (FilterState::Tree, FilterEvent::Failed) => {
                    &&& r.state is Done
                    &&& r.action == FilterAction::Fail(FilterTask::GetTree)
                    &&& r.notice is None
                },
                (FilterState::CatchUp { tree }, FilterEvent::Permitted) => is_judged_by(r, tree),
                (FilterState::CatchUp { .. }, FilterEvent::Failed) => {
                    &&& r.state is Done
                    &&& r.action == FilterAction::Fail(FilterTask::CatchUp)
                    &&& r.notice is None
                },
                _ => false,
            },
    {
        match (self, event) {
            (FilterState::CommitsTurn { name }, FilterEvent::Permitted) => {
                let mut route = "/repos/".to_owned();
                route.append(name.as_str());
                route.append("/commits?per_page=1");
                FilterStep {
                    state: FilterState::Commits { name },
                    action: FilterAction::GetCommits(route),
                    notice: None,
                }
            },
            (FilterState::Commits { name }, FilterEvent::Commits(page)) => on_commits(name, page),
            (FilterState::Commits { .. }, FilterEvent::Failed) => fail(FilterTask::GetCommits),
            (FilterState::TreeTurn { name, sha }, FilterEvent::Permitted) => {
                let mut route = "/repos/".to_owned();
                route.append(name.as_str());
                route.append("/git/trees/");
                route.append(sha.as_str());
                route.append("?recursive=true");
                FilterStep {
                    state: FilterState::Tree,
                    action: FilterAction::GetTree(route),
                    notice: None,
                }
            },
            (FilterState::Tree, FilterEvent::Tree(info)) => on_tree(info),
            (FilterState::Tree, FilterEvent::Failed) => fail(FilterTask::GetTree),
            (FilterState::CatchUp { tree }, FilterEvent::Permitted) => judge(&tree),
            (FilterState::CatchUp { .. }, FilterEvent::Failed) => fail(FilterTask::CatchUp),
            _ => vstd::pervasive::unreached(),
        }
    }

    /// What there is against going on with an answer, if anything.
    pub fn find_fault(&self, event: &FilterEvent) -> (r: Option<FilterFault>)
        ensures
            match r {
                Some(fault) => self.next(*event) == Err::<FilterStepView, _>(fault),
                None => self.next(*event) is Ok,
            },
    {
        match (self, event) {
            (FilterState::CommitsTurn { .. }, FilterEvent::Permitted) => None,
            (FilterState::Commits { .. }, FilterEvent::Commits(page)) => {
                match count_commits(page) {
                    Err(fault) => Some(fault),
                    Ok(_) => if page.shas.len() == 0 {
                        Some(FilterFault::NoCommits)
                    } else {
                        None
                    },
                }
            },
            (FilterState::Commits { .. }, FilterEvent::Failed) => None,
            (FilterState::TreeTurn { .. }, FilterEvent::Permitted) => None,
            (FilterState::Tree, FilterEvent::Tree(info)) => {
                if info.used == 0 {
                    Some(FilterFault::NothingUsed)
                } else if info.used == 1 && !info.content.sizes_fit() {
                    Some(FilterFault::SizesTooLarge)
                } else {
                    None
                }
            },
            (FilterState::Tree, FilterEvent::Failed) => None,
            (FilterState::CatchUp { tree }, FilterEvent::Permitted) => {
                if !tree.sizes_fit() {
                    Some(FilterFault::SizesTooLarge)
                } else {
                    None
                }
            },
            (FilterState::CatchUp { .. }, FilterEvent::Failed) => None,
            _ => Some(FilterFault::OutOfTurn),
        }
    }

    /// Goes on with any answer, or tells what there is against it.
    pub fn try_step(self, event: FilterEvent) -> (r: Result<FilterStep, FilterFault>)
        ensures
            match r {
                Ok(step) => self.next(event) == Ok::<_, FilterFault>(step@),
                Err(fault) => self.next(event) == Err::<FilterStepView, _>(fault),
            },
    {
        match self.find_fault(&event) {
            Some(fault) => Err(fault),
            None => Ok(self.step(event)),
        }
    }
}

/// Counts the commits by their pages.
fn count_commits(page: &CommitPage) -> (r: Result<u32, FilterFault>)
    ensures
        r == commit_count(*page),
{
    match &page.last {
        None => Err(FilterFault::NoLastPage),
        Some(link) => match link_page(link.as_str()) {
            Err(error) => Err(FilterFault::BadLastPage(error)),
            Ok(count) => Ok(count),
        },
    }
}

/// Reads the commits.
fn on_commits(name: String, page: CommitPage) -> (r: FilterStep)
    requires
        after_commits(name, page) is Ok,
    ensures
        after_commits(name, page) == Ok::<_, FilterFault>(r@),
{
    let count = count_commits(&page).unwrap();
    let notice = if count < FEW_COMMITS {
        Some(FilterNotice::FewCommits)
    } else {
        None
    };
    FilterStep {
        state: FilterState::TreeTurn { name, sha: page.shas[0].clone() },
        action: FilterAction::AwaitPermit,
        notice,
    }
}

/// Reads the rate limit that came with the tree.
fn on_tree(info: RateLimitInfo<Tree>) -> (r: FilterStep)
    requires
        after_tree(info) is Ok,
    ensures
        after_tree(info) == Ok::<_, FilterFault>(r@),
        info.used == 1 ==> is_judged_by(r, info.content),
{
    if info.used == 1 {
        judge(&info.content)
    } else {
        FilterStep {
            state: FilterState::CatchUp { tree: info.content },
            action: FilterAction::AwaitPermits(info.used - 1),
            notice: None,
        }
    }
}

/// Judges the repository by its tree.
fn judge(tree: &Tree) -> (r: FilterStep)
    requires
        judged(*tree) is Ok,
    ensures
        judged(*tree) == Ok::<_, FilterFault>(r@),
        is_judged_by(r, *tree),
{
    proof {
        verdict_goes_by_the_share(*tree);
    }
    let short = tree.is_short_of_rust();
    let notice = if short {
        Some(FilterNotice::LittleRust)
    } else {
        None
    };
    FilterStep { state: FilterState::Done, action: FilterAction::Finish(!short), notice }
}

/// Gives up.
fn fail(task: FilterTask) -> (r: FilterStep)
    ensures
        r@ == failed(task),
{
    FilterStep { state: FilterState::Done, action: FilterAction::Fail(task), notice: None }
}

/// What is asked for, step by step, if it comes to the given events.
pub open spec fn run(state: FilterState, events: Seq<FilterEvent>) -> Result<
    Seq<FilterActionView>,
    FilterFault,
>
    decreases events.len(),
{
    if events.len() == 0 {
        Ok(Seq::empty())
    } else {
        match state.next(events[0]) {
            Err(fault) => Err(fault),
            Ok(step) => match run(step.state, events.drop_first()) {
                Err(fault) => Err(fault),
                Ok(later) => Ok(seq![step.action] + later),
            },
        }
    }
}

/// How many requests the rate limiter has to let through for a step.
pub open spec fn permits_of(action: FilterActionView) -> nat {
    match action {
        FilterActionView::AwaitPermit => 1,
        FilterActionView::AwaitPermits(n) => n as nat,
        _ => 0,
    }
}

/// How many requests the rate limiter has to let through for all steps.
pub open spec fn permits(actions: Seq<FilterActionView>) -> nat
    decreases actions.len(),
{
    if actions.len() == 0 {
        0
    } else {
        permits_of(actions[0]) + permits(actions.drop_first())
    }
}

/// What comes if nothing fails.
pub open spec fn good_events(page: CommitPage, info: RateLimitInfo<Tree>) -> Seq<FilterEvent> {
    let events = seq![
        FilterEvent::Permitted,
        FilterEvent::Commits(page),
        FilterEvent::Permitted,
        FilterEvent::Tree(info),
    ];
    if info.used > 1 {
        events.push(FilterEvent::Permitted)
    } else {
        events
    }
}

/// What is asked for if nothing fails.
pub open spec fn good_actions(
    name: Seq<char>,
    page: CommitPage,
    info: RateLimitInfo<Tree>,
) -> Seq<FilterActionView> {
    let actions = seq![
        FilterActionView::GetCommits(commits_route(name)),
        FilterActionView::AwaitPermit,
        FilterActionView::GetTree(tree_route(name, page.shas@[0]@)),
    ];
    let verdict = FilterActionView::Finish(!info.content.lacks_rust());
    if info.used > 1 {
        actions.push(FilterActionView::AwaitPermits((info.used - 1) as u32)).push(verdict)
    } else {
        actions.push(verdict)
    }
}

/// If nothing fails, the commits are asked for, then the tree of the latest one, and the verdict is
/// that of the tree alone, however many commits there are. Together with the start, the rate
/// limiter has let through as many requests as the server counted, and one more.
pub proof fn tree_decides(name: String, page: CommitPage, info: RateLimitInfo<Tree>)
    requires
        commit_count(page) is Ok,
        page.shas@.len() > 0,
        info.used > 0,
        info.content.all_bytes() <= u64::MAX,
    ensures
        run(FilterState::CommitsTurn { name }, good_events(page, info)) == Ok::<_, FilterFault>(
            good_actions(name@, page, info),
        ),
        permits(seq![FilterActionView::AwaitPermit] + good_actions(name@, page, info)) == info.used
            + 1,
{
    let start = FilterState::CommitsTurn { name };
    let events = good_events(page, info);
    let actions = good_actions(name@, page, info);
    let sha = page.shas@[0];
    let asked = FilterState::Commits { name };
    let turn = FilterState::TreeTurn { name, sha };
    let e1 = events.drop_first();
    let e2 = e1.drop_first();
    let e3 = e2.drop_first();
    let e4 = e3.drop_first();
    let a1 = actions.drop_first();
    let a2 = a1.drop_first();
    let a3 = a2.drop_first();
    let a4 = a3.drop_first();
    let verdict = FilterActionView::Finish(!info.content.lacks_rust());
    assert(e3[0] == FilterEvent::Tree(info));
    if info.used > 1 {
        let behind = FilterState::CatchUp { tree: info.content };
        let e5 = e4.drop_first();
        assert(e5.len() == 0);
        assert(run(FilterState::Done, e5) == Ok::<_, FilterFault>(Seq::<FilterActionView>::empty()));
        assert(e4[0] == FilterEvent::Permitted);
        assert(a4 =~= seq![verdict] + Seq::<FilterActionView>::empty());
        assert(run(behind, e4) == Ok::<_, FilterFault>(a4));
        assert(a3 =~= seq![a3[0]] + a4);
        assert(run(FilterState::Tree, e3) == Ok::<_, FilterFault>(a3));
        assert(permits(a4.drop_first()) == 0);
        assert(permits(a4) == 0);
    } else {
        assert(e4.len() == 0);
        assert(run(FilterState::Done, e4) == Ok::<_, FilterFault>(Seq::<FilterActionView>::empty()));
        assert(a3 =~= seq![verdict] + Seq::<FilterActionView>::empty());
        assert(run(FilterState::Tree, e3) == Ok::<_, FilterFault>(a3));
        assert(permits(a4) == 0);
    }
    assert(a2 =~= seq![a2[0]] + a3);
    assert(run(turn, e2) == Ok::<_, FilterFault>(a2));
    assert(a1 =~= seq![a1[0]] + a2);
    assert(run(asked, e1) == Ok::<_, FilterFault>(a1));
    assert(actions =~= seq![actions[0]] + a1);
    assert(run(start, events) == Ok::<_, FilterFault>(actions));
    let all = seq![FilterActionView::AwaitPermit] + actions;
    assert(all.drop_first() =~= actions);
    assert(permits(a3) == info.used - 1);
    assert(permits(a2) == info.used - 1);
    assert(permits(a1) == info.used);
    assert(permits(actions) == info.used);
}

/// However it comes about, a repository passes only if its tree is not short of Rust, and is turned
/// down only if it is.
pub proof fn verdict_comes_from_a_tree(name: String, events: Seq<FilterEvent>)
    requires
        run(FilterState::CommitsTurn { name }, events) is Ok,
        events.len() > 0,
        run(FilterState::CommitsTurn { name }, events)->Ok_0.last() is Finish,
    ensures
        exists|i: int|
            0 <= i < events.len() && (#[trigger] events[i]) is Tree && run(
                FilterState::CommitsTurn { name },
                events,
            )->Ok_0.last() == FilterActionView::Finish(!events[i]->Tree_0.content.lacks_rust()),
{
    lemma_verdict(FilterState::CommitsTurn { name }, events);
}

/// The verdict is that of the tree that has come, or that is still to come.
proof fn lemma_verdict(state: FilterState, events: Seq<FilterEvent>)
    requires
        run(state, events) is Ok,
        events.len() > 0,
        run(state, events)->Ok_0.last() is Finish,
    ensures
        state is CatchUp ==> run(state, events)->Ok_0.last() == FilterActionView::Finish(
            !state->tree.lacks_rust(),
        ),
        !(state is CatchUp) ==> exists|i: int|
            0 <= i < events.len() && (#[trigger] events[i]) is Tree && run(
                state,
                events,
            )->Ok_0.last() == FilterActionView::Finish(!events[i]->Tree_0.content.lacks_rust()),
    decreases events.len(),
{
    let step = state.next(events[0])->Ok_0;
    let rest = events.drop_first();
    let later = run(step.state, rest)->Ok_0;
    assert(run(state, events)->Ok_0 == seq![step.action] + later);
    if rest.len() == 0 {
        assert(later.len() == 0);
        if !(state is CatchUp) {
            assert(events[0] is Tree);
        }
    } else {
        assert(run(step.state, rest) is Ok);
        assert(later.len() > 0) by {
            assert(step.state.next(rest[0]) is Ok);
        }
        assert(run(state, events)->Ok_0.last() == later.last());
        lemma_verdict(step.state, rest);
        if state is CatchUp {
            assert(step.state is Done);
            assert(step.state.next(rest[0]) is Err);
        } else if step.state is CatchUp {
            assert(events[0] is Tree);
        } else {
            let i = choose|i: int|
                0 <= i < rest.len() && (#[trigger] rest[i]) is Tree && later.last()
                    == FilterActionView::Finish(!rest[i]->Tree_0.content.lacks_rust());
            assert(events[i + 1] == rest[i]);
        }
    }
}

/// A step that says how it ended, and no other, is the last one: nothing can follow it.
pub proof fn nothing_follows_the_end(state: FilterState, event: FilterEvent, other: FilterEvent)
    requires
        state.next(event) is Ok,
    ensures
        ({
            let step = state.next(event)->Ok_0;
            &&& step.state is Done <==> (step.action is Finish || step.action is Fail)
            &&& step.state is Done ==> step.state.next(other) == Err::<FilterStepView, _>(
                FilterFault::OutOfTurn,
            )
        }),
{
}

/// The commits are asked for at `/repos/`, the name and `/commits?per_page=1`, and the tree at
/// `/repos/`, the name, `/git/trees/`, the hash and `?recursive=true`, whatever the name and the
/// hash are and however long.
pub proof fn routes_hold_the_name_and_the_hash(name: String, sha: String)
    ensures
        ({
            let turn = FilterState::CommitsTurn { name };
            turn.next(FilterEvent::Permitted) matches Ok(step) && {
                &&& step.state == (FilterState::Commits { name })
                &&& step.action == FilterActionView::GetCommits(
                    "/repos/"@ + name@ + "/commits?per_page=1"@,
                )
                &&& step.notice is None
            }
        }),
        ({
            let turn = FilterState::TreeTurn { name, sha };
            turn.next(FilterEvent::Permitted) matches Ok(step) && {
                &&& step.state is Tree
                &&& step.action == FilterActionView::GetTree(
                    "/repos/"@ + name@ + "/git/trees/"@ + sha@ + "?recursive=true"@,
                )
                &&& step.notice is None
            }
        }),
{
}

/// With the commits, the tree of the first one is asked for next, in the same repository. That
/// takes a link to the last page which is a URL whose first `page` is a number: if this is less
/// than ten, it is pointed out. Otherwise it is told what is missing, the link before the commits.
pub proof fn commits_lead_to_the_tree_of_the_first(name: String, page: CommitPage, first: int)
    requires
        page.last matches Some(link) ==> (parsed_url(link@) matches Some(url) ==> {
            &&& 0 <= first <= url_query_pairs(url).len()
            &&& forall|i: int| 0 <= i < first ==> (#[trigger] url_query_pairs(url)[i]).0 != "page"@
            &&& first < url_query_pairs(url).len() ==> url_query_pairs(url)[first].0 == "page"@
        }),
    ensures
        ({
            let next = FilterState::Commits { name }.next(FilterEvent::Commits(page));
            match page.last {
                None => next == Err::<FilterStepView, _>(FilterFault::NoLastPage),
                Some(link) => match parsed_url(link@) {
                    None => next == Err::<FilterStepView, _>(
                        FilterFault::BadLastPage(LinkError::NotAUrl),
                    ),
                    Some(url) => if first == url_query_pairs(url).len() {
                        next == Err::<FilterStepView, _>(
                            FilterFault::BadLastPage(LinkError::NoPage),
                        )
                    } else {
                        match parsed_u32(url_query_pairs(url)[first].1) {
                            None => next == Err::<FilterStepView, _>(
                                FilterFault::BadLastPage(LinkError::NotANumber),
                            ),
                            Some(count) => if page.shas@.len() == 0 {
                                next == Err::<FilterStepView, _>(FilterFault::NoCommits)
                            } else {
                                next matches Ok(step) && {
                                    &&& step.state == FilterState::TreeTurn {
                                        name,
                                        sha: page.shas@[0],
                                    }
                                    &&& step.action is AwaitPermit
                                    &&& step.notice == (if count < 10 {
                                        Some(FilterNotice::FewCommits)
                                    } else {
                                        None
                                    })
                                }
                            },
                        }
                    },
                },
            }
        }),
{
    if let Some(link) = page.last {
        page_of_a_link_is_in_its_query(link@, first);
    }
}

/// With the tree, all requests that the server counted are caught up with, but for one. If there
/// are none to catch up with, the verdict comes at once, and is the same as after catching up.
pub proof fn counted_requests_are_caught_up_with(info: RateLimitInfo<Tree>)
    ensures
        ({
            let next = FilterState::Tree.next(FilterEvent::Tree(info));
            &&& info.used == 0 ==> next == Err::<FilterStepView, _>(FilterFault::NothingUsed)
            &&& info.used == 1 ==> next == FilterState::CatchUp { tree: info.content }.next(
                FilterEvent::Permitted,
            )
            &&& info.used > 1 ==> (next matches Ok(step) && {
                &&& step.state == FilterState::CatchUp { tree: info.content }
                &&& step.action matches FilterActionView::AwaitPermits(n) && n + 1 == info.used
                &&& step.notice is None
            })
        }),
{
}

/// There is a verdict on every tree whose sizes are together less than 2^64. It passes exactly if
/// it is not short of Rust, and below about 214 TB exactly if at least 51 percent of it are Rust.
/// That it has too little is pointed out.
pub proof fn verdict_goes_by_the_share(tree: Tree)
    ensures
        match (FilterState::CatchUp { tree }).next(FilterEvent::Permitted) {
            Err(fault) => {
                &&& fault == FilterFault::SizesTooLarge
                &&& tree.all_bytes() > 0xffff_ffff_ffff_ffff
            },
            Ok(step) => {
                &&& tree.all_bytes() <= 0xffff_ffff_ffff_ffff
                &&& step.state is Done
                &&& step.action == FilterActionView::Finish(!tree.lacks_rust())
                &&& 84 * tree.all_bytes() < 0x40_0000_0000_0000 ==> step.action
                    == FilterActionView::Finish(100 * tree.rust_bytes() >= 51 * tree.all_bytes())
                &&& step.notice == (if tree.lacks_rust() {
                    Some(FilterNotice::LittleRust)
                } else {
                    None
                })
            },
        },
{
    if 84 * tree.all_bytes() < 0x40_0000_0000_0000 {
        small_sizes_are_compared_exactly(tree.rust_bytes(), tree.all_bytes());
    }
}

/// If what was asked for fails, that is the end, and it is told what it was. A failure where
/// nothing was asked for, and any answer to something else, is out of turn.
pub proof fn failures_name_what_was_asked_for(state: FilterState, event: FilterEvent)
    ensures
        event is Failed ==> match state.next(event) {
            Ok(step) => {
                &&& step.state is Done
                &&& step.notice is None
                &&& match state {
                    FilterState::Commits { .. } => step.action == FilterActionView::Fail(
                        FilterTask::GetCommits,
                    ),
                    FilterState::Tree => step.action == FilterActionView::Fail(FilterTask::GetTree),
                    FilterState::CatchUp { .. } => step.action == FilterActionView::Fail(
                        FilterTask::CatchUp,
                    ),
                    _ => false,
                }
            },
            Err(fault) => state is CommitsTurn || state is TreeTurn || state is Done,
        },
        state.next(event) == Err::<FilterStepView, _>(FilterFault::OutOfTurn) <==> match state {
            FilterState::CommitsTurn { .. } => !(event is Permitted),
            FilterState::Commits { .. } => !(event is Commits) && !(event is Failed),
            FilterState::TreeTurn { .. } => !(event is Permitted),
            FilterState::Tree => !(event is Tree) && !(event is Failed),
            FilterState::CatchUp { .. } => !(event is Permitted) && !(event is Failed),
            FilterState::Done => true,
        },
{
}

/// The view of a step shows all that it holds.
pub proof fn view_of_a_step_is_the_step(step: FilterStep)
    ensures
        step@.state == step.state,
        step@.notice == step.notice,
        match step.action {
            FilterAction::AwaitPermit => step@.action is AwaitPermit,
            FilterAction::GetCommits(route) => step@.action == FilterActionView::GetCommits(route@),
            FilterAction::GetTree(route) => step@.action == FilterActionView::GetTree(route@),
            FilterAction::AwaitPermits(n) => step@.action == FilterActionView::AwaitPermits(n),
            FilterAction::Finish(passed) => step@.action == FilterActionView::Finish(passed),
            FilterAction::Fail(task) => step@.action == FilterActionView::Fail(task),
        },
{
}

} // verus!
