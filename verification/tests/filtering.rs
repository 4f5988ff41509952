use rust_repos::filter::{
    CommitPage, FilterAction, FilterEvent, FilterFault, FilterNotice, FilterState, FilterStep,
    FilterTask,
};
use rust_repos::link::{link_page, page_number, LinkError};
use rust_repos::repo::Repository;
use rust_repos::response::RateLimitInfo;
use rust_repos::tree::{Tree, TreeItem, TreeItemType};
use url::Url;

const LAST: &str = "https://api.github.com/repositories/1/commits?per_page=1&page=1234";

fn repo() -> Repository {
    Repository {
        full_name: Some("owner/name".to_string()),
        archived: None,
    }
}

fn tree(rust: u64, other: u64) -> Tree {
    let item = |path: &str, size: u64| TreeItem {
        path: path.to_string(),
        mode: "100644".to_string(),
        type_: TreeItemType::Blob,
        sha: "1".to_string(),
        url: None,
        size: Some(size),
    };
    Tree {
        sha: "2".to_string(),
        url: Url::parse("https://api.github.com/").unwrap(),
        tree: vec![item("a.rs", rust), item("a.c", other)],
        truncated: false,
    }
}

fn info(tree: Tree, used: u32) -> RateLimitInfo<Tree> {
    RateLimitInfo {
        content: tree,
        limit: 5000,
        used,
        remaining: 0,
        resource: "core".to_string(),
    }
}

fn commits(last: Option<&str>, shas: &[&str]) -> FilterEvent {
    FilterEvent::Commits(CommitPage {
        shas: shas.iter().map(|sha| sha.to_string()).collect(),
        last: last.map(|link| link.to_string()),
    })
}

fn asking_for_commits() -> FilterStep {
    let step = FilterState::start(&repo());
    assert!(matches!(step.action, FilterAction::AwaitPermit));
    step.state.step(FilterEvent::Permitted)
}

fn asking_for_tree() -> FilterStep {
    let step = asking_for_commits();
    let step = step.state.step(commits(Some(LAST), &["abc", "def"]));
    assert!(matches!(step.action, FilterAction::AwaitPermit));
    assert_eq!(step.notice, None);
    step.state.step(FilterEvent::Permitted)
}

fn fault_of_commits(event: FilterEvent) -> FilterFault {
    match asking_for_commits().state.try_step(event) {
        Err(fault) => fault,
        Ok(step) => panic!("{:?}", step),
    }
}

#[test]
fn repository_with_enough_rust_passes() {
    let step = asking_for_commits();
    match step.action {
        FilterAction::GetCommits(route) => {
            assert_eq!(route, "/repos/owner/name/commits?per_page=1")
        }
        other => panic!("{:?}", other),
    }
    let step = asking_for_tree();
    match step.action {
        FilterAction::GetTree(route) => {
            assert_eq!(route, "/repos/owner/name/git/trees/abc?recursive=true")
        }
        other => panic!("{:?}", other),
    }
    let step = step.state.step(FilterEvent::Tree(info(tree(51, 49), 8)));
    assert!(matches!(step.action, FilterAction::AwaitPermits(7)));
    assert_eq!(step.notice, None);
    let step = step.state.step(FilterEvent::Permitted);
    assert!(matches!(step.action, FilterAction::Finish(true)));
    assert_eq!(step.notice, None);
    assert!(matches!(step.state, FilterState::Done));
}

#[test]
fn repository_with_little_rust_does_not_pass() {
    let step = asking_for_tree();
    let step = step.state.step(FilterEvent::Tree(info(tree(50, 50), 1)));
    assert!(matches!(step.action, FilterAction::Finish(false)));
    assert_eq!(step.notice, Some(FilterNotice::LittleRust));
}

#[test]
fn few_commits_are_pointed_out_but_do_not_matter() {
    for (last, notice) in [
        ("https://a.b/?page=9", Some(FilterNotice::FewCommits)),
        ("https://a.b/?page=10", None),
    ] {
        let step = asking_for_commits();
        let step = step.state.step(commits(Some(last), &["abc"]));
        assert_eq!(step.notice, notice);
        let step = step.state.step(FilterEvent::Permitted);
        let step = step.state.step(FilterEvent::Tree(info(tree(1, 0), 1)));
        assert!(matches!(step.action, FilterAction::Finish(true)));
    }
}

#[test]
fn repository_without_a_name_is_asked_for_all_the_same() {
    let nameless = Repository {
        full_name: None,
        archived: None,
    };
    let step = FilterState::start(&nameless);
    let step = step.state.step(FilterEvent::Permitted);
    match step.action {
        FilterAction::GetCommits(route) => assert_eq!(route, "/repos//commits?per_page=1"),
        other => panic!("{:?}", other),
    }
}

#[test]
fn failures_are_described() {
    let step = asking_for_commits().state.step(FilterEvent::Failed);
    assert!(matches!(step.action, FilterAction::Fail(FilterTask::GetCommits)));
    let step = asking_for_tree().state.step(FilterEvent::Failed);
    assert!(matches!(step.action, FilterAction::Fail(FilterTask::GetTree)));
    let step = asking_for_tree();
    let step = step.state.step(FilterEvent::Tree(info(tree(1, 1), 2)));
    assert!(matches!(step.action, FilterAction::AwaitPermits(1)));
    let step = step.state.step(FilterEvent::Failed);
    assert!(matches!(step.action, FilterAction::Fail(FilterTask::CatchUp)));
    assert_eq!(FilterTask::GetCommits.describe(), "Getting commits");
    assert_eq!(FilterTask::GetTree.describe(), "Getting the tree");
    assert_eq!(FilterTask::CatchUp.describe(), "Waiting for rate limit");
}

#[test]
fn useless_commits_are_faults() {
    assert_eq!(fault_of_commits(commits(None, &["abc"])), FilterFault::NoLastPage);
    assert_eq!(
        fault_of_commits(commits(Some("/commits?page=3"), &["abc"])),
        FilterFault::BadLastPage(LinkError::NotAUrl)
    );
    assert_eq!(
        fault_of_commits(commits(Some("https://a.b/?per_page=1"), &["abc"])),
        FilterFault::BadLastPage(LinkError::NoPage)
    );
    assert_eq!(
        fault_of_commits(commits(Some("https://a.b/?page=x"), &["abc"])),
        FilterFault::BadLastPage(LinkError::NotANumber)
    );
    assert_eq!(fault_of_commits(commits(Some(LAST), &[])), FilterFault::NoCommits);
    assert_eq!(fault_of_commits(commits(None, &[])), FilterFault::NoLastPage);
}

#[test]
fn useless_trees_are_faults() {
    let step = asking_for_tree();
    let fault = step.state.try_step(FilterEvent::Tree(info(tree(1, 1), 0))).unwrap_err();
    assert_eq!(fault, FilterFault::NothingUsed);
    let step = asking_for_tree();
    let fault = step.state.try_step(FilterEvent::Tree(info(tree(u64::MAX, 1), 1))).unwrap_err();
    assert_eq!(fault, FilterFault::SizesTooLarge);
    // the sizes are looked at only after the wait
    let step = asking_for_tree();
    let step = step.state.step(FilterEvent::Tree(info(tree(u64::MAX, 1), 2)));
    let fault = step.state.try_step(FilterEvent::Permitted).unwrap_err();
    assert_eq!(fault, FilterFault::SizesTooLarge);
}

#[test]
fn good_answers_have_no_fault() {
    let step = asking_for_commits();
    let page = commits(Some(LAST), &["abc"]);
    assert_eq!(step.state.find_fault(&page), None);
    assert_eq!(step.state.find_fault(&FilterEvent::Failed), None);
    let fault = step.state.find_fault(&FilterEvent::Permitted);
    assert_eq!(fault, Some(FilterFault::OutOfTurn));
    let step = step.state.try_step(page).unwrap();
    assert!(matches!(step.action, FilterAction::AwaitPermit));
    assert!(matches!(step.state, FilterState::TreeTurn { .. }));
}

#[test]
fn nothing_follows_the_end() {
    let step = asking_for_tree();
    let step = step.state.step(FilterEvent::Tree(info(tree(1, 0), 1)));
    let fault = step.state.try_step(FilterEvent::Permitted).unwrap_err();
    assert_eq!(fault, FilterFault::OutOfTurn);
    let fault = asking_for_tree().state.try_step(commits(Some(LAST), &["abc"])).unwrap_err();
    assert_eq!(fault, FilterFault::OutOfTurn);
}

#[test]
fn pages_are_found_in_links() {
    assert_eq!(link_page(LAST), Ok(1234));
    assert_eq!(link_page("https://a.b/c?page=1&page=2"), Ok(1));
    assert_eq!(link_page("https://a.b/c?x=1&page=+7"), Err(LinkError::NotANumber));
    assert_eq!(link_page("https://a.b/c?x=1&page=%2B7"), Ok(7));
    assert_eq!(link_page("https://a.b/c?%70age=%31%32#page=3"), Ok(12));
    assert_eq!(link_page("https://a.b/page=3"), Err(LinkError::NoPage));
    assert_eq!(link_page("https://a.b/?page"), Err(LinkError::NotANumber));
    assert_eq!(link_page("https://a.b/?page=4294967296"), Err(LinkError::NotANumber));
    assert_eq!(link_page("not a link"), Err(LinkError::NotAUrl));
}

#[test]
fn first_page_in_a_query_counts() {
    let pair = |name: &str, value: &str| (name.to_string(), value.to_string());
    assert_eq!(page_number(&vec![]), Err(LinkError::NoPage));
    assert_eq!(page_number(&vec![pair("Page", "1")]), Err(LinkError::NoPage));
    assert_eq!(page_number(&vec![pair("a", "1"), pair("page", "2"), pair("page", "3")]), Ok(2));
    let odd = vec![pair("page", ""), pair("page", "3")];
    assert_eq!(page_number(&odd), Err(LinkError::NotANumber));
}
