use http::Uri;
use rust_repos::limiter::{make_rate_limiter, LimiterPlan, Rate};
use rust_repos::list::{ListAction, ListTask, Pulled, RepoList, Verdict, REPO_COUNT};
use rust_repos::repo::{is_banned, pre_filter_repo, Repository, Screening, BANNED_REPOS};
use rust_repos::stream::{into_stream, Answer, Page, PageIterator, Received, StreamStep};

fn repo(name: &str, archived: Option<bool>) -> Repository {
    Repository {
        full_name: Some(name.to_string()),
        archived,
    }
}

#[test]
fn banned_repositories_are_skipped() {
    for name in BANNED_REPOS {
        assert!(is_banned(name));
        assert!(!pre_filter_repo(&repo(name, Some(false))));
        assert_eq!(repo(name, None).screen(), Screening::Banned);
    }
    assert_eq!(BANNED_REPOS.len(), 52);
    assert!(is_banned("rust-lang/book"));
    assert!(!is_banned("Rust-Lang/Book"));
    assert!(!is_banned(""));
}

#[test]
fn archived_repositories_are_skipped() {
    assert!(pre_filter_repo(&repo("rust-lang/rust", None)));
    assert!(pre_filter_repo(&repo("rust-lang/rust", Some(false))));
    assert!(!pre_filter_repo(&repo("rust-lang/rust", Some(true))));
    assert_eq!(repo("diem/diem", Some(true)).screen(), Screening::Archived);
    assert!(pre_filter_repo(&Repository {
        full_name: None,
        archived: None
    }));
}

#[test]
fn names_default_to_empty() {
    let nameless = Repository {
        full_name: None,
        archived: None,
    };
    assert_eq!(nameless.name_or_empty(), "");
    assert_eq!(repo("a/b", None).name_or_empty(), "a/b");
}

#[test]
fn list_holds_what_passed() {
    let mut list = RepoList::new();
    assert_eq!(list.len(), 0);
    assert_eq!(list.text(), "");
    for skipped in [repo("rust-lang/book", None), repo("a/b", Some(true))] {
        assert_eq!(list.on_pulled(&Pulled::Repo(skipped)), ListAction::Pull);
    }
    let offers = [
        ("a/b", Verdict::Passed),
        ("c/d", Verdict::TurnedDown),
        ("e/f", Verdict::Passed),
        ("a/b", Verdict::Passed),
    ];
    for (name, verdict) in offers {
        assert_eq!(list.on_pulled(&Pulled::Repo(repo(name, None))), ListAction::Filter);
        assert_eq!(list.on_verdict(&repo(name, None), verdict), ListAction::Pull);
    }
    assert_eq!(list.on_pulled(&Pulled::End), ListAction::Finish);
    assert_eq!(list.len(), 3);
    assert_eq!(list.text(), "a/b\ne/f\na/b");
    assert_eq!(list.into_names(), vec!["a/b", "e/f", "a/b"]);
}

#[test]
fn text_of_a_list_tells_the_names() {
    let mut list = RepoList::new();
    for name in ["b/a", "a", "c/d"] {
        list.on_verdict(&repo(name, None), Verdict::Passed);
    }
    let text = list.text();
    let names: Vec<&str> = text.split('\n').collect();
    assert_eq!(names, list.into_names());
}

#[test]
fn list_is_complete_in_time() {
    let mut list = RepoList::new();
    for i in 1..=REPO_COUNT {
        let action = list.on_verdict(&repo("a/b", None), Verdict::Passed);
        let expected = if i == 1000 {
            ListAction::Finish
        } else {
            ListAction::Pull
        };
        assert_eq!(action, expected);
    }
    assert_eq!(list.len(), 1000);
}

#[test]
fn failures_stop_the_list() {
    let mut list = RepoList::new();
    list.on_verdict(&repo("a/b", None), Verdict::Passed);
    let action = list.on_pulled(&Pulled::Failed);
    assert_eq!(action, ListAction::Fail(ListTask::NextRepo));
    let action = list.on_verdict(&repo("c/d", None), Verdict::Failed);
    assert_eq!(action, ListAction::Fail(ListTask::FilterRepo));
    assert_eq!(list.into_names(), vec!["a/b"]);
    assert_eq!(ListTask::NextRepo.describe(), "Getting next repo");
    assert_eq!(ListTask::FilterRepo.describe(), "Filtering repo");
}

#[test]
fn nameless_repositories_can_be_turned_down() {
    let nameless = Repository {
        full_name: None,
        archived: None,
    };
    let mut list = RepoList::new();
    assert_eq!(list.on_verdict(&nameless, Verdict::TurnedDown), ListAction::Pull);
    let action = list.on_verdict(&nameless, Verdict::Failed);
    assert_eq!(action, ListAction::Fail(ListTask::FilterRepo));
    assert_eq!(list.len(), 0);
}

fn link(n: u32) -> Option<Uri> {
    Some(format!("https://api.github.com/search?page={}", n).parse().unwrap())
}

struct Run {
    yielded: Vec<u32>,
    asked: Vec<Option<Uri>>,
    failed: bool,
}

fn run(page: Page<u32>, answers: Vec<Answer<u32>>) -> Run {
    let mut answers = answers.into_iter();
    let mut run = Run {
        yielded: Vec::new(),
        asked: Vec::new(),
        failed: false,
    };
    let mut state = into_stream(page);
    loop {
        let (item, left) = match state.step() {
            StreamStep::Yield(item, left) => (item, left),
            StreamStep::AwaitPermit(request) => {
                run.asked.push(request.permitted());
                match PageIterator::receive(answers.next().unwrap()) {
                    Received::Yield(item, left) => (item, left),
                    Received::End => return run,
                    Received::Fail => {
                        run.failed = true;
                        return run;
                    }
                }
            }
        };
        run.yielded.push(item);
        state = left;
    }
}

fn page(items: &[u32], next: Option<Uri>) -> Page<u32> {
    Page {
        items: items.to_vec(),
        next,
    }
}

#[test]
fn stream_goes_through_all_pages() {
    let run = run(
        page(&[1, 2, 3], link(2)),
        vec![
            Answer::Page(page(&[4], link(3))),
            Answer::Page(page(&[5, 6], None)),
            Answer::NoPage,
        ],
    );
    assert_eq!(run.yielded, vec![1, 2, 3, 4, 5, 6]);
    // one permit for each request: for each link, and for the lack of one
    assert_eq!(run.asked, vec![link(2), link(3), None]);
    assert!(!run.failed);
}

#[test]
fn stream_ends_at_an_empty_page() {
    let run = run(
        page(&[1], link(2)),
        vec![
            Answer::Page(page(&[], link(3))),
            Answer::Page(page(&[2], None)),
            Answer::NoPage,
        ],
    );
    assert_eq!(run.yielded, vec![1]);
    assert_eq!(run.asked, vec![link(2)]);
    assert!(!run.failed);
}

#[test]
fn stream_ends_at_a_failure() {
    let run = run(
        page(&[1], link(2)),
        vec![
            Answer::Page(page(&[2], link(3))),
            Answer::Failed,
            Answer::Page(page(&[3], None)),
        ],
    );
    assert_eq!(run.yielded, vec![1, 2]);
    assert_eq!(run.asked, vec![link(2), link(3)]);
    assert!(run.failed);
}

#[test]
fn empty_first_page_does_not_end_the_stream() {
    let run = run(
        page(&[], link(2)),
        vec![Answer::Page(page(&[7], None)), Answer::NoPage],
    );
    assert_eq!(run.yielded, vec![7]);
    assert_eq!(run.asked, vec![link(2), None]);
}

#[test]
fn limiter_is_planned() {
    let plan = make_rate_limiter(Rate {
        limit: 5000,
        remaining: 4988,
    });
    assert_eq!(
        plan,
        LimiterPlan {
            burst: 5000,
            interval: 12_000_000,
            preload: Some(4988),
        }
    );
    let plan = make_rate_limiter(Rate {
        limit: 7,
        remaining: 0,
    });
    assert_eq!(
        plan,
        LimiterPlan {
            burst: 7,
            interval: 8_571_428_571,
            preload: None,
        }
    );
    assert!(7 * plan.interval <= 60_000_000_000);
    assert!(7 * (plan.interval + 1) > 60_000_000_000);
}

#[test]
fn limiter_takes_the_lower_bits() {
    let plan = make_rate_limiter(Rate {
        limit: 0x1_0000_001e,
        remaining: 0x1_0000_0000,
    });
    assert_eq!((plan.burst, plan.preload), (30, None));
    assert_eq!(plan.interval, 2_000_000_000);
    let plan = make_rate_limiter(Rate {
        limit: 0xffff_ffff,
        remaining: 0x3_ffff_ffff,
    });
    assert_eq!(plan.interval, 13);
    assert_eq!(plan.preload, Some(0xffff_ffff));
}

#[test]
fn plan_is_the_quota_of_a_minute() {
    for limit in [1u32, 7, 30, 5000, u32::MAX] {
        let plan = make_rate_limiter(Rate {
            limit: limit as usize,
            remaining: 1,
        });
        let quota = governor::Quota::per_minute(std::num::NonZeroU32::new(limit).unwrap());
        assert_eq!(quota.burst_size().get(), plan.burst);
        assert_eq!(quota.replenish_interval().as_nanos() as u64, plan.interval);
        let period = std::time::Duration::from_nanos(plan.interval);
        let again = governor::Quota::with_period(period).unwrap().allow_burst(quota.burst_size());
        assert_eq!(again, quota);
    }
}
