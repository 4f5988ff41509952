use rust_repos::share::below_limit;
use rust_repos::tree::{Tree, TreeItem, TreeItemType};
use url::Url;

fn item(path: &str, size: Option<u64>) -> TreeItem {
    TreeItem {
        path: path.to_string(),
        mode: "100644".to_string(),
        type_: TreeItemType::Blob,
        sha: "0123".to_string(),
        url: None,
        size,
    }
}

fn tree(items: Vec<TreeItem>) -> Tree {
    Tree {
        sha: "4567".to_string(),
        url: Url::parse("https://api.github.com/repos/a/b/git/trees/4567").unwrap(),
        tree: items,
        truncated: false,
    }
}

#[test]
fn sizes_are_summed() {
    let tree = tree(vec![
        item("Cargo.toml", Some(100)),
        item("src", None),
        item("src/main.rs", Some(250)),
        item("src/odd.rs", None),
        item("build.rs", Some(50)),
        item("notes.rs.txt", Some(7)),
    ]);
    assert!(tree.sizes_fit());
    assert_eq!(tree.total_size(), 407);
    assert_eq!(tree.rust_size(), 300);
    assert!(!tree.is_short_of_rust());
}

#[test]
fn directories_named_like_sources_count() {
    let mut odd = item("vendor.rs", Some(30));
    odd.type_ = TreeItemType::Tree;
    let tree = tree(vec![odd, item("a.c", Some(70))]);
    assert_eq!(tree.rust_size(), 30);
    assert!(tree.is_short_of_rust());
}

#[test]
fn empty_tree_is_not_short_of_rust() {
    let tree = tree(vec![]);
    assert_eq!(tree.total_size(), 0);
    assert_eq!(tree.rust_size(), 0);
    assert!(!tree.is_short_of_rust());
}

#[test]
fn sizes_that_overflow_are_noticed() {
    let most = tree(vec![item("a.c", Some(u64::MAX)), item("b.rs", Some(0))]);
    assert!(most.sizes_fit());
    assert_eq!(most.total_size(), u64::MAX);
    let more = tree(vec![item("a.c", Some(u64::MAX)), item("b.rs", Some(1))]);
    assert!(!more.sizes_fit());
    assert_eq!(more.rust_size(), 1);
}

#[test]
fn sizes_of_two_lists_add_up() {
    let first = tree(vec![item("a.rs", Some(3)), item("b", Some(4))]);
    let second = tree(vec![item("c.rs", Some(5))]);
    let both = tree(vec![
        item("a.rs", Some(3)),
        item("b", Some(4)),
        item("c.rs", Some(5)),
    ]);
    assert_eq!(both.total_size(), first.total_size() + second.total_size());
    assert_eq!(both.rust_size(), first.rust_size() + second.rust_size());
    assert!(both.rust_size() <= both.total_size());
}

#[test]
fn trees_are_cloned() {
    let mut first = item("a.rs", Some(3));
    first.url = Some(Url::parse("https://api.github.com/repos/a/b/git/blobs/0123").unwrap());
    let tree = tree(vec![first, item("b", None)]);
    let copy = tree.clone();
    assert_eq!(copy, tree);
    assert_eq!(copy.url.as_str(), "https://api.github.com/repos/a/b/git/trees/4567");
}

#[test]
fn limit_is_51_percent() {
    assert!(below_limit(50, 100));
    assert!(!below_limit(51, 100));
    assert!(below_limit(509_999, 1_000_000));
    assert!(!below_limit(510_000, 1_000_000));
    assert!(below_limit(0, 1));
    assert!(!below_limit(1, 1));
    assert!(!below_limit(0, 0));
    assert!(!below_limit(u64::MAX, u64::MAX));
}

#[test]
fn share_is_monotone_on_an_example() {
    assert!(below_limit(5099, 10_000));
    assert!(below_limit(5098, 10_000));
    assert!(below_limit(5099, 10_001));
}

fn as_doubles(rust: u64, total: u64) -> bool {
    (rust as f64) / (total as f64) < 0.51
}

#[test]
fn share_is_that_of_doubles() {
    let mut seed: u64 = 0x9e37_79b9_7f4a_7c15;
    for round in 0..2_000_000u32 {
        seed ^= seed << 13;
        seed ^= seed >> 7;
        seed ^= seed << 17;
        let total = seed >> (round % 64);
        // around the limit
        let near = (total as u128 * 51 / 100) as u64;
        let offset = (seed.rotate_left(17) >> 32) >> (round % 33);
        for rust in [
            near,
            near.wrapping_add(1),
            near.wrapping_sub(1),
            near.wrapping_add(offset),
            near.wrapping_sub(offset),
            seed.rotate_left(31),
            total,
        ] {
            assert_eq!(below_limit(rust, total), as_doubles(rust, total), "{} {}", rust, total);
        }
    }
}

#[test]
fn share_of_huge_sizes_is_that_of_doubles() {
    let totals = [
        (1u64 << 53) - 1,
        1 << 53,
        (1 << 53) + 1,
        (1 << 53) + 2,
        (1 << 53) + 3,
        (1 << 54) + 2,
        (1 << 54) + 6,
        (1 << 63) - 1,
        1 << 63,
        (1 << 63) + 1024,
        (1 << 63) + 1025,
        u64::MAX - 1024,
        u64::MAX - 1023,
        u64::MAX,
    ];
    for total in totals {
        let near = (total as u128 * 51 / 100) as u64;
        for offset in 0..20_000u64 {
            let rust = near - 10_000 + offset;
            assert_eq!(below_limit(rust, total), as_doubles(rust, total), "{} {}", rust, total);
        }
    }
    // the smallest size at which rounding makes a difference
    let (rust, total) = (109373133807605u64, 214457125112951u64);
    assert!(100 * (rust as u128) < 51 * (total as u128));
    assert!(!as_doubles(rust, total));
    assert!(!below_limit(rust, total));
    assert!(below_limit(rust - 51, total - 100));
    assert!(as_doubles(rust - 51, total - 100));
    let total = 100_000_000_000_000_000u64;
    assert!(as_doubles(51_000_000_000_000_000 - 10, total));
    assert!(!as_doubles(51_000_000_000_000_000 - 1, total));
    assert!(below_limit(51_000_000_000_000_000 - 10, total));
    assert!(!below_limit(51_000_000_000_000_000 - 1, total));
}
