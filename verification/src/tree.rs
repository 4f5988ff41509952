//! The files of a repository.

use url::Url;
use vstd::prelude::*;

use crate::share;
use crate::share::is_below_limit;
use crate::text::{ends_with, has_ending};

verus! {

/// What an entry of a tree is.
#[derive(Debug, Copy, Clone, Hash, Eq, PartialEq, Structural)]
#[non_exhaustive]
pub enum TreeItemType {
    Tree,
    Blob,
    Commit,
}

/// An entry of a tree.
#[derive(Debug, Clone, Hash, Eq, PartialEq)]
pub struct TreeItem {
    pub path: String,
    pub mode: String,
    pub type_: TreeItemType,
    pub sha: String,
    pub url: Option<Url>,
    pub size: Option<u64>,
}

/// A tree: the entries of a repository.
#[derive(Debug, Clone, Hash, Eq, PartialEq)]
pub struct Tree {
    pub sha: String,
    pub url: Url,
    pub tree: Vec<TreeItem>,
    pub truncated: bool,
}

/// The size of an entry: nothing if none is given.
pub open spec fn size_of_item(item: TreeItem) -> nat {
    match item.size {
        Some(size) => size as nat,
        None => 0,
    }
}

/// What the entries amount to together.
pub open spec fn size_of_items(items: Seq<TreeItem>) -> nat
    decreases items.len(),
{
    if items.len() == 0 {
        0
    } else {
        size_of_items(items.drop_last()) + size_of_item(items.last())
    }
}

/// An entry is Rust source if its path ends with `.rs`, whatever its type.
pub open spec fn is_rust(item: TreeItem) -> bool {
    has_ending(item.path@, ".rs"@)
}

/// The entries that are Rust source, in order.
pub open spec fn rust_items(items: Seq<TreeItem>) -> Seq<TreeItem> {
    items.filter(|item: TreeItem| is_rust(item))
}

impl Tree {
    /// The size of all entries.
    pub open spec fn all_bytes(&self) -> nat {
        size_of_items(self.tree@)
    }

    /// The size of the Rust source.
    pub open spec fn rust_bytes(&self) -> nat {
        size_of_items(rust_items(self.tree@))
    }

    /// Rust is less than 51 percent of the tree.
    pub open spec fn lacks_rust(&self) -> bool {
        is_below_limit(self.rust_bytes(), self.all_bytes())
    }

    /// The size of all entries, which has to fit.
    pub fn total_size(&self) -> (r: u64)
        requires
            self.all_bytes() <= u64::MAX,
        ensures
            r == self.all_bytes(),
            r == self.tree@.fold_left(
                0nat,
                |sum: nat, item: TreeItem|
                    sum + (match item.size {
                        Some(size) => size as nat,
                        None => 0,
                    }),
            ),
    {
        let mut sum: u64 = 0;
        let mut i: usize = 0;
        while i < self.tree.len()
            invariant
                i <= self.tree.len(),
                self.all_bytes() <= u64::MAX,
                sum == size_of_items(self.tree@.take(i as int)),
            decreases self.tree.len() - i,
        {
            proof {
                lemma_size_of_longer_prefix(self.tree@, i as int);
                lemma_size_of_prefix(self.tree@, i + 1);
            }
            sum = sum + size_or_nothing(&self.tree[i]);
            i = i + 1;
        }
        assert(self.tree@.take(i as int) =~= self.tree@);
        proof {
            sizes_are_sums(*self);
        }
        sum
    }

    /// The size of the Rust source, which has to fit.
    pub fn rust_size(&self) -> (r: u64)
        requires
            self.rust_bytes() <= u64::MAX,
        ensures
            r == self.rust_bytes(),
            r == self.tree@.fold_left(
                0nat,
                |sum: nat, item: TreeItem|
                    sum + (match item.size {
                        Some(size) if item.path@.len() >= 3 && item.path@.skip(item.path@.len() - 3)
                            == seq!['.', 'r', 's'] => size as nat,
                        _ => 0,
                    }),
            ),
    {
        let mut sum: u64 = 0;
        let mut i: usize = 0;
        proof {
            reveal_with_fuel(Seq::filter, 1);
            assert(self.tree@.take(0) =~= Seq::<TreeItem>::empty());
        }
        while i < self.tree.len()
            invariant
                i <= self.tree.len(),
                self.rust_bytes() <= u64::MAX,
                sum == size_of_items(rust_items(self.tree@.take(i as int))),
            decreases self.tree.len() - i,
        {
            let item = &self.tree[i];
            proof {
                lemma_rust_items_of_longer_prefix(self.tree@, i as int);
                lemma_rust_size_of_prefix(self.tree@, i + 1);
            }
            if ends_with(item.path.as_str(), ".rs") {
                sum = sum + size_or_nothing(item);
            }
            i = i + 1;
        }
        assert(self.tree@.take(i as int) =~= self.tree@);
        proof {
            sizes_are_sums(*self);
        }
        sum
    }
}

impl Tree {
    /// Whether the size of all entries fits.
    pub fn sizes_fit(&self) -> (r: bool)
        ensures
            r == (self.all_bytes() <= u64::MAX),
    {
        let mut sum: u64 = 0;
        let mut i: usize = 0;
        while i < self.tree.len()
            invariant
                i <= self.tree.len(),
                sum == size_of_items(self.tree@.take(i as int)),
            decreases self.tree.len() - i,
        {
            let size = size_or_nothing(&self.tree[i]);
            proof {
                lemma_size_of_longer_prefix(self.tree@, i as int);
                lemma_size_of_prefix(self.tree@, i + 1);
            }
            if size > u64::MAX - sum {
                return false;
            }
            sum = sum + size;
            i = i + 1;
        }
        assert(self.tree@.take(i as int) =~= self.tree@);
        true
    }

    /// Whether Rust is less than 51 percent of the tree.
    pub fn is_short_of_rust(&self) -> (r: bool)
        requires
            self.all_bytes() <= u64::MAX,
        ensures
            r == self.lacks_rust(),
            84 * self.all_bytes() < 0x40_0000_0000_0000 ==> (r <==> 100 * self.rust_bytes() < 51
                * self.all_bytes()),
    {
        proof {
            rust_is_part_of_the_tree(self.tree@);
            if 84 * self.all_bytes() < 0x40_0000_0000_0000 {
                share::small_sizes_are_compared_exactly(self.rust_bytes(), self.all_bytes());
            }
        }
        share::below_limit(self.rust_size(), self.total_size())
    }
}

/// The Rust source is never larger than all entries together.
pub proof fn rust_is_part_of_the_tree(items: Seq<TreeItem>)
    ensures
        size_of_items(rust_items(items)) <= size_of_items(items),
    decreases items.len(),
{
    if items.len() > 0 {
        rust_is_part_of_the_tree(items.drop_last());
        lemma_rust_items_of_longer_prefix(items, items.len() - 1);
        assert(items.take(items.len() - 1) =~= items.drop_last());
        assert(items.take(items.len() as int) =~= items);
    } else {
        reveal_with_fuel(Seq::filter, 1);
    }
}

/// Two lists of entries amount to the sum of what each amounts to, and so does their Rust source.
pub proof fn sizes_add_up(first: Seq<TreeItem>, second: Seq<TreeItem>)
    ensures
        size_of_items(first + second) == size_of_items(first) + size_of_items(second),
        size_of_items(rust_items(first + second)) == size_of_items(rust_items(first))
            + size_of_items(rust_items(second)),
    decreases second.len(),
{
    let all = first + second;
    if second.len() > 0 {
        sizes_add_up(first, second.drop_last());
        assert(all.drop_last() =~= first + second.drop_last());
        lemma_rust_items_of_longer_prefix(all, all.len() - 1);
        lemma_rust_items_of_longer_prefix(second, second.len() - 1);
        assert(all.take(all.len() - 1) =~= all.drop_last());
        assert(all.take(all.len() as int) =~= all);
        assert(second.take(second.len() - 1) =~= second.drop_last());
        assert(second.take(second.len() as int) =~= second);
    } else {
        reveal_with_fuel(Seq::filter, 1);
        assert(all =~= first);
    }
}

/// The size of an entry.
fn size_or_nothing(item: &TreeItem) -> (r: u64)
    ensures
        r == size_of_item(*item),
{
    match item.size {
        Some(size) => size,
        None => 0,
    }
}

/// One more entry adds its size.
proof fn lemma_size_of_longer_prefix(items: Seq<TreeItem>, n: int)
    requires
        0 <= n < items.len(),
    ensures
        size_of_items(items.take(n + 1)) == size_of_items(items.take(n)) + size_of_item(items[n]),
{
    assert(items.take(n + 1).drop_last() =~= items.take(n));
}

/// A part is not larger than the whole.
proof fn lemma_size_of_prefix(items: Seq<TreeItem>, n: int)
    requires
        0 <= n <= items.len(),
    ensures
        size_of_items(items.take(n)) <= size_of_items(items),
    decreases items.len() - n,
{
    if n < items.len() {
        lemma_size_of_longer_prefix(items, n);
        lemma_size_of_prefix(items, n + 1);
    } else {
        assert(items.take(n) =~= items);
    }
}

/// One more entry adds its size to the Rust source if it is Rust source.
proof fn lemma_rust_items_of_longer_prefix(items: Seq<TreeItem>, n: int)
    requires
        0 <= n < items.len(),
    ensures
        size_of_items(rust_items(items.take(n + 1))) == size_of_items(rust_items(items.take(n))) + (
        if is_rust(items[n]) {
            size_of_item(items[n])
        } else {
            0
        }),
{
    reveal_with_fuel(Seq::filter, 1);
    let longer = items.take(n + 1);
    assert(longer.drop_last() =~= items.take(n));
    assert(longer.last() == items[n]);
    if is_rust(items[n]) {
        let all = rust_items(longer);
        assert(all =~= rust_items(items.take(n)).push(items[n]));
        assert(all.drop_last() =~= rust_items(items.take(n)));
    }
}

/// A part holds no more Rust source than the whole.
proof fn lemma_rust_size_of_prefix(items: Seq<TreeItem>, n: int)
    requires
        0 <= n <= items.len(),
    ensures
        size_of_items(rust_items(items.take(n))) <= size_of_items(rust_items(items)),
    decreases items.len() - n,
{
    if n < items.len() {
        lemma_rust_items_of_longer_prefix(items, n);
        lemma_rust_size_of_prefix(items, n + 1);
    } else {
        assert(items.take(n) =~= items);
    }
}

/// A tree is as large as the sizes that its entries give are together. Its Rust source is as large
/// as those of the entries whose paths end with a dot, an `r` and an `s`. Nothing else of the tree
/// or of an entry makes a difference.
pub proof fn sizes_are_sums(tree: Tree)
    ensures
        tree.all_bytes() == tree.tree@.fold_left(
            0nat,
            |sum: nat, item: TreeItem|
                sum + (match item.size {
                    Some(size) => size as nat,
                    None => 0,
                }),
        ),
        tree.rust_bytes() == tree.tree@.fold_left(
            0nat,
            |sum: nat, item: TreeItem|
                sum + (match item.size {
                    Some(size) if item.path@.len() >= 3 && item.path@.skip(item.path@.len() - 3)
                        == seq!['.', 'r', 's'] => size as nat,
                    _ => 0,
                }),
        ),
{
    lemma_sum_of_sizes(
        tree.tree@,
        |sum: nat, item: TreeItem|
            sum + (match item.size {
                Some(size) => size as nat,
                None => 0,
            }),
    );
    assert forall|item: TreeItem| #[trigger] is_rust(item) == (item.path@.len() >= 3
        && item.path@.skip(item.path@.len() - 3) == seq!['.', 'r', 's']) by {
        reveal_strlit(".rs");
        assert(".rs"@ =~= seq!['.', 'r', 's']);
    }
    lemma_sum_of_rust_sizes(
        tree.tree@,
        |sum: nat, item: TreeItem|
            sum + (match item.size {
                Some(size) if item.path@.len() >= 3 && item.path@.skip(item.path@.len() - 3)
                    == seq!['.', 'r', 's'] => size as nat,
                _ => 0,
            }),
    );
}

/// A tree of less than about 214 TB is short of Rust exactly if the entries whose paths end with
/// `.rs` give sizes that are together less than 51 percent of all sizes.
pub proof fn less_than_51_percent_is_too_little(tree: Tree, rust: nat, total: nat)
    requires
        total == tree.tree@.fold_left(
            0nat,
            |sum: nat, item: TreeItem|
                sum + (match item.size {
                    Some(size) => size as nat,
                    None => 0,
                }),
        ),
        rust == tree.tree@.fold_left(
            0nat,
            |sum: nat, item: TreeItem|
                sum + (match item.size {
                    Some(size) if item.path@.len() >= 3 && item.path@.skip(item.path@.len() - 3)
                        == seq!['.', 'r', 's'] => size as nat,
                    _ => 0,
                }),
        ),
        84 * total < 0x40_0000_0000_0000,
    ensures
        tree.lacks_rust() <==> 100 * rust < 51 * total,
{
    sizes_are_sums(tree);
    share::small_sizes_are_compared_exactly(rust, total);
}

/// A larger tree, too, is short of Rust exactly if the quotient of the two sums is below the limit.
pub proof fn the_share_of_a_tree_decides(tree: Tree, rust: nat, total: nat)
    requires
        total == tree.tree@.fold_left(
            0nat,
            |sum: nat, item: TreeItem|
                sum + (match item.size {
                    Some(size) => size as nat,
                    None => 0,
                }),
        ),
        rust == tree.tree@.fold_left(
            0nat,
            |sum: nat, item: TreeItem|
                sum + (match item.size {
                    Some(size) if item.path@.len() >= 3 && item.path@.skip(item.path@.len() - 3)
                        == seq!['.', 'r', 's'] => size as nat,
                    _ => 0,
                }),
        ),
    ensures
        tree.lacks_rust() <==> is_below_limit(rust, total),
{
    sizes_are_sums(tree);
}

/// What the entries amount to is the sum of their sizes.
proof fn lemma_sum_of_sizes(items: Seq<TreeItem>, with: spec_fn(nat, TreeItem) -> nat)
    requires
        forall|sum: nat, item: TreeItem| #[trigger] with(sum, item) == sum + size_of_item(item),
    ensures
        size_of_items(items) == items.fold_left(0, with),
    decreases items.len(),
{
    if items.len() > 0 {
        lemma_sum_of_sizes(items.drop_last(), with);
    }
}

/// What the Rust source amounts to is the sum of its sizes.
proof fn lemma_sum_of_rust_sizes(items: Seq<TreeItem>, with: spec_fn(nat, TreeItem) -> nat)
    requires
        forall|sum: nat, item: TreeItem| #[trigger]
            with(sum, item) == sum + (if is_rust(item) {
                size_of_item(item)
            } else {
                0
            }),
    ensures
        size_of_items(rust_items(items)) == items.fold_left(0, with),
    decreases items.len(),
{
    if items.len() > 0 {
        lemma_sum_of_rust_sizes(items.drop_last(), with);
        lemma_rust_items_of_longer_prefix(items, items.len() - 1);
        assert(items.take(items.len() - 1) =~= items.drop_last());
        assert(items.take(items.len() as int) =~= items);
    } else {
        reveal_with_fuel(Seq::filter, 1);
    }
}

} // verus!
