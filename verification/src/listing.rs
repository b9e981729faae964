//! What the store answers to a listing request, and what of it is offered
//! to the operator.
//!
//! A request covers one level: the store groups the keys below a prefix on
//! the delimiter and answers with one page of grouped prefixes and keys.
//! Nothing beyond that page is ever asked for.

use crate::path::{ends_with_delimiter, is_group};
use vstd::prelude::*;

verus! {

/// One page of the store's answer for a level, in the store's own order.
#[derive(Debug, PartialEq, Eq)]
pub struct Page {
    /// The prefixes under which the store grouped deeper keys.
    pub groups: Vec<String>,
    /// The keys that the store found at this level.
    pub keys: Vec<String>,
}

/// The mathematical content of a [`Page`].
pub struct PageView {
    pub groups: Seq<Seq<char>>,
    pub keys: Seq<Seq<char>>,
}

impl View for Page {
    type V = PageView;

    open spec fn view(&self) -> PageView {
        PageView { groups: self.groups.deep_view(), keys: self.keys.deep_view() }
    }
}

/// One level as the browser sees it: groups to descend into and leaves to
/// choose.
#[derive(Debug, PartialEq, Eq)]
pub struct Level {
    /// The prefixes of the levels below this one.
    pub groups: Vec<String>,
    /// The keys of the objects at this level.
    pub leaves: Vec<String>,
}

/// The mathematical content of a [`Level`].
pub struct LevelView {
    pub groups: Seq<Seq<char>>,
    pub leaves: Seq<Seq<char>>,
}

impl View for Level {
    type V = LevelView;

    open spec fn view(&self) -> LevelView {
        LevelView { groups: self.groups.deep_view(), leaves: self.leaves.deep_view() }
    }
}

impl LevelView {
    /// Whether the leaves are leaves: none of them ends with the delimiter.
    pub open spec fn well_formed(self) -> bool {
        forall|i: int| 0 <= i < self.leaves.len() ==> !is_group(#[trigger] self.leaves[i])
    }
}

/// The content of a store's reply: a page, or what the transport said when
/// the call failed.
pub open spec fn reply_view(reply: Result<Page, String>) -> Result<PageView, Seq<char>> {
    match reply {
        Ok(page) => Ok(page@),
        Err(message) => Err(message@),
    }
}

/// The content of a reply to the enumeration of buckets.
pub open spec fn names_view(
    reply: Result<Vec<String>, String>,
) -> Result<Seq<Seq<char>>, Seq<char>> {
    match reply {
        Ok(names) => Ok(names.deep_view()),
        Err(message) => Err(message@),
    }
}

/// The keys of a page that are leaves: those that do not end with the
/// delimiter, in the order in which the store gave them. A key that ends
/// with the delimiter marks a folder and is not offered.
pub open spec fn leaves_of(keys: Seq<Seq<char>>) -> Seq<Seq<char>> {
    keys.filter(|key: Seq<char>| !is_group(key))
}

/// The level that a reply shows. A failed call shows an empty level.
pub open spec fn level_of(reply: Result<PageView, Seq<char>>) -> LevelView {
    match reply {
        Ok(page) => LevelView { groups: page.groups, leaves: leaves_of(page.keys) },
        Err(_) => LevelView { groups: Seq::empty(), leaves: Seq::empty() },
    }
}

/// The bucket names that a reply shows. A failed call shows none.
pub open spec fn names_of(reply: Result<Seq<Seq<char>>, Seq<char>>) -> Seq<Seq<char>> {
    match reply {
        Ok(names) => names,
        Err(_) => Seq::empty(),
    }
}

/// What is to be reported of a reply: nothing of a page, and of a failed
/// call what the transport said.
pub open spec fn diagnostic_of<T>(reply: Result<T, Seq<char>>) -> Option<Seq<char>> {
    match reply {
        Ok(_) => None,
        Err(message) => Some(message),
    }
}

/// The candidates of a level: its groups first, then its leaves.
pub open spec fn candidates_of(level: LevelView) -> Seq<Seq<char>> {
    level.groups + level.leaves
}

/// Copies the keys that are leaves, keeping their order.
fn keep_leaves(keys: &Vec<String>) -> (leaves: Vec<String>)
    ensures
        leaves.deep_view() == leaves_of(keys.deep_view()),
{
    let ghost all_keys = keys.deep_view();
    let ghost is_leaf = |key: Seq<char>| !is_group(key);
    let mut leaves: Vec<String> = Vec::new();
    let mut i: usize = 0;
    assert(all_keys.take(0).filter(is_leaf) =~= Seq::<Seq<char>>::empty()) by {
        reveal(Seq::filter);
    }
    while i < keys.len()
        invariant
            i <= keys.len(),
            all_keys == keys.deep_view(),
            is_leaf == |key: Seq<char>| !is_group(key),
            leaves.deep_view() == all_keys.take(i as int).filter(is_leaf),
        decreases keys.len() - i,
    {
        let key = &keys[i];
        proof {
            all_keys.lemma_take_succ_push(i as int);
            all_keys.take(i as int).lemma_filter_push(all_keys[i as int], is_leaf);
        }
        if !ends_with_delimiter(key.as_str()) {
            leaves.push(key.clone());
        }
        i += 1;
    }
    assert(all_keys.take(keys.len() as int) =~= all_keys);
    leaves
}

/// Receives the store's reply to a listing request for one level.
///
/// A page gives its groups as they are and its keys without those that end
/// with the delimiter. A failed call is not passed on as a failure: it gives
/// an empty level and, to be reported, what the transport said.
pub fn list_objects(reply: Result<Page, String>) -> (out: (Level, Option<String>))
    ensures
        out.0@ == level_of(reply_view(reply)),
        out.0@.well_formed(),
        out.1.deep_view() == diagnostic_of(reply_view(reply)),
{
    match reply {
        Ok(page) => {
            let leaves = keep_leaves(&page.keys);
            proof {
                lemma_leaves_keep_order(page.keys.deep_view());
            }
            (Level { groups: page.groups, leaves }, None)
        },
        Err(message) => {
            let level = Level { groups: Vec::new(), leaves: Vec::new() };
            assert(level.groups.deep_view() =~= Seq::<Seq<char>>::empty());
            assert(level.leaves.deep_view() =~= Seq::<Seq<char>>::empty());
            (level, Some(message))
        },
    }
}

/// Receives the store's reply to the enumeration of buckets.
///
/// A failed call is not passed on as a failure: it gives no names and, to be
/// reported, what the transport said.
pub fn list_buckets(reply: Result<Vec<String>, String>) -> (out: (Vec<String>, Option<String>))
    ensures
        out.0.deep_view() == names_of(names_view(reply)),
        out.1.deep_view() == diagnostic_of(names_view(reply)),
{
    match reply {
        Ok(names) => (names, None),
        Err(message) => {
            let names: Vec<String> = Vec::new();
            (names, Some(message))
        },
    }
}

/// Lays out the candidates of a level for selection: every group, then every
/// leaf, each in the order in which the store gave them.
pub fn resolve_candidates(level: Level) -> (candidates: Vec<String>)
    ensures
        candidates.deep_view() == candidates_of(level@),
        candidates.len() == 0 <==> level@.groups.len() == 0 && level@.leaves.len() == 0,
{
    let mut candidates = level.groups;
    let mut leaves = level.leaves;
    candidates.append(&mut leaves);
    candidates
}

/// The positions, in ascending order, at which `keys` holds a leaf.
pub open spec fn leaf_positions(keys: Seq<Seq<char>>) -> Seq<int>
    decreases keys.len(),
{
    if keys.len() == 0 {
        Seq::empty()
    } else if is_group(keys.last()) {
        leaf_positions(keys.drop_last())
    } else {
        leaf_positions(keys.drop_last()).push(keys.len() - 1)
    }
}

/// The leaves of a page are its keys at the leaf positions: every key that
/// does not end with the delimiter is among them, none that does, and they
/// stand in the order in which the store gave them.
pub proof fn lemma_leaves_keep_order(keys: Seq<Seq<char>>)
    ensures
        leaf_positions(keys).len() == leaves_of(keys).len(),
        forall|k: int|
            0 <= k < leaf_positions(keys).len() ==> {
                &&& 0 <= #[trigger] leaf_positions(keys)[k] < keys.len()
                &&& leaves_of(keys)[k] == keys[leaf_positions(keys)[k]]
                &&& !is_group(leaves_of(keys)[k])
            },
        forall|j: int, k: int|
            0 <= j < k < leaf_positions(keys).len() ==> #[trigger] leaf_positions(keys)[j]
                < #[trigger] leaf_positions(keys)[k],
        forall|i: int|
            0 <= i < keys.len() && !is_group(#[trigger] keys[i]) ==> leaf_positions(keys).contains(
                i,
            ),
    decreases keys.len(),
{
    reveal(Seq::filter);
    if keys.len() > 0 {
        let shorter = keys.drop_last();
        let last = keys.len() - 1;
        lemma_leaves_keep_order(shorter);
        let before = leaf_positions(shorter);
        assert forall|i: int| 0 <= i < keys.len() && !is_group(#[trigger] keys[i]) implies leaf_positions(
            keys,
        ).contains(i) by {
            if i < last {
                assert(shorter[i] == keys[i]);
                let k = choose|k: int| 0 <= k < before.len() && before[k] == i;
                assert(leaf_positions(keys)[k] == i);
            } else {
                assert(leaf_positions(keys)[before.len() as int] == i);
            }
        }
    }
}

/// The candidates of a page are its groups, in the store's order, followed
/// by its leaves, in the store's order.
pub proof fn lemma_groups_before_leaves(page: PageView)
    ensures
        ({
            let candidates = candidates_of(level_of(Ok(page)));
            let split = page.groups.len() as int;
            &&& candidates.len() == split + leaves_of(page.keys).len()
            &&& candidates.take(split) == page.groups
            &&& candidates.skip(split) == leaves_of(page.keys)
            &&& forall|i: int| split <= i < candidates.len() ==> !is_group(#[trigger] candidates[i])
        }),
{
    let candidates = candidates_of(level_of(Ok(page)));
    let split = page.groups.len() as int;
    lemma_leaves_keep_order(page.keys);
    assert forall|i: int| split <= i < candidates.len() implies !is_group(
        #[trigger] candidates[i],
    ) by {
        assert(candidates[i] == leaves_of(page.keys)[i - split]);
    }
}

/// Resolving the candidates does not depend on anything but the reply: the
/// same reply gives the same candidates in the same order, and the same
/// diagnostic, however often it is resolved.
pub proof fn lemma_same_reply_same_candidates(
    first: Result<PageView, Seq<char>>,
    second: Result<PageView, Seq<char>>,
)
    requires
        first == second,
    ensures
        candidates_of(level_of(first)) == candidates_of(level_of(second)),
        diagnostic_of(first) == diagnostic_of(second),
{
}

/// A page whose groups all end with the delimiter and which names no group
/// and no key twice gives no candidate twice.
pub proof fn lemma_candidates_are_distinct(page: PageView)
    requires
        page.groups.no_duplicates(),
        page.keys.no_duplicates(),
        forall|i: int| 0 <= i < page.groups.len() ==> is_group(#[trigger] page.groups[i]),
    ensures
        candidates_of(level_of(Ok(page))).no_duplicates(),
{
    let leaves = leaves_of(page.keys);
    lemma_leaves_keep_order(page.keys);
    assert forall|j: int, k: int| 0 <= j < k < leaves.len() implies leaves[j] != leaves[k] by {
        assert(leaf_positions(page.keys)[j] < leaf_positions(page.keys)[k]);
    }
    assert forall|i: int, j: int|
        0 <= i < page.groups.len() && 0 <= j < leaves.len() implies page.groups[i] != leaves[j] by {
        assert(is_group(page.groups[i]) && !is_group(leaves[j]));
    }
    vstd::seq_lib::lemma_no_dup_in_concat(page.groups, leaves);
}

} // verus!
