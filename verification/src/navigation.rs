//! The traversal: from the choice of a bucket down to a console link.
//!
//! The browser never touches the store or the terminal. It says what is to
//! be done next ([`Browser::action`]), is told what came of it (an
//! [`Event`]) and moves on ([`Browser::step`]). Whoever drives it performs
//! one action at a time and hands back one event for it.

use crate::listing::{
    candidates_of, diagnostic_of, leaf_positions, lemma_leaves_keep_order, level_of, list_buckets,
    list_objects, names_of, names_view, reply_view, resolve_candidates, Page, PageView,
};
use crate::path::{ends_with_delimiter, is_group, strip_delimiter, without_delimiter, DELIMITER};
use crate::uri::{
    console_uri, folder_uri, is_terminal, lemma_folder_and_object_uris_differ, make_uri, object_uri,
    output_line, output_line_of,
};
use vstd::prelude::*;
use vstd::string::StringExecFns;

verus! {

/// Why a run ends without a link.
#[derive(Clone, Copy, Debug, PartialEq, Eq)]
pub enum Failure {
    /// The store offers no bucket: there is nothing to browse.
    NoBuckets,
    /// The operator left a prompt without choosing.
    Cancelled,
    /// A choice named an entry that the prompt did not offer.
    OutOfRange,
    /// An event arrived that the pending action does not produce.
    OutOfTurn,
}

impl Failure {
    /// What the operator is told of this failure.
    pub open spec fn message_of(self) -> Seq<char> {
        match self {
            Failure::NoBuckets => "no bucket to browse"@,
            Failure::Cancelled => "the selection was cancelled"@,
            Failure::OutOfRange => "the selection is not among the entries offered"@,
            Failure::OutOfTurn => "an answer arrived that nothing had asked for"@,
        }
    }

    /// Words this failure for the operator.
    pub fn message(&self) -> (text: String)
        ensures
            text@ == self.message_of(),
    {
        match self {
            Failure::NoBuckets => String::from_str("no bucket to browse"),
            Failure::Cancelled => String::from_str("the selection was cancelled"),
            Failure::OutOfRange => String::from_str(
                "the selection is not among the entries offered",
            ),
            Failure::OutOfTurn => String::from_str("an answer arrived that nothing had asked for"),
        }
    }
}

/// A position in the store: the prefix reached and whether it names a
/// folder.
#[derive(Debug, PartialEq, Eq)]
pub struct Traversal {
    /// The key or prefix reached.
    pub prefix: String,
    /// Whether it names a folder rather than an object.
    pub is_directory: bool,
}

/// The mathematical content of a [`Traversal`].
pub struct TraversalView {
    pub prefix: Seq<char>,
    pub is_directory: bool,
}

impl View for Traversal {
    type V = TraversalView;

    open spec fn view(&self) -> TraversalView {
        TraversalView { prefix: self.prefix@, is_directory: self.is_directory }
    }
}

/// Where a run stands.
#[derive(Debug, PartialEq, Eq)]
pub enum State {
    /// Nothing is known yet: the buckets are to be enumerated.
    Start,
    /// The operator is choosing among the buckets.
    ChoosingBucket { buckets: Vec<String> },
    /// The level below `prefix` is to be listed.
    Browsing { bucket: String, prefix: String },
    /// The operator is choosing among the candidates of a level.
    ChoosingObject { bucket: String, candidates: Vec<String> },
    /// The traversal has reached something that a link points at.
    Terminal { bucket: String, prefix: String, is_directory: bool, uri: String },
    /// The run has ended without a link.
    Failed { failure: Failure },
}

/// The mathematical content of a [`State`].
pub enum StateView {
    Start,
    ChoosingBucket { buckets: Seq<Seq<char>> },
    Browsing { bucket: Seq<char>, prefix: Seq<char> },
    ChoosingObject { bucket: Seq<char>, candidates: Seq<Seq<char>> },
    Terminal { bucket: Seq<char>, prefix: Seq<char>, is_directory: bool, uri: Seq<char> },
    Failed { failure: Failure },
}

impl View for State {
    type V = StateView;

    open spec fn view(&self) -> StateView {
        match self {
            State::Start => StateView::Start,
            State::ChoosingBucket { buckets } => StateView::ChoosingBucket {
                buckets: buckets.deep_view(),
            },
            State::Browsing { bucket, prefix } => StateView::Browsing {
                bucket: bucket@,
                prefix: prefix@,
            },
            State::ChoosingObject { bucket, candidates } => StateView::ChoosingObject {
                bucket: bucket@,
                candidates: candidates.deep_view(),
            },
            State::Terminal { bucket, prefix, is_directory, uri } => StateView::Terminal {
                bucket: bucket@,
                prefix: prefix@,
                is_directory: *is_directory,
                uri: uri@,
            },
            State::Failed { failure } => StateView::Failed { failure: *failure },
        }
    }
}

/// What came of the action that was pending.
#[derive(Debug, PartialEq, Eq)]
pub enum Event {
    /// The store's reply to the enumeration of buckets.
    Buckets(Result<Vec<String>, String>),
    /// The store's reply to a listing request.
    Objects(Result<Page, String>),
    /// The operator chose the entry at this index of the prompt.
    Picked(usize),
    /// The operator left the prompt without choosing.
    Cancelled,
}

/// The mathematical content of an [`Event`].
pub enum EventView {
    Buckets(Result<Seq<Seq<char>>, Seq<char>>),
    Objects(Result<PageView, Seq<char>>),
    Picked(nat),
    Cancelled,
}

impl View for Event {
    type V = EventView;

    open spec fn view(&self) -> EventView {
        match self {
            Event::Buckets(reply) => EventView::Buckets(names_view(*reply)),
            Event::Objects(reply) => EventView::Objects(reply_view(*reply)),
            Event::Picked(index) => EventView::Picked(*index as nat),
            Event::Cancelled => EventView::Cancelled,
        }
    }
}

/// What is to be done next.
#[derive(Debug, PartialEq, Eq)]
pub enum Action {
    /// Enumerate the buckets; answer with [`Event::Buckets`].
    ListBuckets,
    /// List one page of the level below `prefix`, grouped on `delimiter`;
    /// answer with [`Event::Objects`].
    ListObjects { bucket: String, prefix: String, delimiter: char },
    /// Let the operator choose one of `items`, with the one at `default`
    /// selected first; answer with [`Event::Picked`] or [`Event::Cancelled`].
    Prompt { items: Vec<String>, default: usize },
    /// Print `line` and end the run with success.
    Print { line: String },
    /// Report `failure` and end the run without success.
    Abort { failure: Failure },
}

/// The mathematical content of an [`Action`].
pub enum ActionView {
    ListBuckets,
    ListObjects { bucket: Seq<char>, prefix: Seq<char>, delimiter: char },
    Prompt { items: Seq<Seq<char>>, default: nat },
    Print { line: Seq<char> },
    Abort { failure: Failure },
}

impl View for Action {
    type V = ActionView;

    open spec fn view(&self) -> ActionView {
        match self {
            Action::ListBuckets => ActionView::ListBuckets,
            Action::ListObjects { bucket, prefix, delimiter } => ActionView::ListObjects {
                bucket: bucket@,
                prefix: prefix@,
                delimiter: *delimiter,
            },
            Action::Prompt { items, default } => ActionView::Prompt {
                items: items.deep_view(),
                default: *default as nat,
            },
            Action::Print { line } => ActionView::Print { line: line@ },
            Action::Abort { failure } => ActionView::Abort { failure: *failure },
        }
    }
}

/// A run: the region that its links name, and where it stands.
#[derive(Debug, PartialEq, Eq)]
pub struct Browser {
    /// The region that the links of this run name.
    pub region: String,
    /// Where the run stands.
    pub state: State,
}

/// The mathematical content of a [`Browser`].
pub struct BrowserView {
    pub region: Seq<char>,
    pub state: StateView,
}

impl View for Browser {
    type V = BrowserView;

    open spec fn view(&self) -> BrowserView {
        BrowserView { region: self.region@, state: self.state@ }
    }
}

/// What a step gives: the run as it stands afterwards and, where the store
/// failed to answer, what is to be reported of that.
#[derive(Debug, PartialEq, Eq)]
pub struct Transition {
    /// The run after the step.
    pub next: Browser,
    /// What the transport said, if the store failed to answer.
    pub diagnostic: Option<String>,
}

/// The position after a level that has nothing to show. A prefix that ends
/// with the delimiter is an empty folder: the folder itself is the target,
/// named without that delimiter. Any other prefix is taken as the key of an
/// object.
pub open spec fn empty_level_position(prefix: Seq<char>) -> TraversalView {
    TraversalView { prefix: without_delimiter(prefix), is_directory: is_group(prefix) }
}

/// The position after the operator's choice: the chosen candidate is the new
/// prefix, and it names a folder exactly if it ends with the delimiter.
pub open spec fn pick_position(pick: Seq<char>) -> TraversalView {
    TraversalView { prefix: pick, is_directory: is_group(pick) }
}

/// The state that a position leads to: terminal once it has a link, else
/// back to browsing from its prefix.
pub open spec fn settle(region: Seq<char>, bucket: Seq<char>, at: TraversalView) -> StateView {
    let uri = console_uri(bucket, at.prefix, region, at.is_directory);
    if uri.len() > 0 {
        StateView::Terminal { bucket, prefix: at.prefix, is_directory: at.is_directory, uri }
    } else {
        StateView::Browsing { bucket, prefix: at.prefix }
    }
}

/// What a prompt over `items` came to: the item at the index that the
/// operator chose, or why there is none.
pub open spec fn choice_of(items: Seq<Seq<char>>, event: EventView) -> Result<Seq<char>, Failure> {
    match event {
        EventView::Picked(index) => if index < items.len() {
            Ok(items[index as int])
        } else {
            Err(Failure::OutOfRange)
        },
        EventView::Cancelled => Err(Failure::Cancelled),
        _ => Err(Failure::OutOfTurn),
    }
}

/// The content of a choice.
pub open spec fn choice_view(choice: Result<String, Failure>) -> Result<Seq<char>, Failure> {
    match choice {
        Ok(item) => Ok(item@),
        Err(failure) => Err(failure),
    }
}

/// The state after `event`, for a run in `region` that stood at `state`.
pub open spec fn next_state(region: Seq<char>, state: StateView, event: EventView) -> StateView {
    match state {
        StateView::Start => match event {
            EventView::Buckets(reply) => if names_of(reply).len() > 0 {
                StateView::ChoosingBucket { buckets: names_of(reply) }
            } else {
                StateView::Failed { failure: Failure::NoBuckets }
            },
            _ => StateView::Failed { failure: Failure::OutOfTurn },
        },
        StateView::ChoosingBucket { buckets } => match choice_of(buckets, event) {
            Ok(bucket) => StateView::Browsing { bucket, prefix: Seq::empty() },
            Err(failure) => StateView::Failed { failure },
        },
        StateView::Browsing { bucket, prefix } => match event {
            EventView::Objects(reply) => {
                let candidates = candidates_of(level_of(reply));
                if candidates.len() > 0 {
                    StateView::ChoosingObject { bucket, candidates }
                } else {
                    settle(region, bucket, empty_level_position(prefix))
                }
            },
            _ => StateView::Failed { failure: Failure::OutOfTurn },
        },
        StateView::ChoosingObject { bucket, candidates } => match choice_of(candidates, event) {
            Ok(pick) => settle(region, bucket, pick_position(pick)),
            Err(failure) => StateView::Failed { failure },
        },
        StateView::Terminal { .. } => state,
        StateView::Failed { .. } => state,
    }
}

/// What is to be reported after `event`: what the transport said, where the
/// store failed to answer the request that was pending.
pub open spec fn diagnostic_after(state: StateView, event: EventView) -> Option<Seq<char>> {
    match (state, event) {
        (StateView::Start, EventView::Buckets(reply)) => diagnostic_of(reply),
        (StateView::Browsing { .. }, EventView::Objects(reply)) => diagnostic_of(reply),
        _ => None,
    }
}

/// The run after `event`.
pub open spec fn next(browser: BrowserView, event: EventView) -> BrowserView {
    BrowserView { region: browser.region, state: next_state(browser.region, browser.state, event) }
}

/// What a run that stands at `state` asks for.
pub open spec fn action_of(state: StateView) -> ActionView {
    match state {
        StateView::Start => ActionView::ListBuckets,
        StateView::ChoosingBucket { buckets } => ActionView::Prompt { items: buckets, default: 0 },
        StateView::Browsing { bucket, prefix } => ActionView::ListObjects {
            bucket,
            prefix,
            delimiter: DELIMITER,
        },
        StateView::ChoosingObject { bucket, candidates } => ActionView::Prompt {
            items: candidates,
            default: 0,
        },
        StateView::Terminal { bucket, prefix, is_directory, uri } => ActionView::Print {
            line: output_line_of(uri),
        },
        StateView::Failed { failure } => ActionView::Abort { failure },
    }
}

/// What holds of a run however it got where it stands: a prompt has
/// something to offer, and a terminal state names something that a link
/// can point at and carries that link.
pub open spec fn well_formed(browser: BrowserView) -> bool {
    match browser.state {
        StateView::ChoosingBucket { buckets } => buckets.len() > 0,
        StateView::ChoosingObject { bucket, candidates } => candidates.len() > 0,
        StateView::Terminal { bucket, prefix, is_directory, uri } => {
            &&& is_terminal(prefix)
            &&& uri == console_uri(bucket, prefix, browser.region, is_directory)
        },
        _ => true,
    }
}

/// The bucket that a run browses, once one is chosen.
pub open spec fn bucket_of(state: StateView) -> Option<Seq<char>> {
    match state {
        StateView::Browsing { bucket, prefix } => Some(bucket),
        StateView::ChoosingObject { bucket, candidates } => Some(bucket),
        StateView::Terminal { bucket, prefix, is_directory, uri } => Some(bucket),
        _ => None,
    }
}

/// The prefix at which a run stands, while it browses and once it is
/// terminal.
pub open spec fn prefix_of(state: StateView) -> Option<Seq<char>> {
    match state {
        StateView::Browsing { bucket, prefix } => Some(prefix),
        StateView::Terminal { bucket, prefix, is_directory, uri } => Some(prefix),
        _ => None,
    }
}

impl Traversal {
    /// The position after a level below `prefix` that has nothing to show:
    /// an empty folder without its closing delimiter, or the key as it is.
    pub fn after_empty_level(prefix: &str) -> (at: Traversal)
        ensures
            at@ == empty_level_position(prefix@),
    {
        Traversal { prefix: strip_delimiter(prefix), is_directory: ends_with_delimiter(prefix) }
    }

    /// The position after the operator chose `pick`.
    pub fn after_pick(pick: String) -> (at: Traversal)
        ensures
            at@ == pick_position(pick@),
    {
        let is_directory = ends_with_delimiter(pick.as_str());
        Traversal { prefix: pick, is_directory }
    }
}

/// Resolves what a prompt over `items` came to.
///
/// A choice is honoured only if it names one of the items: an index beyond
/// them, a cancelled prompt and any event that no prompt produces each give
/// their own failure.
pub fn select(items: &Vec<String>, event: &Event) -> (choice: Result<String, Failure>)
    ensures
        choice_view(choice) == choice_of(items.deep_view(), event@),
{
    match event {
        Event::Picked(index) => {
            if *index < items.len() {
                Ok(items[*index].clone())
            } else {
                Err(Failure::OutOfRange)
            }
        },
        Event::Cancelled => Err(Failure::Cancelled),
        _ => Err(Failure::OutOfTurn),
    }
}

/// Copies a list of texts.
fn copy_all(items: &Vec<String>) -> (copy: Vec<String>)
    ensures
        copy.deep_view() == items.deep_view(),
{
    let mut copy: Vec<String> = Vec::new();
    let mut i: usize = 0;
    while i < items.len()
        invariant
            i <= items.len(),
            copy.len() == i,
            forall|j: int| 0 <= j < i ==> copy[j]@ == items[j]@,
        decreases items.len() - i,
    {
        copy.push(items[i].clone());
        i += 1;
    }
    copy
}

/// Decides where a run in `region` stands once its position is `at`.
fn settle_at(region: &str, bucket: String, at: Traversal) -> (state: State)
    ensures
        state@ == settle(region@, bucket@, at@),
{
    let uri = make_uri(bucket.as_str(), at.prefix.as_str(), region, at.is_directory);
    if uri.as_str().is_empty() {
        State::Browsing { bucket, prefix: at.prefix }
    } else {
        State::Terminal { bucket, prefix: at.prefix, is_directory: at.is_directory, uri }
    }
}

impl Browser {
    /// A run in `region` that has not begun.
    pub fn new(region: String) -> (browser: Browser)
        ensures
            browser@ == (BrowserView { region: region@, state: StateView::Start }),
            well_formed(browser@),
    {
        Browser { region, state: State::Start }
    }

    /// What is to be done next.
    pub fn action(&self) -> (action: Action)
        ensures
            action@ == action_of(self@.state),
    {
        match &self.state {
            State::Start => Action::ListBuckets,
            State::ChoosingBucket { buckets } => Action::Prompt {
                items: copy_all(buckets),
                default: 0,
            },
            State::Browsing { bucket, prefix } => Action::ListObjects {
                bucket: bucket.clone(),
                prefix: prefix.clone(),
                delimiter: DELIMITER,
            },
            State::ChoosingObject { bucket, candidates } => Action::Prompt {
                items: copy_all(candidates),
                default: 0,
            },
            State::Terminal { bucket, prefix, is_directory, uri } => Action::Print {
                line: output_line(uri.as_str()),
            },
            State::Failed { failure } => Action::Abort { failure: *failure },
        }
    }

    /// Moves the run on by what came of its pending action.
    ///
    /// A failed call to the store counts as an answer that shows nothing;
    /// what the transport said comes back as the diagnostic. A run that has
    /// ended stays as it is.
    pub fn step(self, event: Event) -> (out: Transition)
        ensures
            out.next@ == next(self@, event@),
            out.diagnostic.deep_view() == diagnostic_after(self@.state, event@),
            well_formed(self@) ==> well_formed(out.next@),
    {
        proof {
            if well_formed(self@) {
                lemma_step_keeps_well_formed(self@, event@);
            }
        }
        let region = self.region;
        match self.state {
            State::Start => match event {
                Event::Buckets(reply) => {
                    let (buckets, diagnostic) = list_buckets(reply);
                    let state = if buckets.len() > 0 {
                        State::ChoosingBucket { buckets }
                    } else {
                        State::Failed { failure: Failure::NoBuckets }
                    };
                    Transition { next: Browser { region, state }, diagnostic }
                },
                _ => Transition {
                    next: Browser { region, state: State::Failed { failure: Failure::OutOfTurn } },
                    diagnostic: None,
                },
            },
            State::ChoosingBucket { buckets } => {
                let state = match select(&buckets, &event) {
                    Ok(bucket) => State::Browsing { bucket, prefix: String::new() },
                    Err(failure) => State::Failed { failure },
                };
                Transition { next: Browser { region, state }, diagnostic: None }
            },
            State::Browsing { bucket, prefix } => match event {
                Event::Objects(reply) => {
                    let (level, diagnostic) = list_objects(reply);
                    let candidates = resolve_candidates(level);
                    let state = if candidates.len() > 0 {
                        State::ChoosingObject { bucket, candidates }
                    } else {
                        let at = Traversal::after_empty_level(prefix.as_str());
                        settle_at(region.as_str(), bucket, at)
                    };
                    Transition { next: Browser { region, state }, diagnostic }
                },
                _ => Transition {
                    next: Browser { region, state: State::Failed { failure: Failure::OutOfTurn } },
                    diagnostic: None,
                },
            },
            State::ChoosingObject { bucket, candidates } => {
                let state = match select(&candidates, &event) {
                    Ok(pick) => settle_at(region.as_str(), bucket, Traversal::after_pick(pick)),
                    Err(failure) => State::Failed { failure },
                };
                Transition { next: Browser { region, state }, diagnostic: None }
            },
            State::Terminal { bucket, prefix, is_directory, uri } => Transition {
                next: Browser { region, state: State::Terminal { bucket, prefix, is_directory, uri } },
                diagnostic: None,
            },
            State::Failed { failure } => Transition {
                next: Browser { region, state: State::Failed { failure } },
                diagnostic: None,
            },
        }
    }
}

/// A position leads to a terminal state exactly if its prefix is neither
/// empty nor closed by the delimiter; otherwise the run browses on from it.
/// The terminal state carries the position and its link, which is not empty.
pub proof fn lemma_settle_by_prefix(region: Seq<char>, bucket: Seq<char>, at: TraversalView)
    ensures
        is_terminal(at.prefix) ==> settle(region, bucket, at) == (StateView::Terminal {
            bucket,
            prefix: at.prefix,
            is_directory: at.is_directory,
            uri: console_uri(bucket, at.prefix, region, at.is_directory),
        }) && console_uri(bucket, at.prefix, region, at.is_directory).len() > 0,
        !is_terminal(at.prefix) ==> settle(region, bucket, at) == (StateView::Browsing {
            bucket,
            prefix: at.prefix,
        }),
{
    if is_terminal(at.prefix) {
        lemma_folder_and_object_uris_differ(bucket, at.prefix, region);
    }
}

/// Every step keeps a run well formed.
pub proof fn lemma_step_keeps_well_formed(browser: BrowserView, event: EventView)
    requires
        well_formed(browser),
    ensures
        well_formed(next(browser, event)),
{
    match browser.state {
        StateView::Browsing { bucket, prefix } => {
            lemma_settle_by_prefix(browser.region, bucket, empty_level_position(prefix));
        },
        StateView::ChoosingObject { bucket, candidates } => {
            if let Ok(pick) = choice_of(candidates, event) {
                lemma_settle_by_prefix(browser.region, bucket, pick_position(pick));
            }
        },
        _ => {},
    }
}

/// A well-formed run never asks for a prompt that has nothing to offer: the
/// items are not empty and the entry selected first is one of them.
pub proof fn lemma_prompt_offers_a_choice(browser: BrowserView)
    requires
        well_formed(browser),
    ensures
        action_of(browser.state) matches ActionView::Prompt { items, default } ==> default
            < items.len(),
{
}

/// A well-formed run that has reached a terminal state asks for its link to
/// be printed, and that link is not empty.
pub proof fn lemma_terminal_prints_its_link(browser: BrowserView)
    requires
        well_formed(browser),
    ensures
        browser.state matches StateView::Terminal { bucket, prefix, is_directory, uri } ==> {
            &&& uri.len() > 0
            &&& action_of(browser.state) == (ActionView::Print {
                line: output_line_of(console_uri(bucket, prefix, browser.region, is_directory)),
            })
        },
{
    if let StateView::Terminal { bucket, prefix, is_directory, uri } = browser.state {
        lemma_folder_and_object_uris_differ(bucket, prefix, browser.region);
    }
}

/// The bucket is chosen once: no step changes it, and no step leads back
/// to a state without one, but for a failure.
pub proof fn lemma_bucket_is_chosen_once(browser: BrowserView, event: EventView)
    requires
        bucket_of(browser.state) is Some,
    ensures
        next(browser, event).state is Failed || bucket_of(next(browser, event).state) == bucket_of(
            browser.state,
        ),
{
}

/// The buckets are enumerated once: no step leads back to the start, and
/// only the step from the start leads to the choice of a bucket.
pub proof fn lemma_buckets_are_enumerated_once(browser: BrowserView, event: EventView)
    ensures
        !(next(browser, event).state is Start),
        next(browser, event).state is ChoosingBucket ==> browser.state is Start,
{
}

/// A run that has ended stays where it is, whatever arrives.
pub proof fn lemma_ended_runs_stay(browser: BrowserView, event: EventView)
    requires
        browser.state is Terminal || browser.state is Failed,
    ensures
        next(browser, event) == browser,
{
}

/// An empty folder is itself the target. Where the level below a prefix that
/// ends with the delimiter has nothing to show, the position becomes that
/// prefix without the delimiter, as a folder. If that names something, the
/// run is terminal with the folder's link and asks for no further prompt;
/// otherwise it browses on from the shortened prefix.
pub proof fn lemma_empty_folder_is_the_target(
    region: Seq<char>,
    bucket: Seq<char>,
    prefix: Seq<char>,
    reply: Result<PageView, Seq<char>>,
)
    requires
        is_group(prefix),
        candidates_of(level_of(reply)).len() == 0,
    ensures
        ({
            let after = next_state(
                region,
                StateView::Browsing { bucket, prefix },
                EventView::Objects(reply),
            );
            let folder = prefix.drop_last();
            &&& is_terminal(folder) ==> after == (StateView::Terminal {
                bucket,
                prefix: folder,
                is_directory: true,
                uri: folder_uri(bucket, folder, region),
            }) && action_of(after) is Print
            &&& !is_terminal(folder) ==> after == (StateView::Browsing { bucket, prefix: folder })
        }),
{
    lemma_settle_by_prefix(region, bucket, empty_level_position(prefix));
}

/// A bare key is itself the target. Where the prefix is a key that does not
/// end with the delimiter and the level below it has nothing to show, the
/// run is terminal on that very key, as an object, with the object's link.
pub proof fn lemma_bare_key_is_the_target(
    region: Seq<char>,
    bucket: Seq<char>,
    prefix: Seq<char>,
    reply: Result<PageView, Seq<char>>,
)
    requires
        is_terminal(prefix),
        candidates_of(level_of(reply)).len() == 0,
    ensures
        next_state(region, StateView::Browsing { bucket, prefix }, EventView::Objects(reply)) == (
        StateView::Terminal {
            bucket,
            prefix,
            is_directory: false,
            uri: object_uri(bucket, prefix, region),
        }),
{
    lemma_settle_by_prefix(region, bucket, empty_level_position(prefix));
}

/// A chosen candidate becomes the prefix. A leaf ends the run with the
/// object's link; a group, or an empty text, is browsed next.
pub proof fn lemma_pick_becomes_the_prefix(
    region: Seq<char>,
    bucket: Seq<char>,
    candidates: Seq<Seq<char>>,
    index: nat,
)
    requires
        index < candidates.len(),
    ensures
        ({
            let pick = candidates[index as int];
            let after = next_state(
                region,
                StateView::ChoosingObject { bucket, candidates },
                EventView::Picked(index),
            );
            &&& is_terminal(pick) ==> after == (StateView::Terminal {
                bucket,
                prefix: pick,
                is_directory: false,
                uri: object_uri(bucket, pick, region),
            })
            &&& !is_terminal(pick) ==> after == (StateView::Browsing { bucket, prefix: pick })
        }),
{
    lemma_settle_by_prefix(region, bucket, pick_position(candidates[index as int]));
}

/// The prefix shrinks in one case only, and then by one delimiter. Where a
/// level has nothing to show, the run stays at its prefix, or, if that ends
/// with the delimiter, steps back out of the empty folder to the prefix
/// without it.
pub proof fn lemma_backtrack_drops_one_delimiter(
    region: Seq<char>,
    bucket: Seq<char>,
    prefix: Seq<char>,
    reply: Result<PageView, Seq<char>>,
)
    requires
        candidates_of(level_of(reply)).len() == 0,
    ensures
        ({
            let after = next_state(
                region,
                StateView::Browsing { bucket, prefix },
                EventView::Objects(reply),
            );
            &&& prefix_of(after) is Some
            &&& is_group(prefix) ==> prefix_of(after)->0.push(DELIMITER) == prefix
            &&& !is_group(prefix) ==> prefix_of(after)->0 == prefix
        }),
{
    lemma_settle_by_prefix(region, bucket, empty_level_position(prefix));
}

/// Choosing never shortens the prefix. Where every group and key of a page
/// begins with the prefix that was listed, so does every candidate offered,
/// and the one that the operator chooses becomes the new prefix.
pub proof fn lemma_pick_extends_the_prefix(
    region: Seq<char>,
    bucket: Seq<char>,
    prefix: Seq<char>,
    page: PageView,
    index: nat,
)
    requires
        forall|i: int| 0 <= i < page.groups.len() ==> prefix.is_prefix_of(#[trigger] page.groups[i]),
        forall|i: int| 0 <= i < page.keys.len() ==> prefix.is_prefix_of(#[trigger] page.keys[i]),
        index < candidates_of(level_of(Ok(page))).len(),
    ensures
        ({
            let offered = next_state(
                region,
                StateView::Browsing { bucket, prefix },
                EventView::Objects(Ok(page)),
            );
            let after = next_state(region, offered, EventView::Picked(index));
            &&& offered == (StateView::ChoosingObject {
                bucket,
                candidates: candidates_of(level_of(Ok(page))),
            })
            &&& prefix_of(after) == Some(candidates_of(level_of(Ok(page)))[index as int])
            &&& prefix.is_prefix_of(prefix_of(after)->0)
        }),
{
    let candidates = candidates_of(level_of(Ok(page)));
    let pick = candidates[index as int];
    lemma_settle_by_prefix(region, bucket, pick_position(pick));
    lemma_leaves_keep_order(page.keys);
    if index >= page.groups.len() {
        let k = index - page.groups.len();
        assert(pick == page.keys[leaf_positions(page.keys)[k]]);
    }
}

} // verus!
