use s3_browse::listing::Page;
use s3_browse::navigation::{select, Action, Browser, Event, Failure, State, Transition, Traversal};
use std::collections::HashMap;

const REGION: &str = "ap-northeast-1";

fn texts(items: &[&str]) -> Vec<String> {
    items.iter().map(|s| s.to_string()).collect()
}

fn page(groups: &[&str], keys: &[&str]) -> Page {
    Page { groups: texts(groups), keys: texts(keys) }
}

fn browser(state: State) -> Browser {
    Browser { region: String::from(REGION), state }
}

fn browsing(bucket: &str, prefix: &str) -> Browser {
    browser(State::Browsing { bucket: String::from(bucket), prefix: String::from(prefix) })
}

fn choosing(bucket: &str, candidates: &[&str]) -> Browser {
    browser(State::ChoosingObject { bucket: String::from(bucket), candidates: texts(candidates) })
}

fn failed(failure: Failure) -> Transition {
    Transition { next: browser(State::Failed { failure }), diagnostic: None }
}

/// What a driven run did: every action that it asked for, in order.
struct Run {
    listed: Vec<(String, String)>,
    prompts: Vec<Vec<String>>,
    diagnostics: Vec<String>,
    printed: Option<String>,
    aborted: Option<Failure>,
    last: Browser,
}

/// Drives a run against a store held in memory and an operator who answers
/// the prompts from a script, for at most `limit` steps.
fn drive(
    buckets: Result<Vec<String>, String>,
    store: &HashMap<(String, String), Page>,
    mut picks: Vec<Event>,
    limit: usize,
) -> Run {
    picks.reverse();
    let mut buckets = Some(buckets);
    let mut run = Run {
        listed: vec![],
        prompts: vec![],
        diagnostics: vec![],
        printed: None,
        aborted: None,
        last: Browser::new(String::from(REGION)),
    };
    for _ in 0..limit {
        let event = match run.last.action() {
            Action::ListBuckets => Event::Buckets(buckets.take().unwrap()),
            Action::ListObjects { bucket, prefix, delimiter } => {
                assert_eq!(delimiter, '/');
                run.listed.push((bucket.clone(), prefix.clone()));
                match store.get(&(bucket, prefix)) {
                    Some(found) => Event::Objects(Ok(page(
                        &found.groups.iter().map(|s| s.as_str()).collect::<Vec<_>>(),
                        &found.keys.iter().map(|s| s.as_str()).collect::<Vec<_>>(),
                    ))),
                    None => Event::Objects(Ok(page(&[], &[]))),
                }
            },
            Action::Prompt { items, default } => {
                assert!(default < items.len());
                run.prompts.push(items);
                picks.pop().unwrap()
            },
            Action::Print { line } => {
                run.printed = Some(line);
                return run;
            },
            Action::Abort { failure } => {
                run.aborted = Some(failure);
                return run;
            },
        };
        let Transition { next, diagnostic } = run.last.step(event);
        run.last = next;
        run.diagnostics.extend(diagnostic);
    }
    run
}

#[test]
fn a_new_run_asks_for_the_buckets() {
    let run = Browser::new(String::from("us-east-1"));
    assert_eq!(run.region, "us-east-1");
    assert_eq!(run.state, State::Start);
    assert_eq!(run.action(), Action::ListBuckets);
}

#[test]
fn buckets_are_offered_with_the_first_selected() {
    let out = Browser::new(String::from(REGION)).step(Event::Buckets(Ok(texts(&["logs", "assets"]))));
    assert_eq!(out.diagnostic, None);
    assert_eq!(out.next.state, State::ChoosingBucket { buckets: texts(&["logs", "assets"]) });
    assert_eq!(out.next.region, REGION);
    assert_eq!(out.next.action(), Action::Prompt { items: texts(&["logs", "assets"]), default: 0 });
}

#[test]
fn no_buckets_is_fatal() {
    let out = Browser::new(String::from(REGION)).step(Event::Buckets(Ok(vec![])));
    assert_eq!(out, failed(Failure::NoBuckets));
    assert_eq!(out.next.action(), Action::Abort { failure: Failure::NoBuckets });
}

#[test]
fn a_failed_enumeration_is_reported_and_leaves_no_buckets() {
    let out = Browser::new(String::from(REGION)).step(Event::Buckets(Err(String::from("denied"))));
    assert_eq!(out.diagnostic, Some(String::from("denied")));
    assert_eq!(out.next.state, State::Failed { failure: Failure::NoBuckets });
}

#[test]
fn the_chosen_bucket_is_browsed_from_its_root() {
    let run = browser(State::ChoosingBucket { buckets: texts(&["logs", "assets"]) });
    let out = run.step(Event::Picked(1));
    assert_eq!(out.diagnostic, None);
    assert_eq!(out.next, browsing("assets", ""));
    assert_eq!(
        out.next.action(),
        Action::ListObjects {
            bucket: String::from("assets"),
            prefix: String::new(),
            delimiter: '/'
        }
    );
}

#[test]
fn a_cancelled_bucket_prompt_is_fatal() {
    let run = browser(State::ChoosingBucket { buckets: texts(&["logs"]) });
    assert_eq!(run.step(Event::Cancelled), failed(Failure::Cancelled));
}

#[test]
fn a_bucket_choice_beyond_the_list_is_refused() {
    let run = browser(State::ChoosingBucket { buckets: texts(&["logs"]) });
    assert_eq!(run.step(Event::Picked(1)), failed(Failure::OutOfRange));
}

#[test]
fn a_level_with_entries_is_offered_groups_first() {
    let reply = Ok(page(&["2024/", "2023/"], &["2024/", "readme.txt"]));
    let out = browsing("logs", "").step(Event::Objects(reply));
    assert_eq!(out.diagnostic, None);
    assert_eq!(out.next, choosing("logs", &["2024/", "2023/", "readme.txt"]));
    assert_eq!(
        out.next.action(),
        Action::Prompt { items: texts(&["2024/", "2023/", "readme.txt"]), default: 0 }
    );
}

#[test]
fn a_chosen_group_is_browsed_next() {
    let out = choosing("logs", &["2024/", "readme.txt"]).step(Event::Picked(0));
    assert_eq!(out.diagnostic, None);
    assert_eq!(out.next, browsing("logs", "2024/"));
}

#[test]
fn a_chosen_leaf_ends_the_run_with_the_object_link() {
    let out = choosing("logs", &["2024/", "readme.txt"]).step(Event::Picked(1));
    assert_eq!(out.diagnostic, None);
    assert_eq!(
        out.next.state,
        State::Terminal {
            bucket: String::from("logs"),
            prefix: String::from("readme.txt"),
            is_directory: false,
            uri: String::from(
                "https://s3.console.aws.amazon.com/s3/object/logs?prefix=readme.txt&region=ap-northeast-1"
            ),
        }
    );
    assert_eq!(
        out.next.action(),
        Action::Print {
            line: String::from(
                "URI: https://s3.console.aws.amazon.com/s3/object/logs?prefix=readme.txt&region=ap-northeast-1"
            )
        }
    );
}

#[test]
fn a_chosen_empty_candidate_leads_back_to_the_root() {
    let out = choosing("logs", &[""]).step(Event::Picked(0));
    assert_eq!(out.next, browsing("logs", ""));
}

#[test]
fn a_cancelled_object_prompt_is_fatal() {
    assert_eq!(choosing("logs", &["a"]).step(Event::Cancelled), failed(Failure::Cancelled));
}

#[test]
fn an_object_choice_beyond_the_list_is_refused() {
    assert_eq!(choosing("logs", &["a", "b"]).step(Event::Picked(2)), failed(Failure::OutOfRange));
    assert_eq!(
        choosing("logs", &["a", "b"]).step(Event::Picked(usize::MAX)),
        failed(Failure::OutOfRange)
    );
}

#[test]
fn empty_directory_terminates_on_the_folder_itself() {
    let out = browsing("logs", "a/").step(Event::Objects(Ok(page(&[], &[]))));
    assert_eq!(out.diagnostic, None);
    assert_eq!(
        out.next.state,
        State::Terminal {
            bucket: String::from("logs"),
            prefix: String::from("a"),
            is_directory: true,
            uri: String::from(
                "https://s3.console.aws.amazon.com/s3/buckets/logs?prefix=a/&region=ap-northeast-1"
            ),
        }
    );
    assert!(matches!(out.next.action(), Action::Print { .. }));
}

#[test]
fn a_folder_that_holds_only_its_own_marker_is_empty() {
    let out = browsing("logs", "a/").step(Event::Objects(Ok(page(&[], &["a/"]))));
    assert!(matches!(
        out.next.state,
        State::Terminal { ref prefix, is_directory: true, .. } if prefix == "a"
    ));
}

#[test]
fn a_bare_key_with_nothing_below_it_terminates_as_an_object() {
    let out = browsing("logs", "2024/jan.log").step(Event::Objects(Ok(page(&[], &[]))));
    assert_eq!(out.diagnostic, None);
    assert_eq!(
        out.next.state,
        State::Terminal {
            bucket: String::from("logs"),
            prefix: String::from("2024/jan.log"),
            is_directory: false,
            uri: String::from(
                "https://s3.console.aws.amazon.com/s3/object/logs?prefix=2024/jan.log&region=ap-northeast-1"
            ),
        }
    );
}

#[test]
fn a_failed_listing_is_reported_and_counts_as_an_empty_level() {
    let out = browsing("logs", "a/").step(Event::Objects(Err(String::from("timed out"))));
    assert_eq!(out.diagnostic, Some(String::from("timed out")));
    assert!(matches!(
        out.next.state,
        State::Terminal { ref prefix, is_directory: true, .. } if prefix == "a"
    ));
    let out = browsing("logs", "k").step(Event::Objects(Err(String::from("timed out"))));
    assert_eq!(out.diagnostic, Some(String::from("timed out")));
    assert!(matches!(
        out.next.state,
        State::Terminal { ref prefix, is_directory: false, .. } if prefix == "k"
    ));
}

#[test]
fn an_empty_root_is_listed_again() {
    let out = browsing("logs", "").step(Event::Objects(Ok(page(&[], &[]))));
    assert_eq!(out.next, browsing("logs", ""));
}

#[test]
fn backtracking_out_of_a_doubled_delimiter_goes_on_browsing() {
    let out = browsing("logs", "a//").step(Event::Objects(Ok(page(&[], &[]))));
    assert_eq!(out.next, browsing("logs", "a/"));
    let out = browsing("logs", "/").step(Event::Objects(Ok(page(&[], &[]))));
    assert_eq!(out.next, browsing("logs", ""));
}

#[test]
fn events_out_of_turn_are_refused() {
    assert_eq!(Browser::new(String::from(REGION)).step(Event::Picked(0)), failed(Failure::OutOfTurn));
    assert_eq!(Browser::new(String::from(REGION)).step(Event::Cancelled), failed(Failure::OutOfTurn));
    assert_eq!(
        Browser::new(String::from(REGION)).step(Event::Objects(Ok(page(&["a/"], &[])))),
        failed(Failure::OutOfTurn)
    );
    assert_eq!(browsing("logs", "").step(Event::Picked(0)), failed(Failure::OutOfTurn));
    assert_eq!(browsing("logs", "").step(Event::Cancelled), failed(Failure::OutOfTurn));
    assert_eq!(
        browsing("logs", "").step(Event::Buckets(Ok(texts(&["logs"])))),
        failed(Failure::OutOfTurn)
    );
    assert_eq!(
        browsing("logs", "").step(Event::Buckets(Err(String::from("denied")))),
        failed(Failure::OutOfTurn)
    );
    assert_eq!(
        choosing("logs", &["a"]).step(Event::Objects(Ok(page(&[], &[])))),
        failed(Failure::OutOfTurn)
    );
    assert_eq!(
        browser(State::ChoosingBucket { buckets: texts(&["logs"]) })
            .step(Event::Buckets(Ok(texts(&["logs"])))),
        failed(Failure::OutOfTurn)
    );
}

#[test]
fn a_run_that_has_ended_stays_where_it_is() {
    let terminal = || {
        browser(State::Terminal {
            bucket: String::from("logs"),
            prefix: String::from("k"),
            is_directory: false,
            uri: String::from("https://s3.console.aws.amazon.com/s3/object/logs?prefix=k&region=ap-northeast-1"),
        })
    };
    for event in [
        Event::Picked(0),
        Event::Cancelled,
        Event::Buckets(Ok(texts(&["other"]))),
        Event::Objects(Err(String::from("down"))),
    ] {
        let out = terminal().step(event);
        assert_eq!(out.next, terminal());
        assert_eq!(out.diagnostic, None);
    }
    let out = browser(State::Failed { failure: Failure::Cancelled }).step(Event::Picked(0));
    assert_eq!(out, failed(Failure::Cancelled));
    assert_eq!(out.next.action(), Action::Abort { failure: Failure::Cancelled });
}

#[test]
fn every_failure_has_its_message() {
    assert_eq!(Failure::NoBuckets.message(), "no bucket to browse");
    assert_eq!(Failure::Cancelled.message(), "the selection was cancelled");
    assert_eq!(Failure::OutOfRange.message(), "the selection is not among the entries offered");
    assert_eq!(Failure::OutOfTurn.message(), "an answer arrived that nothing had asked for");
}

#[test]
fn select_resolves_a_prompt() {
    let items = texts(&["a/", "b"]);
    assert_eq!(select(&items, &Event::Picked(0)), Ok(String::from("a/")));
    assert_eq!(select(&items, &Event::Picked(1)), Ok(String::from("b")));
    assert_eq!(select(&items, &Event::Picked(2)), Err(Failure::OutOfRange));
    assert_eq!(select(&items, &Event::Cancelled), Err(Failure::Cancelled));
    assert_eq!(select(&items, &Event::Buckets(Ok(vec![]))), Err(Failure::OutOfTurn));
    assert_eq!(select(&items, &Event::Objects(Ok(page(&[], &[])))), Err(Failure::OutOfTurn));
    assert_eq!(select(&vec![], &Event::Picked(0)), Err(Failure::OutOfRange));
}

#[test]
fn positions_after_an_empty_level() {
    assert_eq!(
        Traversal::after_empty_level("a/"),
        Traversal { prefix: String::from("a"), is_directory: true }
    );
    assert_eq!(
        Traversal::after_empty_level("a/b.txt"),
        Traversal { prefix: String::from("a/b.txt"), is_directory: false }
    );
    assert_eq!(
        Traversal::after_empty_level(""),
        Traversal { prefix: String::new(), is_directory: false }
    );
    assert_eq!(
        Traversal::after_empty_level("/"),
        Traversal { prefix: String::new(), is_directory: true }
    );
}

#[test]
fn positions_after_a_pick() {
    assert_eq!(
        Traversal::after_pick(String::from("2024/")),
        Traversal { prefix: String::from("2024/"), is_directory: true }
    );
    assert_eq!(
        Traversal::after_pick(String::from("2024/jan.log")),
        Traversal { prefix: String::from("2024/jan.log"), is_directory: false }
    );
}

#[test]
fn end_to_end_from_the_root_to_an_object() {
    let mut store = HashMap::new();
    store.insert((String::from("logs"), String::new()), page(&["2024/"], &[]));
    store.insert((String::from("logs"), String::from("2024/")), page(&[], &["2024/jan.log"]));
    let run = drive(Ok(texts(&["logs"])), &store, vec![Event::Picked(0), Event::Picked(0), Event::Picked(0)], 50);
    assert_eq!(
        run.printed,
        Some(String::from(
            "URI: https://s3.console.aws.amazon.com/s3/object/logs?prefix=2024/jan.log&region=ap-northeast-1"
        ))
    );
    assert_eq!(run.aborted, None);
    assert_eq!(
        run.listed,
        vec![(String::from("logs"), String::new()), (String::from("logs"), String::from("2024/"))]
    );
    assert_eq!(run.prompts, vec![texts(&["logs"]), texts(&["2024/"]), texts(&["2024/jan.log"])]);
    assert!(run.diagnostics.is_empty());
}

#[test]
fn end_to_end_into_an_empty_folder_without_a_further_prompt() {
    let mut store = HashMap::new();
    store.insert((String::from("logs"), String::new()), page(&["a/"], &["top.txt"]));
    store.insert((String::from("logs"), String::from("a/")), page(&[], &["a/"]));
    let run = drive(Ok(texts(&["logs"])), &store, vec![Event::Picked(0), Event::Picked(0)], 50);
    assert_eq!(
        run.printed,
        Some(String::from(
            "URI: https://s3.console.aws.amazon.com/s3/buckets/logs?prefix=a/&region=ap-northeast-1"
        ))
    );
    assert_eq!(run.prompts.len(), 2);
    assert_eq!(
        run.last.state,
        State::Terminal {
            bucket: String::from("logs"),
            prefix: String::from("a"),
            is_directory: true,
            uri: String::from(
                "https://s3.console.aws.amazon.com/s3/buckets/logs?prefix=a/&region=ap-northeast-1"
            ),
        }
    );
}

#[test]
fn end_to_end_keeps_the_chosen_bucket() {
    let mut store = HashMap::new();
    store.insert((String::from("assets"), String::new()), page(&["img/"], &[]));
    store.insert((String::from("assets"), String::from("img/")), page(&["img/raw/"], &["img/a.png"]));
    store.insert((String::from("logs"), String::new()), page(&[], &["wrong"]));
    let run = drive(
        Ok(texts(&["logs", "assets"])),
        &store,
        vec![Event::Picked(1), Event::Picked(0), Event::Picked(1)],
        50,
    );
    assert!(run.listed.iter().all(|(bucket, _)| bucket == "assets"));
    assert_eq!(
        run.printed,
        Some(String::from(
            "URI: https://s3.console.aws.amazon.com/s3/object/assets?prefix=img/a.png&region=ap-northeast-1"
        ))
    );
}

#[test]
fn end_to_end_without_buckets_aborts_before_any_prompt() {
    let run = drive(Err(String::from("no credentials")), &HashMap::new(), vec![], 50);
    assert_eq!(run.aborted, Some(Failure::NoBuckets));
    assert_eq!(run.printed, None);
    assert!(run.prompts.is_empty());
    assert!(run.listed.is_empty());
    assert_eq!(run.diagnostics, texts(&["no credentials"]));
}

#[test]
fn end_to_end_cancelled_while_browsing_aborts() {
    let mut store = HashMap::new();
    store.insert((String::from("logs"), String::new()), page(&["2024/"], &[]));
    let run = drive(Ok(texts(&["logs"])), &store, vec![Event::Picked(0), Event::Cancelled], 50);
    assert_eq!(run.aborted, Some(Failure::Cancelled));
    assert_eq!(run.printed, None);
}

#[test]
fn end_to_end_an_empty_bucket_never_resolves() {
    let run = drive(Ok(texts(&["logs"])), &HashMap::new(), vec![Event::Picked(0)], 20);
    assert_eq!(run.printed, None);
    assert_eq!(run.aborted, None);
    assert_eq!(run.last, browsing("logs", ""));
    assert!(run.listed.len() > 1);
    assert!(run.listed.iter().all(|(bucket, prefix)| bucket == "logs" && prefix.is_empty()));
}
