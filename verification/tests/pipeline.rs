use quote_harvest::coordinator::{ConfigError, Coordinator};
use quote_harvest::extract::SelectorRules;
use quote_harvest::fetch::FetchError;
use quote_harvest::model::{Action, Failure, FailurePolicy, PageFailure, TaskState};
use quote_harvest::record::Quote;

fn standard_rules() -> SelectorRules {
    match SelectorRules::standard() {
        Ok(rules) => rules,
        Err(field) => panic!("{:?}", field),
    }
}

fn coordinator(first: usize, end: usize, limit: usize, policy: FailurePolicy) -> Coordinator {
    match Coordinator::new(standard_rules(), first, end, limit, policy) {
        Ok(c) => c,
        Err(e) => panic!("{:?}", e),
    }
}

/// A page with `count` well-formed containers, whose texts name the page.
fn page_markup(page: usize, count: usize) -> String {
    let mut markup = String::from("<html><body>");
    for k in 0..count {
        markup.push_str(&format!(
            "<div class=\"quote\"><span class=\"text\">p{}q{}</span>\
             <small class=\"author\">author{}</small><a class=\"tag\">t{}</a></div>",
            page, k, page, k
        ));
    }
    markup.push_str("</body></html>");
    markup
}

fn states(c: &Coordinator) -> Vec<TaskState> {
    (0..c.pages()).map(|i| c.task_state(i).unwrap()).collect()
}

fn texts(records: &[Quote]) -> Vec<String> {
    let mut texts: Vec<String> = records.iter().map(|q| q.text().clone()).collect();
    texts.sort();
    texts
}

/// Drives a run to its end. `respond` gives the outcome of each page's
/// fetch; `newest_first` picks which of the fetches in flight ends next.
/// Returns the largest number of fetches that were in flight at once.
fn drive(
    c: &mut Coordinator,
    respond: &dyn Fn(usize) -> Result<String, FetchError>,
    newest_first: bool,
) -> usize {
    let mut in_flight: Vec<usize> = Vec::new();
    let mut most = 0;
    let mut rounds = 0;
    loop {
        rounds += 1;
        assert!(rounds < 10_000);
        let action = c.step();
        assert!(c.fetching_now() <= c.limit());
        assert!(c.permits_in_use() <= c.limit());
        assert!(c.in_channel() <= c.limit());
        match action {
            Action::Continue => {},
            Action::Fetch { page } => {
                in_flight.push(page);
                assert_eq!(c.fetching_now(), in_flight.len());
                most = most.max(in_flight.len());
            },
            Action::Wait => {
                assert!(!in_flight.is_empty());
                let page = if newest_first { in_flight.pop().unwrap() } else { in_flight.remove(0) };
                assert!(c.on_fetched(page, respond(page)));
            },
            Action::Done => {
                assert!(in_flight.is_empty());
                assert!(c.is_finished());
                return most;
            },
        }
    }
}

#[test]
fn concurrency_never_exceeds_the_limit() {
    for limit in 1..5 {
        let mut c = coordinator(1, 12, limit, FailurePolicy::Graceful);
        let most = drive(&mut c, &|page| Ok(page_markup(page, 1)), false);
        assert_eq!(most, limit.min(11));
        assert_eq!(c.permits_in_use(), 0);
    }
}

#[test]
fn default_run_fetches_eight_pages_at_once() {
    let mut c = coordinator(1, 12, 8, FailurePolicy::Graceful);
    let most = drive(&mut c, &|page| Ok(page_markup(page, 10)), true);
    assert_eq!(most, 8);
    assert_eq!(c.records().len(), 110);
}

#[test]
fn every_record_of_every_page_is_collected() {
    let counts = [3usize, 0, 5, 1, 2];
    for newest_first in [false, true] {
        let mut c = coordinator(1, 6, 2, FailurePolicy::Graceful);
        drive(&mut c, &|page| Ok(page_markup(page, counts[page - 1])), newest_first);
        let records = c.records();
        assert_eq!(records.len(), 11);
        assert!(c.failures().is_empty());
        assert_eq!(states(&c), vec![TaskState::Delivered; 5]);
        let mut expected = Vec::new();
        for page in 1..6 {
            for k in 0..counts[page - 1] {
                expected.push(format!("p{}q{}", page, k));
            }
        }
        expected.sort();
        assert_eq!(texts(&records), expected);
    }
}

#[test]
fn scheduling_order_changes_the_arrival_order_only() {
    let mut oldest = coordinator(1, 5, 3, FailurePolicy::Graceful);
    drive(&mut oldest, &|page| Ok(page_markup(page, 2)), false);
    let mut newest = coordinator(1, 5, 3, FailurePolicy::Graceful);
    drive(&mut newest, &|page| Ok(page_markup(page, 2)), true);
    assert_eq!(oldest.arrivals(), vec![1, 2, 3, 4]);
    assert_eq!(newest.arrivals(), vec![3, 4, 2, 1]);
    assert_eq!(texts(&oldest.records()), texts(&newest.records()));
    let first: Vec<String> = newest.records().iter().map(|q| q.text().clone()).collect();
    assert_eq!(first[0], "p3q0");
    assert_eq!(first[1], "p3q1");
    assert_eq!(first[2], "p4q0");
}

#[test]
fn failed_page_leaves_the_other_pages_complete() {
    let mut c = coordinator(1, 5, 2, FailurePolicy::Graceful);
    drive(
        &mut c,
        &|page| if page == 2 { Err(FetchError::Transport) } else { Ok(page_markup(page, 2)) },
        false,
    );
    let records = c.records();
    assert_eq!(
        texts(&records),
        vec!["p1q0", "p1q1", "p3q0", "p3q1", "p4q0", "p4q1"]
    );
    assert_eq!(
        c.failures(),
        vec![PageFailure { page: 2, error: FetchError::Transport }]
    );
    assert_eq!(c.task_state(1), Some(TaskState::Failed(Failure::Fetch(FetchError::Transport))));
    assert_eq!(c.arrivals(), vec![1, 3, 4]);
    match c.outcome() {
        Ok(all) => assert_eq!(all.len(), 6),
        Err(e) => panic!("{:?}", e),
    }
    assert!(!c.is_cancelled());
}

#[test]
fn page_without_records_differs_from_failed_page() {
    let mut c = coordinator(4, 6, 2, FailurePolicy::Graceful);
    drive(
        &mut c,
        &|page| if page == 4 { Ok(page_markup(page, 0)) } else { Err(FetchError::HttpStatus(404)) },
        false,
    );
    assert!(c.records().is_empty());
    assert_eq!(c.task_state(0), Some(TaskState::Delivered));
    assert_eq!(c.arrivals(), vec![4]);
    assert_eq!(
        c.failures(),
        vec![PageFailure { page: 5, error: FetchError::HttpStatus(404) }]
    );
}

#[test]
fn fail_fast_cancels_the_run_on_the_first_failed_fetch() {
    let mut c = coordinator(1, 7, 2, FailurePolicy::FailFast);
    drive(
        &mut c,
        &|page| if page == 1 { Err(FetchError::HttpStatus(500)) } else { Ok(page_markup(page, 1)) },
        false,
    );
    assert!(c.is_cancelled());
    assert_eq!(
        c.outcome().err(),
        Some(PageFailure { page: 1, error: FetchError::HttpStatus(500) })
    );
    assert_eq!(
        states(&c),
        vec![
            TaskState::Failed(Failure::Fetch(FetchError::HttpStatus(500))),
            TaskState::Failed(Failure::Cancelled),
            TaskState::Failed(Failure::Cancelled),
            TaskState::Failed(Failure::Cancelled),
            TaskState::Failed(Failure::Cancelled),
            TaskState::Failed(Failure::Cancelled),
        ]
    );
    assert_eq!(c.permits_in_use(), 0);
    assert!(c.records().is_empty());
    assert_eq!(
        c.failures(),
        vec![PageFailure { page: 1, error: FetchError::HttpStatus(500) }]
    );
}

#[test]
fn fail_fast_keeps_what_was_received_before_the_failure() {
    let mut c = coordinator(1, 4, 1, FailurePolicy::FailFast);
    drive(
        &mut c,
        &|page| if page == 2 { Err(FetchError::Transport) } else { Ok(page_markup(page, 3)) },
        false,
    );
    assert_eq!(c.records().len(), 3);
    assert_eq!(c.arrivals(), vec![1]);
    assert_eq!(
        c.fetch_failure(),
        Some(PageFailure { page: 2, error: FetchError::Transport })
    );
    assert_eq!(c.task_state(2), Some(TaskState::Failed(Failure::Cancelled)));
    assert!(c.outcome().is_err());
}

#[test]
fn fail_fast_without_failure_gives_the_collection() {
    let mut c = coordinator(1, 4, 2, FailurePolicy::FailFast);
    drive(&mut c, &|page| Ok(page_markup(page, 2)), true);
    assert_eq!(c.fetch_failure(), None);
    match c.outcome() {
        Ok(all) => assert_eq!(all.len(), 6),
        Err(e) => panic!("{:?}", e),
    }
}

#[test]
fn graceful_outcome_is_the_collection_even_after_failures() {
    let mut c = coordinator(1, 3, 2, FailurePolicy::Graceful);
    drive(&mut c, &|_| Err(FetchError::Address), false);
    assert_eq!(
        c.fetch_failure(),
        Some(PageFailure { page: 1, error: FetchError::Address })
    );
    match c.outcome() {
        Ok(all) => assert!(all.is_empty()),
        Err(e) => panic!("{:?}", e),
    }
    assert_eq!(c.failures().len(), 2);
}

#[test]
fn empty_range_is_done_at_once() {
    for (first, end) in [(1usize, 1usize), (5, 5), (7, 3)] {
        let mut c = coordinator(first, end, 4, FailurePolicy::Graceful);
        assert_eq!(c.pages(), 0);
        assert!(c.is_finished());
        assert_eq!(c.step(), Action::Done);
        assert!(c.records().is_empty());
        assert!(c.failures().is_empty());
    }
}

#[test]
fn setup_rejects_zero_limit_and_zero_page() {
    assert!(matches!(
        Coordinator::new(standard_rules(), 1, 12, 0, FailurePolicy::Graceful),
        Err(ConfigError::ZeroLimit)
    ));
    assert!(matches!(
        Coordinator::new(standard_rules(), 0, 12, 8, FailurePolicy::Graceful),
        Err(ConfigError::ZeroPage)
    ));
    assert!(matches!(
        Coordinator::new(standard_rules(), 0, 12, 0, FailurePolicy::FailFast),
        Err(ConfigError::ZeroLimit)
    ));
}

#[test]
fn new_run_has_every_task_scheduled() {
    let c = coordinator(3, 6, 2, FailurePolicy::Graceful);
    assert_eq!(c.pages(), 3);
    assert_eq!(c.first_page(), 3);
    assert_eq!(c.limit(), 2);
    assert_eq!(c.policy(), FailurePolicy::Graceful);
    assert_eq!(states(&c), vec![TaskState::Scheduled; 3]);
    assert_eq!(c.task_state(3), None);
    assert_eq!(c.permits_in_use(), 0);
    assert_eq!(c.fetching_now(), 0);
    assert_eq!(c.in_channel(), 0);
    assert!(!c.is_finished());
    assert!(!c.is_cancelled());
}

#[test]
fn steps_follow_the_task_states_in_order() {
    let mut c = coordinator(1, 2, 1, FailurePolicy::Graceful);
    assert_eq!(c.step(), Action::Continue);
    assert_eq!(c.task_state(0), Some(TaskState::WaitingForPermit));
    assert_eq!(c.step(), Action::Fetch { page: 1 });
    assert_eq!(c.task_state(0), Some(TaskState::Fetching));
    assert_eq!(c.step(), Action::Wait);
    assert!(c.on_fetched(1, Ok(page_markup(1, 2))));
    assert_eq!(c.task_state(0), Some(TaskState::Parsing));
    assert_eq!(c.permits_in_use(), 1);
    assert_eq!(c.step(), Action::Continue);
    assert_eq!(c.task_state(0), Some(TaskState::Delivered));
    assert_eq!(c.permits_in_use(), 0);
    assert_eq!(c.in_channel(), 1);
    assert!(c.records().is_empty());
    assert!(!c.is_finished());
    assert_eq!(c.step(), Action::Continue);
    assert_eq!(c.in_channel(), 0);
    assert_eq!(c.records().len(), 2);
    assert!(c.is_finished());
    assert_eq!(c.step(), Action::Done);
    assert_eq!(c.step(), Action::Done);
}

#[test]
fn transitions_that_are_not_enabled_change_nothing() {
    let mut c = coordinator(1, 3, 1, FailurePolicy::Graceful);
    assert!(!c.grant(0));
    assert!(!c.fetched(0, Ok(String::new())));
    assert!(!c.deliver(0));
    assert!(!c.receive());
    assert!(!c.enqueue(2));
    assert!(!c.on_fetched(0, Ok(String::new())));
    assert!(!c.on_fetched(1, Ok(String::new())));
    assert_eq!(states(&c), vec![TaskState::Scheduled; 2]);
    assert!(c.enqueue(0));
    assert!(!c.enqueue(0));
    assert!(c.enqueue(1));
    assert!(c.grant(1));
    assert!(!c.grant(0));
    assert_eq!(states(&c), vec![TaskState::WaitingForPermit, TaskState::Fetching]);
    assert!(!c.deliver(1));
    assert!(!c.on_fetched(1, Ok(String::new())));
    assert!(c.on_fetched(2, Ok(String::new())));
    assert!(!c.fetched(1, Ok(String::new())));
    assert!(c.deliver(1));
    assert!(!c.deliver(1));
    assert!(c.grant(0));
    assert_eq!(states(&c), vec![TaskState::Fetching, TaskState::Delivered]);
}

#[test]
fn full_channel_holds_the_sender_back() {
    let mut c = coordinator(1, 3, 1, FailurePolicy::Graceful);
    assert!(c.enqueue(0));
    assert!(c.enqueue(1));
    assert!(c.grant(0));
    assert!(c.fetched(0, Ok(page_markup(1, 1))));
    assert!(c.deliver(0));
    assert_eq!(c.in_channel(), 1);
    assert!(c.grant(1));
    assert!(c.fetched(1, Ok(page_markup(2, 1))));
    assert!(!c.deliver(1));
    assert_eq!(c.task_state(1), Some(TaskState::Parsing));
    assert_eq!(c.permits_in_use(), 1);
    assert!(c.receive());
    assert!(c.deliver(1));
    assert_eq!(c.permits_in_use(), 0);
    assert_eq!(c.in_channel(), 1);
}

#[test]
fn drain_receives_all_that_was_delivered() {
    let mut c = coordinator(1, 4, 3, FailurePolicy::Graceful);
    for i in 0..3 {
        assert!(c.enqueue(i));
        assert!(c.grant(i));
    }
    assert!(c.fetched(2, Ok(page_markup(3, 2))));
    assert!(c.fetched(0, Ok(page_markup(1, 1))));
    assert!(c.fetched(1, Err(FetchError::Transport)));
    assert!(c.deliver(2));
    assert!(c.deliver(0));
    assert!(!c.is_finished());
    assert_eq!(c.in_channel(), 2);
    assert!(c.records().is_empty());
    assert_eq!(c.drain(), 2);
    assert!(c.is_finished());
    assert_eq!(c.in_channel(), 0);
    assert_eq!(c.arrivals(), vec![3, 1]);
    let all: Vec<String> = c.records().iter().map(|q| q.text().clone()).collect();
    assert_eq!(all, vec!["p3q0", "p3q1", "p1q0"]);
    assert_eq!(c.drain(), 0);
    assert_eq!(c.records().len(), 3);
}

#[test]
fn cancel_stops_new_fetches_and_closes_the_channel() {
    let mut c = coordinator(1, 6, 3, FailurePolicy::Graceful);
    for i in 0..4 {
        assert!(c.enqueue(i));
    }
    for i in 0..3 {
        assert!(c.grant(i));
    }
    assert!(c.fetched(0, Ok(page_markup(1, 2))));
    assert!(c.deliver(0));
    assert!(c.fetched(1, Ok(page_markup(2, 2))));
    c.cancel();
    assert!(c.is_cancelled());
    assert_eq!(
        states(&c),
        vec![
            TaskState::Delivered,
            TaskState::Parsing,
            TaskState::Fetching,
            TaskState::Failed(Failure::Cancelled),
            TaskState::Failed(Failure::Cancelled),
        ]
    );
    assert_eq!(c.permits_in_use(), 2);
    assert_eq!(c.step(), Action::Continue);
    assert_eq!(c.arrivals(), vec![1]);
    assert_eq!(c.step(), Action::Continue);
    assert_eq!(c.task_state(1), Some(TaskState::Failed(Failure::ChannelClosed)));
    assert_eq!(c.step(), Action::Wait);
    assert!(c.on_fetched(3, Ok(page_markup(3, 2))));
    assert_eq!(c.task_state(2), Some(TaskState::Failed(Failure::Cancelled)));
    assert_eq!(c.permits_in_use(), 0);
    assert_eq!(c.step(), Action::Done);
    assert!(c.is_finished());
    assert_eq!(c.records().len(), 2);
    c.cancel();
    assert_eq!(c.records().len(), 2);
    assert!(c.failures().is_empty());
    assert_eq!(c.fetch_failure(), None);
    assert!(c.outcome().is_ok());
}

#[test]
fn malformed_containers_are_left_out_of_the_collection() {
    let mut c = coordinator(1, 3, 2, FailurePolicy::Graceful);
    drive(
        &mut c,
        &|page| {
            Ok(format!(
                "<div class=\"quote\"><span class=\"text\">only text {}</span></div>\
                 <div class=\"quote\"><span class=\"text\">whole {}</span>\
                 <small class=\"author\">A</small></div>",
                page, page
            ))
        },
        false,
    );
    assert_eq!(texts(&c.records()), vec!["whole 1", "whole 2"]);
}

#[test]
fn records_at_hand_go_through_the_pipeline_as_parsed_ones_do() {
    let mut c = coordinator(7, 10, 2, FailurePolicy::Graceful);
    for i in 0..3 {
        assert!(c.enqueue(i));
    }
    assert!(c.grant(2));
    assert!(c.grant(0));
    assert!(!c.grant(1));
    let first = Quote::new("b".to_string(), "B".to_string(), vec!["t".to_string()]);
    let second = Quote::new("a".to_string(), "A".to_string(), Vec::new());
    assert!(!c.fetched_records(1, Ok(Vec::new())));
    assert!(c.fetched_records(2, Ok(vec![first, second])));
    assert!(c.fetched_records(0, Err(FetchError::HttpStatus(503))));
    assert!(!c.fetched_records(0, Ok(Vec::new())));
    assert_eq!(c.permits_in_use(), 1);
    assert!(c.grant(1));
    assert!(c.fetched_records(1, Ok(Vec::new())));
    assert!(c.deliver(1));
    assert!(c.deliver(2));
    assert_eq!(c.drain(), 2);
    assert!(c.is_finished());
    assert_eq!(c.arrivals(), vec![8, 9]);
    let all: Vec<String> = c.records().iter().map(|q| q.text().clone()).collect();
    assert_eq!(all, vec!["b", "a"]);
    assert_eq!(c.records()[0].tags(), &vec!["t".to_string()]);
    assert_eq!(c.failures(), vec![PageFailure { page: 7, error: FetchError::HttpStatus(503) }]);
}
