use herdr_labels::config::Invocation;
use herdr_labels::filesystem::FileFailure;
use herdr_labels::lock::{
    acquire_with_timeout, bounded_delay, legacy_rerun_file, lock_file, pending_rerun_file,
    publish_step, read_rerun_contents, request_rerun, rerun_directory, rerun_file_name, rerun_id,
    rerun_requested, rerun_source, rerun_temporary_name, retry_delay, take_rerun, LockStep,
    PublishStep, RerunSource, LOCK_RETRY_DELAY,
};

const MILLISECOND: u64 = 1_000_000;

fn bytes(text: &str) -> Vec<u8> {
    text.as_bytes().to_vec()
}

fn closed(workspace_id: &str) -> Invocation {
    Invocation::ClosedPane {
        workspace_id: workspace_id.into(),
        pane_id: format!("{workspace_id}:p1"),
    }
}

fn missing() -> FileFailure {
    FileFailure::Missing("no such file".into())
}

fn broken() -> FileFailure {
    FileFailure::Other("broken disk".into())
}

/// The rerun directory of one process: published files with the request they hold.
struct Requests {
    published: Vec<(Vec<u8>, Invocation)>,
    next: u64,
}

impl Requests {
    fn new() -> Self {
        Requests {
            published: Vec::new(),
            next: 1,
        }
    }

    fn request(&mut self, invocation: &Invocation) {
        let name = rerun_file_name(17, self.next).into_bytes();
        self.next += 1;
        self.published.insert(0, (name, request_rerun(invocation)));
    }

    fn take(&mut self) -> Option<Invocation> {
        let names = self.published.iter().map(|file| file.0.clone()).collect();
        let source = rerun_source(Ok(names)).unwrap();
        let read = match &source {
            RerunSource::Published(name) => {
                let index = self.published.iter().position(|file| file.0 == *name).unwrap();
                let (_, stored) = self.published.remove(index);
                Ok(read_rerun_contents(&bytes("stored"), Ok(stored)))
            }
            RerunSource::Legacy => Err(missing()),
        };
        take_rerun(&source, read).unwrap()
    }
}

#[test]
fn retry_sleep_does_not_exceed_the_remaining_admission_window() {
    let now = 5_000 * MILLISECOND;

    assert_eq!(retry_delay(now + 7 * MILLISECOND, now), Some(7 * MILLISECOND));
    assert_eq!(retry_delay(now, now), None);
}

#[test]
fn rerun_marker_preserves_a_closed_pane_request_scope() {
    let mut requests = Requests::new();
    let requested = Invocation::ClosedPane {
        workspace_id: "w2".into(),
        pane_id: "w2:p1".into(),
    };

    requests.request(&requested);

    assert_eq!(requests.take(), Some(requested));
}

#[test]
fn close_followed_by_full_keeps_both_requests_in_order() {
    let mut requests = Requests::new();

    requests.request(&closed("w1"));
    requests.request(&Invocation::Full);

    assert_eq!(requests.take(), Some(closed("w1")));
    assert_eq!(requests.take(), Some(Invocation::Full));
    assert!(requests.take().is_none());
}

#[test]
fn full_followed_by_close_keeps_both_requests_in_order() {
    let mut requests = Requests::new();

    requests.request(&Invocation::Full);
    requests.request(&closed("w1"));

    assert_eq!(requests.take(), Some(Invocation::Full));
    assert_eq!(requests.take(), Some(closed("w1")));
    assert!(requests.take().is_none());
}

#[test]
fn close_requests_for_multiple_workspaces_are_preserved() {
    let mut requests = Requests::new();

    requests.request(&closed("w1"));
    requests.request(&closed("w2"));

    assert_eq!(requests.take(), Some(closed("w1")));
    assert_eq!(requests.take(), Some(closed("w2")));
    assert!(requests.take().is_none());
}

#[test]
fn requests_that_arrive_between_takes_wait_their_turn() {
    let mut requests = Requests::new();
    requests.request(&closed("w1"));
    requests.request(&closed("w2"));
    assert_eq!(requests.take(), Some(closed("w1")));
    requests.request(&closed("w3"));
    assert_eq!(requests.take(), Some(closed("w2")));
    assert_eq!(requests.take(), Some(closed("w3")));
    assert!(requests.take().is_none());

    requests.request(&closed("w4"));
    assert_eq!(requests.take(), Some(closed("w4")));
}

#[test]
fn ordinary_deferred_requests_remain_full_reconciliations() {
    let mut requests = Requests::new();

    requests.request(&Invocation::Workspace("w2".into()));

    assert_eq!(requests.take(), Some(Invocation::Full));
}

#[test]
fn deferring_twice_changes_nothing() {
    assert_eq!(request_rerun(&request_rerun(&closed("w1"))), closed("w1"));
    assert_eq!(request_rerun(&request_rerun(&Invocation::Clear)), Invocation::Full);
}

#[test]
fn empty_requests_stand_for_a_full_pass() {
    assert_eq!(
        read_rerun_contents(&Vec::new(), Err("empty".into())),
        Ok(Invocation::Full)
    );
    assert_eq!(
        read_rerun_contents(&bytes("{}"), Ok(closed("w1"))),
        Ok(closed("w1"))
    );
    assert_eq!(
        read_rerun_contents(&bytes("{}"), Err("malformed".into())),
        Err("malformed".to_owned())
    );
}

#[test]
fn taken_names_are_passed_over() {
    assert_eq!(publish_step(Ok(())), PublishStep::Done);
    assert_eq!(
        publish_step(Err(FileFailure::Exists("file exists".into()))),
        PublishStep::Retry
    );
    assert_eq!(
        publish_step(Err(missing())),
        PublishStep::Failed("no such file".into())
    );
    assert_eq!(
        publish_step(Err(broken())),
        PublishStep::Failed("broken disk".into())
    );
    assert_ne!(rerun_file_name(42, 1), rerun_file_name(42, 2));
}

#[test]
fn listed_requests_come_before_the_single_one() {
    assert_eq!(
        rerun_source(Ok(vec![bytes("b.json"), bytes("a.json"), bytes("0.tmp")])),
        Ok(RerunSource::Published(bytes("a.json")))
    );
    assert_eq!(rerun_source(Ok(vec![bytes("0.tmp")])), Ok(RerunSource::Legacy));
    assert_eq!(rerun_source(Err(missing())), Ok(RerunSource::Legacy));
    assert_eq!(rerun_source(Err(broken())), Err("broken disk".to_owned()));
}

#[test]
fn only_a_missing_single_request_is_no_request() {
    let listed = RerunSource::Published(bytes("a.json"));
    assert_eq!(take_rerun(&listed, Ok(Ok(closed("w1")))), Ok(Some(closed("w1"))));
    assert_eq!(take_rerun(&listed, Err(missing())), Err("no such file".to_owned()));
    assert_eq!(
        take_rerun(&RerunSource::Legacy, Ok(Ok(Invocation::Full))),
        Ok(Some(Invocation::Full))
    );
    assert_eq!(take_rerun(&RerunSource::Legacy, Err(missing())), Ok(None));
    assert_eq!(
        take_rerun(&RerunSource::Legacy, Err(broken())),
        Err("broken disk".to_owned())
    );
    assert_eq!(
        take_rerun(&RerunSource::Legacy, Ok(Err("malformed".into()))),
        Err("malformed".to_owned())
    );
}

#[test]
fn waiting_requests_are_seen() {
    let listed = RerunSource::Published(bytes("a.json"));
    assert_eq!(rerun_requested(&listed, Err(missing())), Ok(true));
    assert_eq!(rerun_requested(&RerunSource::Legacy, Ok(())), Ok(true));
    assert_eq!(rerun_requested(&RerunSource::Legacy, Err(missing())), Ok(false));
    assert_eq!(
        rerun_requested(&RerunSource::Legacy, Err(broken())),
        Err("broken disk".to_owned())
    );
}

#[test]
fn repeated_waits_end_by_the_deadline_together() {
    let deadline = 110 * MILLISECOND;
    let mut now = 10 * MILLISECOND;
    let mut waited = 0;
    while let Some(delay) = retry_delay(deadline, now) {
        now += delay + 3 * MILLISECOND;
        waited += delay;
    }
    assert_eq!(waited, 91 * MILLISECOND);
}

#[test]
fn requests_are_named_in_order() {
    assert_eq!(rerun_id(42, 1), "42-00000000000000000001");
    assert_eq!(rerun_id(0, u64::MAX), "0-18446744073709551615");
    assert_eq!(rerun_file_name(42, 12), "42-00000000000000000012.json");
    assert_eq!(rerun_temporary_name(42, 12), ".42-00000000000000000012.tmp");
    assert!(rerun_file_name(42, 9) < rerun_file_name(42, 10));
    let unfinished = rerun_temporary_name(42, 12).into_bytes();
    let finished = rerun_file_name(42, 12).into_bytes();
    assert_eq!(pending_rerun_file(&vec![unfinished, finished]), Some(1));
}

#[test]
fn only_published_requests_are_pending() {
    let names = vec![
        bytes(".json"),
        bytes("b.json"),
        bytes("a.tmp"),
        bytes("json"),
        bytes("a.json"),
        bytes("a.json2"),
        bytes("aa.json"),
    ];
    assert_eq!(pending_rerun_file(&names), Some(4));
    assert_eq!(pending_rerun_file(&vec![bytes("x.tmp"), bytes(".json")]), None);
    assert_eq!(pending_rerun_file(&Vec::new()), None);
}

#[test]
fn attempts_are_repeated_until_the_deadline() {
    assert_eq!(acquire_with_timeout(Ok(true), 10, 99), LockStep::Acquired);
    assert_eq!(
        acquire_with_timeout(Ok(false), 100 * MILLISECOND, 0),
        LockStep::Wait(LOCK_RETRY_DELAY)
    );
    assert_eq!(
        acquire_with_timeout(Ok(false), 100 * MILLISECOND, 99 * MILLISECOND),
        LockStep::Wait(MILLISECOND)
    );
    assert_eq!(
        acquire_with_timeout(Ok(false), 100, 100),
        LockStep::TimedOut("timed out waiting for another reconciliation".into())
    );
    assert_eq!(
        acquire_with_timeout(Err("no lock file".into()), 100, 0),
        LockStep::Failed("no lock file".into())
    );
}

#[test]
fn waits_end_by_their_deadline() {
    assert_eq!(bounded_delay(30, 10, 50), Some(20));
    assert_eq!(bounded_delay(30, 10, 5), Some(5));
    assert_eq!(bounded_delay(30, 10, 0), Some(0));
    assert_eq!(bounded_delay(30, 40, 5), None);
}

#[test]
fn session_files_lie_in_the_session_directory() {
    assert_eq!(lock_file(&bytes("/s")), bytes("/s/reconcile.lock"));
    assert_eq!(rerun_directory(&bytes("/s")), bytes("/s/reruns"));
    assert_eq!(legacy_rerun_file(&bytes("/s")), bytes("/s/rerun"));
}
