use miri_the_world::catalog::{resolve_list, sort_by_downloads, top, jobs_of, CatalogEntry};
use miri_the_world::inflight::InFlight;
use miri_the_world::job::{parse_entry, Job};
use miri_the_world::progress::{completed_jobs, eta_secs};
use miri_the_world::protocol::{chars_of, decode, end_marker};
use miri_the_world::queue::Queue;
use miri_the_world::worker::{Action, Event, Worker};
use miri_the_world::RerunWhen;

fn job(name: &str, version: &str) -> Job {
    Job::new(name.to_string(), version.to_string())
}

fn entry(name: &str, version: &str, downloads: u64) -> CatalogEntry {
    CatalogEntry { job: job(name, version), recent_downloads: downloads }
}

fn texts(jobs: &[Job]) -> Vec<String> {
    jobs.iter().map(|j| format!("{}=={}", j.name, j.version)).collect()
}

fn string_of(chars: &[char]) -> String {
    chars.iter().collect()
}

/// Runs one worker over the queue against a child that answers each request
/// with `reply(request)` lines, and that dies after a job when `dies` says so.
/// Returns the artifacts written, as (path, contents).
fn run_worker(
    queue: &mut Queue,
    token: &str,
    reply: &dyn Fn(&str, &str) -> Vec<String>,
    dies: &dyn Fn(usize) -> bool,
) -> (Vec<(String, String)>, usize) {
    let marker = end_marker(token);
    let mut worker = Worker::new(&marker);
    let mut action = worker.start();
    let mut written = Vec::new();
    let mut launches = 0;
    let mut pending_lines: Vec<String> = Vec::new();
    let mut jobs_done = 0;
    for _ in 0..10_000 {
        let event = match action {
            Action::Launch | Action::Relaunch { .. } => {
                launches += 1;
                Event::Launched
            }
            Action::Pop => Event::Popped(queue.pop()),
            Action::Send { job, line } => {
                assert_eq!(line, format!("{}=={}\n", job.name, job.version));
                let mut lines = reply(&job.name, &job.version);
                lines.reverse();
                pending_lines = lines;
                match pending_lines.pop() {
                    Some(l) => Event::Line(l),
                    None => Event::Closed,
                }
            }
            Action::ReadLine => match pending_lines.pop() {
                Some(l) => Event::Line(l),
                None => Event::Closed,
            },
            Action::Persist { job, dir, path, contents } => {
                assert_eq!(dir, format!("logs/{}", job.name));
                written.push((path, contents));
                Event::Persisted
            }
            Action::CheckAlive => {
                jobs_done += 1;
                Event::Alive(!dies(jobs_done))
            }
            Action::Shutdown => break,
            Action::Ignore => panic!("event out of place"),
        };
        action = worker.step(event);
    }
    assert!(worker.is_terminated());
    (written, launches)
}

#[test]
fn end_to_end_two_jobs_one_worker() {
    let catalog = vec![job("foo", "1.0.0"), job("bar", "2.1.0")];
    let mut queue = Queue::build(&catalog, &vec![false, false], RerunWhen::Never);
    let token = "d3adb33f";
    let reply = |_: &str, _: &str| vec![format!("ok-{}-\n", token)];
    let (written, launches) = run_worker(&mut queue, token, &reply, &|_| false);
    assert_eq!(launches, 1);
    let mut written = written;
    written.sort();
    assert_eq!(
        written,
        vec![
            ("logs/bar/2.1.0".to_string(), "ok".to_string()),
            ("logs/foo/1.0.0".to_string(), "ok".to_string()),
        ]
    );
}

#[test]
fn round_trip_drops_the_marker_line() {
    let catalog = vec![job("serde", "1.0.0")];
    let mut queue = Queue::build(&catalog, &vec![false], RerunWhen::Always);
    let token = "tok";
    let reply = |name: &str, version: &str| {
        vec![format!("{}=={}\n", name, version), "-tok-\n".to_string()]
    };
    let (written, _) = run_worker(&mut queue, token, &reply, &|_| false);
    assert_eq!(written, vec![("logs/serde/1.0.0".to_string(), "serde==1.0.0\n".to_string())]);
}

#[test]
fn crash_after_every_job_still_completes_all() {
    let catalog: Vec<Job> = (0..5).map(|i| job(&format!("p{}", i), "0.1.0")).collect();
    let mut queue = Queue::build(&catalog, &vec![false; 5], RerunWhen::Never);
    let reply = |_: &str, _: &str| vec!["x\n".to_string(), "-t-\n".to_string()];
    let (written, launches) = run_worker(&mut queue, "t", &reply, &|_| true);
    assert_eq!(written.len(), 5);
    assert_eq!(launches, 6);
    assert!(queue.is_empty());
}

#[test]
fn closed_stream_drops_partial_output_and_relaunches() {
    let catalog = vec![job("a", "1.0.0"), job("b", "1.0.0")];
    let mut queue = Queue::build(&catalog, &vec![false, false], RerunWhen::Never);
    let reply = |name: &str, _: &str| {
        if name == "b" {
            vec!["partial\n".to_string()]
        } else {
            vec!["fine-t-\n".to_string()]
        }
    };
    let (written, launches) = run_worker(&mut queue, "t", &reply, &|_| false);
    assert_eq!(written, vec![("logs/a/1.0.0".to_string(), "fine".to_string())]);
    assert_eq!(launches, 2);
}

#[test]
fn closed_stream_names_the_abandoned_job() {
    let mut w = Worker::new("-t-");
    assert!(matches!(w.step(Event::Launched), Action::Pop));
    assert!(matches!(w.step(Event::Popped(Some(job("a", "1.0.0")))), Action::Send { .. }));
    assert!(matches!(w.step(Event::Line("half".to_string())), Action::ReadLine));
    match w.step(Event::Closed) {
        Action::Relaunch { abandoned: Some(j) } => assert_eq!(j.name, "a"),
        _ => panic!("expected a relaunch"),
    }
    assert!(matches!(w.step(Event::Persisted), Action::Ignore));
}

#[test]
fn build_drops_duplicates() {
    let catalog = vec![job("a", "1.0.0"), job("b", "1.0.0"), job("a", "1.0.0"), job("a", "2.0.0")];
    let mut queue = Queue::build(&catalog, &vec![false; 4], RerunWhen::Never);
    assert_eq!(queue.len(), 3);
    let drained = queue.drain();
    assert_eq!(texts(&drained), vec!["a==2.0.0", "b==1.0.0", "a==1.0.0"]);
}

#[test]
fn build_skips_done_jobs_unless_rerun() {
    let catalog = vec![job("a", "1.0.0"), job("b", "1.0.0"), job("c", "1.0.0")];
    let done = vec![true, false, true];
    let mut never = Queue::build(&catalog, &done, RerunWhen::Never);
    assert_eq!(texts(&never.drain()), vec!["b==1.0.0"]);
    let mut always = Queue::build(&catalog, &done, RerunWhen::Always);
    assert_eq!(texts(&always.drain()), vec!["c==1.0.0", "b==1.0.0", "a==1.0.0"]);
}

#[test]
fn second_run_dispatches_nothing() {
    let catalog = vec![job("a", "1.0.0"), job("b", "1.0.0")];
    let queue = Queue::build(&catalog, &vec![true, true], RerunWhen::Never);
    assert!(queue.is_empty());
    let token = "t";
    let mut q = queue;
    let (written, _) = run_worker(&mut q, token, &|_, _| vec!["-t-\n".to_string()], &|_| false);
    assert!(written.is_empty());
}

#[test]
fn pops_hand_out_each_job_once_then_nothing() {
    let catalog: Vec<Job> = (0..50).map(|i| job(&format!("c{}", i), "1.0.0")).collect();
    let mut queue = Queue::build(&catalog, &vec![false; 50], RerunWhen::Never);
    let mut seen = std::collections::HashSet::new();
    let mut count = 0;
    while let Some(j) = queue.pop() {
        assert!(seen.insert(format!("{}=={}", j.name, j.version)));
        count += 1;
    }
    assert_eq!(count, 50);
    assert!(queue.pop().is_none());
    assert!(queue.pop().is_none());
}

#[test]
fn pops_follow_reverse_catalog_order() {
    let catalog = vec![job("most", "1.0.0"), job("mid", "1.0.0"), job("least", "1.0.0")];
    let mut queue = Queue::build(&catalog, &vec![false; 3], RerunWhen::Never);
    assert_eq!(queue.pop().unwrap().name, "least");
    assert_eq!(queue.pop().unwrap().name, "mid");
    assert_eq!(queue.pop().unwrap().name, "most");
    assert!(queue.pop().is_none());
}

#[test]
fn terminated_worker_ignores_events() {
    let mut w = Worker::new("-t-");
    w.step(Event::Launched);
    assert!(matches!(w.step(Event::Popped(None)), Action::Shutdown));
    assert!(w.is_terminated());
    assert!(matches!(w.step(Event::Launched), Action::Ignore));
    assert!(w.is_terminated());
}

#[test]
fn decode_waits_for_the_marker() {
    let marker = chars_of("-abc-");
    assert!(decode(&chars_of("hello\n"), &marker).is_none());
    assert!(decode(&chars_of("-abc"), &marker).is_none());
    assert_eq!(string_of(&decode(&chars_of("out\n-abc-\r\n \t"), &marker).unwrap()), "out\n");
    assert_eq!(string_of(&decode(&chars_of("-abc-\u{3000}"), &marker).unwrap()), "");
    assert_eq!(string_of(&decode(&chars_of("ok-abc-\n"), &marker).unwrap()), "ok");
}

#[test]
fn end_marker_wraps_token_in_dashes() {
    assert_eq!(end_marker("1234"), "-1234-");
    assert_eq!(end_marker(""), "--");
}

#[test]
fn job_paths_and_request() {
    let j = job("rand", "0.8.5");
    assert_eq!(j.request_line(), "rand==0.8.5\n");
    assert_eq!(j.text(), "rand==0.8.5");
    assert_eq!(j.artifact_dir(), "logs/rand");
    assert_eq!(j.artifact_path(), "logs/rand/0.8.5");
    assert!(j.same_as(&job("rand", "0.8.5")));
    assert!(!j.same_as(&job("rand", "0.8.4")));
}

#[test]
fn parse_entry_splits_on_first_separator() {
    assert_eq!(parse_entry("serde"), ("serde".to_string(), None));
    assert_eq!(parse_entry("serde==1.0.1"), ("serde".to_string(), Some("1.0.1".to_string())));
    assert_eq!(parse_entry("a==b==c"), ("a".to_string(), Some("b".to_string())));
    assert_eq!(parse_entry("a===b"), ("a".to_string(), Some("=b".to_string())));
    assert_eq!(parse_entry("x="), ("x=".to_string(), None));
    assert_eq!(parse_entry("=="), ("".to_string(), Some("".to_string())));
}

#[test]
fn resolve_list_drops_unknown_and_sorts() {
    let catalog = vec![entry("a", "1.0.0", 5), entry("b", "2.0.0", 50), entry("c", "3.0.0", 7)];
    let list: Vec<String> = vec!["c", "zzz", "a==0.9.0", "b"].into_iter().map(String::from).collect();
    let r = resolve_list(&list, &catalog);
    let got: Vec<(String, String, u64)> =
        r.iter().map(|e| (e.job.name.clone(), e.job.version.clone(), e.recent_downloads)).collect();
    assert_eq!(
        got,
        vec![
            ("b".to_string(), "2.0.0".to_string(), 50),
            ("c".to_string(), "3.0.0".to_string(), 7),
            ("a".to_string(), "0.9.0".to_string(), 5),
        ]
    );
}

#[test]
fn sort_keeps_order_of_ties() {
    let v = vec![entry("x", "1", 1), entry("y", "1", 3), entry("z", "1", 1), entry("w", "1", 3)];
    let r = sort_by_downloads(v);
    let names: Vec<&str> = r.iter().map(|e| e.job.name.as_str()).collect();
    assert_eq!(names, vec!["y", "w", "x", "z"]);
}

#[test]
fn top_takes_a_prefix() {
    let v = vec![entry("x", "1", 9), entry("y", "1", 8), entry("z", "1", 7)];
    let r = top(v, 2);
    assert_eq!(jobs_of(&r).iter().map(|j| j.name.clone()).collect::<Vec<_>>(), vec!["x", "y"]);
    let v = vec![entry("x", "1", 9)];
    assert_eq!(top(v, 5).len(), 1);
}

#[test]
fn eta_from_pace() {
    assert_eq!(eta_secs(100, 10, 0), None);
    assert_eq!(eta_secs(100, 10, 11), None);
    assert_eq!(eta_secs(100, 10, 4), Some(150));
    assert_eq!(eta_secs(100, 10, 10), Some(0));
    assert_eq!(eta_secs(u64::MAX, u64::MAX, 1), Some((u64::MAX as u128) * (u64::MAX as u128 - 1)));
    assert_eq!(completed_jobs(10, 3), 7);
}

#[test]
fn in_flight_claims_and_releases() {
    let mut running = InFlight::new();
    running.claim(job("a", "1.0.0"), 10);
    running.claim(job("b", "1.0.0"), 12);
    running.claim(job("a", "1.0.0"), 15);
    assert_eq!(running.len(), 3);
    assert!(running.release(&job("a", "1.0.0")));
    let left: Vec<(String, u64)> =
        running.entries().iter().map(|(j, t)| (j.name.clone(), *t)).collect();
    assert_eq!(left, vec![("b".to_string(), 12), ("a".to_string(), 15)]);
    assert!(!running.release(&job("c", "1.0.0")));
    assert_eq!(running.len(), 2);
}
