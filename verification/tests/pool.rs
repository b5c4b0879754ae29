//! Tests of the orchestrator: claims, spawning, shutdown, and cleanup.

use polldaddy_spam::manager::{keep_healthy, Manager, SpawnError};
use polldaddy_spam::quiz::{Quiz, QuizAnswer};
use polldaddy_spam::vote_response::{HtmlResponseError, JsonResponse, VoteResponse};

fn sample_quiz() -> Quiz {
    let answers = vec![
        QuizAnswer::new(11, String::from("Yes")),
        QuizAnswer::new(22, String::from("No")),
    ];
    Quiz::new(
        123,
        answers,
        String::from("abcd1234"),
        false,
        String::from("https://example.com/poll"),
        String::from("va1"),
    )
}

#[test]
fn same_endpoint_spawns_once() {
    let mut m = Manager::new(sample_quiz(), 0);
    let url = String::from("http://127.0.0.1:8080");
    let r1 = m.try_spawn_worker(&url);
    assert!(r1.is_ok());
    let r2 = m.try_spawn_worker(&url);
    assert!(matches!(r2, Err(SpawnError::DuplicateProxy)));
    let r3 = m.try_spawn_worker(&url);
    assert!(matches!(r3, Err(SpawnError::DuplicateProxy)));
    assert_eq!(m.len(), 1);
}

#[test]
fn shutdown_flag_blocks_spawn() {
    let mut m = Manager::new(sample_quiz(), 0);
    let a = String::from("http://127.0.0.1:8080");
    assert!(m.try_spawn_worker(&a).is_ok());
    m.exit();
    let b = String::from("http://127.0.0.2:8080");
    assert!(matches!(m.try_spawn_worker(&b), Err(SpawnError::Shutdown)));
    assert!(!m.is_endpoint_claimed(&b));
    assert!(m.is_endpoint_claimed(&a));
    assert_eq!(m.len(), 1);
}

#[test]
fn cleanup_runs_once() {
    let mut m = Manager::new(sample_quiz(), 0);
    let url = String::from("http://127.0.0.1:8080");
    let spawned = m.try_spawn_worker(&url).ok().unwrap();
    let mut w = spawned.worker;
    assert_eq!(m.len(), 1);
    assert!(m.is_endpoint_claimed(&url));
    w.cleanup(&mut m);
    assert_eq!(m.len(), 0);
    assert!(!m.is_endpoint_claimed(&url));
    let again = m.try_spawn_worker(&url).ok().unwrap();
    w.cleanup(&mut m);
    assert_eq!(m.len(), 1);
    assert!(m.is_endpoint_claimed(&url));
    drop(again);
}

#[test]
fn cycle_spawns_exactly_the_healthy_unclaimed() {
    let mut m = Manager::new(sample_quiz(), 0);
    let a = String::from("http://10.0.0.1:8080");
    let b = String::from("http://10.0.0.2:8080");
    let c = String::from("http://10.0.0.3:8080");
    assert!(m.try_spawn_worker(&b).is_ok());
    let candidates = vec![a.clone(), b.clone(), c.clone()];
    let unclaimed = m.filter_unclaimed(&candidates);
    assert_eq!(unclaimed, vec![a.clone(), c.clone()]);
    let probe_results = vec![true, true];
    let to_spawn = keep_healthy(&unclaimed, &probe_results);
    assert_eq!(to_spawn, vec![a.clone(), c.clone()]);
    let results = m.spawn_all(&to_spawn);
    assert_eq!(results.len(), 2);
    assert!(results.iter().all(|r| r.is_ok()));
    assert_eq!(m.len(), 3);
    assert!(m.is_endpoint_claimed(&a));
    assert!(m.is_endpoint_claimed(&b));
    assert!(m.is_endpoint_claimed(&c));
}

#[test]
fn unhealthy_candidates_are_dropped() {
    let candidates = vec![
        String::from("http://10.0.0.1:8080"),
        String::from("http://10.0.0.2:8080"),
        String::from("http://10.0.0.3:8080"),
    ];
    let probe_results = vec![true, false, true];
    let kept = keep_healthy(&candidates, &probe_results);
    assert_eq!(kept, vec![candidates[0].clone(), candidates[2].clone()]);
}

#[test]
fn graceful_exit_with_prompt_cleanup_reports_zero() {
    let mut m = Manager::new(sample_quiz(), 0);
    let urls = [
        String::from("http://10.0.0.1:8080"),
        String::from("http://10.0.0.2:8080"),
        String::from("http://10.0.0.3:8080"),
    ];
    let mut workers = Vec::new();
    for u in urls.iter() {
        workers.push(m.try_spawn_worker(u).ok().unwrap().worker);
    }
    assert_eq!(m.len(), 3);
    m.exit();
    for w in workers.iter_mut() {
        assert!(m.worker_should_exit(w));
        w.cleanup(&mut m);
    }
    assert_eq!(m.len(), 0);
}

#[test]
fn stuck_worker_remains_after_exit() {
    let mut m = Manager::new(sample_quiz(), 0);
    let url = String::from("http://127.0.0.1:8080");
    let mut w = m.try_spawn_worker(&url).ok().unwrap().worker;
    m.exit();
    assert_eq!(m.len(), 1);
    assert!(m.is_endpoint_claimed(&url));
    w.cleanup(&mut m);
    assert_eq!(m.len(), 0);
    assert!(!m.is_endpoint_claimed(&url));
}

#[test]
fn worker_messages_flow_to_consumer() {
    let mut m = Manager::new(sample_quiz(), 1);
    let url = String::from("http://127.0.0.1:8080");
    let w = m.try_spawn_worker(&url).ok().unwrap().worker;
    let payload = VoteResponse::new(
        Some(JsonResponse::new(
            Some(7),
            None,
            Some(String::from("registered")),
            vec![22],
        )),
        Err(HtmlResponseError::MissingAnswers),
    );
    m.post_message(&w, Ok(payload));
    assert!(!m.worker_should_exit(&w));
    m.worker_begin_sleep(&w);
    m.worker_end_sleep(&w);
    let msg = m.read_message().unwrap();
    assert_eq!(msg.id, w.id());
    let vr = msg.data.unwrap();
    assert!(!vr.is_ip_banned());
    assert!(vr.registered_vote());
    assert!(m.read_message().is_none());
}

#[test]
fn spawn_with_client_always_registers() {
    let mut m = Manager::new(sample_quiz(), 0);
    let url = String::from("http://127.0.0.1:8080");
    let client = reqwest::Client::builder().build().unwrap();
    let sw = m.spawn_with_client(&url, client);
    assert_eq!(m.len(), 1);
    assert_eq!(sw.worker.endpoint(), "http://127.0.0.1:8080");
    // claiming the endpoint is the caller's own step, not this one's
    assert!(!m.is_endpoint_claimed(&url));
}

#[test]
fn same_endpoint_batch_spawns_once() {
    let mut m = Manager::new(sample_quiz(), 0);
    let url = String::from("http://127.0.0.1:8080");
    let urls = vec![url.clone(), url.clone(), url.clone()];
    let results = m.spawn_all(&urls);
    assert_eq!(results.len(), 3);
    assert!(results[0].is_ok());
    assert!(matches!(results[1], Err(SpawnError::DuplicateProxy)));
    assert!(matches!(results[2], Err(SpawnError::DuplicateProxy)));
    assert_eq!(m.len(), 1);
}
