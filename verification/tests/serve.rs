use shikigami::config::Config;
use shikigami::model::TokenUsage;
use shikigami::registry::RegistryError;
use shikigami::run::{RunResult, RunTermination};
use shikigami::serve::control::{
    authorized, cancel_reply, dispatch, find_head, load_reply, parse_head, route, settle,
    submit_reply, take_body, validate_options, Dispatch, Request, Response, Route,
    MAX_HEADER_BYTES,
};
use shikigami::serve::queue::{
    admission, admission_with_id, archive_path, archive_suffix, archived_as_done, count_inbox,
    has_job_name, health_json, health_status, inbox_filename, inbox_filename_with,
    inbox_priority_key, job_json, job_request, next_claim, original_job_filename,
    original_job_stem, priority_from_inbox_name, processing_filename, processing_name,
    queue_result, result_path, retried, Admission, QueueCache, QueueCounts,
};
use shikigami::serve::serve_loop::{next_step, JobEnd, LoopStep, ServeProgress};
use shikigami::serve::{
    runtime_options, ControlOptions, QueueJob, QueueLayout, ServeError, ServeOptions,
    ServeRuntimeOptions,
};

fn job(task: &str, priority: i32) -> QueueJob {
    QueueJob {
        job_id: None,
        task: task.into(),
        priority,
        attempt: 0,
        keep_workspace: false,
        logical_operation_id: None,
        timeout_secs: None,
    }
}

#[test]
fn admission_is_bounded_and_claims_highest_priority() {
    let mut inbox: Vec<(String, QueueJob)> = Vec::new();
    for (task, priority) in [("low", 1), ("high", 9)] {
        match admission(job(task, priority), inbox.len(), 2) {
            Admission::Accepted(accepted) => {
                assert_eq!(accepted.job_id.as_ref().map(|id| id.len()), Some(36));
                inbox.push((inbox_filename(priority), accepted));
            }
            _ => panic!("there is room"),
        }
    }
    assert!(matches!(
        admission(job("full", 10), inbox.len(), 2),
        Admission::Full
    ));

    let names: Vec<String> = inbox.iter().map(|entry| entry.0.clone()).collect();
    let claimed = next_claim(&names).unwrap();
    assert_eq!(inbox[claimed].1.task, "high");
    assert_eq!(inbox.len(), 2);
}

#[test]
fn claim_next_uses_filename_priority_without_parsing_every_file() {
    let names = vec![
        "zzz-sneaky.json".to_string(),
        inbox_filename(9),
        inbox_filename(1),
    ];
    let claimed = next_claim(&names).unwrap();
    assert_eq!(claimed, 1);
    let rest = vec![names[0].clone(), names[2].clone()];
    assert!(next_claim(&rest).is_some());
    assert!(next_claim(&vec!["notes.txt".to_string()]).is_none());
}

#[test]
fn write_health_skips_unchanged_compact_snapshot() {
    let runtime = ServeRuntimeOptions::default();
    let counts = QueueCounts { inbox_entries: 0, inbox_json: 0, processing_json: 0 };
    let mut cache = QueueCache::new();
    let mut writes = 0;
    let first = health_json(&health_status("shikigami", "0.1.0", counts, true, None, 0, &runtime));
    for _ in 0..2 {
        if cache.health_changed(&first) {
            writes += 1;
        }
    }
    assert_eq!(writes, 1);
    assert!(!first.contains('\n'), "health snapshot should be compact JSON");

    let second = health_json(&health_status("shikigami", "0.1.0", counts, true, None, 1, &runtime));
    if cache.health_changed(&second) {
        writes += 1;
    }
    assert_eq!(writes, 2);
    let value: serde_json::Value = serde_json::from_str(&second).unwrap();
    assert_eq!(value["running_jobs"], 1);
    assert_eq!(value["product"], "shikigami");
}

#[test]
fn inbox_filename_priority_round_trips() {
    for priority in [i32::MIN, -3, 0, 1, 9, i32::MAX] {
        let name = inbox_filename(priority);
        assert_eq!(priority_from_inbox_name(&name), priority);
    }
    assert_eq!(priority_from_inbox_name("001.json"), 0);
}

#[test]
fn admission_rejects_blank_tasks_without_consuming_capacity() {
    assert!(matches!(
        admission(job("  ", 0), 0, 1),
        Admission::MissingTask
    ));
    assert!(matches!(
        admission(job("go", 0), 0, 1),
        Admission::Accepted(_)
    ));
}

#[test]
fn a_job_keeps_the_id_it_came_with() {
    let mut named = job("go", 0);
    named.job_id = Some("mine".into());
    match admission(named, 0, 1) {
        Admission::Accepted(j) => assert_eq!(j.job_id.as_deref(), Some("mine")),
        _ => panic!("there is room"),
    }
    match admission_with_id(job("go", 0), 0, 0, "given".into()) {
        Admission::Accepted(j) => assert_eq!(j.job_id.as_deref(), Some("given")),
        _ => panic!("there is room"),
    }
}

#[test]
fn higher_priorities_sort_first() {
    assert_eq!(inbox_priority_key(i32::MAX), 0);
    assert_eq!(inbox_priority_key(i32::MIN), u32::MAX);
    assert!(inbox_filename(9) < inbox_filename(1));
    assert!(has_job_name("a.json"));
    assert!(!has_job_name("a.tmp"));
    assert_eq!(count_inbox(&vec!["a.json".into(), "b.tmp".into()]), (2, 1));
}

#[test]
fn processing_names_keep_the_inbox_name() {
    let name = inbox_filename_with(3, "unique");
    assert_eq!(name, "p2147483644-unique.json");
    assert_ne!(inbox_filename(3), inbox_filename(3));
    assert_eq!(
        processing_name(&name, "claim-1"),
        "p2147483644-unique.json.processing-claim-1.json"
    );
    let claimed = processing_filename(&name);
    assert_ne!(claimed, name);
    assert_eq!(original_job_filename(&claimed), name);
    assert_eq!(format!("{}.json", original_job_stem(&claimed)), name);
}

fn result(success: bool) -> RunResult {
    RunResult {
        run_id: "run-1".into(),
        success,
        summary: "done".into(),
        turns: 2,
        workspace: "/ws".into(),
        artifact_dir: None,
        termination: if success { RunTermination::Completed } else { RunTermination::Failed },
        park: None,
        prompt_id: "p".into(),
        usage: TokenUsage::default(),
        cost: None,
        todos: vec![],
    }
}

#[test]
fn finished_jobs_are_archived_with_their_result() {
    assert!(archived_as_done(&result(true)));
    assert!(!archived_as_done(&result(false)));
    let mut finished = job("go", 0);
    finished.job_id = Some("job-1".into());
    let written = queue_result("/q/done/a.json", &finished, &result(true));
    assert_eq!(written.run_id, "run-1");
    assert_eq!(written.job_id.as_deref(), Some("job-1"));
    assert_eq!(written.termination, "completed");
    assert_eq!(archive_path("/q/done", "a.json", false, "x"), "/q/done/a.json");
    assert_eq!(archive_path("/q/done", "a.json", true, "x"), "/q/done/a-x.json");
    assert_ne!(
        archive_path("/q/done", "a.json", true, &archive_suffix()),
        archive_path("/q/done", "a.json", true, &archive_suffix())
    );
    assert_ne!(
        result_path("/q/done", "a.json", true, "x"),
        result_path("/q/done", "a.json", false, "x")
    );
    let layout = QueueLayout::under_state("/state");
    assert!(layout.inbox.starts_with(&layout.root));
    let mut timed = job("go", 0);
    timed.timeout_secs = Some(2);
    let request = job_request(&timed);
    assert_eq!(request.timeout_ms, Some(2000));
    assert_eq!(request.task, "go");
}

#[test]
fn jobs_are_retried_up_to_the_limit() {
    let mut attempt = job("go", 0);
    for expected in 1..=2 {
        attempt = retried(&attempt, 2).unwrap();
        assert_eq!(attempt.attempt, expected);
    }
    assert!(retried(&attempt, 2).is_none());
    let text = job_json(&attempt);
    let value: serde_json::Value = serde_json::from_str(&text).unwrap();
    assert_eq!(value["attempt"], 2);
    assert_eq!(value["task"], "go");
}

#[test]
fn caches_forget_what_changed() {
    let mut cache = QueueCache::new();
    assert!(!cache.inbox_is_idle(Some(1)));
    cache.mark_inbox_idle(Some(1));
    assert!(cache.inbox_is_idle(Some(1)));
    assert!(!cache.inbox_is_idle(Some(2)));
    cache.invalidate_inbox();
    assert!(!cache.inbox_is_idle(Some(1)));
    let counts = QueueCounts { inbox_entries: 1, inbox_json: 1, processing_json: 0 };
    cache.remember_counts(counts, Some(1), Some(2));
    assert_eq!(cache.known_counts(Some(1), Some(2)), Some(counts));
    assert_eq!(cache.known_counts(Some(1), Some(3)), None);
}

fn request(method: &str, path: &str, body: Vec<u8>) -> Request {
    Request {
        method: method.into(),
        path: path.into(),
        authorization: Some("Bearer secret".into()),
        body,
    }
}

#[test]
fn control_interface_owns_auth_and_bounded_admission() {
    let runtime = ServeRuntimeOptions { queue_capacity: 1, ..ServeRuntimeOptions::default() };
    let options = ControlOptions {
        auth_token: Some("secret".into()),
        queue_capacity: 1,
        ..ControlOptions::default()
    };
    validate_options(&options, runtime.queue_capacity).unwrap();
    let body = job_json(&job("queued", 7)).into_bytes();
    let accepted = request("POST", "/runs", body);
    assert!(authorized(&accepted, options.auth_token.as_deref()));
    assert!(matches!(route(&accepted, options.max_body_bytes), Route::Submit));
    let mut depth = 0;
    let first = admission(job("queued", 7), depth, options.queue_capacity);
    assert_eq!(submit_reply(&Ok(first)).status, "202 Accepted");
    depth += 1;
    let unauthorized = Request { authorization: Some("Bearer wrong".into()), ..accepted };
    assert!(!authorized(&unauthorized, options.auth_token.as_deref()));
    match dispatch(&Ok(unauthorized), &options) {
        Dispatch::Answer(r) => assert!(r.status.starts_with("401")),
        _ => panic!("nothing is done without the token"),
    }
    let full = admission(job("full", 0), depth, options.queue_capacity);
    assert_eq!(submit_reply(&Ok(full)).status, "429 Too Many Requests");
    let counts = QueueCounts { inbox_entries: 1, inbox_json: 1, processing_json: 1 };
    let health = health_status("shikigami", "0.1.0", counts, true, None, 0, &runtime);
    assert!(health.queue_over_capacity);
}

#[test]
fn control_options_fail_closed() {
    let missing = ControlOptions { auth_token: None, ..ControlOptions::default() };
    assert!(validate_options(&missing, missing.queue_capacity).is_err());
    let mismatched = ControlOptions {
        auth_token: Some("secret".into()),
        queue_capacity: 2,
        ..ControlOptions::default()
    };
    assert!(validate_options(&mismatched, 1).is_err());
}

#[test]
fn requests_are_read_from_bytes() {
    let raw = b"POST /runs HTTP/1.1\r\nAuthorization: Bearer secret\r\nContent-Length: 2\r\n\r\n{}"
        .to_vec();
    let end = find_head(&raw, 100).unwrap().unwrap();
    let head = parse_head(&raw, end, 100).unwrap();
    assert_eq!(head.method, "POST");
    assert_eq!(head.path, "/runs");
    assert_eq!(head.content_length, 2);
    let taken = take_body(&raw, end, head).unwrap();
    assert_eq!(taken.body, b"{}".to_vec());
    assert!(authorized(&taken, Some("secret")));

    let partial = b"GET /health HTTP/1.1\r\n".to_vec();
    assert!(find_head(&partial, 100).unwrap().is_none());
    let endless = vec![b'x'; MAX_HEADER_BYTES + 200];
    assert!(find_head(&endless, 100).is_err());
    let large = b"POST /runs HTTP/1.1\r\nContent-Length: 101\r\n\r\n".to_vec();
    let end = find_head(&large, 100).unwrap().unwrap();
    assert!(parse_head(&large, end, 100).is_err());
}

#[test]
fn routes_name_safe_runs_only() {
    assert!(matches!(route(&request("GET", "/healthz", vec![]), 10), Route::Health));
    assert!(matches!(route(&request("GET", "/metrics", vec![]), 10), Route::Metrics));
    assert!(matches!(route(&request("GET", "/runs", vec![]), 10), Route::List));
    assert!(matches!(
        route(&request("GET", "/runs/run-1", vec![]), 10),
        Route::Load(id) if id == "run-1"
    ));
    assert!(matches!(
        route(&request("GET", "/runs/run-1/events", vec![]), 10),
        Route::Events(id) if id == "run-1"
    ));
    assert!(matches!(
        route(&request("POST", "/runs/run-1/cancel", vec![]), 10),
        Route::Cancel(id) if id == "run-1"
    ));
    assert!(matches!(
        route(&request("GET", "/runs/..", vec![]), 10),
        Route::Reply(Response { .. })
    ));
    assert!(matches!(route(&request("GET", "/nope", vec![]), 10), Route::Reply(_)));
}

#[test]
fn replies_carry_their_status() {
    let missing = settle(load_reply(Err(RegistryError::Missing("run-1".into()))));
    assert!(missing.status.starts_with("404"));
    let cancelled = settle(cancel_reply(Ok(())));
    assert!(cancelled.status.starts_with("202") || cancelled.status.starts_with("200"));
    let broken = settle(Err(ServeError::Message("broken".into())));
    assert!(broken.status.starts_with("500") || broken.status.starts_with("400"));
    let loaded = settle(load_reply(Ok(b"{}".to_vec())));
    assert!(loaded.head().contains("Content-Length: 2"));
}

#[test]
fn serve_rejects_parallel_inplace_jobs() {
    let mut config = Config::default();
    config.governance.adapter = "local".into();
    config.model.adapter = "scripted".into();
    config.workspace.adapter = "inplace".into();
    let runtime = ServeRuntimeOptions { concurrency: 2, ..ServeRuntimeOptions::default() };
    let error = runtime_options(&config, runtime, None).unwrap_err();
    assert!(error.message().contains("inplace"));
}

#[test]
fn jobs_stay_within_their_bounds() {
    let options = ServeOptions { max_jobs: Some(2), ..ServeOptions::default() };
    let runtime = ServeRuntimeOptions { concurrency: 1, ..ServeRuntimeOptions::default() };
    let mut p = ServeProgress::new(&options, &runtime);
    assert_eq!(next_step(&p, &options, &runtime, false, false), LoopStep::Claim);
    p.started(&options, &runtime);
    assert!(!p.claims(&options, &runtime));
    p.ended(JobEnd::Ran("run-1".into()), &options, &runtime);
    assert_eq!(p.completed, 1);
    assert_eq!(p.last_run_id.as_deref(), Some("run-1"));
    p.started(&options, &runtime);
    p.ended(JobEnd::Requeued, &options, &runtime);
    assert_eq!(p.completed, 1);
    p.started(&options, &runtime);
    p.ended(JobEnd::Failed, &options, &runtime);
    assert!(p.is_finished(&options));
    assert_eq!(next_step(&p, &options, &runtime, false, false), LoopStep::Leave);
}
