use imgviewer::catalog::{open_validation_error, require_supported_extension};
use imgviewer::error::ViewerError;
use imgviewer::model::{DecodedRender, MAX_DECODE_BYTES};
use imgviewer::policy::{admit_decode, settle_decode, DecodePolicy, DEFAULT_DECODE_TIMEOUT_MS};
use imgviewer::render_cache::{RenderCache, MAX_SAFE_RENDER_ID};
use imgviewer::snapshot::{NavigationDirection, ViewerSnapshot, ViewerStatus};
use imgviewer::viewer::{advance_counter, Publication, ViewerState, WorkerStep};

#[test]
fn decode_deadline_has_a_stable_limit_and_boundary() {
    let started: u64 = 1_000;
    let deadline = DecodePolicy::with_max_decode_duration(25).deadline_from(started);
    assert_eq!(deadline.limit_ms(), 25);
    assert!(!deadline.is_expired(started + 24));
    assert!(deadline.is_expired(started + 25));
}

#[test]
fn render_tokens_are_one_time_and_cache_has_a_hard_limit() {
    let mut cache = RenderCache::new(4);
    let bytes = vec![1, 2, 3, 4];
    let allocation = bytes.as_ptr();
    let token = cache.insert(bytes).unwrap();
    assert!(token != 0);
    assert!(token <= MAX_SAFE_RENDER_ID);
    let taken = cache.take(token).unwrap();
    assert_eq!(taken, vec![1, 2, 3, 4]);
    assert_eq!(taken.as_ptr(), allocation, "render bytes must move, not copy");
    assert_eq!(cache.take(token), None);
    assert_eq!(cache.insert(vec![0; 5]).unwrap_err().code, "cache_limit_exceeded");
}

#[test]
fn clearing_render_cache_releases_all_unread_tokens_and_accounting() {
    let mut cache = RenderCache::new(8);
    let first = cache.insert(vec![1, 2, 3]).unwrap();
    let second = cache.insert(vec![4, 5]).unwrap();
    assert_eq!(cache.len(), 2);
    assert_eq!(cache.used(), 5);

    cache.clear();

    assert!(cache.is_empty());
    assert_eq!(cache.used(), 0);
    assert_eq!(cache.take(first), None);
    assert_eq!(cache.take(second), None);
}

#[test]
fn render_tokens_are_unique_and_exactly_representable_in_javascript() {
    let mut cache = RenderCache::new(8);
    let first = cache.insert(vec![1]).unwrap();
    let second = cache.insert(vec![2]).unwrap();
    assert_ne!(first, second);
    assert!((1..=MAX_SAFE_RENDER_ID).contains(&first));
    assert!((1..=MAX_SAFE_RENDER_ID).contains(&second));
}

// The viewer state machine driven the way the controller drives it: the
// caller opens sources, runs decodes and hands the outcomes back.

type Source = String;

fn files(names: &[&str]) -> Vec<String> {
    names.iter().map(|name| format!("C:\\photos\\{name}")).collect()
}

fn open(state: &mut ViewerState<Source>, names: &[&str], index: usize) -> ViewerSnapshot {
    let files = files(names);
    let source = Ok(files[index].clone());
    state.open_catalog(files, index, source)
}

fn navigate(state: &mut ViewerState<Source>, direction: NavigationDirection) -> ViewerSnapshot {
    match state.plan_navigation(direction) {
        Some(target) => {
            let source = Ok(state.file_at(target).unwrap().to_owned());
            state.navigate_to(target, source)
        }
        None => state.current_snapshot(),
    }
}

fn take_job(state: &mut ViewerState<Source>) -> (u64, String, Result<Source, ViewerError>) {
    match state.take_pending() {
        WorkerStep::Run(job) => (job.generation, job.path, job.source),
        _ => panic!("expected a pending job"),
    }
}

fn name_decoder(source: Source) -> Result<DecodedRender, ViewerError> {
    Ok(DecodedRender {
        bytes: source.rsplit('\\').next().unwrap().as_bytes().to_vec(),
        mime_type: "image/png",
        width: 1,
        height: 1,
        animated: false,
    })
}

fn run_worker(state: &mut ViewerState<Source>) -> Option<ViewerSnapshot> {
    let (generation, path, source) = take_job(state);
    let result = source.and_then(name_decoder);
    match state.publish_result(generation, &path, result) {
        Publication::Published(snapshot) => Some(snapshot),
        _ => None,
    }
}

#[test]
fn boundaries_stop_without_wrapping_or_advancing_generation() {
    let mut state = ViewerState::new();
    let first = open(&mut state, &["1.jpg"], 0);
    let stopped = navigate(&mut state, NavigationDirection::Previous);
    assert_eq!(first.generation, stopped.generation);
    assert_eq!(first.revision, stopped.revision);
    assert_eq!(stopped.index, Some(0));
    assert!(!stopped.can_previous);
    assert!(!stopped.can_next);
}

#[test]
fn rapid_navigation_discards_running_result_and_overwrites_pending_job() {
    let mut state = ViewerState::new();
    let first = open(&mut state, &["1.jpg", "2.jpg", "3.jpg"], 0);
    assert_eq!(first.generation, 1);
    assert_eq!(first.revision, 1);
    let (running_generation, running_path, running_source) = take_job(&mut state);
    assert_eq!(running_source.as_deref().ok(), Some("C:\\photos\\1.jpg"));
    let second = navigate(&mut state, NavigationDirection::Next);
    let third = navigate(&mut state, NavigationDirection::Next);
    assert_eq!(second.revision, 2);
    assert_eq!(third.revision, 3);
    assert_eq!(second.file_name.as_deref(), Some("2.jpg"));
    assert_eq!(third.file_name.as_deref(), Some("3.jpg"));

    let stale = name_decoder(running_source.unwrap());
    assert!(matches!(state.publish_result(running_generation, &running_path, stale), Publication::Superseded));

    // The pending 2.jpg job was replaced before the single worker became free.
    let ready = run_worker(&mut state).unwrap();
    assert!(matches!(state.take_pending(), WorkerStep::Wait));
    assert_eq!(ready.generation, third.generation);
    assert_eq!(ready.revision, 4);
    assert_eq!(ready.index, Some(2));
    assert_eq!(ready.file_name.as_deref(), Some("3.jpg"));
    let token = ready.render.unwrap().render_id;
    assert_eq!(state.render_count(), 1);
    assert_eq!(state.render_bytes_used(), b"3.jpg".len() as u64);
    assert_eq!(state.take_render(token).unwrap(), b"3.jpg");
    assert_eq!(state.render_bytes_used(), 0);
}

#[test]
fn deleted_file_is_recoverable_and_navigation_continues() {
    let mut state = ViewerState::new();
    open(&mut state, &["1.png", "2.png"], 0);
    assert_eq!(run_worker(&mut state).unwrap().status, ViewerStatus::Ready);

    let target = state.plan_navigation(NavigationDirection::Next).unwrap();
    let missing = open_validation_error(ViewerError::invalid_path("無法檢查指定圖片路徑"));
    state.navigate_to(target, Err(missing));
    let (generation, path, source) = take_job(&mut state);
    let deadline = DecodePolicy::default().deadline_from(0);
    let admitted = admit_decode(source, deadline, 0);
    let error = match state.publish_result(generation, &path, admitted.and_then(name_decoder)) {
        Publication::Published(snapshot) => snapshot,
        _ => panic!("expected a published error"),
    };
    assert_eq!(error.status, ViewerStatus::Error);
    assert!(error.can_previous);
    assert_eq!(error.file_name.as_deref(), Some("2.png"));
    assert_eq!(error.error.as_ref().map(|error| error.code.as_str()), Some("io_error"));

    navigate(&mut state, NavigationDirection::Previous);
    let recovered = run_worker(&mut state).unwrap();
    assert_eq!(recovered.status, ViewerStatus::Ready);
    assert_eq!(recovered.file_name.as_deref(), Some("1.png"));
}

#[test]
fn navigating_invalidates_an_unread_render_token_immediately() {
    let mut state = ViewerState::new();
    open(&mut state, &["1.png", "2.png"], 0);
    let first = run_worker(&mut state).unwrap();
    let old_token = first.render.unwrap().render_id;
    navigate(&mut state, NavigationDirection::Next);

    assert_eq!(state.take_render(old_token), None);
    let second = run_worker(&mut state).unwrap();
    assert_eq!(second.file_name.as_deref(), Some("2.png"));
}

#[test]
fn every_published_snapshot_transition_advances_revision_independently() {
    let mut state = ViewerState::new();
    let first_loading = open(&mut state, &["1.png", "2.png"], 0);
    let first_ready = run_worker(&mut state).unwrap();
    let second_loading = navigate(&mut state, NavigationDirection::Next);
    let second_ready = run_worker(&mut state).unwrap();
    let stopped = navigate(&mut state, NavigationDirection::Next);

    assert_eq!(
        [first_loading.revision, first_ready.revision, second_loading.revision, second_ready.revision],
        [1, 2, 3, 4]
    );
    assert_eq!(first_loading.generation, first_ready.generation);
    assert_eq!(second_loading.generation, second_ready.generation);
    assert_eq!(stopped.revision, second_ready.revision);
    assert_eq!(stopped.generation, second_ready.generation);
}

#[test]
fn open_errors_advance_generation_and_revision_without_exposing_a_path() {
    let mut state: ViewerState<Source> = ViewerState::new();
    let first = state.open_failed("unsupported.bmp", require_supported_extension("unsupported.bmp").unwrap_err());
    let second = state.open_failed("another.bmp", require_supported_extension("another.bmp").unwrap_err());

    assert_eq!((first.generation, first.revision), (1, 1));
    assert_eq!((second.generation, second.revision), (2, 2));
    assert_eq!(second.file_name.as_deref(), Some("another.bmp"));
    assert!(second.error.as_ref().is_some_and(|error| error.parameters.is_empty()));
}

#[test]
fn decoder_panic_becomes_a_recoverable_error_and_worker_survives() {
    let mut state = ViewerState::new();
    open(&mut state, &["1.png", "2.png"], 0);
    let (generation, path, _source) = take_job(&mut state);
    let failed = match state.publish_result(generation, &path, Err(ViewerError::decoder_panic())) {
        Publication::Published(snapshot) => snapshot,
        _ => panic!("expected a published error"),
    };
    assert_eq!(failed.status, ViewerStatus::Error);
    assert_eq!(failed.error.as_ref().map(|error| error.code.as_str()), Some("decoder_panic"));

    navigate(&mut state, NavigationDirection::Next);
    let recovered = run_worker(&mut state).unwrap();
    assert_eq!(recovered.status, ViewerStatus::Ready);
    assert_eq!(recovered.file_name.as_deref(), Some("2.png"));
    assert_eq!(recovered.revision, 4);
}

#[test]
fn expired_pending_jobs_fail_closed_and_latest_cursor_wins() {
    let mut state = ViewerState::new();
    let policy = DecodePolicy::with_max_decode_duration(0);
    open(&mut state, &["1.png", "2.png"], 0);
    let latest_loading = navigate(&mut state, NavigationDirection::Next);
    let (generation, path, source) = take_job(&mut state);
    let now: u64 = 5_000;
    let admitted = admit_decode(source, policy.deadline_from(now), now);
    let mut calls = 0;
    let result = admitted.and_then(|source| {
        calls += 1;
        name_decoder(source)
    });
    let latest = match state.publish_result(generation, &path, result) {
        Publication::Published(snapshot) => snapshot,
        _ => panic!("expected a published error"),
    };

    assert_eq!(latest.generation, latest_loading.generation);
    assert_eq!(latest.file_name.as_deref(), Some("2.png"));
    assert_eq!(latest.status, ViewerStatus::Error);
    let error = latest.error.unwrap();
    assert_eq!(error.code, "decode_deadline_exceeded");
    assert_eq!(error.parameter("limitMs"), Some(0));
    assert_eq!(calls, 0, "an already-expired job must not enter decoder code");
}

#[test]
fn decode_that_returns_after_soft_deadline_is_not_published() {
    let mut state = ViewerState::new();
    let policy = DecodePolicy::with_max_decode_duration(1);
    open(&mut state, &["1.png"], 0);
    let (generation, path, source) = take_job(&mut state);
    let deadline = policy.deadline_from(100);
    let decoded = admit_decode(source, deadline, 100).and_then(name_decoder);
    let settled = settle_decode(decoded, deadline, 115);
    let expired = match state.publish_result(generation, &path, settled) {
        Publication::Published(snapshot) => snapshot,
        _ => panic!("expected a published error"),
    };

    assert_eq!(expired.status, ViewerStatus::Error);
    assert_eq!(expired.error.as_ref().map(|error| error.code.as_str()), Some("decode_deadline_exceeded"));
    assert!(expired.render.is_none());
}

#[test]
fn stale_timeout_cannot_replace_a_newer_successful_decode() {
    let mut state = ViewerState::new();
    let policy = DecodePolicy::with_max_decode_duration(100);
    open(&mut state, &["1.jpg", "2.jpg"], 0);
    let (first_generation, first_path, first_source) = take_job(&mut state);
    let first_deadline = policy.deadline_from(0);
    let latest_loading = navigate(&mut state, NavigationDirection::Next);

    // The first decode returns after its budget; the latest job gets a fresh
    // budget when it starts.
    let late = settle_decode(first_source.and_then(name_decoder), first_deadline, 125);
    assert!(matches!(state.publish_result(first_generation, &first_path, late), Publication::Superseded));
    let (generation, path, source) = take_job(&mut state);
    let deadline = policy.deadline_from(125);
    let result = settle_decode(admit_decode(source, deadline, 125).and_then(name_decoder), deadline, 130);
    let latest = match state.publish_result(generation, &path, result) {
        Publication::Published(snapshot) => snapshot,
        _ => panic!("expected the latest decode"),
    };
    assert_eq!(latest.status, ViewerStatus::Ready);
    assert_eq!(latest.generation, latest_loading.generation);
    assert_eq!(latest.file_name.as_deref(), Some("2.jpg"));
    assert_eq!(state.take_render(latest.render.unwrap().render_id), Some(b"2.jpg".to_vec()));
}

// Additional scenarios.

#[test]
fn counters_wrap_past_their_maximum_to_one() {
    assert_eq!(advance_counter(0), 1);
    assert_eq!(advance_counter(41), 42);
    assert_eq!(advance_counter(u64::MAX), 1);
}

#[test]
fn shutdown_stops_the_worker_and_freezes_the_state() {
    let mut state = ViewerState::new();
    let before = open(&mut state, &["1.png", "2.png"], 0);
    assert!(state.request_shutdown());
    assert!(!state.request_shutdown());
    assert!(matches!(state.take_pending(), WorkerStep::Stop));
    assert_eq!(state.plan_navigation(NavigationDirection::Next), None);
    let after = open(&mut state, &["3.png"], 0);
    assert_eq!(after.revision, before.revision);
    assert_eq!(after.file_name.as_deref(), Some("1.png"));
    assert!(matches!(
        state.publish_result(before.generation, "C:\\photos\\1.png", Err(ViewerError::decoder_panic())),
        Publication::Stopped
    ));
}

#[test]
fn cache_limit_turns_a_decode_into_an_error_snapshot() {
    let mut state = ViewerState::new();
    open(&mut state, &["1.png"], 0);
    let (generation, path, _source) = take_job(&mut state);
    let huge = DecodedRender {
        bytes: vec![0; MAX_DECODE_BYTES as usize + 1],
        mime_type: "image/png",
        width: 1,
        height: 1,
        animated: false,
    };
    let snapshot = match state.publish_result(generation, &path, Ok(huge)) {
        Publication::Published(snapshot) => snapshot,
        _ => panic!("expected a published error"),
    };
    assert_eq!(snapshot.status, ViewerStatus::Error);
    let error = snapshot.error.unwrap();
    assert_eq!(error.code, "cache_limit_exceeded");
    assert_eq!(error.parameter("maxBytes"), Some(MAX_DECODE_BYTES));
    assert_eq!(state.render_count(), 0);
}

#[test]
fn default_policy_uses_the_helper_deadline() {
    let deadline = DecodePolicy::default().deadline_from(10);
    assert_eq!(deadline.limit_ms(), DEFAULT_DECODE_TIMEOUT_MS);
    assert_eq!(DEFAULT_DECODE_TIMEOUT_MS, 30_000);
    let saturated = DecodePolicy::with_max_decode_duration(10).deadline_from(u64::MAX);
    assert!(saturated.is_expired(u64::MAX));
}

#[test]
fn a_draw_becomes_the_first_free_token_from_its_masked_value() {
    let mut cache = RenderCache::new(64);
    assert_eq!(cache.token_from_draw(0), 1);
    assert_eq!(cache.token_from_draw(5), 5);
    assert_eq!(cache.token_from_draw((1u64 << 60) | 7), 7);
    assert_eq!(cache.token_from_draw(MAX_SAFE_RENDER_ID + 1), 1);
    assert_eq!(cache.token_from_draw(u64::MAX), MAX_SAFE_RENDER_ID);
    let token = cache.insert(vec![1, 2, 3]).unwrap();
    let next = if token == MAX_SAFE_RENDER_ID { 1 } else { token + 1 };
    assert_eq!(cache.token_from_draw(token), next);
}

#[test]
fn a_repeated_parameter_replaces_the_earlier_value() {
    let error = ViewerError::new("x", "y").with_parameter("a", 1).with_parameter("b", 2).with_parameter("a", 3);
    assert_eq!(error.parameters.len(), 2);
    assert_eq!(error.parameter("a"), Some(3));
    assert_eq!(error.parameter("b"), Some(2));
}

#[test]
fn a_drawn_token_is_stored_and_a_missing_draw_is_reported() {
    let mut cache = RenderCache::new(8);
    let refused = cache.insert_drawn(vec![1, 2, 3], None).unwrap_err();
    assert_eq!(refused.code, "io_error");
    assert_eq!(cache.used(), 0);
    let over = cache.insert_drawn(vec![0; 9], Some(5)).unwrap_err();
    assert_eq!(over.code, "cache_limit_exceeded");
    assert_eq!(cache.insert_drawn(vec![1, 2], Some(5)).unwrap(), 5);
    assert_eq!(cache.insert_drawn(vec![3], Some(5)).unwrap(), 6);
    assert_eq!(cache.used(), 3);
    assert_eq!(cache.take(6).unwrap(), vec![3]);
}

#[test]
fn a_decode_is_published_under_the_token_of_its_draw() {
    let mut state = ViewerState::new();
    open(&mut state, &["1.png", "2.png"], 0);
    let (generation, path, source) = take_job(&mut state);
    let published = match state.publish_drawn(generation, &path, source.clone().and_then(name_decoder), Some(41)) {
        Publication::Published(snapshot) => snapshot,
        _ => panic!("expected a publication"),
    };
    assert_eq!(published.status, ViewerStatus::Ready);
    assert_eq!(published.render.unwrap().render_id, 41);
    navigate(&mut state, NavigationDirection::Next);
    let (generation, path, source) = take_job(&mut state);
    let failed = match state.publish_drawn(generation, &path, source.and_then(name_decoder), None) {
        Publication::Published(snapshot) => snapshot,
        _ => panic!("expected a publication"),
    };
    assert_eq!(failed.status, ViewerStatus::Error);
    assert_eq!(failed.error.unwrap().code, "io_error");
    assert_eq!(state.render_count(), 0);
}
