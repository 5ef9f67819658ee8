use bentoml_core::archive::{bento_archive_name, ARCHIVE_COMPRESSION_LEVEL};
use bentoml_core::executor::{executor_step, run_scripted, StepDecision, WorkerStatus,
    POLL_INTERVAL_MS};
use bentoml_core::status::{BentoMLException, BentoMLStatus};
use bentoml_core::tag::Tag;

fn is_cancelled(d: &StepDecision<u32, &'static str>) -> bool {
    matches!(d, StepDecision::Cancelled)
}

#[test]
fn step_cancels_on_signal() {
    let d: StepDecision<u32, &'static str> = executor_step(true, WorkerStatus::Running);
    assert!(is_cancelled(&d));
}

#[test]
fn step_signal_wins_over_finished_worker() {
    // The implementation-defined race: a signal already set when the worker
    // finishes is still observed first, and the worker's result discarded.
    let d: StepDecision<u32, &'static str> =
        executor_step(true, WorkerStatus::Finished(Ok(7)));
    assert!(is_cancelled(&d));
}

#[test]
fn step_propagates_result_verbatim() {
    let d: StepDecision<u32, &'static str> =
        executor_step(false, WorkerStatus::Finished(Ok(7)));
    assert!(matches!(d, StepDecision::Done(Ok(7))));
    let e: StepDecision<u32, &'static str> =
        executor_step(false, WorkerStatus::Finished(Err("boom")));
    assert!(matches!(e, StepDecision::Done(Err("boom"))));
}

#[test]
fn step_waits_while_running() {
    let d: StepDecision<u32, &'static str> = executor_step(false, WorkerStatus::Running);
    assert!(matches!(d, StepDecision::Wait));
}

#[test]
fn scripted_loop_waits_then_finishes() {
    let script: Vec<(bool, WorkerStatus<u32, &'static str>)> = vec![
        (false, WorkerStatus::Running),
        (false, WorkerStatus::Running),
        (false, WorkerStatus::Finished(Ok(3))),
    ];
    let r = run_scripted(script);
    assert!(matches!(r, Some(StepDecision::Done(Ok(3)))));
}

#[test]
fn scripted_loop_cancels_mid_wait() {
    let script: Vec<(bool, WorkerStatus<u32, &'static str>)> = vec![
        (false, WorkerStatus::Running),
        (true, WorkerStatus::Finished(Ok(3))),
    ];
    let r = run_scripted(script);
    assert!(matches!(r, Some(StepDecision::Cancelled)));
}

#[test]
fn scripted_loop_exhausted_script_is_none() {
    let script: Vec<(bool, WorkerStatus<u32, &'static str>)> =
        vec![(false, WorkerStatus::Running)];
    assert!(run_scripted(script).is_none());
}

#[test]
fn poll_interval_is_half_a_second() {
    assert_eq!(POLL_INTERVAL_MS, 500);
}

#[test]
fn make_new_version_generates_valid_distinct_versions() {
    let t = Tag::new("model".to_string(), None).unwrap();
    let a = t.make_new_version();
    let b = t.make_new_version();
    assert_eq!(a.name().as_str(), "model");
    let va = a.version().clone().unwrap();
    let vb = b.version().clone().unwrap();
    // base32 of ten bytes, lowercased: sixteen symbols from a-z2-7
    assert_eq!(va.len(), 16);
    assert!(va.chars().all(|c| matches!(c, 'a'..='z' | '2'..='7')));
    assert!(vb.chars().all(|c| matches!(c, 'a'..='z' | '2'..='7')));
    assert_ne!(a, b);
    // distinct, but not necessarily in lexicographic order: the base32
    // alphabet (letters before digits) is not ASCII-ordered
    assert_ne!(va, vb);
    // a generated version always passes fragment validation
    assert!(bentoml_core::validate::validate_tag_str(&va).is_ok());
    assert!(bentoml_core::validate::validate_tag_str(&vb).is_ok());
}

#[test]
fn version_from_uuid_matches_encoder() {
    let mut id = [0u8; 16];
    for (i, b) in id.iter_mut().enumerate() {
        *b = (i as u8) * 17 + 3;
    }
    let mut kept = Vec::new();
    kept.extend_from_slice(&id[0..6]);
    kept.extend_from_slice(&id[8..12]);
    let expected = data_encoding::BASE32_NOPAD.encode(&kept).to_lowercase();
    assert_eq!(bentoml_core::version::version_from_uuid(&id), expected);
    assert_eq!(
        bentoml_core::version::version_from_uuid(&[0u8; 16]),
        "aaaaaaaaaaaaaaaa"
    );
}

#[test]
fn archive_name_and_level() {
    assert_eq!(bento_archive_name("model"), "model.bento");
    assert_eq!(ARCHIVE_COMPRESSION_LEVEL, 3);
}

#[test]
fn status_codes() {
    assert_eq!(BentoMLStatus::Okay.http_code(), 200);
    assert_eq!(BentoMLStatus::BadRequest.http_code(), 400);
    assert_eq!(BentoMLStatus::Unauthorized.http_code(), 401);
    assert_eq!(BentoMLStatus::Forbidden.http_code(), 403);
    assert_eq!(BentoMLStatus::NotFound.http_code(), 404);
    assert_eq!(BentoMLStatus::TooManyRequests.http_code(), 429);
    assert_eq!(BentoMLStatus::InternalServerError.http_code(), 500);
    assert_eq!(BentoMLStatus::ServiceUnavailable.http_code(), 503);
    assert_eq!(BentoMLStatus::Okay.grpc_status(), 0);
    assert_eq!(BentoMLStatus::BadRequest.grpc_status(), 3);
    assert_eq!(BentoMLStatus::Unauthorized.grpc_status(), 16);
    assert_eq!(BentoMLStatus::Forbidden.grpc_status(), 7);
    assert_eq!(BentoMLStatus::NotFound.grpc_status(), 5);
    assert_eq!(BentoMLStatus::TooManyRequests.grpc_status(), 8);
    assert_eq!(BentoMLStatus::InternalServerError.grpc_status(), 13);
    assert_eq!(BentoMLStatus::ServiceUnavailable.grpc_status(), 14);
}

#[test]
fn exception_carries_message_and_default_severity() {
    let e = BentoMLException::new("it broke".to_string());
    assert_eq!(e.get_message(), "it broke");
    assert_eq!(BentoMLException::error_code(), BentoMLStatus::InternalServerError);
}
