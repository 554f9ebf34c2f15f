use pam_daemon::answers::{Answer, StoreErrorKind};
use pam_daemon::models::{
    infer_refusal_failure, infer_start, infer_step, loaded_refusal, model_deadline,
    model_registered, model_runtime_result, model_service_failure, model_service_result,
    model_status_result, model_unregistered, model_verification, model_verify_truth,
    model_work_failure, models_dir_unresolved, models_verified, registered_record_failure,
    removal_refusal_failure, removal_start, removal_step, split_model_identity, verification_scope,
    weights_deleted, weights_refusal_failure, DeadlineRefusal, DeletedWeights, HealthProblem,
    InferAction, InferEvent, InferPhase, InferRefusal, ModelFinishReason, ModelServiceError,
    ModelSummary, ModelUsage, ModelVerification, ModelWork, RegistryRow, RemovalAction,
    RemovalEvent, RemovalKind, RemovalPhase, RemovalRefusal, RemovalTexts, RuntimeResponse,
    VerificationScope, WeightsRefusal,
};
use pam_daemon::protocol::{FailureCode, OperationTruth};

#[test]
fn identities_are_split_at_the_first_slash() {
    assert_eq!(
        split_model_identity("qwen/first/second"),
        Some(("qwen".to_owned(), "first/second".to_owned()))
    );
    assert_eq!(split_model_identity("/x"), Some((String::new(), "x".to_owned())));
    assert_eq!(split_model_identity("qwen"), None);
}

#[test]
fn deadlines_leave_some_time_and_not_too_much() {
    assert_eq!(model_deadline(None, 1_000), Ok(300_000));
    assert_eq!(model_deadline(Some(1_000), 1_000), Err(DeadlineRefusal::Elapsed));
    assert_eq!(model_deadline(Some(1_001), 1_000), Ok(1));
    assert_eq!(model_deadline(Some(601_000), 1_000), Ok(600_000));
    assert_eq!(model_deadline(Some(601_001), 1_000), Err(DeadlineRefusal::TooFar));
    assert_eq!(model_deadline(None, u64::MAX - 5), Ok(5));
    assert_eq!(model_deadline(None, u64::MAX), Err(DeadlineRefusal::Elapsed));
}

#[test]
fn inference_is_checked_bounded_and_audited() {
    assert_eq!(
        infer_start("qwen/a", Some("qwen/b"), None, 0),
        (InferPhase::Done, InferAction::Refuse(InferRefusal::NotLoaded))
    );
    assert_eq!(
        infer_start("qwen/a", None, None, 0),
        (InferPhase::Done, InferAction::Refuse(InferRefusal::NotLoaded))
    );
    let (phase, action) = infer_start("qwen/a", Some("qwen/a"), Some(50), 0);
    assert_eq!(action, InferAction::SetDeadline { remaining_ms: 50 });
    let (phase, action) = infer_step(phase, InferEvent::DeadlineSet(true));
    assert_eq!(action, InferAction::ConvertMessages);
    let (phase, action) = infer_step(phase, InferEvent::MessagesConverted(true));
    assert_eq!(action, InferAction::BuildRequest);
    let (phase, action) = infer_step(phase, InferEvent::RequestBuilt(true));
    assert_eq!(action, InferAction::Infer);
    let (phase, action) = infer_step(phase, InferEvent::Answered);
    assert_eq!(action, InferAction::Audit);
    assert_eq!(infer_step(phase, InferEvent::Audited).1, InferAction::Reply);
    assert_eq!(infer_step(phase, InferEvent::AuditFailed).1, InferAction::Fail);
}

#[test]
fn refused_inferences_say_why() {
    let failure = infer_refusal_failure(InferRefusal::NotLoaded, "qwen/a");
    assert_eq!(failure.code, FailureCode::NotFound);
    assert_eq!(
        failure.recovery.as_deref(),
        Some("restart PAM with `pam daemon --model qwen/a`")
    );
    for (refusal, code, message) in [
        (
            InferRefusal::Deadline(DeadlineRefusal::Elapsed),
            FailureCode::Cancelled,
            "model request deadline has elapsed",
        ),
        (
            InferRefusal::Deadline(DeadlineRefusal::TooFar),
            FailureCode::InvalidRequest,
            "model request deadline exceeds the 10 minute limit",
        ),
        (
            InferRefusal::Deadline(DeadlineRefusal::Unrepresentable),
            FailureCode::InvalidRequest,
            "model request deadline is invalid",
        ),
        (
            InferRefusal::MessagesInvalid,
            FailureCode::InvalidRequest,
            "model messages are invalid",
        ),
        (
            InferRefusal::RequestInvalid,
            FailureCode::InvalidRequest,
            "model request is invalid",
        ),
    ] {
        let failure = infer_refusal_failure(refusal, "qwen/a");
        assert_eq!(failure.code, code);
        assert_eq!(failure.message, message);
        assert_eq!(failure.recovery, None);
    }
}

#[test]
fn generations_are_answered_and_put_on_record() {
    let response = |text: &str| RuntimeResponse {
        text: text.to_owned(),
        finish_reason: ModelFinishReason::Length,
        usage: ModelUsage {
            input_tokens: 3,
            sampled_output_tokens: 5,
            emitted_output_tokens: 4,
        },
    };
    let concluded = model_runtime_result("qwen/a", response("hello"), true);
    assert_eq!(concluded.audit.purpose, "model-inference");
    assert_eq!(concluded.audit.action, "model.infer");
    assert_eq!(concluded.audit.decision, "execute");
    assert_eq!(concluded.audit.outcome, "observed");
    assert_eq!(
        concluded.audit.detail,
        "model=qwen/a finish=length input_tokens=3 sampled_output_tokens=5 emitted_output_tokens=4"
    );
    assert!(matches!(
        concluded.answer,
        Answer::Success { truth: OperationTruth::Observed, payload } if payload.text == "hello"
    ));
    let concluded = model_runtime_result("qwen/a", response("hello"), false);
    assert_eq!(concluded.audit.detail, "model=qwen/a outcome=invalid_result");
    assert!(matches!(
        concluded.answer,
        Answer::Failure(failure) if failure.message == "embedded model returned an invalid result"
    ));
    let concluded = model_service_result("qwen/a", ModelServiceError::Busy);
    assert_eq!(concluded.audit.detail, "model=qwen/a outcome=busy");
    assert_eq!(concluded.audit.outcome, "busy");
}

#[test]
fn service_errors_have_codes() {
    for (error, expected) in [
        (
            ModelServiceError::RuntimeBusy,
            (FailureCode::Busy, "the embedded model worker is busy", "busy"),
        ),
        (
            ModelServiceError::DeadlineExceeded,
            (FailureCode::Cancelled, "model request deadline elapsed", "deadline_exceeded"),
        ),
        (
            ModelServiceError::RuntimeCancelled,
            (FailureCode::Cancelled, "model inference was cancelled", "cancelled"),
        ),
        (
            ModelServiceError::RuntimeInvalidRequest,
            (FailureCode::InvalidRequest, "model request is invalid", "invalid_request"),
        ),
        (
            ModelServiceError::Unavailable,
            (FailureCode::Internal, "embedded model inference failed", "failed"),
        ),
    ] {
        assert_eq!(model_service_failure(error), expected);
    }
}

#[test]
fn weights_go_before_their_row() {
    let kind = RemovalKind::Weights;
    let (phase, action) = removal_start(kind, Some("qwen/a"), Some("qwen/b"));
    assert_eq!(action, RemovalAction::LoadRecord);
    let (phase, action) = removal_step(kind, phase, RemovalEvent::Record);
    assert_eq!(action, RemovalAction::ResolveModelsDirectory);
    let (phase, action) = removal_step(kind, phase, RemovalEvent::ModelsDirectory(true));
    assert_eq!(action, RemovalAction::DeleteWeights);
    assert_eq!(
        removal_step(kind, phase, RemovalEvent::WeightsKept(WeightsRefusal::Unsafe)).1,
        RemovalAction::Refuse(RemovalRefusal::Weights(WeightsRefusal::Unsafe))
    );
    let (phase, action) = removal_step(kind, phase, RemovalEvent::WeightsDeleted);
    assert_eq!(action, RemovalAction::DeleteRow);
    let (phase, action) = removal_step(kind, phase, RemovalEvent::RowDeleted);
    assert_eq!(action, RemovalAction::Audit);
    assert_eq!(
        removal_step(kind, phase, RemovalEvent::Audited),
        (RemovalPhase::Done, RemovalAction::Reply)
    );
}

#[test]
fn the_served_model_is_not_removed() {
    for kind in [RemovalKind::Registration, RemovalKind::Weights] {
        assert_eq!(
            removal_start(kind, Some("qwen/a"), Some("qwen/a")).1,
            RemovalAction::Refuse(RemovalRefusal::Loaded)
        );
        assert_eq!(
            removal_start(kind, None, None).1,
            RemovalAction::Refuse(RemovalRefusal::InvalidIdentity)
        );
    }
    assert_eq!(
        removal_start(RemovalKind::Registration, Some("qwen/a"), Some("qwen/b")).1,
        RemovalAction::DeleteRow
    );
    assert_eq!(
        loaded_refusal(RemovalKind::Registration, "qwen/a").recovery.as_deref(),
        Some("restart PAM without this model using `pam daemon`, then unregister qwen/a")
    );
    let failure = loaded_refusal(RemovalKind::Weights, "qwen/a");
    assert_eq!(failure.code, FailureCode::LeaseConflict);
    assert_eq!(
        failure.message,
        "the requested model is loaded in this daemon and its weights cannot be deleted"
    );
}

#[test]
fn refused_removals_say_why() {
    let texts = RemovalTexts {
        model: "qwen/a",
        path: "/m/a.gguf",
        models_dir: "/m",
        reason: "not PAM's to delete",
    };
    let refused = |refusal| removal_refusal_failure(RemovalKind::Weights, refusal, &texts);
    assert_eq!(
        refused(RemovalRefusal::InvalidIdentity).message,
        "model identity is not a valid registry identity"
    );
    assert_eq!(
        refused(RemovalRefusal::NotRegistered).message,
        "model qwen/a is not registered"
    );
    assert_eq!(
        refused(RemovalRefusal::ModelsDirectoryUnresolved).message,
        models_dir_unresolved().message
    );
    assert_eq!(
        refused(RemovalRefusal::Interrupted).message,
        "the weights deletion did not finish"
    );
    assert_eq!(
        refused(RemovalRefusal::Store(StoreErrorKind::Other)).code,
        FailureCode::Internal
    );
    let failure = weights_refusal_failure(
        WeightsRefusal::OutsideModelsDirectory,
        "outside",
        "qwen/a",
        "/x/a.gguf",
        "/m",
    );
    assert_eq!(failure.message, "outside at /x/a.gguf");
    assert_eq!(
        failure.recovery.as_deref(),
        Some("Move the file back under /m, or run `pam model unregister qwen/a --yes` and delete /x/a.gguf yourself.")
    );
    assert_eq!(
        refused(RemovalRefusal::Weights(WeightsRefusal::NotDownloadedByPam))
            .recovery
            .as_deref(),
        Some("Run `pam model unregister qwen/a --yes` to drop the registry entry, then delete /m/a.gguf yourself.")
    );
}

#[test]
fn registry_changes_are_put_on_record() {
    let row = || RegistryRow {
        model: "qwen/a".to_owned(),
        size_bytes: 9,
        digest: "sha256:00".to_owned(),
    };
    let removed = model_unregistered(row());
    assert_eq!(removed.audit.action, "model.unregister");
    assert_eq!(removed.audit.outcome, "unregistered");
    assert_eq!(
        removed.audit.detail,
        "model=qwen/a size_bytes=9 digest=sha256:00"
    );
    let registered = model_registered(row(), 77);
    assert_eq!(registered.audit.outcome, "registered");
    assert!(matches!(
        registered.answer,
        Answer::Success { payload, .. } if payload.registered_at_ms == 77
    ));
    let deleted = weights_deleted(DeletedWeights {
        model: "qwen/a".to_owned(),
        path: "/m/a".to_owned(),
        bytes_reclaimed: 12,
    });
    assert_eq!(
        deleted.audit.detail,
        "model=qwen/a path=/m/a bytes_reclaimed=12"
    );
}

fn verified(model: &str, problem: Option<HealthProblem>) -> ModelVerification {
    model_verification(model, "/m/a", 1, "local", problem, false)
}

#[test]
fn verification_claims_no_more_than_it_found() {
    let broken = || {
        Some(HealthProblem {
            label: "digest".to_owned(),
            text: "the digest changed".to_owned(),
        })
    };
    assert_eq!(model_verify_truth(&[]), OperationTruth::Observed);
    assert_eq!(
        model_verify_truth(&[verified("a", None)]),
        OperationTruth::Verified
    );
    assert_eq!(
        model_verify_truth(&[verified("a", None), verified("b", broken())]),
        OperationTruth::Unresolved
    );
    let concluded = models_verified(vec![verified("a", None), verified("b", broken())]);
    assert_eq!(concluded.audit.outcome, "unresolved");
    assert_eq!(concluded.audit.detail, "models=2 failed=1");
    assert_eq!(verified("b", broken()).health, "digest");
    assert_eq!(verified("a", None).detail, None);
    assert!(matches!(verification_scope(None, None), Ok(VerificationScope::All)));
    assert!(matches!(
        verification_scope(Some("qwen/a"), Some("qwen/a")),
        Ok(VerificationScope::One)
    ));
    assert!(verification_scope(Some("qwen"), None).is_err());
    assert_eq!(
        registered_record_failure(StoreErrorKind::ModelNotFound, "x", "qwen/a").code,
        FailureCode::NotFound
    );
    assert_eq!(
        registered_record_failure(StoreErrorKind::Other, "disk", "qwen/a").message,
        "disk"
    );
    assert_eq!(
        model_work_failure(ModelWork::Sweep).message,
        "the models directory sweep did not finish"
    );
}

#[test]
fn a_served_model_is_always_listed() {
    let summary = |id: &str| ModelSummary {
        model_id: id.to_owned(),
        size_bytes: 4,
    };
    let status = model_status_result(Some(summary("qwen/b")), vec![summary("qwen/a")], None);
    let ids: Vec<&str> = status.registered.iter().map(|it| it.model_id.as_str()).collect();
    assert_eq!(ids, ["qwen/a", "qwen/b"]);
    let status = model_status_result(
        Some(summary("qwen/a")),
        vec![summary("qwen/a")],
        Some("why".to_owned()),
    );
    assert_eq!(status.registered.len(), 1);
    assert_eq!(status.load_failure.as_deref(), Some("why"));
}
