use kiln_gateway::error::ApiError;
use kiln_gateway::lifecycle::AdmitConstraint;
use kiln_gateway::lifecycle::MemoryDenial;
use kiln_gateway::worker::FinishReason;
use kiln_gateway::worker::Finished;
use kiln_gateway::worker::RpcStatus;
use kiln_gateway::worker::WorkerErrorCode;

#[test]
fn body_shape_matches_openai() {
    let err = ApiError::model_not_found("m");
    let body = err.body();
    assert_eq!(body["error"]["type"], "invalid_request_error");
    assert_eq!(body["error"]["code"], "model_not_found");
    assert!(body["error"]["param"].is_null());
    assert_eq!(err.status, 404);
}

#[test]
fn anthropic_body_shape() {
    let err = ApiError::invalid_request("bad temperature".to_string());
    let body = err.anthropic_body();
    assert_eq!(body["type"], "error");
    assert_eq!(body["error"]["type"], "invalid_request_error");
    assert_eq!(body["error"]["message"], "bad temperature");

    assert_eq!(
        ApiError::invalid_api_key().anthropic_body()["error"]["type"],
        "authentication_error"
    );
    assert_eq!(
        ApiError::model_not_found("m").anthropic_body()["error"]["type"],
        "not_found_error"
    );
    assert_eq!(
        ApiError::model_loading("m").anthropic_body()["error"]["type"],
        "overloaded_error"
    );
    assert_eq!(
        ApiError::worker_crashed("x".to_string()).anthropic_body()["error"]["type"],
        "api_error"
    );
}

#[test]
fn outcomes() {
    assert_eq!(
        ApiError::invalid_request("x".to_string()).outcome(),
        "client_error"
    );
    assert_eq!(
        ApiError::worker_crashed("x".to_string()).outcome(),
        "worker_crashed"
    );
    assert_eq!(ApiError::model_loading("m").outcome(), "unavailable");
    assert_eq!(ApiError::internal("x".to_string()).outcome(), "worker_error");
}

#[test]
fn statuses_and_codes() {
    let denial = MemoryDenial {
        needed_bytes: 400,
        headroom_bytes: 100,
        constraint: AdmitConstraint::Budget,
    };
    for (e, status, code) in [
        (ApiError::invalid_request("m".to_string()), 400, "invalid_request"),
        (
            ApiError::context_length_exceeded("m".to_string()),
            400,
            "context_length_exceeded",
        ),
        (ApiError::invalid_api_key(), 401, "invalid_api_key"),
        (ApiError::admin_disabled(), 403, "admin_disabled"),
        (ApiError::not_found("m".to_string()), 404, "not_found"),
        (ApiError::conflict("busy", "m".to_string()), 409, "busy"),
        (ApiError::internal("m".to_string()), 500, "internal_error"),
        (ApiError::worker_crashed("m".to_string()), 502, "worker_crashed"),
        (ApiError::model_loading("m"), 503, "model_loading"),
        (ApiError::model_unloading("m"), 503, "model_unloading"),
        (ApiError::worker_failed("m"), 502, "worker_failed"),
        (ApiError::jobs_unavailable("m".to_string()), 503, "jobs_unavailable"),
        (ApiError::insufficient_memory("m", denial), 503, "insufficient_memory"),
    ] {
        assert_eq!(e.status, status, "{}", e.message);
        assert_eq!(e.code, code);
        assert_eq!(e.retry_after, None);
        assert!(e.message.contains('m') || e.status == 401 || e.status == 403);
    }
}

fn finished(error_code: WorkerErrorCode, detail: &str) -> Finished {
    Finished {
        finish_reason: FinishReason::Error,
        prompt_tokens: 0,
        completion_tokens: 0,
        error_code,
        error_detail: detail.to_string(),
        matched_stop: String::new(),
    }
}

#[test]
fn worker_errors_reach_the_client_by_kind() {
    let e = ApiError::from_worker_finished(&finished(WorkerErrorCode::CtxOverflow, "too long"));
    assert_eq!((e.status, e.code), (400, "context_length_exceeded"));
    let e = ApiError::from_worker_finished(&finished(WorkerErrorCode::InvalidRequest, "bad"));
    assert_eq!(e.status, 400);
    let e = ApiError::from_worker_finished(&finished(WorkerErrorCode::Internal, "boom"));
    assert_eq!(e.status, 500);
    assert!(e.message.contains("boom"), "{}", e.message);

    let e = ApiError::from_worker_status(&RpcStatus {
        code: 3,
        message: "bad grammar".to_string(),
    });
    assert_eq!(e.status, 400);
    let e = ApiError::from_worker_status(&RpcStatus {
        code: 14,
        message: "gone".to_string(),
    });
    assert_eq!(e.status, 502);
    let e = ApiError::from_worker_status(&RpcStatus {
        code: 13,
        message: "oops".to_string(),
    });
    assert_eq!(e.message, "worker RPC failed: Internal error");
}

fn rpc_failure(code: i32) -> String {
    ApiError::from_worker_status(&RpcStatus {
        code,
        message: "detail".to_string(),
    })
    .message
}

#[test]
fn rpc_codes_are_described() {
    for (code, words) in [
        (0, "The operation completed successfully"),
        (1, "The operation was cancelled"),
        (2, "Unknown error"),
        (4, "Deadline expired before operation could complete"),
        (5, "Some requested entity was not found"),
        (6, "Some entity that we attempted to create already exists"),
        (
            7,
            "The caller does not have permission to execute the specified operation",
        ),
        (8, "Some resource has been exhausted"),
        (
            9,
            "The system is not in a state required for the operation's execution",
        ),
        (10, "The operation was aborted"),
        (11, "Operation was attempted past the valid range"),
        (12, "Operation is not implemented or not supported"),
        (13, "Internal error"),
        (15, "Unrecoverable data loss or corruption"),
        (
            16,
            "The request does not have valid authentication credentials",
        ),
        (17, "Unknown error"),
        (-1, "Unknown error"),
    ] {
        assert_eq!(rpc_failure(code), format!("worker RPC failed: {words}"));
    }
}
