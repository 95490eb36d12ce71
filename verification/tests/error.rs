use music_backend::error::{no_such_route, ApiError, ApiErrorCode, Status};

fn s(t: &str) -> String {
    t.to_string()
}

#[test]
fn every_error_has_its_status() {
    let errors = vec![
        (ApiError::bad_request(s("m")), ApiErrorCode::BadRequest, 400, None),
        (ApiError::not_found(s("m")), ApiErrorCode::NotFound, 404, None),
        (ApiError::conflict(s("m")), ApiErrorCode::Conflict, 409, None),
        (ApiError::payload_too_large(s("m")), ApiErrorCode::PayloadTooLarge, 413, None),
        (ApiError::virus_scan_unavailable(s("m")), ApiErrorCode::VirusScanUnavailable, 503, None),
        (ApiError::virus_detected(s("m"), s("d")), ApiErrorCode::VirusDetected, 422, Some(s("d"))),
        (ApiError::internal(s("m"), s("d")), ApiErrorCode::Internal, 500, Some(s("d"))),
    ];
    for (error, code, number, details) in errors {
        let reply = error.into_response();
        assert_eq!(reply.status.number(), number);
        assert_eq!(reply.body.code, code);
        assert_eq!(reply.body.message, "m");
        assert_eq!(reply.body.details, details);
    }
}

#[test]
fn success_statuses() {
    assert_eq!(Status::Success.number(), 200);
    assert_eq!(Status::Created.number(), 201);
}

#[test]
fn unknown_routes_are_not_found() {
    let reply = no_such_route();
    assert_eq!(reply.status, Status::NotFound);
    assert_eq!(reply.body.code, ApiErrorCode::NotFound);
    assert_eq!(reply.body.message, "not found");
    assert_eq!(reply.body.details, None);
}
