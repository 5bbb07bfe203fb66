use kioku_api::error::ApiError;

#[test]
fn status_codes_follow_the_taxonomy() {
    assert_eq!(ApiError::NotFound.status_code(), 404);
    assert_eq!(ApiError::Conflict.status_code(), 409);
    assert_eq!(ApiError::Internal.status_code(), 500);
    assert_eq!(ApiError::Timeout.status_code(), 408);
}

#[test]
fn messages_describe_each_error() {
    assert_eq!(ApiError::NotFound.message(), "could not find the requested entity");
    assert_eq!(ApiError::Conflict.message(), "entity already exists");
    assert_eq!(ApiError::Internal.message(), "the store could not complete the operation");
    assert_eq!(ApiError::Timeout.message(), "the request timed out");
}
