use wasmatrix::error::{ControlPlaneError, ControlPlaneResult};
use wasmatrix::strmap::StrMap;
use wasmatrix::types::{CoreError, ErrorResponse};

#[test]
fn test_control_plane_error_creation() {
    let err = ControlPlaneError::InvalidRequest("test".to_string());
    assert!(err.describe().contains("Invalid request"));
}

#[test]
fn test_control_plane_error_instance_not_found() {
    let err = ControlPlaneError::InstanceNotFound("test-id".to_string());
    assert!(err.describe().contains("not found"));
}

#[test]
fn test_control_plane_error_permission_denied() {
    let err = ControlPlaneError::PermissionDenied("access denied".to_string());
    assert!(err.describe().contains("Permission denied"));
}

#[test]
fn test_control_plane_error_storage_error() {
    let err = ControlPlaneError::StorageError("database error".to_string());
    assert!(err.describe().contains("Storage error"));
}

#[test]
fn test_control_plane_error_validation_error() {
    let err = ControlPlaneError::ValidationError("invalid input".to_string());
    assert!(err.describe().contains("Validation error"));
}

#[test]
fn test_control_plane_result_type() {
    type TestResult = ControlPlaneResult<String>;
    let ok: TestResult = Ok("success".to_string());
    let err: TestResult = Err(ControlPlaneError::InvalidRequest("test".to_string()));

    assert!(ok.is_ok());
    assert!(err.is_err());
    assert_eq!(ok.unwrap(), "success");
    assert_eq!(err.unwrap_err().describe(), "Invalid request: test");
}

#[test]
fn test_control_plane_error_conversion_to_error_response() {
    let err = ControlPlaneError::InvalidRequest("test".to_string());
    let error_response: ErrorResponse = err.to_error_response();
    assert_eq!(error_response.error_code, "INVALID_REQUEST");
    assert_eq!(error_response.message, "test");
}

#[test]
fn test_control_plane_error_wasm_runtime() {
    let err = ControlPlaneError::WasmRuntimeError("Failed to compile".to_string());
    let error_response: ErrorResponse = err.to_error_response();
    assert_eq!(error_response.error_code, "WASM_RUNTIME_ERROR");
    assert_eq!(error_response.message, "Failed to compile");
}

#[test]
fn test_control_plane_error_resource_exhausted() {
    let err = ControlPlaneError::ResourceExhausted("Memory limit exceeded".to_string());
    let error_response: ErrorResponse = err.to_error_response();
    assert_eq!(error_response.error_code, "RESOURCE_EXHAUSTED");
    assert_eq!(error_response.message, "Memory limit exceeded");
}

#[test]
fn test_control_plane_error_timeout() {
    let err = ControlPlaneError::Timeout("Operation timed out".to_string());
    let error_response: ErrorResponse = err.to_error_response();
    assert_eq!(error_response.error_code, "TIMEOUT");
    assert_eq!(error_response.message, "Operation timed out");
}

#[test]
fn test_control_plane_error_crash_detected() {
    let err = ControlPlaneError::CrashDetected("Instance crashed".to_string());
    let error_response: ErrorResponse = err.to_error_response();
    assert_eq!(error_response.error_code, "CRASH_DETECTED");
    assert_eq!(error_response.message, "Instance crashed");
}

#[test]
fn test_control_plane_error_restart_policy_violation() {
    let err = ControlPlaneError::RestartPolicyViolation("Max retries exceeded".to_string());
    let error_response: ErrorResponse = err.to_error_response();
    assert_eq!(error_response.error_code, "RESTART_POLICY_VIOLATION");
    assert_eq!(error_response.message, "Max retries exceeded");
}

#[test]
fn test_error_response_creation() {
    let error = ErrorResponse::new("INVALID_REQUEST", "Invalid module format");
    assert_eq!(error.error_code, "INVALID_REQUEST");
    assert_eq!(error.message, "Invalid module format");
}

#[test]
fn lib_test_error_response_with_details() {
    let mut details: StrMap<String> = StrMap::new();
    details.insert("field".to_string(), "instance_id".to_string());
    let error = ErrorResponse::new("VALIDATION_ERROR", "Invalid input").with_details(details);
    assert_eq!(error.error_code, "VALIDATION_ERROR");
    assert!(error.details.is_some());
    assert_eq!(
        error.details.unwrap().get("field"),
        Some(&"instance_id".to_string())
    );
}

#[test]
fn test_core_error_wasm_runtime() {
    let error = CoreError::WasmRuntimeError("Failed to compile".to_string());
    assert!(error.describe().contains("Wasm runtime error"));
}

#[test]
fn test_core_error_resource_exhausted() {
    let error = CoreError::ResourceExhausted("Memory limit exceeded".to_string());
    assert!(error.describe().contains("Resource exhaustion"));
}

#[test]
fn test_core_error_timeout() {
    let error = CoreError::Timeout("Operation timed out".to_string());
    assert!(error.describe().contains("Timeout"));
}

#[test]
fn test_core_error_crash_detected() {
    let error = CoreError::CrashDetected("Instance terminated unexpectedly".to_string());
    assert!(error.describe().contains("Crash detected"));
}

#[test]
fn test_core_error_restart_policy_violation() {
    let error = CoreError::RestartPolicyViolation("Max retries exceeded".to_string());
    assert!(error.describe().contains("Restart policy violation"));
}

#[test]
fn core_error_describe_exact() {
    let error = CoreError::InvalidInstanceId("abc".to_string());
    assert_eq!(error.describe(), "Invalid instance ID: abc");
}
