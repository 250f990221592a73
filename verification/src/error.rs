//! The control plane's error kinds and their mapping to the API error
//! envelope.

use vstd::prelude::*;

use crate::types::ErrorResponse;

verus! {

#[derive(Clone, Debug)]
pub enum ControlPlaneError {
    InvalidRequest(String),
    InstanceNotFound(String),
    CapabilityNotFound(String),
    PermissionDenied(String),
    StorageError(String),
    ValidationError(String),
    WasmRuntimeError(String),
    ResourceExhausted(String),
    Timeout(String),
    CrashDetected(String),
    RestartPolicyViolation(String),
}

impl ControlPlaneError {
    /// The wire-level error code of each kind.
    pub open spec fn spec_code(&self) -> Seq<char> {
        match self {
            ControlPlaneError::InvalidRequest(_) => "INVALID_REQUEST"@,
            ControlPlaneError::InstanceNotFound(_) => "INSTANCE_NOT_FOUND"@,
            ControlPlaneError::CapabilityNotFound(_) => "CAPABILITY_NOT_FOUND"@,
            ControlPlaneError::PermissionDenied(_) => "PERMISSION_DENIED"@,
            ControlPlaneError::StorageError(_) => "STORAGE_ERROR"@,
            ControlPlaneError::ValidationError(_) => "VALIDATION_ERROR"@,
            ControlPlaneError::WasmRuntimeError(_) => "WASM_RUNTIME_ERROR"@,
            ControlPlaneError::ResourceExhausted(_) => "RESOURCE_EXHAUSTED"@,
            ControlPlaneError::Timeout(_) => "TIMEOUT"@,
            ControlPlaneError::CrashDetected(_) => "CRASH_DETECTED"@,
            ControlPlaneError::RestartPolicyViolation(_) => "RESTART_POLICY_VIOLATION"@,
        }
    }

    /// The message the error carries.
    pub open spec fn spec_message(&self) -> Seq<char> {
        match self {
            ControlPlaneError::InvalidRequest(m) => m@,
            ControlPlaneError::InstanceNotFound(m) => m@,
            ControlPlaneError::CapabilityNotFound(m) => m@,
            ControlPlaneError::PermissionDenied(m) => m@,
            ControlPlaneError::StorageError(m) => m@,
            ControlPlaneError::ValidationError(m) => m@,
            ControlPlaneError::WasmRuntimeError(m) => m@,
            ControlPlaneError::ResourceExhausted(m) => m@,
            ControlPlaneError::Timeout(m) => m@,
            ControlPlaneError::CrashDetected(m) => m@,
            ControlPlaneError::RestartPolicyViolation(m) => m@,
        }
    }

    /// The human-readable rendering: a fixed prefix per kind, then the
    /// message.
    pub open spec fn spec_describe(&self) -> Seq<char> {
        match self {
            ControlPlaneError::InvalidRequest(m) => "Invalid request: "@ + m@,
            ControlPlaneError::InstanceNotFound(m) => "Instance not found: "@ + m@,
            ControlPlaneError::CapabilityNotFound(m) => "Capability not found: "@ + m@,
            ControlPlaneError::PermissionDenied(m) => "Permission denied: "@ + m@,
            ControlPlaneError::StorageError(m) => "Storage error: "@ + m@,
            ControlPlaneError::ValidationError(m) => "Validation error: "@ + m@,
            ControlPlaneError::WasmRuntimeError(m) => "Wasm runtime error: "@ + m@,
            ControlPlaneError::ResourceExhausted(m) => "Resource exhausted: "@ + m@,
            ControlPlaneError::Timeout(m) => "Timeout: "@ + m@,
            ControlPlaneError::CrashDetected(m) => "Instance crash detected: "@ + m@,
            ControlPlaneError::RestartPolicyViolation(m) => "Restart policy violation: "@ + m@,
        }
    }

    pub fn describe(&self) -> (r: String)
        ensures
            r@ == self.spec_describe(),
    {
        match self {
            ControlPlaneError::InvalidRequest(m) => {
                String::from_str("Invalid request: ").concat(m.as_str())
            },
            ControlPlaneError::InstanceNotFound(m) => {
                String::from_str("Instance not found: ").concat(m.as_str())
            },
            ControlPlaneError::CapabilityNotFound(m) => {
                String::from_str("Capability not found: ").concat(m.as_str())
            },
            ControlPlaneError::PermissionDenied(m) => {
                String::from_str("Permission denied: ").concat(m.as_str())
            },
            ControlPlaneError::StorageError(m) => {
                String::from_str("Storage error: ").concat(m.as_str())
            },
            ControlPlaneError::ValidationError(m) => {
                String::from_str("Validation error: ").concat(m.as_str())
            },
            ControlPlaneError::WasmRuntimeError(m) => {
                String::from_str("Wasm runtime error: ").concat(m.as_str())
            },
            ControlPlaneError::ResourceExhausted(m) => {
                String::from_str("Resource exhausted: ").concat(m.as_str())
            },
            ControlPlaneError::Timeout(m) => String::from_str("Timeout: ").concat(m.as_str()),
            ControlPlaneError::CrashDetected(m) => {
                String::from_str("Instance crash detected: ").concat(m.as_str())
            },
            ControlPlaneError::RestartPolicyViolation(m) => {
                String::from_str("Restart policy violation: ").concat(m.as_str())
            },
        }
    }

    /// Map the error to the API envelope, carrying its code and message.
    pub fn to_error_response(&self) -> (r: ErrorResponse)
        ensures
            r.error_code@ == self.spec_code(),
            r.message@ == self.spec_message(),
            r.details is None,
    {
        let (code, message): (&str, &String) = match self {
            ControlPlaneError::InvalidRequest(m) => ("INVALID_REQUEST", m),
            ControlPlaneError::InstanceNotFound(m) => ("INSTANCE_NOT_FOUND", m),
            ControlPlaneError::CapabilityNotFound(m) => ("CAPABILITY_NOT_FOUND", m),
            ControlPlaneError::PermissionDenied(m) => ("PERMISSION_DENIED", m),
            ControlPlaneError::StorageError(m) => ("STORAGE_ERROR", m),
            ControlPlaneError::ValidationError(m) => ("VALIDATION_ERROR", m),
            ControlPlaneError::WasmRuntimeError(m) => ("WASM_RUNTIME_ERROR", m),
            ControlPlaneError::ResourceExhausted(m) => ("RESOURCE_EXHAUSTED", m),
            ControlPlaneError::Timeout(m) => ("TIMEOUT", m),
            ControlPlaneError::CrashDetected(m) => ("CRASH_DETECTED", m),
            ControlPlaneError::RestartPolicyViolation(m) => ("RESTART_POLICY_VIOLATION", m),
        };
        ErrorResponse::new(code, message.as_str())
    }
}

pub type ControlPlaneResult<T> = Result<T, ControlPlaneError>;

} // verus!
